//! Serving one connection, step by step.
//!
//! A connection does no I/O itself. It is told what happened (the timeouts
//! were set, a read returned, the handler answered) and says what to do next.
//! Whoever owns the socket carries out the actions and reports the events.

use vstd::prelude::*;
use crate::dict::as_map;
use crate::error::Fail;
use crate::text::{chars_of, lines_of};
use crate::http::server::error::HttpError;
use crate::http::server::reader::{
    BodyOutcome, BodyProgress, BodyReader, BodyState, HeaderOutcome, HeaderProgress, HeaderReader,
    HeaderState, ReadRequest,
};
use crate::http::server::request::{
    body_length, declared_length, headers_of, parse_headers, request_of, HttpRequest, RequestView,
};
use crate::http::server::settings::HttpSettings;

verus! {

/// What happened on the connection.
pub enum Event {
    /// The timeouts were set (`true`), or could not be set.
    TimeoutsSet(bool),
    /// The stream was wrapped in a TLS session (`true`), or the wrapping
    /// failed.
    Wrapped(bool),
    /// A read returned these bytes, or failed (`None`).
    Read(Option<Vec<u8>>),
    /// The handler returned a response, or failed.
    Handled(Result<Vec<u8>, Fail>),
    /// The error handler returned a response.
    Rendered(Vec<u8>),
    /// The response was written (`true`), or the write failed.
    Written(bool),
}

/// What is to be done next on the connection.
pub enum Action {
    /// Set the read and the write timeout, in seconds.
    SetTimeouts(Option<u64>, Option<u64>),
    /// Wrap the stream in a TLS session.
    WrapTls,
    /// Make this read.
    Read(ReadRequest),
    /// Hand the request to the handler.
    Handle(HttpRequest),
    /// Hand the error to the error handler.
    RenderError(Fail),
    /// Write the response and flush.
    Write(Vec<u8>),
    /// Close the connection.
    Close,
}

/// An event as mathematical values.
pub enum EventView {
    TimeoutsSet(bool),
    Wrapped(bool),
    Read(Option<Seq<u8>>),
    Handled(Result<Seq<u8>, Seq<char>>),
    Rendered(Seq<u8>),
    Written(bool),
}

/// An action as mathematical values.
pub enum ActionView {
    SetTimeouts(Option<u64>, Option<u64>),
    WrapTls,
    Read(ReadRequest),
    Handle(RequestView),
    RenderError(Seq<char>),
    Write(Seq<u8>),
    Close,
}

/// How far a connection has come.
pub enum PhaseView {
    /// The socket was accepted; its timeouts are being set.
    Accepted,
    /// The timeouts are set; the stream is being wrapped in TLS.
    TimeoutsSet,
    /// The stream is wrapped in TLS; the header is being read.
    TlsWrapped(HeaderState),
    /// The stream stays plain; the header is being read.
    Plain(HeaderState),
    /// The header was read; the body is being read.
    HeaderRead(Seq<char>, BodyState),
    /// The body was read; the handler has the request.
    BodyRead,
    /// Something failed; the error handler has the error.
    Failed,
    /// There is a response; it is being written.
    Handled,
    /// The write has returned; the connection is being closed.
    ResponseSent,
    /// The connection is closed.
    Closed,
}

/// A connection as mathematical values.
pub struct ConnView {
    pub settings: HttpSettings,
    /// Whether the connection is to be wrapped in TLS.
    pub tls: bool,
    /// The peer's address.
    pub address: Seq<char>,
    /// Whether the peer's address is a loopback address.
    pub loopback: bool,
    pub phase: PhaseView,
}

impl ConnView {
    /// The same connection in another phase.
    pub open spec fn to(self, phase: PhaseView) -> ConnView {
        ConnView { phase, ..self }
    }

    /// The error exit: the error goes to the error handler.
    pub open spec fn fail(self, e: HttpError) -> (ConnView, ActionView) {
        (self.to(PhaseView::Failed), ActionView::RenderError(e.text()))
    }

    /// The connection is closed without anything being sent.
    pub open spec fn close(self) -> (ConnView, ActionView) {
        (self.to(PhaseView::Closed), ActionView::Close)
    }

    /// The phase in which the header is read, on a stream that is wrapped
    /// in TLS or on a plain one.
    pub open spec fn reading(wrapped: bool, reader: HeaderState) -> PhaseView {
        if wrapped {
            PhaseView::TlsWrapped(reader)
        } else {
            PhaseView::Plain(reader)
        }
    }

    /// The transport is ready: the header is read from the start.
    pub open spec fn open(self, wrapped: bool) -> (ConnView, ActionView) {
        (
            self.to(Self::reading(wrapped, HeaderState::initial(self.settings))),
            ActionView::Read(ReadRequest::UpTo(self.settings.header_buffer)),
        )
    }

    /// What a header reader's answer leads to.
    pub open spec fn on_header(self, wrapped: bool, outcome: HeaderOutcome) -> (
        ConnView,
        ActionView,
    ) {
        match outcome {
            HeaderOutcome::Next(next, req) => (
                self.to(Self::reading(wrapped, next)),
                ActionView::Read(req),
            ),
            HeaderOutcome::Done(header, rest) => self.after_header(header, rest),
            HeaderOutcome::Failed(e) => self.fail(e),
        }
    }

    /// The body is complete: the request is parsed and goes to the handler.
    pub open spec fn after_body(self, header: Seq<char>, body: Seq<u8>) -> (ConnView, ActionView) {
        match request_of(header, body, self.address, self.loopback, self.settings.max_body_size) {
            Ok(request) => (self.to(PhaseView::BodyRead), ActionView::Handle(request)),
            Err(e) => self.fail(e),
        }
    }

    /// What a body reader's answer leads to.
    pub open spec fn on_body(self, header: Seq<char>, outcome: BodyOutcome) -> (
        ConnView,
        ActionView,
    ) {
        match outcome {
            BodyOutcome::Next(next, req) => (
                self.to(PhaseView::HeaderRead(header, next)),
                ActionView::Read(req),
            ),
            BodyOutcome::Done(body) => self.after_body(header, body),
            BodyOutcome::Failed(e) => self.fail(e),
        }
    }

    /// The header is complete: its declared length decides how the body is
    /// read.
    pub open spec fn after_header(self, header: Seq<char>, rest: Seq<u8>) -> (
        ConnView,
        ActionView,
    ) {
        match declared_length(as_map(headers_of(header)), self.settings.max_body_size) {
            Err(e) => self.fail(e),
            Ok(Some(n)) => self.on_body(
                header,
                BodyState::start(self.settings, rest, Some(n as usize)),
            ),
            Ok(None) => self.on_body(header, BodyState::start(self.settings, rest, None)),
        }
    }

    /// The next phase and the action that an event leads to.
    ///
    /// Every failure after the timeouts were set goes to the error handler,
    /// whose answer is sent, but for a failed TLS handshake, after which the
    /// connection is closed at once. Once the write of a response has
    /// returned, the response counts as sent and the connection is closed.
    /// An event that the phase does not wait for closes the connection too.
    pub open spec fn step(self, event: EventView) -> (ConnView, ActionView) {
        match self.phase {
            PhaseView::Accepted => match event {
                EventView::TimeoutsSet(true) => if self.tls {
                    (self.to(PhaseView::TimeoutsSet), ActionView::WrapTls)
                } else {
                    self.open(false)
                },
                _ => self.close(),
            },
            PhaseView::TimeoutsSet => match event {
                EventView::Wrapped(true) => self.open(true),
                _ => self.close(),
            },
            PhaseView::TlsWrapped(reader) => match event {
                EventView::Read(data) => self.on_header(true, reader.step(data)),
                _ => self.close(),
            },
            PhaseView::Plain(reader) => match event {
                EventView::Read(data) => self.on_header(false, reader.step(data)),
                _ => self.close(),
            },
            PhaseView::HeaderRead(header, reader) => match event {
                EventView::Read(data) => self.on_body(header, reader.step(data)),
                _ => self.close(),
            },
            PhaseView::BodyRead => match event {
                EventView::Handled(Ok(response)) => (
                    self.to(PhaseView::Handled),
                    ActionView::Write(response),
                ),
                EventView::Handled(Err(message)) => (
                    self.to(PhaseView::Failed),
                    ActionView::RenderError(message),
                ),
                _ => self.close(),
            },
            PhaseView::Failed => match event {
                EventView::Rendered(response) => (
                    self.to(PhaseView::Handled),
                    ActionView::Write(response),
                ),
                _ => self.close(),
            },
            PhaseView::Handled => match event {
                EventView::Written(_) => (self.to(PhaseView::ResponseSent), ActionView::Close),
                _ => self.close(),
            },
            PhaseView::ResponseSent => self.close(),
            PhaseView::Closed => self.close(),
        }
    }
}

/// A closed connection stays closed.
pub proof fn law_closed_is_terminal(c: ConnView, event: EventView)
    requires
        c.phase is Closed,
    ensures
        c.step(event) == (c, ActionView::Close),
{
}

/// After a failed TLS handshake the connection is closed and nothing is
/// sent or read on it.
pub proof fn law_failed_handshake_sends_nothing(c: ConnView)
    requires
        c.phase is TimeoutsSet,
    ensures
        c.step(EventView::Wrapped(false)).0.phase is Closed,
        c.step(EventView::Wrapped(false)).1 is Close,
{
}

/// Nothing is written but what the handler or the error handler returned,
/// and nothing more is done on the connection once the write has returned
/// but to close it.
pub proof fn law_only_handlers_write(c: ConnView, event: EventView)
    ensures
        match c.step(event).1 {
            ActionView::Write(response) => {
                &&& c.step(event).0.phase is Handled
                &&& (c.phase is BodyRead && event == EventView::Handled(
                    Ok::<Seq<u8>, Seq<char>>(response),
                )) || (c.phase is Failed && event == EventView::Rendered(response))
            },
            _ => true,
        },
        c.phase is Handled ==> c.step(event).1 is Close && (c.step(event).0.phase is ResponseSent
            || c.step(event).0.phase is Closed),
        c.phase is ResponseSent ==> c.step(event) == (c.to(PhaseView::Closed), ActionView::Close),
{
}

/// While a request is read, every failure is handed to the error handler,
/// whose answer is then written.
pub proof fn law_failures_are_answered(c: ConnView, data: Option<Seq<u8>>, response: Seq<u8>)
    requires
        c.phase is TlsWrapped || c.phase is Plain || c.phase is HeaderRead,
    ensures
        match c.step(EventView::Read(data)).1 {
            ActionView::Read(_) => c.step(EventView::Read(data)).0.phase is TlsWrapped || c.step(
                EventView::Read(data),
            ).0.phase is Plain || c.step(EventView::Read(data)).0.phase is HeaderRead,
            ActionView::Handle(_) => c.step(EventView::Read(data)).0.phase is BodyRead,
            ActionView::RenderError(_) => c.step(EventView::Read(data)).0.phase is Failed
                && c.step(EventView::Read(data)).0.step(EventView::Rendered(response)).1
                == ActionView::Write(response),
            _ => false,
        },
{
}

impl Event {
    /// This event as mathematical values.
    pub open spec fn view(self) -> EventView {
        match self {
            Event::TimeoutsSet(ok) => EventView::TimeoutsSet(ok),
            Event::Wrapped(ok) => EventView::Wrapped(ok),
            Event::Read(Some(bytes)) => EventView::Read(Some(bytes@)),
            Event::Read(None) => EventView::Read(None),
            Event::Handled(Ok(response)) => EventView::Handled(Ok(response@)),
            Event::Handled(Err(fail)) => EventView::Handled(Err(fail.0@)),
            Event::Rendered(response) => EventView::Rendered(response@),
            Event::Written(ok) => EventView::Written(ok),
        }
    }
}

impl Action {
    /// This action as mathematical values.
    pub open spec fn view(self) -> ActionView {
        match self {
            Action::SetTimeouts(read, write) => ActionView::SetTimeouts(read, write),
            Action::WrapTls => ActionView::WrapTls,
            Action::Read(req) => ActionView::Read(req),
            Action::Handle(request) => ActionView::Handle(request@),
            Action::RenderError(fail) => ActionView::RenderError(fail.0@),
            Action::Write(response) => ActionView::Write(response@),
            Action::Close => ActionView::Close,
        }
    }
}

enum Phase {
    Accepted,
    TimeoutsSet,
    TlsWrapped(HeaderReader),
    Plain(HeaderReader),
    HeaderRead(String, BodyReader),
    BodyRead,
    Failed,
    Handled,
    ResponseSent,
    Closed,
}

impl Phase {
    spec fn view(self) -> PhaseView {
        match self {
            Phase::Accepted => PhaseView::Accepted,
            Phase::TimeoutsSet => PhaseView::TimeoutsSet,
            Phase::TlsWrapped(reader) => PhaseView::TlsWrapped(reader@),
            Phase::Plain(reader) => PhaseView::Plain(reader@),
            Phase::HeaderRead(header, reader) => PhaseView::HeaderRead(header@, reader@),
            Phase::BodyRead => PhaseView::BodyRead,
            Phase::Failed => PhaseView::Failed,
            Phase::Handled => PhaseView::Handled,
            Phase::ResponseSent => PhaseView::ResponseSent,
            Phase::Closed => PhaseView::Closed,
        }
    }
}

/// One accepted connection, which serves one request.
pub struct Connection {
    settings: HttpSettings,
    tls: bool,
    address: String,
    loopback: bool,
    phase: Phase,
}

impl View for Connection {
    type V = ConnView;

    closed spec fn view(&self) -> ConnView {
        ConnView {
            settings: self.settings,
            tls: self.tls,
            address: self.address@,
            loopback: self.loopback,
            phase: self.phase.view(),
        }
    }
}

impl Connection {
    /// A connection that was just accepted from the peer at `address`, and
    /// the first thing to do on it: to set the timeouts.
    pub fn accepted(http_settings: &HttpSettings, tls: bool, address: &str, loopback: bool) -> (r: (
        Connection,
        Action,
    ))
        ensures
            r.0@ == (ConnView {
                settings: *http_settings,
                tls,
                address: address@,
                loopback,
                phase: PhaseView::Accepted,
            }),
            r.1@ == ActionView::SetTimeouts(
                http_settings.read_timeout,
                http_settings.write_timeout,
            ),
    {
        (
            Connection {
                settings: *http_settings,
                tls,
                address: address.to_owned(),
                loopback,
                phase: Phase::Accepted,
            },
            Action::SetTimeouts(http_settings.read_timeout, http_settings.write_timeout),
        )
    }

    /// Whether the connection is closed.
    pub fn is_closed(&self) -> (r: bool)
        ensures
            r == (self@.phase is Closed),
    {
        match self.phase {
            Phase::Closed => true,
            _ => false,
        }
    }

    /// Whether a response was sent on the connection.
    pub fn is_sent(&self) -> (r: bool)
        ensures
            r == (self@.phase is ResponseSent),
    {
        match self.phase {
            Phase::ResponseSent => true,
            _ => false,
        }
    }

    fn to(self, phase: Phase) -> (r: Connection)
        ensures
            r@ == self@.to(phase.view()),
    {
        Connection {
            settings: self.settings,
            tls: self.tls,
            address: self.address,
            loopback: self.loopback,
            phase,
        }
    }

    fn fail(self, e: HttpError) -> (r: (Connection, Action))
        ensures
            (r.0@, r.1@) == self@.fail(e),
    {
        (self.to(Phase::Failed), Action::RenderError(Fail(e.message().to_owned())))
    }

    fn close(self) -> (r: (Connection, Action))
        ensures
            (r.0@, r.1@) == self@.close(),
    {
        (self.to(Phase::Closed), Action::Close)
    }

    fn reading(wrapped: bool, reader: HeaderReader) -> (r: Phase)
        ensures
            r.view() == ConnView::reading(wrapped, reader@),
    {
        if wrapped {
            Phase::TlsWrapped(reader)
        } else {
            Phase::Plain(reader)
        }
    }

    fn open(self, wrapped: bool) -> (r: (Connection, Action))
        ensures
            (r.0@, r.1@) == self@.open(wrapped),
    {
        let reader = HeaderReader::new(&self.settings);
        let buffer = self.settings.header_buffer;
        (self.to(Self::reading(wrapped, reader)), Action::Read(ReadRequest::UpTo(buffer)))
    }

    fn on_header(self, wrapped: bool, progress: HeaderProgress) -> (r: (Connection, Action))
        ensures
            (r.0@, r.1@) == self@.on_header(wrapped, progress.outcome()),
    {
        match progress {
            HeaderProgress::Next(next, req) => (
                self.to(Self::reading(wrapped, next)),
                Action::Read(req),
            ),
            HeaderProgress::Done { header, rest } => self.after_header(header, rest),
            HeaderProgress::Failed(e) => self.fail(e),
        }
    }

    fn after_body(self, header: String, body: Vec<u8>) -> (r: (Connection, Action))
        ensures
            (r.0@, r.1@) == self@.after_body(header@, body@),
    {
        match HttpRequest::from(
            header.as_str(),
            body,
            self.address.as_str(),
            self.loopback,
            &self.settings,
        ) {
            Ok(request) => (self.to(Phase::BodyRead), Action::Handle(request)),
            Err(e) => self.fail(e),
        }
    }

    fn on_body(self, header: String, progress: BodyProgress) -> (r: (Connection, Action))
        ensures
            (r.0@, r.1@) == self@.on_body(header@, progress.outcome()),
    {
        match progress {
            BodyProgress::Next(next, req) => (
                self.to(Phase::HeaderRead(header, next)),
                Action::Read(req),
            ),
            BodyProgress::Done(body) => self.after_body(header, body),
            BodyProgress::Failed(e) => self.fail(e),
        }
    }

    fn after_header(self, header: String, rest: Vec<u8>) -> (r: (Connection, Action))
        ensures
            (r.0@, r.1@) == self@.after_header(header@, rest@),
    {
        let chars = chars_of(header.as_str());
        let header_lines = lines_of(chars.as_slice());
        let headers = parse_headers(&header_lines);
        match body_length(&headers, &self.settings) {
            Err(e) => self.fail(e),
            Ok(wanted) => {
                let progress = BodyReader::start(&self.settings, rest, wanted);
                self.on_body(header, progress)
            },
        }
    }

    /// A step in the phase `Accepted`.
    fn when_accepted(self, event: Event) -> (r: (Connection, Action))
        requires
            self@.phase is Accepted,
        ensures
            (r.0@, r.1@) == self@.step(event.view()),
    {
        match event {
            Event::TimeoutsSet(true) => {
                if self.tls {
                    (self.to(Phase::TimeoutsSet), Action::WrapTls)
                } else {
                    self.open(false)
                }
            },
            _ => self.close(),
        }
    }

    /// A step in the phase `TimeoutsSet`.
    fn when_timeouts_set(self, event: Event) -> (r: (Connection, Action))
        requires
            self@.phase is TimeoutsSet,
        ensures
            (r.0@, r.1@) == self@.step(event.view()),
    {
        match event {
            Event::Wrapped(true) => self.open(true),
            _ => self.close(),
        }
    }

    /// A step while the header is read.
    fn when_reading(self, wrapped: bool, reader: HeaderReader, event: Event) -> (r: (
        Connection,
        Action,
    ))
        ensures
            (r.0@, r.1@) == self@.to(ConnView::reading(wrapped, reader@)).step(event.view()),
    {
        match event {
            Event::Read(data) => {
                let progress = match &data {
                    Some(bytes) => reader.feed(Some(bytes.as_slice())),
                    None => reader.feed(None),
                };
                self.on_header(wrapped, progress)
            },
            _ => self.close(),
        }
    }

    /// A step while the body is read.
    fn when_header_read(self, header: String, reader: BodyReader, event: Event) -> (r: (
        Connection,
        Action,
    ))
        ensures
            (r.0@, r.1@) == self@.to(PhaseView::HeaderRead(header@, reader@)).step(event.view()),
    {
        match event {
            Event::Read(data) => {
                let progress = match &data {
                    Some(bytes) => reader.feed(Some(bytes.as_slice())),
                    None => reader.feed(None),
                };
                self.on_body(header, progress)
            },
            _ => self.close(),
        }
    }

    /// A step once the handlers are at work or done.
    fn when_answering(self, event: Event) -> (r: (Connection, Action))
        requires
            self@.phase is BodyRead || self@.phase is Failed || self@.phase is Handled
                || self@.phase is ResponseSent || self@.phase is Closed,
        ensures
            (r.0@, r.1@) == self@.step(event.view()),
    {
        match self.phase {
            Phase::BodyRead => match event {
                Event::Handled(Ok(response)) => (self.to(Phase::Handled), Action::Write(response)),
                Event::Handled(Err(fail)) => (self.to(Phase::Failed), Action::RenderError(fail)),
                _ => self.close(),
            },
            Phase::Failed => match event {
                Event::Rendered(response) => (self.to(Phase::Handled), Action::Write(response)),
                _ => self.close(),
            },
            Phase::Handled => match event {
                Event::Written(_) => (self.to(Phase::ResponseSent), Action::Close),
                _ => self.close(),
            },
            _ => self.close(),
        }
    }

    /// Takes an event and says what to do next.
    pub fn step(self, event: Event) -> (r: (Connection, Action))
        ensures
            (r.0@, r.1@) == self@.step(event.view()),
    {
        let ghost before = self@;
        let Connection { settings, tls, address, loopback, phase } = self;
        match phase {
            Phase::Accepted => {
                let c = Connection { settings, tls, address, loopback, phase: Phase::Accepted };
                assert(c@ == before);
                c.when_accepted(event)
            },
            Phase::TimeoutsSet => {
                let c = Connection { settings, tls, address, loopback, phase: Phase::TimeoutsSet };
                assert(c@ == before);
                c.when_timeouts_set(event)
            },
            Phase::TlsWrapped(reader) => {
                let c = Connection { settings, tls, address, loopback, phase: Phase::Closed };
                assert(c@.to(ConnView::reading(true, reader@)) == before);
                c.when_reading(true, reader, event)
            },
            Phase::Plain(reader) => {
                let c = Connection { settings, tls, address, loopback, phase: Phase::Closed };
                assert(c@.to(ConnView::reading(false, reader@)) == before);
                c.when_reading(false, reader, event)
            },
            Phase::HeaderRead(header, reader) => {
                let c = Connection { settings, tls, address, loopback, phase: Phase::Closed };
                assert(c@.to(PhaseView::HeaderRead(header@, reader@)) == before);
                c.when_header_read(header, reader, event)
            },
            Phase::BodyRead => {
                let c = Connection { settings, tls, address, loopback, phase: Phase::BodyRead };
                assert(c@ == before);
                c.when_answering(event)
            },
            Phase::Failed => {
                let c = Connection { settings, tls, address, loopback, phase: Phase::Failed };
                assert(c@ == before);
                c.when_answering(event)
            },
            Phase::Handled => {
                let c = Connection { settings, tls, address, loopback, phase: Phase::Handled };
                assert(c@ == before);
                c.when_answering(event)
            },
            Phase::ResponseSent => {
                let c = Connection { settings, tls, address, loopback, phase: Phase::ResponseSent };
                assert(c@ == before);
                c.when_answering(event)
            },
            Phase::Closed => {
                let c = Connection { settings, tls, address, loopback, phase: Phase::Closed };
                assert(c@ == before);
                c.when_answering(event)
            },
        }
    }
}

} // verus!
