use kern::http::server::dispatch::{joined, on_accept, worker_plan, Dispatch};
use kern::http::server::{
    default_error_handler, respond, Action, Connection, Event, HttpError, HttpMethod,
    HttpServerBuilder, HttpSettings, HttpThreads, ReadRequest,
};
use kern::Fail;

fn plain() -> Connection {
    let settings = HttpSettings::new(1);
    let (conn, action) = Connection::accepted(&settings, false, "192.0.2.1", false);
    assert!(matches!(action, Action::SetTimeouts(Some(10), Some(10))));
    let (conn, action) = conn.step(Event::TimeoutsSet(true));
    assert!(matches!(action, Action::Read(ReadRequest::UpTo(8192))));
    conn
}

#[test]
fn request_without_body() {
    let conn = plain();
    let (conn, action) = conn.step(Event::Read(Some(
        b"GET /x?a=1 HTTP/1.1\r\nHost: h\r\n\r\n".to_vec(),
    )));
    let request = match action {
        Action::Handle(request) => request,
        _ => panic!("the request did not reach the handler"),
    };
    assert_eq!(request.method(), &HttpMethod::Get);
    assert_eq!(request.url(), "/x");
    assert_eq!(request.get().get("a").unwrap(), "1");
    assert_eq!(request.ip(), "192.0.2.1");
    let response = respond(b"ok", "text/plain", None);
    let (conn, action) = conn.step(Event::Handled(Ok(response.clone())));
    match action {
        Action::Write(bytes) => assert_eq!(bytes, response),
        _ => panic!("the response was not written"),
    }
    assert!(!conn.is_closed());
    let (conn, action) = conn.step(Event::Written(true));
    assert!(matches!(action, Action::Close));
    assert!(conn.is_sent());
    assert!(!conn.is_closed());
    let (conn, action) = conn.step(Event::Read(Some(Vec::new())));
    assert!(matches!(action, Action::Close));
    assert!(conn.is_closed());
    let (conn, action) = conn.step(Event::Read(Some(Vec::new())));
    assert!(matches!(action, Action::Close));
    assert!(conn.is_closed());
}

#[test]
fn request_with_body_in_two_reads() {
    let settings = HttpSettings::new(1).body_buffer(4);
    let (conn, _) = Connection::accepted(&settings, false, "192.0.2.1", false);
    let (conn, _) = conn.step(Event::TimeoutsSet(true));
    let (conn, action) = conn.step(Event::Read(Some(
        b"POST / HTTP/1.1\r\nContent-Length: 7\r\n\r\nk=v".to_vec(),
    )));
    assert!(matches!(action, Action::Read(ReadRequest::UpTo(4))));
    let (_, action) = conn.step(Event::Read(Some(b"alue".to_vec())));
    match action {
        Action::Handle(request) => {
            assert_eq!(request.method(), &HttpMethod::Post);
            assert_eq!(request.body(), b"k=value");
            assert_eq!(request.post().get("k").unwrap(), b"value");
        }
        _ => panic!("the request did not reach the handler"),
    }
}

#[test]
fn tls_is_wrapped_before_reading() {
    let settings = HttpSettings::new(1);
    let (conn, _) = Connection::accepted(&settings, true, "192.0.2.1", false);
    let (conn, action) = conn.step(Event::TimeoutsSet(true));
    assert!(matches!(action, Action::WrapTls));
    let (_, action) = conn.step(Event::Wrapped(true));
    assert!(matches!(action, Action::Read(ReadRequest::UpTo(8192))));
}

#[test]
fn failed_handshake_closes_without_response() {
    let settings = HttpSettings::new(1);
    let (conn, _) = Connection::accepted(&settings, true, "192.0.2.1", false);
    let (conn, _) = conn.step(Event::TimeoutsSet(true));
    let (conn, action) = conn.step(Event::Wrapped(false));
    assert!(matches!(action, Action::Close));
    assert!(conn.is_closed());
}

#[test]
fn failed_timeouts_close() {
    let settings = HttpSettings::new(1);
    let (conn, _) = Connection::accepted(&settings, false, "192.0.2.1", false);
    let (conn, action) = conn.step(Event::TimeoutsSet(false));
    assert!(matches!(action, Action::Close));
    assert!(conn.is_closed());
}

#[test]
fn request_errors_go_to_the_error_handler() {
    let (conn, action) = plain().step(Event::Read(Some(
        b"POST / HTTP/1.1\r\nContent-Length: x\r\n\r\n".to_vec(),
    )));
    let fail = match action {
        Action::RenderError(fail) => fail,
        _ => panic!("the error was not handed on"),
    };
    assert_eq!(fail.err_msg(), HttpError::BadContentLength.message());
    let page = default_error_handler(Box::new(fail));
    let (conn, action) = conn.step(Event::Rendered(page.clone()));
    match action {
        Action::Write(bytes) => assert_eq!(bytes, page),
        _ => panic!("the error page was not written"),
    }
    let (conn, action) = conn.step(Event::Written(false));
    assert!(matches!(action, Action::Close));
    assert!(conn.is_sent());
}

#[test]
fn broken_stream_is_answered() {
    let (_, action) = plain().step(Event::Read(None));
    match action {
        Action::RenderError(fail) => assert_eq!(fail.err_msg(), "Stream broken"),
        _ => panic!("the error was not handed on"),
    }
}

#[test]
fn handler_failure_goes_to_the_error_handler() {
    let (conn, _) = plain().step(Event::Read(Some(b"GET / HTTP/1.1\r\n\r\n".to_vec())));
    let (conn, action) = conn.step(Event::Handled(Err(Fail("no such file".to_string()))));
    match action {
        Action::RenderError(fail) => assert_eq!(fail.err_msg(), "no such file"),
        _ => panic!("the error was not handed on"),
    }
    let (_, action) = conn.step(Event::Rendered(b"page".to_vec()));
    assert!(matches!(action, Action::Write(_)));
}

#[test]
fn unexpected_event_closes() {
    let (conn, action) = plain().step(Event::Handled(Ok(Vec::new())));
    assert!(matches!(action, Action::Close));
    assert!(conn.is_closed());
}

#[test]
fn default_error_page() {
    let page = default_error_handler(Fail::new("went wrong"));
    assert_eq!(
        String::from_utf8(page).unwrap(),
        "HTTP/1.1 500 Internal Server Error\r\nserver: ltheinrich.de/kern\r\ncontent-type: text/plain; charset=utf-8\r\ncontent-length: 12\r\n\r\nwent wrong\r\n"
    );
}

#[test]
fn error_messages() {
    assert_eq!(HttpError::HeaderTooLarge.message(), "Max header size exceeded");
    assert_eq!(
        HttpError::HeaderReadFailedTooOften.message(),
        "Read header failed too often"
    );
    assert_eq!(HttpError::BodyTooLarge.message(), "Max body size exceeded");
    assert_eq!(
        HttpError::BodyReadFailedTooOften.message(),
        "Read body failed too often"
    );
    assert_eq!(HttpError::MissingBoundary.message(), "post upload, but no boundary");
    assert_eq!(HttpError::WorkerCrashed.message(), "listener thread crashed");
}

#[test]
fn dispatch_by_mode() {
    assert_eq!(on_accept(HttpThreads::CONSTANT(4)), Dispatch::Inline);
    assert_eq!(on_accept(HttpThreads::SPAWN(4)), Dispatch::Spawn);
    let plan = worker_plan(HttpThreads::CONSTANT(4));
    assert_eq!((plan.loops, plan.dispatch, plan.restart), (4, Dispatch::Inline, true));
    let plan = worker_plan(HttpThreads::SPAWN(2));
    assert_eq!((plan.loops, plan.dispatch, plan.restart), (2, Dispatch::Spawn, false));
    assert_eq!(joined(true), Ok(()));
    assert_eq!(joined(false), Err(HttpError::WorkerCrashed));
}

#[test]
fn settings_defaults_and_setters() {
    let s = HttpSettings::new(8);
    assert_eq!(s.max_header_size, 8192);
    assert_eq!(s.max_body_size, 10_485_760);
    assert_eq!(s.header_buffer, 8192);
    assert_eq!(s.body_buffer, 8192);
    assert_eq!(s.header_read_attempts, 3);
    assert_eq!(s.body_read_attempts, 3);
    assert_eq!(s.read_timeout, Some(10));
    assert_eq!(s.write_timeout, Some(10));
    assert_eq!(s.threads, HttpThreads::CONSTANT(8));
    assert!(s.is_valid());
    assert_eq!(HttpSettings::new(0).threads, HttpThreads::CONSTANT(1));
    let s = s
        .max_header_size(1)
        .max_body_size(2)
        .header_buffer(3)
        .body_buffer(4)
        .header_read_attempts(5)
        .body_read_attempts(6)
        .read_timeout(None)
        .write_timeout(Some(7))
        .threads(HttpThreads::SPAWN(9))
        .threads_num(10);
    assert_eq!(
        (s.max_header_size, s.max_body_size, s.header_buffer, s.body_buffer),
        (1, 2, 3, 4)
    );
    assert_eq!((s.header_read_attempts, s.body_read_attempts), (5, 6));
    assert_eq!((s.read_timeout, s.write_timeout), (None, Some(7)));
    assert_eq!(s.threads, HttpThreads::SPAWN(10));
    assert_eq!(s.threads_num(2).threads(HttpThreads::CONSTANT(1)).threads_num(3).threads, HttpThreads::CONSTANT(3));
    assert!(!s.header_buffer(0).is_valid());
}

#[test]
fn builder_defaults() {
    let builder = HttpServerBuilder::new(2);
    assert_eq!(builder.address(), "localhost:8080");
    assert!(builder.tls_config().is_none());
    assert_eq!(builder.http_settings().threads, HttpThreads::CONSTANT(2));
    let builder = builder
        .addr("[::]:8443")
        .settings(HttpSettings::new(1).threads(HttpThreads::SPAWN(3)))
        .tls_off();
    assert_eq!(builder.address(), "[::]:8443");
    let plan = builder.build();
    assert_eq!((plan.loops, plan.dispatch, plan.restart), (3, Dispatch::Spawn, false));
}
