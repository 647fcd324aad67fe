//! Reading the header and the body from a stream, one read at a time.
//!
//! The readers do no I/O. Each is a state that is fed what a read returned
//! and answers with the read to make next, with the finished result, or with
//! the failure.

use vstd::prelude::*;
use vstd::slice::{slice_subrange, slice_to_vec};
use vstd::utf8::{decode_utf8, valid_utf8};
use crate::byte::scan;
use crate::seqs::{find, first_match_at, matches_at, lemma_find_is_first};
use crate::text::utf8_text;
use crate::http::server::error::HttpError;
use crate::http::server::settings::HttpSettings;

verus! {

/// The four bytes `\r\n\r\n` that end a header.
pub open spec fn terminator() -> Seq<u8> {
    seq![13u8, 10u8, 13u8, 10u8]
}

/// A read that a reader asks for.
#[derive(Clone, Copy, Debug, PartialEq, Eq, Structural)]
pub enum ReadRequest {
    /// One read of at most this many bytes.
    UpTo(usize),
    /// Reads until exactly this many bytes have come.
    Exactly(usize),
}

/// The state of a header reader, as mathematical values.
pub struct HeaderState {
    /// The limit on the header's size.
    pub max: usize,
    /// The size of a chunk.
    pub buffer: usize,
    /// How many short chunks are tolerated.
    pub attempts: usize,
    /// All bytes read so far.
    pub taken: Seq<u8>,
    /// The short chunks counted so far.
    pub stalls: nat,
    /// Whether the chunk that is being looked through came back short.
    pub short: bool,
    /// The number of bytes that an exact read was asked for; zero while a
    /// chunk is awaited.
    pub pending: nat,
}

/// What feeding a header reader leads to.
pub enum HeaderOutcome {
    /// More is needed: the next state and the read to make.
    Next(HeaderState, ReadRequest),
    /// The header text and the bytes read after it.
    Done(Seq<char>, Seq<u8>),
    /// The failure.
    Failed(HttpError),
}

/// The first carriage return among the last three bytes: a possible start of
/// the terminator whose end has not been read yet.
pub open spec fn open_candidate(taken: Seq<u8>) -> Option<int> {
    let n = taken.len() as int;
    if n >= 3 && taken[n - 3] == 13u8 {
        Some(n - 3)
    } else if n >= 2 && taken[n - 2] == 13u8 {
        Some(n - 2)
    } else if n >= 1 && taken[n - 1] == 13u8 {
        Some(n - 1)
    } else {
        None
    }
}

impl HeaderState {
    /// The state before anything was read.
    pub open spec fn initial(settings: HttpSettings) -> HeaderState {
        HeaderState {
            max: settings.max_header_size,
            buffer: settings.header_buffer,
            attempts: settings.header_read_attempts,
            taken: Seq::empty(),
            stalls: 0,
            short: false,
            pending: 0,
        }
    }

    /// What holds of every state that a reader gets into.
    pub open spec fn wf(self) -> bool {
        &&& self.stalls <= self.attempts
        &&& self.taken.len() + self.pending <= self.max
        &&& self.pending <= 3
    }

    /// What follows when a read returns `data`, or fails (`None`).
    ///
    /// A failed read, or an exact read of another length than asked for, is
    /// a broken stream. A chunk that takes the bytes read past the limit is
    /// refused. Where the terminator occurs in what was read, the header ends
    /// with its first occurrence, and must be UTF-8. Otherwise a carriage
    /// return among the last three bytes asks for exactly the bytes that are
    /// missing after it, unless they lie past the limit. Otherwise the chunk
    /// is done with: it counts as a stall where it came back short, and the
    /// next chunk is asked for while the stalls are within the budget.
    pub open spec fn step(self, data: Option<Seq<u8>>) -> HeaderOutcome {
        match data {
            None => HeaderOutcome::Failed(HttpError::StreamBroken),
            Some(bytes) => {
                if self.pending > 0 && bytes.len() != self.pending {
                    HeaderOutcome::Failed(HttpError::StreamBroken)
                } else if self.pending == 0 && self.taken.len() + bytes.len() > self.max {
                    HeaderOutcome::Failed(HttpError::HeaderTooLarge)
                } else {
                    let short = if self.pending == 0 {
                        bytes.len() < self.buffer
                    } else {
                        self.short
                    };
                    let taken = self.taken + bytes;
                    match find(taken, terminator()) {
                        Some(i) => if valid_utf8(taken.take(i + 4)) {
                            HeaderOutcome::Done(decode_utf8(taken.take(i + 4)), taken.skip(i + 4))
                        } else {
                            HeaderOutcome::Failed(HttpError::InvalidEncoding)
                        },
                        None => match open_candidate(taken) {
                            Some(i) => if i + 4 > self.max {
                                HeaderOutcome::Failed(HttpError::HeaderTooLarge)
                            } else {
                                HeaderOutcome::Next(
                                    HeaderState {
                                        taken,
                                        short,
                                        pending: (i + 4 - taken.len()) as nat,
                                        ..self
                                    },
                                    ReadRequest::Exactly((i + 4 - taken.len()) as usize),
                                )
                            },
                            None => if short && self.stalls + 1 > self.attempts {
                                HeaderOutcome::Failed(HttpError::HeaderReadFailedTooOften)
                            } else {
                                HeaderOutcome::Next(
                                    HeaderState {
                                        taken,
                                        short: false,
                                        pending: 0,
                                        stalls: if short {
                                            self.stalls + 1
                                        } else {
                                            self.stalls
                                        },
                                        ..self
                                    },
                                    ReadRequest::UpTo(self.buffer),
                                )
                            },
                        },
                    }
                }
            },
        }
    }

    /// Whether `data` is a full answer to the read that this state waits
    /// for: a whole chunk, or the exact number of bytes asked for.
    pub open spec fn answered_in_full(self, data: Option<Seq<u8>>) -> bool {
        match data {
            Some(bytes) => if self.pending > 0 {
                bytes.len() == self.pending
            } else {
                bytes.len() == self.buffer
            },
            None => false,
        }
    }
}

/// How a reader ends after a list of reads: the outcome of the first read
/// that finishes it, or the state it waits in.
pub open spec fn header_run(s: HeaderState, reads: Seq<Option<Seq<u8>>>) -> HeaderOutcome
    decreases reads.len(),
{
    if reads.len() == 0 {
        HeaderOutcome::Next(s, if s.pending > 0 {
            ReadRequest::Exactly(s.pending as usize)
        } else {
            ReadRequest::UpTo(s.buffer)
        })
    } else {
        match s.step(reads[0]) {
            HeaderOutcome::Next(next, _) => header_run(next, reads.skip(1)),
            other => other,
        }
    }
}

/// Every read of the list answers in full the request that the reader made
/// before it, as long as the reader goes on.
pub open spec fn all_in_full(s: HeaderState, reads: Seq<Option<Seq<u8>>>) -> bool
    decreases reads.len(),
{
    if reads.len() == 0 {
        true
    } else {
        s.answered_in_full(reads[0]) && match s.step(reads[0]) {
            HeaderOutcome::Next(next, _) => all_in_full(next, reads.skip(1)),
            _ => true,
        }
    }
}

/// The bytes that a list of reads delivers.
pub open spec fn delivered(reads: Seq<Option<Seq<u8>>>) -> Seq<u8>
    decreases reads.len(),
{
    if reads.len() == 0 {
        Seq::empty()
    } else {
        (match reads[0] {
            Some(bytes) => bytes,
            None => Seq::empty(),
        }) + delivered(reads.skip(1))
    }
}

/// The terminator ends within the first `max` bytes of `stream`.
pub open spec fn terminator_within(stream: Seq<u8>, max: int) -> bool {
    exists|i: int| #[trigger] matches_at(stream, terminator(), i) && i + 4 <= max
}

/// An occurrence in a sequence is an occurrence in every extension of it.
pub proof fn lemma_matches_extend(data: Seq<u8>, more: Seq<u8>, pat: Seq<u8>, i: int)
    requires
        matches_at(data, pat, i),
    ensures
        matches_at(data + more, pat, i),
{
    assert((data + more).subrange(i, i + pat.len()) =~= data.subrange(i, i + pat.len()));
}

/// A step keeps a state well-formed and adds what was read to what was
/// taken. Where it finds the terminator, that is its first occurrence in all
/// that was read, it ends within the limit, the header is what stands up to
/// its end, and the rest is what stands after it.
pub proof fn lemma_step(s: HeaderState, data: Option<Seq<u8>>)
    requires
        s.wf(),
    ensures
        match s.step(data) {
            HeaderOutcome::Next(next, req) => {
                &&& next.wf()
                &&& data is Some
                &&& next.taken == s.taken + data->Some_0
                &&& next.max == s.max && next.buffer == s.buffer && next.attempts == s.attempts
                &&& find(next.taken, terminator()) is None
                &&& req == (if next.pending > 0 {
                    ReadRequest::Exactly(next.pending as usize)
                } else {
                    ReadRequest::UpTo(next.buffer)
                })
            },
            HeaderOutcome::Done(header, rest) => {
                &&& data is Some
                &&& exists|i: int|
                    {
                        &&& #[trigger] first_match_at(s.taken + data->Some_0, terminator(), i)
                        &&& i + 4 <= s.max
                        &&& valid_utf8((s.taken + data->Some_0).take(i + 4))
                        &&& header == decode_utf8((s.taken + data->Some_0).take(i + 4))
                        &&& rest == (s.taken + data->Some_0).skip(i + 4)
                    }
            },
            HeaderOutcome::Failed(e) => {
                &&& e == HttpError::InvalidEncoding ==> data is Some && terminator_within(
                    s.taken + data->Some_0,
                    s.max as int,
                )
                &&& e == HttpError::StreamBroken ==> !s.answered_in_full(data)
                &&& e == HttpError::HeaderReadFailedTooOften ==> s.short || (s.pending == 0
                    && data is Some && data->Some_0.len() < s.buffer)
            },
        },
{
    match data {
        None => {},
        Some(bytes) => {
            let taken = s.taken + bytes;
            lemma_find_is_first(taken, terminator());
            if !(s.pending > 0 && bytes.len() != s.pending) && !(s.pending == 0 && s.taken.len()
                + bytes.len() > s.max) {
                match find(taken, terminator()) {
                    Some(i) => {
                        assert(first_match_at(taken, terminator(), i));
                        assert(matches_at(taken, terminator(), i));
                    },
                    None => {},
                }
            }
        },
    }
}

/// A header is given out only where the terminator ends within the first
/// `max_header_size` bytes of the stream: whatever the reads deliver, a
/// stream without it there never yields a header.
pub proof fn law_no_header_without_terminator(s: HeaderState, reads: Seq<Option<Seq<u8>>>)
    requires
        s.wf(),
        !terminator_within(s.taken + delivered(reads), s.max as int),
    ensures
        !(header_run(s, reads) is Done),
        header_run(s, reads) != HeaderOutcome::Failed(HttpError::InvalidEncoding),
    decreases reads.len(),
{
    if reads.len() > 0 {
        lemma_step(s, reads[0]);
        let first = match reads[0] {
            Some(bytes) => bytes,
            None => Seq::empty(),
        };
        let whole = s.taken + delivered(reads);
        assert(whole =~= (s.taken + first) + delivered(reads.skip(1)));
        match s.step(reads[0]) {
            HeaderOutcome::Next(next, _) => {
                law_no_header_without_terminator(next, reads.skip(1));
            },
            HeaderOutcome::Done(header, rest) => {
                let i = choose|i: int|
                    {
                        &&& #[trigger] first_match_at(s.taken + first, terminator(), i)
                        &&& i + 4 <= s.max
                    };
                lemma_matches_extend(s.taken + first, delivered(reads.skip(1)), terminator(), i);
                assert(matches_at(whole, terminator(), i));
            },
            HeaderOutcome::Failed(e) => {
                if e == HttpError::InvalidEncoding {
                    let i = choose|i: int| #[trigger]
                        matches_at(s.taken + first, terminator(), i) && i + 4 <= s.max;
                    lemma_matches_extend(
                        s.taken + first,
                        delivered(reads.skip(1)),
                        terminator(),
                        i,
                    );
                    assert(matches_at(whole, terminator(), i));
                }
            },
        }
    }
}

/// For any stream whose bytes never contain the terminator within
/// `max_header_size`, reading fails with `HeaderTooLarge`: where every read
/// is answered in full and the reads deliver more bytes than the limit has
/// left, that is how the reader ends.
pub proof fn law_endless_header_too_large(s: HeaderState, reads: Seq<Option<Seq<u8>>>)
    requires
        s.wf(),
        !s.short,
        all_in_full(s, reads),
        !terminator_within(s.taken + delivered(reads), s.max as int),
        s.taken.len() + delivered(reads).len() > s.max,
    ensures
        header_run(s, reads) == HeaderOutcome::Failed(HttpError::HeaderTooLarge),
    decreases reads.len(),
{
    if reads.len() == 0 {
        assert(delivered(reads).len() == 0);
    }
    assert(reads.len() > 0);
    lemma_step(s, reads[0]);
    law_no_header_without_terminator(s, reads);
    let first = reads[0]->Some_0;
    assert((s.taken + delivered(reads)) =~= (s.taken + first) + delivered(reads.skip(1)));
    match s.step(reads[0]) {
        HeaderOutcome::Next(next, _) => {
            law_endless_header_too_large(next, reads.skip(1));
        },
        HeaderOutcome::Done(header, rest) => {},
        HeaderOutcome::Failed(e) => {},
    }
}

/// The same of a reader that starts with the given settings: where the
/// stream never holds the terminator within `max_header_size`, every read is
/// answered in full, and the reads deliver more bytes than `max_header_size`,
/// the header reader fails with `HeaderTooLarge`.
pub proof fn law_header_reader_too_large(settings: HttpSettings, reads: Seq<Option<Seq<u8>>>)
    requires
        all_in_full(HeaderState::initial(settings), reads),
        !terminator_within(delivered(reads), settings.max_header_size as int),
        delivered(reads).len() > settings.max_header_size,
    ensures
        header_run(HeaderState::initial(settings), reads) == HeaderOutcome::Failed(
            HttpError::HeaderTooLarge,
        ),
{
    let start = HeaderState::initial(settings);
    assert(start.taken + delivered(reads) =~= delivered(reads));
    law_endless_header_too_large(start, reads);
}

/// The first carriage return among the last three bytes.
fn open_candidate_of(taken: &[u8]) -> (r: Option<usize>)
    ensures
        match r {
            Some(i) => open_candidate(taken@) == Some(i as int) && i < taken.len() && taken.len()
                - i <= 3,
            None => open_candidate(taken@) is None,
        },
{
    let n = taken.len();
    if n >= 3 && taken[n - 3] == 13u8 {
        Some(n - 3)
    } else if n >= 2 && taken[n - 2] == 13u8 {
        Some(n - 2)
    } else if n >= 1 && taken[n - 1] == 13u8 {
        Some(n - 1)
    } else {
        None
    }
}

/// Reads a header: all bytes up to and including the first `\r\n\r\n`.
pub struct HeaderReader {
    max: usize,
    buffer: usize,
    attempts: usize,
    taken: Vec<u8>,
    stalls: usize,
    short: bool,
    pending: usize,
}

/// What feeding a header reader leads to.
pub enum HeaderProgress {
    /// More is needed: the reader to feed next, and the read to make.
    Next(HeaderReader, ReadRequest),
    /// The header is complete.
    Done {
        /// The header text, with the terminator.
        header: String,
        /// The bytes that were read after the header.
        rest: Vec<u8>,
    },
    /// Reading failed.
    Failed(HttpError),
}

impl View for HeaderReader {
    type V = HeaderState;

    closed spec fn view(&self) -> HeaderState {
        HeaderState {
            max: self.max,
            buffer: self.buffer,
            attempts: self.attempts,
            taken: self.taken@,
            stalls: self.stalls as nat,
            short: self.short,
            pending: self.pending as nat,
        }
    }
}

impl HeaderProgress {
    /// This result as mathematical values.
    pub open spec fn outcome(self) -> HeaderOutcome {
        match self {
            HeaderProgress::Next(reader, req) => HeaderOutcome::Next(reader@, req),
            HeaderProgress::Done { header, rest } => HeaderOutcome::Done(header@, rest@),
            HeaderProgress::Failed(e) => HeaderOutcome::Failed(e),
        }
    }
}

impl HeaderReader {
    #[verifier::type_invariant]
    spec fn inv(self) -> bool {
        self@.wf()
    }

    /// A reader that has read nothing yet.
    pub fn new(http_settings: &HttpSettings) -> (r: Self)
        ensures
            r@ == HeaderState::initial(*http_settings),
            r@.wf(),
    {
        HeaderReader {
            max: http_settings.max_header_size,
            buffer: http_settings.header_buffer,
            attempts: http_settings.header_read_attempts,
            taken: Vec::new(),
            stalls: 0,
            short: false,
            pending: 0,
        }
    }

    /// The read that this reader waits for.
    pub fn request(&self) -> (r: ReadRequest)
        ensures
            self@.wf(),
            r == (if self@.pending > 0 {
                ReadRequest::Exactly(self@.pending as usize)
            } else {
                ReadRequest::UpTo(self@.buffer)
            }),
    {
        proof {
            use_type_invariant(self);
        }
        if self.pending > 0 {
            ReadRequest::Exactly(self.pending)
        } else {
            ReadRequest::UpTo(self.buffer)
        }
    }

    /// Takes what the read returned: the bytes, or `None` where it failed.
    pub fn feed(self, data: Option<&[u8]>) -> (r: HeaderProgress)
        ensures
            r.outcome() == self@.step(
                match data {
                    Some(bytes) => Some(bytes@),
                    None => None,
                },
            ),
    {
        proof {
            use_type_invariant(&self);
        }
        let bytes = match data {
            None => {
                return HeaderProgress::Failed(HttpError::StreamBroken);
            },
            Some(bytes) => bytes,
        };
        if self.pending > 0 {
            if bytes.len() != self.pending {
                return HeaderProgress::Failed(HttpError::StreamBroken);
            }
        } else if bytes.len() > self.max - self.taken.len() {
            return HeaderProgress::Failed(HttpError::HeaderTooLarge);
        }
        let short = if self.pending == 0 {
            bytes.len() < self.buffer
        } else {
            self.short
        };
        let ghost before = self@;
        let ghost fed = Some(bytes@);
        let max = self.max;
        let buffer = self.buffer;
        let attempts = self.attempts;
        let stalls = self.stalls;
        let mut taken = self.taken;
        taken.extend_from_slice(bytes);
        assert(taken@ == before.taken + bytes@);
        let mark: Vec<u8> = vec![13u8, 10u8, 13u8, 10u8];
        assert(mark@ =~= terminator());
        match scan(taken.as_slice(), mark.as_slice()) {
            Some(i) => {
                proof {
                    lemma_find_is_first(taken@, terminator());
                }
                let head = slice_subrange(taken.as_slice(), 0, i + 4);
                assert(head@ =~= taken@.take(i + 4));
                let rest = slice_to_vec(slice_subrange(taken.as_slice(), i + 4, taken.len()));
                assert(rest@ =~= taken@.skip(i + 4));
                match utf8_text(head) {
                    Some(header) => {
                        let r = HeaderProgress::Done { header, rest };
                        assert(r.outcome() == before.step(fed));
                        r
                    },
                    None => {
                        let r = HeaderProgress::Failed(HttpError::InvalidEncoding);
                        assert(r.outcome() == before.step(fed));
                        r
                    },
                }
            },
            None => {
                match open_candidate_of(taken.as_slice()) {
                    Some(i) => {
                        let missing: usize = 4 - (taken.len() - i);
                        if missing > max - taken.len() {
                            let r = HeaderProgress::Failed(HttpError::HeaderTooLarge);
                            assert(r.outcome() == before.step(fed));
                            r
                        } else {
                            let r = HeaderProgress::Next(
                                HeaderReader {
                                    max,
                                    buffer,
                                    attempts,
                                    taken,
                                    stalls,
                                    short,
                                    pending: missing,
                                },
                                ReadRequest::Exactly(missing),
                            );
                            assert(r.outcome() == before.step(fed));
                            r
                        }
                    },
                    None => {
                        if short && stalls >= attempts {
                            let r = HeaderProgress::Failed(HttpError::HeaderReadFailedTooOften);
                            assert(r.outcome() == before.step(fed));
                            r
                        } else {
                            let stalls = if short {
                                stalls + 1
                            } else {
                                stalls
                            };
                            let r = HeaderProgress::Next(
                                HeaderReader {
                                    max,
                                    buffer,
                                    attempts,
                                    taken,
                                    stalls,
                                    short: false,
                                    pending: 0,
                                },
                                ReadRequest::UpTo(buffer),
                            );
                            assert(r.outcome() == before.step(fed));
                            r
                        }
                    },
                }
            },
        }
    }
}

/// A list of reads as mathematical values.
pub open spec fn reads_view(reads: Seq<Option<Vec<u8>>>) -> Seq<Option<Seq<u8>>> {
    reads.map_values(
        |read: Option<Vec<u8>>|
            match read {
                Some(bytes) => Some(bytes@),
                None => None,
            },
    )
}

/// Reads a header from a list of reads, each the bytes that a read returned
/// or `None` for a failed one. The reads are fed to a new reader in order
/// until it is done; where they do not suffice, the reader that waits for
/// the next one is returned.
pub fn read_header(http_settings: &HttpSettings, reads: &Vec<Option<Vec<u8>>>) -> (r:
    HeaderProgress)
    ensures
        r.outcome() == header_run(HeaderState::initial(*http_settings), reads_view(reads@)),
{
    let ghost all = reads_view(reads@);
    let mut reader = HeaderReader::new(http_settings);
    let mut i: usize = 0;
    assert(all.skip(0) =~= all);
    while i < reads.len()
        invariant
            i <= reads.len(),
            all == reads_view(reads@),
            header_run(reader@, all.skip(i as int)) == header_run(
                HeaderState::initial(*http_settings),
                all,
            ),
        decreases reads.len() - i,
    {
        proof {
            assert(all.skip(i as int)[0] == all[i as int]);
            assert(all.skip(i as int).skip(1) =~= all.skip(i + 1));
        }
        let progress = match &reads[i] {
            Some(bytes) => reader.feed(Some(bytes.as_slice())),
            None => reader.feed(None),
        };
        match progress {
            HeaderProgress::Next(next, _) => {
                reader = next;
            },
            HeaderProgress::Done { header, rest } => {
                return HeaderProgress::Done { header, rest };
            },
            HeaderProgress::Failed(e) => {
                return HeaderProgress::Failed(e);
            },
        }
        i += 1;
    }
    let request = reader.request();
    HeaderProgress::Next(reader, request)
}

/// The state of a body reader, as mathematical values.
pub struct BodyState {
    /// The size of a chunk.
    pub buffer: usize,
    /// How many short chunks are tolerated.
    pub attempts: usize,
    /// The declared length of the body.
    pub wanted: usize,
    /// The bytes of the body read so far.
    pub taken: Seq<u8>,
    /// The short chunks counted so far.
    pub stalls: nat,
}

/// What feeding a body reader leads to.
pub enum BodyOutcome {
    /// More is needed: the next state and the read to make.
    Next(BodyState, ReadRequest),
    /// The body.
    Done(Seq<u8>),
    /// The failure.
    Failed(HttpError),
}

impl BodyState {
    /// How reading a body begins. Without a declared length there is no
    /// body, whatever was read after the header. With one, the bytes read
    /// after the header are the body's beginning, and the whole body where
    /// they reach the declared length.
    pub open spec fn start(settings: HttpSettings, leftover: Seq<u8>, wanted: Option<usize>) -> BodyOutcome {
        match wanted {
            None => BodyOutcome::Done(Seq::empty()),
            Some(n) => if leftover.len() >= n {
                BodyOutcome::Done(leftover)
            } else {
                BodyOutcome::Next(
                    BodyState {
                        buffer: settings.body_buffer,
                        attempts: settings.body_read_attempts,
                        wanted: n,
                        taken: leftover,
                        stalls: 0,
                    },
                    ReadRequest::UpTo(settings.body_buffer),
                )
            },
        }
    }

    /// What holds of every state that a reader gets into.
    pub open spec fn wf(self) -> bool {
        &&& self.stalls <= self.attempts
        &&& self.taken.len() < self.wanted
    }

    /// What follows when a read returns `data`, or fails (`None`). A failed
    /// read is a broken stream. A chunk that came back short counts as a
    /// stall, and one stall more than the budget allows ends the reading.
    /// Otherwise the chunk is added to the body, which is complete once it
    /// has reached the declared length.
    pub open spec fn step(self, data: Option<Seq<u8>>) -> BodyOutcome {
        match data {
            None => BodyOutcome::Failed(HttpError::StreamBroken),
            Some(bytes) => {
                let short = bytes.len() < self.buffer;
                if short && self.stalls + 1 > self.attempts {
                    BodyOutcome::Failed(HttpError::BodyReadFailedTooOften)
                } else if self.taken.len() + bytes.len() >= self.wanted {
                    BodyOutcome::Done(self.taken + bytes)
                } else {
                    BodyOutcome::Next(
                        BodyState {
                            taken: self.taken + bytes,
                            stalls: if short {
                                self.stalls + 1
                            } else {
                                self.stalls
                            },
                            ..self
                        },
                        ReadRequest::UpTo(self.buffer),
                    )
                }
            },
        }
    }
}

/// How a body reader ends after a list of reads.
pub open spec fn body_run(s: BodyState, reads: Seq<Option<Seq<u8>>>) -> BodyOutcome
    decreases reads.len(),
{
    if reads.len() == 0 {
        BodyOutcome::Next(s, ReadRequest::UpTo(s.buffer))
    } else {
        match s.step(reads[0]) {
            BodyOutcome::Next(next, _) => body_run(next, reads.skip(1)),
            other => other,
        }
    }
}

/// A body that is given out has at least the declared length and consists
/// of what was read: nothing is dropped, reordered or made up.
pub proof fn law_body_is_what_was_read(s: BodyState, reads: Seq<Option<Seq<u8>>>)
    requires
        s.wf(),
    ensures
        match body_run(s, reads) {
            BodyOutcome::Done(body) => body.len() >= s.wanted && body.is_prefix_of(
                s.taken + delivered(reads),
            ),
            BodyOutcome::Next(next, _) => next.wf() && next.taken == s.taken + delivered(reads),
            BodyOutcome::Failed(_) => true,
        },
    decreases reads.len(),
{
    if reads.len() == 0 {
        assert(s.taken + delivered(reads) =~= s.taken);
    } else {
        let first = match reads[0] {
            Some(bytes) => bytes,
            None => Seq::empty(),
        };
        let whole = s.taken + delivered(reads);
        assert(whole =~= (s.taken + first) + delivered(reads.skip(1)));
        match s.step(reads[0]) {
            BodyOutcome::Next(next, _) => {
                law_body_is_what_was_read(next, reads.skip(1));
            },
            BodyOutcome::Done(body) => {
                assert(whole.subrange(0, body.len() as int) =~= body);
            },
            BodyOutcome::Failed(_) => {},
        }
    }
}

/// Reads a body of a declared length.
pub struct BodyReader {
    buffer: usize,
    attempts: usize,
    wanted: usize,
    taken: Vec<u8>,
    stalls: usize,
}

/// What feeding a body reader leads to.
pub enum BodyProgress {
    /// More is needed: the reader to feed next, and the read to make.
    Next(BodyReader, ReadRequest),
    /// The body is complete.
    Done(Vec<u8>),
    /// Reading failed.
    Failed(HttpError),
}

impl View for BodyReader {
    type V = BodyState;

    closed spec fn view(&self) -> BodyState {
        BodyState {
            buffer: self.buffer,
            attempts: self.attempts,
            wanted: self.wanted,
            taken: self.taken@,
            stalls: self.stalls as nat,
        }
    }
}

impl BodyProgress {
    /// This result as mathematical values.
    pub open spec fn outcome(self) -> BodyOutcome {
        match self {
            BodyProgress::Next(reader, req) => BodyOutcome::Next(reader@, req),
            BodyProgress::Done(body) => BodyOutcome::Done(body@),
            BodyProgress::Failed(e) => BodyOutcome::Failed(e),
        }
    }
}

impl BodyReader {
    #[verifier::type_invariant]
    spec fn inv(self) -> bool {
        self@.wf()
    }

    /// Begins to read a body after `leftover`, the bytes that were read
    /// after the header.
    pub fn start(http_settings: &HttpSettings, leftover: Vec<u8>, wanted: Option<usize>) -> (r:
        BodyProgress)
        ensures
            r.outcome() == BodyState::start(*http_settings, leftover@, wanted),
    {
        match wanted {
            None => BodyProgress::Done(Vec::new()),
            Some(n) => {
                if leftover.len() >= n {
                    BodyProgress::Done(leftover)
                } else {
                    BodyProgress::Next(
                        BodyReader {
                            buffer: http_settings.body_buffer,
                            attempts: http_settings.body_read_attempts,
                            wanted: n,
                            taken: leftover,
                            stalls: 0,
                        },
                        ReadRequest::UpTo(http_settings.body_buffer),
                    )
                }
            },
        }
    }

    /// Takes what the read returned: the bytes, or `None` where it failed.
    pub fn feed(self, data: Option<&[u8]>) -> (r: BodyProgress)
        ensures
            self@.wf(),
            r.outcome() == self@.step(
                match data {
                    Some(bytes) => Some(bytes@),
                    None => None,
                },
            ),
    {
        proof {
            use_type_invariant(&self);
        }
        let bytes = match data {
            None => {
                return BodyProgress::Failed(HttpError::StreamBroken);
            },
            Some(bytes) => bytes,
        };
        let short = bytes.len() < self.buffer;
        if short && self.stalls >= self.attempts {
            return BodyProgress::Failed(HttpError::BodyReadFailedTooOften);
        }
        let ghost before = self@;
        let ghost fed = Some(bytes@);
        let complete = bytes.len() >= self.wanted - self.taken.len();
        let buffer = self.buffer;
        let attempts = self.attempts;
        let wanted = self.wanted;
        let stalls = if short {
            self.stalls + 1
        } else {
            self.stalls
        };
        let mut taken = self.taken;
        taken.extend_from_slice(bytes);
        assert(taken@ == before.taken + bytes@);
        if complete {
            let r = BodyProgress::Done(taken);
            assert(r.outcome() == before.step(fed));
            r
        } else {
            let r = BodyProgress::Next(
                BodyReader { buffer, attempts, wanted, taken, stalls },
                ReadRequest::UpTo(buffer),
            );
            assert(r.outcome() == before.step(fed));
            r
        }
    }
}

} // verus!
