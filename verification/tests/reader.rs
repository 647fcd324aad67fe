use kern::http::server::reader::read_header as read_header_from;
use kern::http::server::{
    BodyProgress, BodyReader, HeaderProgress, HeaderReader, HttpError, HttpSettings, ReadRequest,
};

/// Feeds a stream to a header reader in chunks of at most `chunk` bytes.
fn read_header(
    settings: &HttpSettings,
    stream: &[u8],
    chunk: usize,
) -> Result<(String, Vec<u8>, usize), HttpError> {
    let mut reader = HeaderReader::new(settings);
    let mut pos = 0;
    loop {
        let data = match reader.request() {
            ReadRequest::UpTo(n) => {
                let n = n.min(chunk).min(stream.len() - pos);
                Some(&stream[pos..pos + n])
            }
            ReadRequest::Exactly(n) => {
                if stream.len() - pos < n {
                    None
                } else {
                    Some(&stream[pos..pos + n])
                }
            }
        };
        pos += data.map_or(0, |d| d.len());
        match reader.feed(data) {
            HeaderProgress::Next(next, _) => reader = next,
            HeaderProgress::Done { header, rest } => return Ok((header, rest, pos)),
            HeaderProgress::Failed(e) => return Err(e),
        }
    }
}

fn full_chunks(buffer: usize, max: usize) -> HttpSettings {
    HttpSettings::new(1)
        .header_buffer(buffer)
        .max_header_size(max)
        .header_read_attempts(0)
}

#[test]
fn header_in_one_chunk() {
    let settings = HttpSettings::new(1);
    let stream = b"GET / HTTP/1.1\r\nHost: h\r\n\r\nbody bytes";
    let (header, rest, read) = read_header(&settings, stream, 8192).unwrap();
    assert_eq!(header, "GET / HTTP/1.1\r\nHost: h\r\n\r\n");
    assert_eq!(rest, b"body bytes");
    assert_eq!(read, stream.len());
}

#[test]
fn first_request_is_one_chunk() {
    let settings = HttpSettings::new(1).header_buffer(100);
    let reader = HeaderReader::new(&settings);
    assert_eq!(reader.request(), ReadRequest::UpTo(100));
}

#[test]
fn terminator_across_chunks_reads_exactly_what_is_missing() {
    let stream = b"GET / HTTP/1.1\r\nHost: h\r\n\r\nbody";
    for buffer in 1..stream.len() + 2 {
        let settings = full_chunks(buffer, 100).header_read_attempts(100);
        let (header, rest, read) = read_header(&settings, stream, buffer).unwrap();
        assert_eq!(header, "GET / HTTP/1.1\r\nHost: h\r\n\r\n", "buffer {}", buffer);
        let mut whole = header.into_bytes();
        whole.extend_from_slice(&rest);
        assert_eq!(whole, &stream[..read], "buffer {}", buffer);
    }
}

#[test]
fn exact_read_is_asked_for_after_carriage_return() {
    let settings = HttpSettings::new(1).header_buffer(4);
    let reader = HeaderReader::new(&settings);
    match reader.feed(Some(b"ab\rc")) {
        HeaderProgress::Next(next, request) => {
            assert_eq!(request, ReadRequest::Exactly(2));
            assert_eq!(next.request(), ReadRequest::Exactly(2));
            match next.feed(Some(b"\r\n")) {
                HeaderProgress::Next(_, request) => assert_eq!(request, ReadRequest::Exactly(2)),
                _ => panic!("the reader stopped"),
            }
        }
        _ => panic!("the reader stopped"),
    }
}

#[test]
fn carriage_returns_that_overlap_are_all_checked() {
    // the terminator starts at the second of two carriage returns
    let stream = b"ab\r\r\n\r\nrest";
    for buffer in 1..8 {
        let settings = full_chunks(buffer, 100).header_read_attempts(100);
        let (header, _, _) = read_header(&settings, stream, buffer).unwrap();
        assert_eq!(header, "ab\r\r\n\r\n", "buffer {}", buffer);
    }
}

#[test]
fn no_terminator_is_too_large() {
    let stream = vec![b'a'; 100];
    for buffer in 1..20 {
        let settings = full_chunks(buffer, 50);
        assert_eq!(
            read_header(&settings, &stream, buffer).err(),
            Some(HttpError::HeaderTooLarge),
            "buffer {}",
            buffer
        );
    }
}

#[test]
fn terminator_past_the_limit_is_too_large() {
    // the terminator ends at byte 52
    let mut stream = vec![b'a'; 48];
    stream.extend_from_slice(b"\r\n\r\n");
    stream.extend_from_slice(&[b'b'; 60]);
    for buffer in 1..20 {
        let settings = full_chunks(buffer, 50);
        assert_eq!(
            read_header(&settings, &stream, buffer).err(),
            Some(HttpError::HeaderTooLarge),
            "buffer {}",
            buffer
        );
    }
    // and is found where it ends at the limit
    let settings = full_chunks(13, 52);
    let (header, _, _) = read_header(&settings, &stream, 13).unwrap();
    assert_eq!(header.len(), 52);
}

#[test]
fn chunk_past_the_limit_is_too_large_even_with_terminator() {
    let settings = HttpSettings::new(1).header_buffer(64).max_header_size(10);
    let reader = HeaderReader::new(&settings);
    assert!(matches!(
        reader.feed(Some(b"a\r\n\r\nbody of the request")),
        HeaderProgress::Failed(HttpError::HeaderTooLarge)
    ));
}

#[test]
fn stalls_are_counted() {
    // reads of one byte against a buffer of two: every read is a stall
    let settings = HttpSettings::new(1).header_buffer(2).header_read_attempts(3);
    assert_eq!(
        read_header(&settings, b"abcdefgh", 1).err(),
        Some(HttpError::HeaderReadFailedTooOften)
    );
    let mut reader = HeaderReader::new(&settings);
    for _ in 0..3 {
        reader = match reader.feed(Some(b"a")) {
            HeaderProgress::Next(next, _) => next,
            _ => panic!("the reader stopped"),
        };
    }
    assert!(matches!(
        reader.feed(Some(b"a")),
        HeaderProgress::Failed(HttpError::HeaderReadFailedTooOften)
    ));
    // an empty read is a stall too
    let settings = HttpSettings::new(1).header_read_attempts(0);
    assert!(matches!(
        HeaderReader::new(&settings).feed(Some(b"")),
        HeaderProgress::Failed(HttpError::HeaderReadFailedTooOften)
    ));
}

#[test]
fn broken_stream() {
    let settings = HttpSettings::new(1);
    assert!(matches!(
        HeaderReader::new(&settings).feed(None),
        HeaderProgress::Failed(HttpError::StreamBroken)
    ));
    // an exact read that comes back with another length
    let settings = HttpSettings::new(1).header_buffer(3);
    match HeaderReader::new(&settings).feed(Some(b"ab\r")) {
        HeaderProgress::Next(next, request) => {
            assert_eq!(request, ReadRequest::Exactly(3));
            assert!(matches!(
                next.feed(Some(b"\n\r")),
                HeaderProgress::Failed(HttpError::StreamBroken)
            ));
        }
        _ => panic!("the reader stopped"),
    }
}

#[test]
fn header_must_be_utf8() {
    let settings = HttpSettings::new(1);
    assert_eq!(
        read_header(&settings, b"GET /\xff HTTP/1.1\r\n\r\n", 8192).err(),
        Some(HttpError::InvalidEncoding)
    );
}

/// Feeds a stream to a body reader in chunks of at most `chunk` bytes.
fn read_body(
    settings: &HttpSettings,
    leftover: &[u8],
    wanted: Option<usize>,
    stream: &[u8],
    chunk: usize,
) -> Result<Vec<u8>, HttpError> {
    let mut progress = BodyReader::start(settings, leftover.to_vec(), wanted);
    let mut pos = 0;
    loop {
        match progress {
            BodyProgress::Done(body) => return Ok(body),
            BodyProgress::Failed(e) => return Err(e),
            BodyProgress::Next(reader, request) => {
                let n = match request {
                    ReadRequest::UpTo(n) => n.min(chunk).min(stream.len() - pos),
                    ReadRequest::Exactly(_) => panic!("a body is read in chunks"),
                };
                progress = reader.feed(Some(&stream[pos..pos + n]));
                pos += n;
            }
        }
    }
}

#[test]
fn body_without_declared_length_is_empty() {
    let settings = HttpSettings::new(1);
    assert_eq!(read_body(&settings, b"left", None, b"more", 10).unwrap(), b"");
}

#[test]
fn body_from_leftover_alone() {
    let settings = HttpSettings::new(1);
    assert_eq!(read_body(&settings, b"left", Some(4), b"more", 10).unwrap(), b"left");
    assert_eq!(read_body(&settings, b"left", Some(2), b"more", 10).unwrap(), b"left");
    assert_eq!(read_body(&settings, b"", Some(0), b"more", 10).unwrap(), b"");
}

#[test]
fn body_is_read_in_chunks() {
    let settings = HttpSettings::new(1).body_buffer(3).body_read_attempts(0);
    assert_eq!(
        read_body(&settings, b"ab", Some(8), b"cdefghijkl", 3).unwrap(),
        b"abcdefgh"
    );
    let settings = HttpSettings::new(1).body_buffer(4).body_read_attempts(0);
    // whole chunks are kept, also past the declared length
    assert_eq!(
        read_body(&settings, b"ab", Some(5), b"cdefghijkl", 4).unwrap(),
        b"abcdef"
    );
}

#[test]
fn body_stalls_and_breaks() {
    let settings = HttpSettings::new(1).body_buffer(4).body_read_attempts(2);
    assert_eq!(
        read_body(&settings, b"", Some(100), b"abcdefghijkl", 1).err(),
        Some(HttpError::BodyReadFailedTooOften)
    );
    // a short last chunk counts as a stall before the length is looked at
    let settings = HttpSettings::new(1).body_buffer(4).body_read_attempts(0);
    assert_eq!(
        read_body(&settings, b"", Some(6), b"abcdef", 4).err(),
        Some(HttpError::BodyReadFailedTooOften)
    );
    let settings = HttpSettings::new(1).body_buffer(4).body_read_attempts(1);
    assert_eq!(read_body(&settings, b"", Some(6), b"abcdef", 4).unwrap(), b"abcdef");
    match BodyReader::start(&settings, Vec::new(), Some(1)) {
        BodyProgress::Next(reader, request) => {
            assert_eq!(request, ReadRequest::UpTo(4));
            assert!(matches!(
                reader.feed(None),
                BodyProgress::Failed(HttpError::StreamBroken)
            ));
        }
        _ => panic!("nothing was asked for"),
    }
}

#[test]
fn header_from_a_list_of_reads() {
    let settings = HttpSettings::new(1).header_buffer(4).max_header_size(10);
    // full reads without the terminator run into the limit
    let reads = vec![
        Some(b"abcd".to_vec()),
        Some(b"efgh".to_vec()),
        Some(b"ijkl".to_vec()),
        Some(b"mnop".to_vec()),
    ];
    assert!(matches!(
        read_header_from(&settings, &reads),
        HeaderProgress::Failed(HttpError::HeaderTooLarge)
    ));
    // the reads after the end of the header are not looked at
    let reads = vec![Some(b"a\r\n\r".to_vec()), Some(b"\n".to_vec()), None];
    match read_header_from(&settings, &reads) {
        HeaderProgress::Done { header, rest } => {
            assert_eq!(header, "a\r\n\r\n");
            assert_eq!(rest, b"");
        }
        _ => panic!("the header was not read"),
    }
    // reads that do not suffice leave a reader that waits
    let reads = vec![Some(b"abcd".to_vec())];
    match read_header_from(&settings, &reads) {
        HeaderProgress::Next(reader, request) => {
            assert_eq!(request, ReadRequest::UpTo(4));
            assert_eq!(reader.request(), ReadRequest::UpTo(4));
        }
        _ => panic!("the reader stopped"),
    }
    let none: Vec<Option<Vec<u8>>> = Vec::new();
    assert!(matches!(
        read_header_from(&settings, &none),
        HeaderProgress::Next(_, ReadRequest::UpTo(4))
    ));
    let reads = vec![Some(b"abcd".to_vec()), None];
    assert!(matches!(
        read_header_from(&settings, &reads),
        HeaderProgress::Failed(HttpError::StreamBroken)
    ));
}
