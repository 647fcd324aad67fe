//! HTTP response.

use vstd::prelude::*;
use vstd::utf8::{encode_scalar, encode_utf8, is_ascii_chars, is_ascii_chars_encode_utf8};
use crate::dict::{put, Dict};
use crate::seqs::{find, matches_at, lemma_find_some};
use crate::text::{decimal_digits, push_decimal};

verus! {

/// Additional response data: the status line and extra headers.
#[derive(Debug)]
pub struct ResponseData {
    pub status: String,
    pub headers: Dict<String>,
}

impl Default for ResponseData {
    fn default() -> (r: Self)
        ensures
            r.status@ == "200 OK"@,
            r.headers.entries() == Seq::<(Seq<char>, Seq<char>)>::empty(),
    {
        Self::new()
    }
}

impl ResponseData {
    /// Create new with default values: status `200 OK` and no extra header.
    pub fn new() -> (r: Self)
        ensures
            r.status@ == "200 OK"@,
            r.headers.entries() == Seq::<(Seq<char>, Seq<char>)>::empty(),
    {
        Self { status: "200 OK".to_owned(), headers: Dict::new() }
    }

    /// Wraps in Option for respond.
    pub fn build(self) -> (r: Option<Self>)
        ensures
            r == Some(self),
    {
        Some(self)
    }

    /// Change status.
    pub fn status(self, status: &str) -> (r: Self)
        ensures
            r.status@ == status@,
            r.headers == self.headers,
    {
        Self { status: status.to_owned(), headers: self.headers }
    }

    /// Add header. A header with a key that is present takes the place of
    /// the earlier one.
    pub fn header(self, key: &str, value: &str) -> (r: Self)
        ensures
            r.status == self.status,
            r.headers.entries() == put(self.headers.entries(), key@, value@),
    {
        let mut headers = self.headers;
        headers.insert(key.to_owned(), value.to_owned());
        Self { status: self.status, headers }
    }

    pub fn ok() -> (r: Self)
        ensures
            r.status@ == "200 OK"@,
            r.headers.entries() == Seq::<(Seq<char>, Seq<char>)>::empty(),
    {
        ResponseData::new()
    }

    pub fn continue100() -> (r: Self)
        ensures
            r.status@ == "100 Continue"@,
            r.headers.entries() == Seq::<(Seq<char>, Seq<char>)>::empty(),
    {
        ResponseData::new().status("100 Continue")
    }

    pub fn switching_protocols() -> (r: Self)
        ensures
            r.status@ == "101 Switching Protocols"@,
            r.headers.entries() == Seq::<(Seq<char>, Seq<char>)>::empty(),
    {
        ResponseData::new().status("101 Switching Protocols")
    }

    pub fn early_hints() -> (r: Self)
        ensures
            r.status@ == "103 Early Hints"@,
            r.headers.entries() == Seq::<(Seq<char>, Seq<char>)>::empty(),
    {
        ResponseData::new().status("103 Early Hints")
    }

    pub fn created() -> (r: Self)
        ensures
            r.status@ == "201 Created"@,
            r.headers.entries() == Seq::<(Seq<char>, Seq<char>)>::empty(),
    {
        ResponseData::new().status("201 Created")
    }

    pub fn accepted() -> (r: Self)
        ensures
            r.status@ == "202 Accepted"@,
            r.headers.entries() == Seq::<(Seq<char>, Seq<char>)>::empty(),
    {
        ResponseData::new().status("202 Accepted")
    }

    pub fn non_authoritative_information() -> (r: Self)
        ensures
            r.status@ == "203 Non-Authoritative Information"@,
            r.headers.entries() == Seq::<(Seq<char>, Seq<char>)>::empty(),
    {
        ResponseData::new().status("203 Non-Authoritative Information")
    }

    pub fn no_content() -> (r: Self)
        ensures
            r.status@ == "204 No Content"@,
            r.headers.entries() == Seq::<(Seq<char>, Seq<char>)>::empty(),
    {
        ResponseData::new().status("204 No Content")
    }

    pub fn reset_content() -> (r: Self)
        ensures
            r.status@ == "205 Reset Content"@,
            r.headers.entries() == Seq::<(Seq<char>, Seq<char>)>::empty(),
    {
        ResponseData::new().status("205 Reset Content")
    }

    pub fn partial_content() -> (r: Self)
        ensures
            r.status@ == "206 Partial Content"@,
            r.headers.entries() == Seq::<(Seq<char>, Seq<char>)>::empty(),
    {
        ResponseData::new().status("206 Partial Content")
    }

    pub fn multi_status() -> (r: Self)
        ensures
            r.status@ == "207 Multi-Status"@,
            r.headers.entries() == Seq::<(Seq<char>, Seq<char>)>::empty(),
    {
        ResponseData::new().status("207 Multi-Status")
    }

    pub fn already_reported() -> (r: Self)
        ensures
            r.status@ == "208 Already Reported"@,
            r.headers.entries() == Seq::<(Seq<char>, Seq<char>)>::empty(),
    {
        ResponseData::new().status("208 Already Reported")
    }

    pub fn im_used() -> (r: Self)
        ensures
            r.status@ == "226 IM Used"@,
            r.headers.entries() == Seq::<(Seq<char>, Seq<char>)>::empty(),
    {
        ResponseData::new().status("226 IM Used")
    }

    pub fn multiple_choices() -> (r: Self)
        ensures
            r.status@ == "300 Multiple Choices"@,
            r.headers.entries() == Seq::<(Seq<char>, Seq<char>)>::empty(),
    {
        ResponseData::new().status("300 Multiple Choices")
    }

    pub fn moved_permanently() -> (r: Self)
        ensures
            r.status@ == "301 Moved Permanently"@,
            r.headers.entries() == Seq::<(Seq<char>, Seq<char>)>::empty(),
    {
        ResponseData::new().status("301 Moved Permanently")
    }

    pub fn found() -> (r: Self)
        ensures
            r.status@ == "302 Found"@,
            r.headers.entries() == Seq::<(Seq<char>, Seq<char>)>::empty(),
    {
        ResponseData::new().status("302 Found")
    }

    pub fn see_other() -> (r: Self)
        ensures
            r.status@ == "303 See Other"@,
            r.headers.entries() == Seq::<(Seq<char>, Seq<char>)>::empty(),
    {
        ResponseData::new().status("303 See Other")
    }

    pub fn not_modified() -> (r: Self)
        ensures
            r.status@ == "304 Not Modified"@,
            r.headers.entries() == Seq::<(Seq<char>, Seq<char>)>::empty(),
    {
        ResponseData::new().status("304 Not Modified")
    }

    pub fn temporary_redirect() -> (r: Self)
        ensures
            r.status@ == "307 Temporary Redirect"@,
            r.headers.entries() == Seq::<(Seq<char>, Seq<char>)>::empty(),
    {
        ResponseData::new().status("307 Temporary Redirect")
    }

    pub fn permanent_redirect() -> (r: Self)
        ensures
            r.status@ == "308 Permanent Redirect"@,
            r.headers.entries() == Seq::<(Seq<char>, Seq<char>)>::empty(),
    {
        ResponseData::new().status("308 Permanent Redirect")
    }

    pub fn bad_request() -> (r: Self)
        ensures
            r.status@ == "400 Bad Request"@,
            r.headers.entries() == Seq::<(Seq<char>, Seq<char>)>::empty(),
    {
        ResponseData::new().status("400 Bad Request")
    }

    pub fn unauthorized() -> (r: Self)
        ensures
            r.status@ == "401 Unauthorized"@,
            r.headers.entries() == Seq::<(Seq<char>, Seq<char>)>::empty(),
    {
        ResponseData::new().status("401 Unauthorized")
    }

    pub fn payment_required() -> (r: Self)
        ensures
            r.status@ == "402 Payment Required"@,
            r.headers.entries() == Seq::<(Seq<char>, Seq<char>)>::empty(),
    {
        ResponseData::new().status("402 Payment Required")
    }

    pub fn forbidden() -> (r: Self)
        ensures
            r.status@ == "403 Forbidden"@,
            r.headers.entries() == Seq::<(Seq<char>, Seq<char>)>::empty(),
    {
        ResponseData::new().status("403 Forbidden")
    }

    pub fn not_found() -> (r: Self)
        ensures
            r.status@ == "404 Not Found"@,
            r.headers.entries() == Seq::<(Seq<char>, Seq<char>)>::empty(),
    {
        ResponseData::new().status("404 Not Found")
    }

    pub fn method_not_allowed() -> (r: Self)
        ensures
            r.status@ == "405 Method Not Allowed"@,
            r.headers.entries() == Seq::<(Seq<char>, Seq<char>)>::empty(),
    {
        ResponseData::new().status("405 Method Not Allowed")
    }

    pub fn not_acceptable() -> (r: Self)
        ensures
            r.status@ == "406 Not Acceptable"@,
            r.headers.entries() == Seq::<(Seq<char>, Seq<char>)>::empty(),
    {
        ResponseData::new().status("406 Not Acceptable")
    }

    pub fn proxy_authentication_required() -> (r: Self)
        ensures
            r.status@ == "407 Proxy Authentication Required"@,
            r.headers.entries() == Seq::<(Seq<char>, Seq<char>)>::empty(),
    {
        ResponseData::new().status("407 Proxy Authentication Required")
    }

    pub fn request_timeout() -> (r: Self)
        ensures
            r.status@ == "408 Request Timeout"@,
            r.headers.entries() == Seq::<(Seq<char>, Seq<char>)>::empty(),
    {
        ResponseData::new().status("408 Request Timeout")
    }

    pub fn conflict() -> (r: Self)
        ensures
            r.status@ == "409 Conflict"@,
            r.headers.entries() == Seq::<(Seq<char>, Seq<char>)>::empty(),
    {
        ResponseData::new().status("409 Conflict")
    }

    pub fn gone() -> (r: Self)
        ensures
            r.status@ == "410 Gone"@,
            r.headers.entries() == Seq::<(Seq<char>, Seq<char>)>::empty(),
    {
        ResponseData::new().status("410 Gone")
    }

    pub fn length_required() -> (r: Self)
        ensures
            r.status@ == "411 Length Required"@,
            r.headers.entries() == Seq::<(Seq<char>, Seq<char>)>::empty(),
    {
        ResponseData::new().status("411 Length Required")
    }

    pub fn precondition_failed() -> (r: Self)
        ensures
            r.status@ == "412 Precondition Failed"@,
            r.headers.entries() == Seq::<(Seq<char>, Seq<char>)>::empty(),
    {
        ResponseData::new().status("412 Precondition Failed")
    }

    pub fn content_too_large() -> (r: Self)
        ensures
            r.status@ == "413 Content Too Large"@,
            r.headers.entries() == Seq::<(Seq<char>, Seq<char>)>::empty(),
    {
        ResponseData::new().status("413 Content Too Large")
    }

    pub fn uri_too_long() -> (r: Self)
        ensures
            r.status@ == "414 URI Too Long"@,
            r.headers.entries() == Seq::<(Seq<char>, Seq<char>)>::empty(),
    {
        ResponseData::new().status("414 URI Too Long")
    }

    pub fn unsupported_media_type() -> (r: Self)
        ensures
            r.status@ == "415 Unsupported Media Type"@,
            r.headers.entries() == Seq::<(Seq<char>, Seq<char>)>::empty(),
    {
        ResponseData::new().status("415 Unsupported Media Type")
    }

    pub fn range_not_satisfiable() -> (r: Self)
        ensures
            r.status@ == "416 Range Not Satisfiable"@,
            r.headers.entries() == Seq::<(Seq<char>, Seq<char>)>::empty(),
    {
        ResponseData::new().status("416 Range Not Satisfiable")
    }

    pub fn expectation_failed() -> (r: Self)
        ensures
            r.status@ == "417 Expectation Failed"@,
            r.headers.entries() == Seq::<(Seq<char>, Seq<char>)>::empty(),
    {
        ResponseData::new().status("417 Expectation Failed")
    }

    pub fn im_a_teapot() -> (r: Self)
        ensures
            r.status@ == "418 I'm a teapot"@,
            r.headers.entries() == Seq::<(Seq<char>, Seq<char>)>::empty(),
    {
        ResponseData::new().status("418 I'm a teapot")
    }

    pub fn misdirected_request() -> (r: Self)
        ensures
            r.status@ == "421 Misdirected Request"@,
            r.headers.entries() == Seq::<(Seq<char>, Seq<char>)>::empty(),
    {
        ResponseData::new().status("421 Misdirected Request")
    }

    pub fn unprocessable_content() -> (r: Self)
        ensures
            r.status@ == "422 Unprocessable Content"@,
            r.headers.entries() == Seq::<(Seq<char>, Seq<char>)>::empty(),
    {
        ResponseData::new().status("422 Unprocessable Content")
    }

    pub fn locked() -> (r: Self)
        ensures
            r.status@ == "423 Locked"@,
            r.headers.entries() == Seq::<(Seq<char>, Seq<char>)>::empty(),
    {
        ResponseData::new().status("423 Locked")
    }

    pub fn failed_dependency() -> (r: Self)
        ensures
            r.status@ == "424 Failed Dependency"@,
            r.headers.entries() == Seq::<(Seq<char>, Seq<char>)>::empty(),
    {
        ResponseData::new().status("424 Failed Dependency")
    }

    pub fn too_early() -> (r: Self)
        ensures
            r.status@ == "425 Too Early"@,
            r.headers.entries() == Seq::<(Seq<char>, Seq<char>)>::empty(),
    {
        ResponseData::new().status("425 Too Early")
    }

    pub fn upgrade_required() -> (r: Self)
        ensures
            r.status@ == "426 Upgrade Required"@,
            r.headers.entries() == Seq::<(Seq<char>, Seq<char>)>::empty(),
    {
        ResponseData::new().status("426 Upgrade Required")
    }

    pub fn precondition_required() -> (r: Self)
        ensures
            r.status@ == "428 Precondition Required"@,
            r.headers.entries() == Seq::<(Seq<char>, Seq<char>)>::empty(),
    {
        ResponseData::new().status("428 Precondition Required")
    }

    pub fn too_many_requests() -> (r: Self)
        ensures
            r.status@ == "429 Too Many Requests"@,
            r.headers.entries() == Seq::<(Seq<char>, Seq<char>)>::empty(),
    {
        ResponseData::new().status("429 Too Many Requests")
    }

    pub fn request_header_fields_too_large() -> (r: Self)
        ensures
            r.status@ == "431 Request Header Fields Too Large"@,
            r.headers.entries() == Seq::<(Seq<char>, Seq<char>)>::empty(),
    {
        ResponseData::new().status("431 Request Header Fields Too Large")
    }

    pub fn unavailable_for_legal_reasons() -> (r: Self)
        ensures
            r.status@ == "451 Unavailable For Legal Reasons"@,
            r.headers.entries() == Seq::<(Seq<char>, Seq<char>)>::empty(),
    {
        ResponseData::new().status("451 Unavailable For Legal Reasons")
    }

    pub fn internal_server_error() -> (r: Self)
        ensures
            r.status@ == "500 Internal Server Error"@,
            r.headers.entries() == Seq::<(Seq<char>, Seq<char>)>::empty(),
    {
        ResponseData::new().status("500 Internal Server Error")
    }

    pub fn not_implemented() -> (r: Self)
        ensures
            r.status@ == "501 Not Implemented"@,
            r.headers.entries() == Seq::<(Seq<char>, Seq<char>)>::empty(),
    {
        ResponseData::new().status("501 Not Implemented")
    }

    pub fn bad_gateway() -> (r: Self)
        ensures
            r.status@ == "502 Bad Gateway"@,
            r.headers.entries() == Seq::<(Seq<char>, Seq<char>)>::empty(),
    {
        ResponseData::new().status("502 Bad Gateway")
    }

    pub fn service_unavailable() -> (r: Self)
        ensures
            r.status@ == "503 Service Unavailable"@,
            r.headers.entries() == Seq::<(Seq<char>, Seq<char>)>::empty(),
    {
        ResponseData::new().status("503 Service Unavailable")
    }

    pub fn gateway_timeout() -> (r: Self)
        ensures
            r.status@ == "504 Gateway Timeout"@,
            r.headers.entries() == Seq::<(Seq<char>, Seq<char>)>::empty(),
    {
        ResponseData::new().status("504 Gateway Timeout")
    }

    pub fn http_version_not_supported() -> (r: Self)
        ensures
            r.status@ == "505 HTTP Version Not Supported"@,
            r.headers.entries() == Seq::<(Seq<char>, Seq<char>)>::empty(),
    {
        ResponseData::new().status("505 HTTP Version Not Supported")
    }

    pub fn variant_also_negotiates() -> (r: Self)
        ensures
            r.status@ == "506 Variant Also Negotiates"@,
            r.headers.entries() == Seq::<(Seq<char>, Seq<char>)>::empty(),
    {
        ResponseData::new().status("506 Variant Also Negotiates")
    }

    pub fn insufficient_storage() -> (r: Self)
        ensures
            r.status@ == "507 Insufficient Storage"@,
            r.headers.entries() == Seq::<(Seq<char>, Seq<char>)>::empty(),
    {
        ResponseData::new().status("507 Insufficient Storage")
    }

    pub fn loop_detected() -> (r: Self)
        ensures
            r.status@ == "508 Loop Detected"@,
            r.headers.entries() == Seq::<(Seq<char>, Seq<char>)>::empty(),
    {
        ResponseData::new().status("508 Loop Detected")
    }

    pub fn not_extended() -> (r: Self)
        ensures
            r.status@ == "510 Not Extended"@,
            r.headers.entries() == Seq::<(Seq<char>, Seq<char>)>::empty(),
    {
        ResponseData::new().status("510 Not Extended")
    }

    pub fn network_authentication_required() -> (r: Self)
        ensures
            r.status@ == "511 Network Authentication Required"@,
            r.headers.entries() == Seq::<(Seq<char>, Seq<char>)>::empty(),
    {
        ResponseData::new().status("511 Network Authentication Required")
    }
}

/// The bytes `\r\n`.
pub open spec fn line_break() -> Seq<u8> {
    seq![13u8, 10u8]
}

/// The caller's headers on the wire: for each, in order, a line break, the
/// key, `: ` and the value.
pub open spec fn header_block(headers: Seq<(Seq<char>, Seq<char>)>) -> Seq<u8>
    decreases headers.len(),
{
    if headers.len() == 0 {
        Seq::empty()
    } else {
        header_block(headers.drop_last()) + line_break() + encode_utf8(headers.last().0)
            + encode_utf8(": "@) + encode_utf8(headers.last().1)
    }
}

/// The `content-length` header of a body of `body_len` bytes, with the blank
/// line after it. The declared length counts the line break that follows the
/// body.
pub open spec fn content_length_header(body_len: nat) -> Seq<u8> {
    line_break() + encode_utf8("content-length: "@) + decimal_digits(body_len + 2) + line_break()
        + line_break()
}

/// What stands before the `content-length` header: the status line, the
/// server's name, the content type and the caller's headers.
pub open spec fn response_head(
    content_type: Seq<char>,
    status: Seq<char>,
    headers: Seq<(Seq<char>, Seq<char>)>,
) -> Seq<u8> {
    encode_utf8("HTTP/1.1 "@) + encode_utf8(status) + line_break() + encode_utf8(
        "server: ltheinrich.de/kern"@,
    ) + line_break() + encode_utf8("content-type: "@) + encode_utf8(content_type) + encode_utf8(
        "; charset=utf-8"@,
    ) + header_block(headers)
}

/// A response on the wire.
pub open spec fn response_bytes(
    content: Seq<u8>,
    content_type: Seq<char>,
    status: Seq<char>,
    headers: Seq<(Seq<char>, Seq<char>)>,
) -> Seq<u8> {
    response_head(content_type, status, headers) + content_length_header(content.len()) + content
        + line_break()
}

/// The page that a redirect to `url` shows.
pub open spec fn redirect_page(url: Seq<char>) -> Seq<u8> {
    encode_utf8("<html><head><title>Moved</title></head><body><h1>Moved</h1><p><a href=\""@)
        + encode_utf8(url) + encode_utf8("\">"@) + encode_utf8(url) + encode_utf8(
        "</a></p></body></html>"@,
    )
}

/// Every response ends with the body and a line break after it, and
/// declares the length of both.
pub proof fn law_response_framing(
    content: Seq<u8>,
    content_type: Seq<char>,
    status: Seq<char>,
    headers: Seq<(Seq<char>, Seq<char>)>,
)
    ensures
        (content + line_break()).is_suffix_of(response_bytes(content, content_type, status, headers)),
        (content_length_header(content.len()) + content + line_break()).is_suffix_of(
            response_bytes(content, content_type, status, headers),
        ),
        (content + line_break()).len() == content.len() + 2,
{
    let whole = response_bytes(content, content_type, status, headers);
    let tail = content + line_break();
    let framed = content_length_header(content.len()) + content + line_break();
    assert(whole.subrange(whole.len() - tail.len(), whole.len() as int) =~= tail);
    assert(whole.subrange(whole.len() - framed.len(), whole.len() as int) =~= framed);
}

/// The four bytes of a blank line: `\r\n\r\n`.
pub open spec fn blank_line() -> Seq<u8> {
    seq![13u8, 10u8, 13u8, 10u8]
}

/// The bytes hold neither a carriage return nor a line feed.
pub open spec fn quiet(s: Seq<u8>) -> bool {
    forall|i: int| 0 <= i < s.len() ==> #[trigger] s[i] != 13u8 && s[i] != 10u8
}

/// The text holds neither a carriage return nor a line feed.
pub open spec fn plain(text: Seq<char>) -> bool {
    forall|i: int| 0 <= i < text.len() ==> #[trigger] text[i] != '\r' && text[i] != '\n'
}

/// The bytes of a character that is no line break hold no line break: they
/// are the character itself, or bytes above the ASCII range.
proof fn lemma_scalar_quiet(c: char)
    requires
        c != '\r',
        c != '\n',
    ensures
        quiet(encode_scalar(c as u32)),
{
    let v = c as u32;
    assert(v != 13 && v != 10);
    assert(v <= 0x7F ==> (v & 0x7F) as u8 != 13u8 && (v & 0x7F) as u8 != 10u8) by (bit_vector)
        requires
            v != 13 && v != 10,
    ;
    assert(0xC0u8 | ((v >> 6) & 0x1F) as u8 >= 0x80u8) by (bit_vector);
    assert(0xE0u8 | ((v >> 12) & 0x0F) as u8 >= 0x80u8) by (bit_vector);
    assert(0xF0u8 | ((v >> 18) & 0x7) as u8 >= 0x80u8) by (bit_vector);
    assert(0x80u8 | (v & 0x3F) as u8 >= 0x80u8) by (bit_vector);
    assert(0x80u8 | ((v >> 6) & 0x3F) as u8 >= 0x80u8) by (bit_vector);
    assert(0x80u8 | ((v >> 12) & 0x3F) as u8 >= 0x80u8) by (bit_vector);
}

/// A text without line breaks has none on the wire.
pub proof fn lemma_plain_quiet(text: Seq<char>)
    requires
        plain(text),
    ensures
        quiet(encode_utf8(text)),
    decreases text.len(),
{
    if text.len() > 0 {
        let rest = text.drop_first();
        assert forall|i: int| 0 <= i < rest.len() implies #[trigger] rest[i] != '\r' && rest[i]
            != '\n' by {
            assert(rest[i] == text[i + 1]);
        }
        lemma_plain_quiet(rest);
        lemma_scalar_quiet(text[0]);
        let first = encode_scalar(text[0] as u32);
        let whole = first + encode_utf8(rest);
        assert forall|i: int| 0 <= i < whole.len() implies #[trigger] whole[i] != 13u8
            && whole[i] != 10u8 by {
            if i < first.len() {
                assert(whole[i] == first[i]);
            } else {
                assert(whole[i] == encode_utf8(rest)[i - first.len()]);
            }
        }
    }
}

/// No line feed is followed by a carriage return, and the last byte is
/// neither: no blank line begins in such bytes, whatever follows them.
pub open spec fn calm(s: Seq<u8>) -> bool {
    &&& forall|i: int|
        0 <= i && i + 1 < s.len() ==> !(#[trigger] s[i] == 10u8 && s[i + 1] == 13u8)
    &&& s.len() > 0 ==> s.last() != 10u8 && s.last() != 13u8
}

/// What stands in a response before the blank line: the head and the
/// `content-length` line.
pub open spec fn response_lines(
    body_len: nat,
    content_type: Seq<char>,
    status: Seq<char>,
    headers: Seq<(Seq<char>, Seq<char>)>,
) -> Seq<u8> {
    response_head(content_type, status, headers) + line_break() + encode_utf8(
        "content-length: "@,
    ) + decimal_digits(body_len + 2)
}

/// Calm bytes stay calm when quiet bytes follow.
proof fn lemma_calm_quiet(a: Seq<u8>, b: Seq<u8>)
    requires
        calm(a),
        quiet(b),
    ensures
        calm(a + b),
{
    if b.len() == 0 {
        assert(a + b =~= a);
    } else {
        let c = a + b;
        assert(c.last() == b.last());
        assert forall|i: int| 0 <= i && i + 1 < c.len() implies !(#[trigger] c[i] == 10u8 && c[i
            + 1] == 13u8) by {
            if i + 1 < a.len() {
                assert(c[i] == a[i] && c[i + 1] == a[i + 1]);
            } else if i < a.len() {
                assert(c[i] == a.last());
            } else {
                assert(c[i] == b[i - a.len()]);
            }
        }
    }
}

/// Calm bytes stay calm when a line break and a quiet line follow.
proof fn lemma_calm_line(a: Seq<u8>, b: Seq<u8>)
    requires
        calm(a),
        quiet(b),
        b.len() > 0,
    ensures
        calm(a + line_break() + b),
{
    let c = a + line_break() + b;
    let n = a.len() as int;
    assert(c.last() == b.last());
    assert(c[n] == 13u8 && c[n + 1] == 10u8);
    assert(c[n + 2] == b[0]);
    assert forall|i: int| 0 <= i && i + 1 < c.len() implies !(#[trigger] c[i] == 10u8 && c[i + 1]
        == 13u8) by {
        if i + 1 < n {
            assert(c[i] == a[i] && c[i + 1] == a[i + 1]);
        } else if i + 1 == n {
            assert(c[i] == a.last());
        } else if i == n {
        } else if i == n + 1 {
        } else {
            assert(c[i] == b[i - n - 2]);
        }
    }
}

/// Decimal digits hold no line break.
proof fn lemma_digits_quiet(n: nat)
    ensures
        quiet(decimal_digits(n)),
        decimal_digits(n).len() > 0,
    decreases n,
{
    if n >= 10 {
        lemma_digits_quiet(n / 10);
    }
}

/// The fixed texts of a response hold no line break.
proof fn lemma_fixed_texts()
    ensures
        quiet(encode_utf8("HTTP/1.1 "@)) && encode_utf8("HTTP/1.1 "@).len() > 0,
        quiet(encode_utf8("server: ltheinrich.de/kern"@)) && encode_utf8(
            "server: ltheinrich.de/kern"@,
        ).len() > 0,
        quiet(encode_utf8("content-type: "@)) && encode_utf8("content-type: "@).len() > 0,
        quiet(encode_utf8("; charset=utf-8"@)),
        quiet(encode_utf8(": "@)) && encode_utf8(": "@).len() > 0,
        quiet(encode_utf8("content-length: "@)) && encode_utf8("content-length: "@).len() > 0,
{
    reveal_strlit("HTTP/1.1 ");
    reveal_strlit("server: ltheinrich.de/kern");
    reveal_strlit("content-type: ");
    reveal_strlit("; charset=utf-8");
    reveal_strlit(": ");
    reveal_strlit("content-length: ");
    lemma_printable_quiet("HTTP/1.1 "@);
    lemma_printable_quiet("server: ltheinrich.de/kern"@);
    lemma_printable_quiet("content-type: "@);
    lemma_printable_quiet("; charset=utf-8"@);
    lemma_printable_quiet(": "@);
    lemma_printable_quiet("content-length: "@);
}

/// A text of printable ASCII characters holds no line break on the wire.
proof fn lemma_printable_quiet(s: Seq<char>)
    requires
        forall|i: int| 0 <= i < s.len() ==> ' ' <= #[trigger] s[i] <= '~',
    ensures
        quiet(encode_utf8(s)),
        encode_utf8(s).len() == s.len(),
{
    assert(is_ascii_chars(s));
    is_ascii_chars_encode_utf8(s);
    let b = encode_utf8(s);
    assert forall|i: int| 0 <= i < b.len() implies #[trigger] b[i] != 13u8 && b[i] != 10u8 by {
        assert(s[i] as u8 == b[i]);
        assert(' ' <= s[i] <= '~');
    }
}

/// Calm bytes stay calm when headers without line breaks follow.
proof fn lemma_calm_headers(a: Seq<u8>, headers: Seq<(Seq<char>, Seq<char>)>)
    requires
        calm(a),
        forall|i: int|
            0 <= i < headers.len() ==> quiet(encode_utf8((#[trigger] headers[i]).0)) && quiet(
                encode_utf8(headers[i].1),
            ),
    ensures
        calm(a + header_block(headers)),
    decreases headers.len(),
{
    if headers.len() == 0 {
        assert(a + header_block(headers) =~= a);
    } else {
        let earlier = headers.drop_last();
        assert forall|i: int| 0 <= i < earlier.len() implies quiet(
            encode_utf8((#[trigger] earlier[i]).0),
        ) && quiet(encode_utf8(earlier[i].1)) by {
            assert(earlier[i] == headers[i]);
        }
        lemma_calm_headers(a, earlier);
        lemma_fixed_texts();
        let last = headers[headers.len() - 1];
        assert(headers.last() == last);
        let line = encode_utf8(last.0) + encode_utf8(": "@) + encode_utf8(last.1);
        assert(quiet(line));
        assert(line.len() > 0);
        lemma_calm_line(a + header_block(earlier), line);
        assert(a + header_block(headers) =~= (a + header_block(earlier)) + line_break() + line);
    }
}

/// Where status, content type and headers hold no line break, the first
/// blank line of a response is the one after the `content-length` line. That line is the last of the header and declares the length of what
/// follows the blank line: the body and a line break, in this order and
/// nothing else.
pub proof fn law_body_follows_first_blank_line(
    content: Seq<u8>,
    content_type: Seq<char>,
    status: Seq<char>,
    headers: Seq<(Seq<char>, Seq<char>)>,
)
    requires
        plain(status),
        plain(content_type),
        forall|i: int|
            0 <= i < headers.len() ==> plain((#[trigger] headers[i]).0) && plain(headers[i].1),
    ensures
        find(response_bytes(content, content_type, status, headers), blank_line()) == Some(
            response_lines(content.len(), content_type, status, headers).len() as int,
        ),
        response_bytes(content, content_type, status, headers) == response_lines(
            content.len(),
            content_type,
            status,
            headers,
        ) + blank_line() + content + line_break(),
        (content + line_break()).len() == content.len() + 2,
{
    let whole = response_bytes(content, content_type, status, headers);
    let lines = response_lines(content.len(), content_type, status, headers);
    lemma_fixed_texts();
    lemma_digits_quiet(content.len() + 2);
    lemma_plain_quiet(status);
    lemma_plain_quiet(content_type);
    assert forall|i: int| 0 <= i < headers.len() implies quiet(
        encode_utf8((#[trigger] headers[i]).0),
    ) && quiet(encode_utf8(headers[i].1)) by {
        lemma_plain_quiet(headers[i].0);
        lemma_plain_quiet(headers[i].1);
    }
    // the status line
    let a1 = encode_utf8("HTTP/1.1 "@) + encode_utf8(status);
    lemma_calm_quiet(Seq::empty(), encode_utf8("HTTP/1.1 "@));
    assert(Seq::<u8>::empty() + encode_utf8("HTTP/1.1 "@) =~= encode_utf8("HTTP/1.1 "@));
    lemma_calm_quiet(encode_utf8("HTTP/1.1 "@), encode_utf8(status));
    // the server's name
    let a2 = a1 + line_break() + encode_utf8("server: ltheinrich.de/kern"@);
    lemma_calm_line(a1, encode_utf8("server: ltheinrich.de/kern"@));
    // the content type
    let ctype = encode_utf8("content-type: "@) + encode_utf8(content_type) + encode_utf8(
        "; charset=utf-8"@,
    );
    assert(quiet(ctype));
    let a3 = a2 + line_break() + ctype;
    lemma_calm_line(a2, ctype);
    // the caller's headers
    let head = response_head(content_type, status, headers);
    lemma_calm_headers(a3, headers);
    assert(head =~= a3 + header_block(headers));
    // the declared length
    let declared = encode_utf8("content-length: "@) + decimal_digits(content.len() + 2);
    assert(quiet(declared));
    lemma_calm_line(head, declared);
    assert(lines =~= head + line_break() + declared);
    assert(calm(lines));
    assert(whole =~= lines + blank_line() + content + line_break());
    let at = lines.len() as int;
    assert(whole.subrange(at, at + 4) =~= blank_line());
    assert(matches_at(whole, blank_line(), at));
    assert forall|j: int| 0 <= j < at implies !matches_at(whole, blank_line(), j) by {
        if matches_at(whole, blank_line(), j) {
            let found = whole.subrange(j, j + 4);
            assert(found[0] == whole[j] && found[1] == whole[j + 1] && found[2] == whole[j + 2]);
            assert(whole[j] == 13u8 && whole[j + 1] == 10u8 && whole[j + 2] == 13u8);
            if j + 2 < at {
                assert(whole[j + 1] == lines[j + 1] && whole[j + 2] == lines[j + 2]);
            } else if j + 2 == at {
                assert(whole[j + 1] == lines.last());
            } else {
                assert(whole[j] == lines.last());
            }
        }
    }
    lemma_find_some(whole, blank_line(), at);
}

/// Create content-length header bytes.
pub fn set_content_length(content_length: usize) -> (r: Vec<u8>)
    ensures
        r@ == content_length_header(content_length as nat),
{
    let mut header: Vec<u8> = Vec::new();
    header.push(13u8);
    header.push(10u8);
    header.extend_from_slice("content-length: ".as_bytes());
    let declared: u128 = content_length as u128 + 2;
    push_decimal(&mut header, declared);
    header.push(13u8);
    header.push(10u8);
    header.push(13u8);
    header.push(10u8);
    assert(header@ =~= content_length_header(content_length as nat));
    header
}

/// Create HTTP response.
pub fn respond(content: &[u8], content_type: &str, data: Option<ResponseData>) -> (r: Vec<u8>)
    ensures
        r@ == match data {
            Some(d) => response_bytes(content@, content_type@, d.status@, d.headers.entries()),
            None => response_bytes(content@, content_type@, "200 OK"@, Seq::empty()),
        },
{
    let data = match data {
        Some(data) => data,
        None => ResponseData::new(),
    };
    let ghost entries = data.headers.entries();
    let mut response: Vec<u8> = Vec::new();
    response.extend_from_slice("HTTP/1.1 ".as_bytes());
    response.extend_from_slice(data.status.as_str().as_bytes());
    response.push(13u8);
    response.push(10u8);
    response.extend_from_slice("server: ltheinrich.de/kern".as_bytes());
    response.push(13u8);
    response.push(10u8);
    response.extend_from_slice("content-type: ".as_bytes());
    response.extend_from_slice(content_type.as_bytes());
    response.extend_from_slice("; charset=utf-8".as_bytes());
    let ghost start = response@;
    let n = data.headers.len();
    let mut i: usize = 0;
    assert(entries.take(0) =~= Seq::<(Seq<char>, Seq<char>)>::empty());
    assert(response@ =~= start + header_block(entries.take(0)));
    while i < n
        invariant
            i <= n,
            n == entries.len(),
            entries == data.headers.entries(),
            response@ == start + header_block(entries.take(i as int)),
        decreases n - i,
    {
        response.push(13u8);
        response.push(10u8);
        response.extend_from_slice(data.headers.key_at(i).as_str().as_bytes());
        response.extend_from_slice(": ".as_bytes());
        response.extend_from_slice(data.headers.value_at(i).as_str().as_bytes());
        proof {
            assert(entries.take(i + 1).drop_last() =~= entries.take(i as int));
            assert(entries.take(i + 1).last() == entries[i as int]);
            assert(response@ =~= start + header_block(entries.take(i + 1)));
        }
        i += 1;
    }
    assert(entries.take(i as int) =~= entries);
    let mut length = set_content_length(content.len());
    response.append(&mut length);
    response.extend_from_slice(content);
    response.push(13u8);
    response.push(10u8);
    assert(response@ =~= response_bytes(content@, content_type@, data.status@, entries));
    response
}

/// Create HTTP redirect response: `303 See Other` with a `location` header
/// and a page that links to `url`.
pub fn redirect(url: &str) -> (r: Vec<u8>)
    ensures
        r@ == response_bytes(
            redirect_page(url@),
            "text/html"@,
            "303 See Other"@,
            seq![("location"@, url@)],
        ),
{
    let data = ResponseData::see_other().header("location", url);
    assert(data.headers.entries() =~= seq![("location"@, url@)]);
    let mut page: Vec<u8> = Vec::new();
    page.extend_from_slice(
        "<html><head><title>Moved</title></head><body><h1>Moved</h1><p><a href=\"".as_bytes(),
    );
    page.extend_from_slice(url.as_bytes());
    page.extend_from_slice("\">".as_bytes());
    page.extend_from_slice(url.as_bytes());
    page.extend_from_slice("</a></p></body></html>".as_bytes());
    assert(page@ =~= redirect_page(url@));
    respond(page.as_slice(), "text/html", Some(data))
}

} // verus!
