//! Writing a request.

use vstd::prelude::*;
use vstd::utf8::encode_utf8;
use crate::dict::Dict;
use crate::text::{decimal_digits, push_decimal};
use crate::http::client::url::{url_encode, url_encoded, Url};
use crate::http::common::HttpMethod;

verus! {

/// A header on the wire: the name, `: `, the value and a line break.
pub open spec fn header_line(name: Seq<char>, value: Seq<char>) -> Seq<u8> {
    encode_utf8(name) + encode_utf8(": "@) + encode_utf8(value) + encode_utf8("\r\n"@)
}

/// The `Content-Length` header of a body of `len` bytes.
pub open spec fn content_length_line(len: nat) -> Seq<u8> {
    encode_utf8("Content-Length"@) + encode_utf8(": "@) + decimal_digits(len) + encode_utf8(
        "\r\n"@,
    )
}

/// The query of a request: `?` before the first parameter and `&` before
/// every other one, then name, `=` and value, both percent-encoded.
pub open spec fn query_block(query: Seq<(Seq<char>, Seq<char>)>) -> Seq<u8>
    decreases query.len(),
{
    if query.len() == 0 {
        Seq::empty()
    } else {
        query_block(query.drop_last()) + (if query.len() == 1 {
            seq![63u8]
        } else {
            seq![38u8]
        }) + encode_utf8(url_encoded(query.last().0, false)) + seq![61u8] + encode_utf8(
            url_encoded(query.last().1, false),
        )
    }
}

/// The request line and the `Host` header.
pub open spec fn main_header(
    method: HttpMethod,
    path: Seq<char>,
    server_name: Seq<char>,
    query: Seq<(Seq<char>, Seq<char>)>,
) -> Seq<u8> {
    encode_utf8(method.text()) + encode_utf8(" /"@) + encode_utf8(url_encoded(path, true))
        + query_block(query) + encode_utf8(" HTTP/1.1\r\nHost: "@) + encode_utf8(server_name)
        + encode_utf8("\r\n"@)
}

/// Writes the `Content-Length` header for `body`.
pub fn send_content_length(stream: &mut Vec<u8>, body: &[u8])
    ensures
        final(stream)@ == old(stream)@ + content_length_line(body@.len()),
{
    stream.extend_from_slice("Content-Length".as_bytes());
    stream.extend_from_slice(": ".as_bytes());
    push_decimal(stream, body.len() as u128);
    stream.extend_from_slice("\r\n".as_bytes());
    assert(stream@ =~= old(stream)@ + content_length_line(body@.len()));
}

/// Writes the blank line that ends the headers.
pub fn end_headers(stream: &mut Vec<u8>)
    ensures
        final(stream)@ == old(stream)@ + encode_utf8("\r\n"@),
{
    stream.extend_from_slice("\r\n".as_bytes());
}

/// Writes the request line and the `Host` header.
pub fn send_main_header(stream: &mut Vec<u8>, method: HttpMethod, url: &Url, query: &Dict<String>)
    ensures
        final(stream)@ == old(stream)@ + main_header(
            method,
            url.path@,
            url.server_name@,
            query.entries(),
        ),
{
    let ghost start = stream@;
    stream.extend_from_slice(method.as_str().as_bytes());
    stream.extend_from_slice(" /".as_bytes());
    stream.extend_from_slice(url_encode(url.path.as_str(), true).as_str().as_bytes());
    let ghost head = stream@;
    let ghost entries = query.entries();
    let n = query.len();
    let mut i: usize = 0;
    assert(entries.take(0) =~= Seq::<(Seq<char>, Seq<char>)>::empty());
    assert(stream@ =~= head + query_block(entries.take(0)));
    while i < n
        invariant
            i <= n,
            n == entries.len(),
            entries == query.entries(),
            stream@ == head + query_block(entries.take(i as int)),
        decreases n - i,
    {
        proof {
            assert(entries.take(i + 1).drop_last() =~= entries.take(i as int));
            assert(entries.take(i + 1).last() == entries[i as int]);
        }
        stream.push(
            if i == 0 {
                63u8
            } else {
                38u8
            },
        );
        stream.extend_from_slice(url_encode(query.key_at(i).as_str(), false).as_str().as_bytes());
        stream.push(61u8);
        stream.extend_from_slice(
            url_encode(query.value_at(i).as_str(), false).as_str().as_bytes(),
        );
        assert(stream@ =~= head + query_block(entries.take(i + 1)));
        i += 1;
    }
    assert(entries.take(i as int) =~= entries);
    stream.extend_from_slice(" HTTP/1.1\r\nHost: ".as_bytes());
    stream.extend_from_slice(url.server_name.as_str().as_bytes());
    stream.extend_from_slice("\r\n".as_bytes());
    assert(stream@ =~= start + main_header(method, url.path@, url.server_name@, entries));
}

/// Writes one header.
pub fn send_header(stream: &mut Vec<u8>, name: &str, value: &str)
    ensures
        final(stream)@ == old(stream)@ + header_line(name@, value@),
{
    stream.extend_from_slice(name.as_bytes());
    stream.extend_from_slice(": ".as_bytes());
    stream.extend_from_slice(value.as_bytes());
    stream.extend_from_slice("\r\n".as_bytes());
    assert(stream@ =~= old(stream)@ + header_line(name@, value@));
}

} // verus!
