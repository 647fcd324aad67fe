//! Addresses of HTTP servers and percent-encoding.

use vstd::prelude::*;
use vstd::string::StringExecFns;
use vstd::utf8::encode_utf8;
use crate::error::Fail;
use crate::text::{after, before, chars_of, split_once, string_of, strip_prefix, without_prefix};

verus! {

/// The address of an HTTP server and a path on it.
#[derive(Debug)]
pub struct Url {
    /// Whether the scheme is `https`.
    pub secure: bool,
    /// Host and port.
    pub addr: String,
    /// The path, without the leading `/`.
    pub path: String,
    /// The host.
    pub server_name: String,
}

/// A url as mathematical values.
pub struct UrlView {
    pub secure: bool,
    pub addr: Seq<char>,
    pub path: Seq<char>,
    pub server_name: Seq<char>,
}

impl View for Url {
    type V = UrlView;

    open spec fn view(&self) -> UrlView {
        UrlView {
            secure: self.secure,
            addr: self.addr@,
            path: self.path@,
            server_name: self.server_name@,
        }
    }
}

/// What follows the scheme: address and path, and whether the scheme is
/// `https`.
pub open spec fn after_scheme(url: Seq<char>) -> Option<(Seq<char>, bool)> {
    match strip_prefix(url, "https://"@) {
        Some(rest) => Some((rest, true)),
        None => match strip_prefix(url, "http://"@) {
            Some(rest) => Some((rest, false)),
            None => None,
        },
    }
}

/// The parts of what follows the scheme. The address ends at the first `/`;
/// the host ends at the first `:` of the address; an address without port
/// gets the scheme's port.
pub open spec fn url_parts(rest: Seq<char>, secure: bool) -> UrlView {
    let raw_addr = before(rest, '/');
    let path = match after(rest, '/') {
        Some(p) => p,
        None => Seq::empty(),
    };
    match after(raw_addr, ':') {
        Some(_) => UrlView { secure, addr: raw_addr, path, server_name: before(raw_addr, ':') },
        None => UrlView {
            secure,
            addr: raw_addr + (if secure {
                ":443"@
            } else {
                ":80"@
            }),
            path,
            server_name: raw_addr,
        },
    }
}

/// The url that a text denotes, if it begins with `http://` or `https://`.
pub open spec fn url_of(url: Seq<char>) -> Option<UrlView> {
    match after_scheme(url) {
        Some((rest, secure)) => Some(url_parts(rest, secure)),
        None => None,
    }
}

impl Url {
    /// Reads a url; the scheme must be `http` or `https`.
    pub fn try_from(url: &str) -> (r: Result<Url, Box<Fail>>)
        ensures
            match r {
                Ok(u) => url_of(url@) == Some(u@),
                Err(fail) => url_of(url@) is None && fail.0@ == "invalid url: protocol missing"@,
            },
    {
        let chars = chars_of(url);
        let https = chars_of("https://");
        let http = chars_of("http://");
        let (rest, secure) = match without_prefix(chars.as_slice(), https.as_slice()) {
            Some(rest) => (rest, true),
            None => match without_prefix(chars.as_slice(), http.as_slice()) {
                Some(rest) => (rest, false),
                None => {
                    return Fail::from("invalid url: protocol missing");
                },
            },
        };
        let (raw_addr, path) = split_once(rest.as_slice(), '/');
        let path = match path {
            Some(p) => string_of(p.as_slice()),
            None => String::new(),
        };
        let (server_name, port) = split_once(raw_addr.as_slice(), ':');
        let raw = string_of(raw_addr.as_slice());
        match port {
            Some(_) => Ok(
                Url { secure, addr: raw, path, server_name: string_of(server_name.as_slice()) },
            ),
            None => {
                let server_name = raw.clone();
                let addr = raw.concat(
                    if secure {
                        ":443"
                    } else {
                        ":80"
                    },
                );
                Ok(Url { secure, addr, path, server_name })
            },
        }
    }
}

/// The characters that stand for themselves in a url.
pub open spec fn unreserved(c: char) -> bool {
    ||| 'A' <= c <= 'Z'
    ||| 'a' <= c <= 'z'
    ||| '0' <= c <= '9'
    ||| c == '-'
    ||| c == '.'
    ||| c == '_'
    ||| c == '~'
}

/// The hexadecimal digit of a number below 16, in upper case.
pub open spec fn hex_digit(n: u8) -> char {
    if n == 0 {
        '0'
    } else if n == 1 {
        '1'
    } else if n == 2 {
        '2'
    } else if n == 3 {
        '3'
    } else if n == 4 {
        '4'
    } else if n == 5 {
        '5'
    } else if n == 6 {
        '6'
    } else if n == 7 {
        '7'
    } else if n == 8 {
        '8'
    } else if n == 9 {
        '9'
    } else if n == 10 {
        'A'
    } else if n == 11 {
        'B'
    } else if n == 12 {
        'C'
    } else if n == 13 {
        'D'
    } else if n == 14 {
        'E'
    } else {
        'F'
    }
}

/// Bytes in percent-encoding: for each, `%` and its two hexadecimal digits.
pub open spec fn percent_bytes(bytes: Seq<u8>) -> Seq<char>
    decreases bytes.len(),
{
    if bytes.len() == 0 {
        Seq::empty()
    } else {
        percent_bytes(bytes.drop_last()) + seq![
            '%',
            hex_digit(bytes.last() / 16),
            hex_digit(bytes.last() % 16),
        ]
    }
}

/// One character in a url: itself where it is unreserved, or a `/` that is
/// to be kept; else its UTF-8 bytes in percent-encoding.
pub open spec fn encoded_char(c: char, skip_slash: bool) -> Seq<char> {
    if unreserved(c) || (skip_slash && c == '/') {
        seq![c]
    } else {
        percent_bytes(encode_utf8(seq![c]))
    }
}

/// A text in percent-encoding.
pub open spec fn url_encoded(url: Seq<char>, skip_slash: bool) -> Seq<char>
    decreases url.len(),
{
    if url.len() == 0 {
        Seq::empty()
    } else {
        url_encoded(url.drop_last(), skip_slash) + encoded_char(url.last(), skip_slash)
    }
}

/// The hexadecimal digit of a number below 16.
pub fn to_hex(byte: u8) -> (r: char)
    requires
        byte < 16,
    ensures
        r == hex_digit(byte),
{
    if byte == 0 {
        '0'
    } else if byte == 1 {
        '1'
    } else if byte == 2 {
        '2'
    } else if byte == 3 {
        '3'
    } else if byte == 4 {
        '4'
    } else if byte == 5 {
        '5'
    } else if byte == 6 {
        '6'
    } else if byte == 7 {
        '7'
    } else if byte == 8 {
        '8'
    } else if byte == 9 {
        '9'
    } else if byte == 10 {
        'A'
    } else if byte == 11 {
        'B'
    } else if byte == 12 {
        'C'
    } else if byte == 13 {
        'D'
    } else if byte == 14 {
        'E'
    } else {
        'F'
    }
}

/// Whether a character stands for itself in a url.
fn is_unreserved(c: char) -> (r: bool)
    ensures
        r == unreserved(c),
{
    ('A' <= c && c <= 'Z') || ('a' <= c && c <= 'z') || ('0' <= c && c <= '9') || c == '-' || c
        == '.' || c == '_' || c == '~'
}

/// Percent-encodes a text. With `skip_slash` every `/` is kept as it is.
pub fn url_encode(url: &str, skip_slash: bool) -> (r: String)
    ensures
        r@ == url_encoded(url@, skip_slash),
{
    let chars = chars_of(url);
    let mut encoded: Vec<char> = Vec::new();
    let mut i: usize = 0;
    assert(chars@.take(0) =~= Seq::<char>::empty());
    while i < chars.len()
        invariant
            i <= chars.len(),
            chars@ == url@,
            encoded@ == url_encoded(chars@.take(i as int), skip_slash),
        decreases chars.len() - i,
    {
        let c = chars[i];
        proof {
            assert(chars@.take(i + 1).drop_last() =~= chars@.take(i as int));
            assert(chars@.take(i + 1).last() == c);
        }
        let ghost so_far = encoded@;
        if is_unreserved(c) || (skip_slash && c == '/') {
            encoded.push(c);
            assert(encoded@ =~= so_far + seq![c]);
        } else {
            let one: Vec<char> = vec![c];
            assert(one@ =~= seq![c]);
            let text = string_of(one.as_slice());
            let bytes = text.as_str().as_bytes();
            let mut j: usize = 0;
            assert(bytes@.take(0) =~= Seq::<u8>::empty());
            assert(encoded@ =~= so_far + percent_bytes(bytes@.take(0)));
            while j < bytes.len()
                invariant
                    j <= bytes.len(),
                    encoded@ == so_far + percent_bytes(bytes@.take(j as int)),
                decreases bytes.len() - j,
            {
                let b = bytes[j];
                let ghost inner = encoded@;
                proof {
                    assert(bytes@.take(j + 1).drop_last() =~= bytes@.take(j as int));
                    assert(bytes@.take(j + 1).last() == b);
                }
                encoded.push('%');
                encoded.push(to_hex(b / 16));
                encoded.push(to_hex(b % 16));
                assert(encoded@ =~= inner + seq!['%', hex_digit(b / 16), hex_digit(b % 16)]);
                assert(encoded@ =~= so_far + percent_bytes(bytes@.take(j + 1)));
                j += 1;
            }
            assert(bytes@.take(j as int) =~= bytes@);
        }
        i += 1;
    }
    assert(chars@.take(i as int) =~= chars@);
    string_of(encoded.as_slice())
}

} // verus!
