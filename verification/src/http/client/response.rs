//! Reading a response.

use vstd::prelude::*;
use vstd::slice::{slice_subrange, slice_to_vec};
use vstd::utf8::{decode_utf8, valid_utf8};
use crate::byte::{scan_from, split, splitn};
use crate::error::Fail;
use crate::seqs::{find, slice_views, split_by, splitn_by, lemma_find_is_first};
use crate::text::{
    chars_of, lossy_text, lowercase_chars, lowercased, parse_unsigned, str_eq, trim, trimmed,
    unsigned_value, utf8_lossy, utf8_str,
};

verus! {

/// A list of headers: names and values in the order of the wire. A name may
/// occur more than once.
pub open spec fn pairs_view(v: Seq<(String, String)>) -> Seq<(Seq<char>, Seq<char>)> {
    v.map_values(|p: (String, String)| (p.0@, p.1@))
}

/// The value of the first header with the given name.
pub open spec fn first_value(pairs: Seq<(Seq<char>, Seq<char>)>, name: Seq<char>) -> Option<
    Seq<char>,
>
    decreases pairs.len(),
{
    if pairs.len() == 0 {
        None
    } else if pairs[0].0 == name {
        Some(pairs[0].1)
    } else {
        first_value(pairs.skip(1), name)
    }
}

/// Where reading line by line stops: after the first line that, with its
/// line feed, has at most two bytes (`exact` false) or exactly two bytes
/// (`exact` true), and at the end where there is no such line.
pub open spec fn stop_after(raw: Seq<u8>, exact: bool) -> int
    decreases raw.len(),
{
    match find(raw, seq![10u8]) {
        Some(i) => if 0 <= i < raw.len() {
            if (exact && i + 1 == 2) || (!exact && i + 1 <= 2) {
                i + 1
            } else {
                i + 1 + stop_after(raw.skip(i + 1), exact)
            }
        } else {
            raw.len() as int
        },
        None => raw.len() as int,
    }
}

/// The bytes of a text as characters.
pub open spec fn as_chars(bytes: Seq<u8>) -> Seq<char> {
    bytes.map_values(|b: u8| b as char)
}

/// The status code: the number in the bytes 9 to 11 of the status line.
pub open spec fn status_of(header: Seq<u8>) -> Option<u16> {
    if header.len() >= 12 {
        match unsigned_value(as_chars(header.subrange(9, 12))) {
            Some(n) => if n <= 65535 {
                Some(n as u16)
            } else {
                None
            },
            None => None,
        }
    } else {
        None
    }
}

/// The header that a line declares: what stands before and after the first
/// colon, both trimmed and in lowercase. A line without colon declares none.
pub open spec fn response_pair(line: Seq<u8>) -> Option<(Seq<char>, Seq<char>)> {
    let parts = splitn_by(2, line, seq![58u8]);
    if parts.len() == 2 {
        Some(
            (
                lowercased(trim(lossy_text(parts[0]))),
                lowercased(trim(lossy_text(parts[1]))),
            ),
        )
    } else {
        None
    }
}

/// The headers that a list of lines declares.
pub open spec fn response_pairs(lines: Seq<Seq<u8>>) -> Seq<(Seq<char>, Seq<char>)>
    decreases lines.len(),
{
    if lines.len() == 0 {
        Seq::empty()
    } else {
        match response_pair(lines.last()) {
            Some(p) => response_pairs(lines.drop_last()).push(p),
            None => response_pairs(lines.drop_last()),
        }
    }
}

/// The lines of a response header, split at `\r\n`.
pub open spec fn response_lines(header: Seq<u8>) -> Seq<Seq<u8>> {
    split_by(header, seq![13u8, 10u8])
}

/// Whether a header is well formed: but for the status line and the two
/// empty pieces at its end, every line declares a header.
pub open spec fn well_formed(header: Seq<u8>) -> bool {
    response_pairs(response_lines(header)).len() + 3 >= response_lines(header).len()
}

/// The length that the headers declare for the body, if they declare one
/// that can be read.
pub open spec fn declared_body(pairs: Seq<(Seq<char>, Seq<char>)>) -> Option<usize> {
    match first_value(pairs, "content-length"@) {
        Some(v) => match unsigned_value(v) {
            Some(n) => if n <= usize::MAX {
                Some(n as usize)
            } else {
                None
            },
            None => None,
        },
        None => None,
    }
}

/// A response as mathematical values.
pub struct ResponseView {
    pub headers: Seq<(Seq<char>, Seq<char>)>,
    pub status: u16,
    pub body: Seq<u8>,
}

/// Why a response could not be read.
#[derive(Clone, Copy, Debug, PartialEq, Eq, Structural)]
pub enum ResponseError {
    /// Header or body is not valid UTF-8.
    NotText,
    /// There is no status code in the status line.
    NoStatus,
    /// A line of the header declares nothing.
    InvalidHeader,
    /// The body is shorter than its declared length.
    ShortBody,
}

impl ResponseError {
    /// The message of each failure.
    pub open spec fn text(self) -> Seq<char> {
        match self {
            ResponseError::NotText => "stream did not contain valid UTF-8"@,
            ResponseError::NoStatus => "status code not u16"@,
            ResponseError::InvalidHeader => "invalid header"@,
            ResponseError::ShortBody => "failed to fill whole buffer"@,
        }
    }

    /// The failure as a `Fail`.
    pub fn fail(self) -> (r: Box<Fail>)
        ensures
            r.0@ == self.text(),
    {
        match self {
            ResponseError::NotText => Fail::new("stream did not contain valid UTF-8"),
            ResponseError::NoStatus => Fail::new("status code not u16"),
            ResponseError::InvalidHeader => Fail::new("invalid header"),
            ResponseError::ShortBody => Fail::new("failed to fill whole buffer"),
        }
    }
}

/// Headers and status code of a header text.
pub open spec fn head_of(header: Seq<u8>) -> Result<(Seq<(Seq<char>, Seq<char>)>, u16), ResponseError> {
    match status_of(header) {
        None => Err(ResponseError::NoStatus),
        Some(status) => if well_formed(header) {
            Ok((response_pairs(response_lines(header)), status))
        } else {
            Err(ResponseError::InvalidHeader)
        },
    }
}

/// The response that the bytes of a stream hold. The header ends with the
/// first line of at most two bytes. The body has the declared length; where
/// none is declared it ends with the first line of exactly two bytes, or
/// with the stream.
pub open spec fn response_of(raw: Seq<u8>) -> Result<ResponseView, ResponseError> {
    let h = stop_after(raw, false);
    let header = raw.take(h);
    let rest = raw.skip(h);
    if !valid_utf8(header) {
        Err(ResponseError::NotText)
    } else {
        match head_of(header) {
            Err(e) => Err(e),
            Ok((headers, status)) => match declared_body(headers) {
                Some(n) => if rest.len() >= n {
                    Ok(ResponseView { headers, status, body: rest.take(n as int) })
                } else {
                    Err(ResponseError::ShortBody)
                },
                None => if valid_utf8(rest.take(stop_after(rest, true))) {
                    Ok(ResponseView { headers, status, body: rest.take(stop_after(rest, true)) })
                } else {
                    Err(ResponseError::NotText)
                },
            },
        }
    }
}

/// Where reading line by line stops, counted from `from`.
pub fn line_stop(raw: &[u8], from: usize, exact: bool) -> (r: usize)
    requires
        from <= raw.len(),
    ensures
        from <= r <= raw.len(),
        r == from + stop_after(raw@.skip(from as int), exact),
{
    let feed: Vec<u8> = vec![10u8];
    assert(feed@ =~= seq![10u8]);
    let mut pos: usize = from;
    loop
        invariant
            from <= pos <= raw.len(),
            feed@ == seq![10u8],
            pos + stop_after(raw@.skip(pos as int), exact) == from + stop_after(
                raw@.skip(from as int),
                exact,
            ),
        decreases raw.len() - pos,
    {
        let ghost rest = raw@.skip(pos as int);
        match scan_from(raw, feed.as_slice(), pos) {
            Some(p) => {
                proof {
                    lemma_find_is_first(rest, seq![10u8]);
                    assert(rest.skip(p - pos + 1) =~= raw@.skip(p + 1));
                }
                let len = p - pos + 1;
                if (exact && len == 2) || (!exact && len <= 2) {
                    return p + 1;
                }
                pos = p + 1;
            },
            None => {
                return raw.len();
            },
        }
    }
}

/// The status code of a header.
pub fn read_status(header: &[u8]) -> (r: Option<u16>)
    ensures
        r == status_of(header@),
{
    if header.len() < 12 {
        return None;
    }
    let mut digits: Vec<char> = Vec::new();
    let mut i: usize = 9;
    let ghost field = header@.subrange(9, 12);
    assert(as_chars(field).take(0) =~= Seq::<char>::empty());
    while i < 12
        invariant
            9 <= i <= 12,
            header.len() >= 12,
            field == header@.subrange(9, 12),
            digits@ == as_chars(field).take(i - 9),
        decreases 12 - i,
    {
        let c = header[i] as char;
        assert(as_chars(field)[i - 9] == c);
        digits.push(c);
        assert(digits@ =~= as_chars(field).take(i - 9 + 1));
        i += 1;
    }
    assert(as_chars(field).take(3) =~= as_chars(field));
    match parse_unsigned(digits.as_slice()) {
        Some(n) => {
            if n <= 65535 {
                Some(n as u16)
            } else {
                None
            }
        },
        None => None,
    }
}

/// The first value of the header with the given name.
pub fn find_first<'a>(pairs: &'a Vec<(String, String)>, name: &str) -> (r: Option<&'a String>)
    ensures
        match r {
            Some(v) => first_value(pairs_view(pairs@), name@) == Some(v@),
            None => first_value(pairs_view(pairs@), name@) is None,
        },
{
    let ghost all = pairs_view(pairs@);
    let mut i: usize = 0;
    assert(all.skip(0) =~= all);
    while i < pairs.len()
        invariant
            i <= pairs.len(),
            all == pairs_view(pairs@),
            first_value(all.skip(i as int), name@) == first_value(all, name@),
        decreases pairs.len() - i,
    {
        proof {
            assert(all.skip(i as int)[0] == all[i as int]);
            assert(all[i as int] == (pairs@[i as int].0@, pairs@[i as int].1@));
            assert(all.skip(i as int).skip(1) =~= all.skip(i + 1));
        }
        if str_eq(pairs[i].0.as_str(), name) {
            return Some(&pairs[i].1);
        }
        i += 1;
    }
    None
}

/// Reads status code and headers of a header text.
pub fn read_headers(raw_header: &[u8]) -> (r: Result<(Vec<(String, String)>, u16), ResponseError>)
    ensures
        match r {
            Ok(head) => head_of(raw_header@) == Ok::<
                (Seq<(Seq<char>, Seq<char>)>, u16),
                ResponseError,
            >((pairs_view(head.0@), head.1)),
            Err(e) => head_of(raw_header@) == Err::<
                (Seq<(Seq<char>, Seq<char>)>, u16),
                ResponseError,
            >(e),
        },
{
    let status = match read_status(raw_header) {
        Some(status) => status,
        None => {
            return Err(ResponseError::NoStatus);
        },
    };
    let sep: Vec<u8> = vec![13u8, 10u8];
    assert(sep@ =~= seq![13u8, 10u8]);
    let colon: Vec<u8> = vec![58u8];
    assert(colon@ =~= seq![58u8]);
    let lines = split(raw_header, sep.as_slice());
    let ghost ls = slice_views(lines@);
    let mut headers: Vec<(String, String)> = Vec::new();
    let mut i: usize = 0;
    assert(ls.take(0) =~= Seq::<Seq<u8>>::empty());
    assert(pairs_view(headers@) =~= Seq::<(Seq<char>, Seq<char>)>::empty());
    while i < lines.len()
        invariant
            i <= lines.len(),
            ls == slice_views(lines@),
            colon@ == seq![58u8],
            headers.len() <= i,
            pairs_view(headers@) == response_pairs(ls.take(i as int)),
        decreases lines.len() - i,
    {
        proof {
            assert(ls.take(i + 1).drop_last() =~= ls.take(i as int));
            assert(ls.take(i + 1).last() == lines@[i as int]@);
        }
        let parts = splitn(2, lines[i], colon.as_slice());
        if parts.len() == 2 {
            let ghost pv = slice_views(parts@);
            assert(pv[0] == parts[0]@ && pv[1] == parts[1]@);
            let key = chars_of(utf8_lossy(parts[0]).as_str());
            let value = chars_of(utf8_lossy(parts[1]).as_str());
            let k = lowercase_chars(trimmed(key.as_slice()).as_slice());
            let v = lowercase_chars(trimmed(value.as_slice()).as_slice());
            let ghost before = pairs_view(headers@);
            headers.push((k, v));
            assert(pairs_view(headers@) =~= before.push((k@, v@)));
        }
        i += 1;
    }
    assert(ls.take(i as int) =~= ls);
    if lines.len() > 3 && headers.len() < lines.len() - 3 {
        return Err(ResponseError::InvalidHeader);
    }
    Ok((headers, status))
}

/// An HTTP response.
#[derive(Debug)]
pub struct HttpResponse {
    headers: Vec<(String, String)>,
    status: u16,
    body: Vec<u8>,
}

impl View for HttpResponse {
    type V = ResponseView;

    closed spec fn view(&self) -> ResponseView {
        ResponseView { headers: pairs_view(self.headers@), status: self.status, body: self.body@ }
    }
}

impl HttpResponse {
    /// The headers, names and values in lowercase.
    pub fn headers(&self) -> (r: &Vec<(String, String)>)
        ensures
            pairs_view(r@) == self@.headers,
    {
        &self.headers
    }

    /// The first value of the header with the given name.
    pub fn header_first(&self, name: &str) -> (r: Option<&str>)
        ensures
            match r {
                Some(v) => first_value(self@.headers, name@) == Some(v@),
                None => first_value(self@.headers, name@) is None,
            },
    {
        match find_first(&self.headers, name) {
            Some(v) => Some(v.as_str()),
            None => None,
        }
    }

    /// The status code.
    pub fn status(&self) -> (r: u16)
        ensures
            r == self@.status,
    {
        self.status
    }

    /// The body.
    pub fn body(&self) -> (r: &[u8])
        ensures
            r@ == self@.body,
    {
        self.body.as_slice()
    }

    /// The body as text, where it is valid UTF-8.
    pub fn body_text(&self) -> (r: Result<&str, Box<Fail>>)
        ensures
            match r {
                Ok(text) => valid_utf8(self@.body) && text@ == decode_utf8(self@.body),
                Err(fail) => !valid_utf8(self@.body) && fail.0@ == ResponseError::NotText.text(),
            },
    {
        match utf8_str(self.body.as_slice()) {
            Some(text) => Ok(text),
            None => Err(ResponseError::NotText.fail()),
        }
    }
}

/// Reads a response from all the bytes that the stream gave.
pub fn read_all(raw: &[u8]) -> (r: Result<HttpResponse, Box<Fail>>)
    ensures
        match r {
            Ok(response) => response_of(raw@) == Ok::<ResponseView, ResponseError>(response@),
            Err(fail) => response_of(raw@) is Err && fail.0@ == response_of(raw@)->Err_0.text(),
        },
{
    assert(raw@.skip(0) =~= raw@);
    let h = line_stop(raw, 0, false);
    let header = slice_subrange(raw, 0, h);
    assert(header@ =~= raw@.take(h as int));
    let ghost rest = raw@.skip(h as int);
    if utf8_str(header).is_none() {
        return Err(ResponseError::NotText.fail());
    }
    let (headers, status) = match read_headers(header) {
        Ok(head) => head,
        Err(e) => {
            return Err(e.fail());
        },
    };
    let declared = match find_first(&headers, "content-length") {
        Some(v) => {
            let chars = chars_of(v.as_str());
            parse_unsigned(chars.as_slice())
        },
        None => None,
    };
    match declared {
        Some(n) => {
            if raw.len() - h >= n {
                let body = slice_to_vec(slice_subrange(raw, h, h + n));
                assert(body@ =~= rest.take(n as int));
                Ok(HttpResponse { headers, status, body })
            } else {
                Err(ResponseError::ShortBody.fail())
            }
        },
        None => {
            let end = line_stop(raw, h, true);
            let content = slice_subrange(raw, h, end);
            assert(content@ =~= rest.take(stop_after(rest, true)));
            if utf8_str(content).is_none() {
                return Err(ResponseError::NotText.fail());
            }
            let body = slice_to_vec(content);
            Ok(HttpResponse { headers, status, body })
        },
    }
}

} // verus!
