//! HTTP request parsing.

use vstd::prelude::*;
use vstd::utf8::{decode_utf8, encode_utf8, valid_utf8};
use crate::dict::{as_map, distinct_keys, has_key, put, lemma_put, Dict};
use crate::byte::{ends_with, split, splitn};
use crate::seqs::{
    find, matches_at, slice_views, split_by, splitn_by, views, lemma_find_is_first,
    lemma_splitn_three_last, lemma_splitn_two, lemma_suffix_of_skip,
};
use vstd::slice::{slice_subrange, slice_to_vec};
use crate::text::{
    after, before, chars_of, lines, lines_of, lossy_text, lowercase_chars, lowercased, part,
    parse_unsigned, same, split_char, split_once, starts_with, string_of, trim, trimmed,
    unsigned_value, utf8_lossy, utf8_text,
};
use crate::http::server::settings::HttpSettings;
use crate::http::server::error::HttpError;

verus! {

/// HTTP request method (GET or POST).
#[derive(Clone, Copy, Debug, PartialEq, Eq, Structural)]
pub enum HttpMethod {
    Get,
    Post,
}

/// A list of named texts, in order.
pub type TextEntries = Seq<(Seq<char>, Seq<char>)>;

/// A list of named byte strings, in order.
pub type ByteEntries = Seq<(Seq<char>, Seq<u8>)>;

/// The request line: the first line of the header, or nothing.
pub open spec fn request_line(header: Seq<char>) -> Seq<char> {
    if lines(header).len() > 0 {
        lines(header)[0]
    } else {
        Seq::empty()
    }
}

/// The lines of the header after the request line.
pub open spec fn header_lines(header: Seq<char>) -> Seq<Seq<char>> {
    if lines(header).len() > 0 {
        lines(header).skip(1)
    } else {
        Seq::empty()
    }
}

/// The method that a request line names: POST where its first word is
/// `POST`, GET for anything else.
pub open spec fn method_in(line: Seq<char>) -> HttpMethod {
    if split_by(line, seq![' '])[0] == "POST"@ {
        HttpMethod::Post
    } else {
        HttpMethod::Get
    }
}

/// The request target: the second word of the request line, if there is one.
pub open spec fn target_in(line: Seq<char>) -> Option<Seq<char>> {
    let words = split_by(line, seq![' ']);
    if words.len() > 1 {
        Some(words[1])
    } else {
        None
    }
}

/// The path: the target up to its first `?`, or `/` without a target.
pub open spec fn path_in(line: Seq<char>) -> Seq<char> {
    match target_in(line) {
        Some(target) => before(target, '?'),
        None => "/"@,
    }
}

/// The raw query: what follows the first `?` of the target.
pub open spec fn query_in(line: Seq<char>) -> Seq<char> {
    match target_in(line) {
        Some(target) => match after(target, '?') {
            Some(q) => q,
            None => Seq::empty(),
        },
        None => Seq::empty(),
    }
}

/// The method of a request.
pub open spec fn method_of(header: Seq<char>) -> HttpMethod {
    method_in(request_line(header))
}

/// The path of a request.
pub open spec fn path_of(header: Seq<char>) -> Seq<char> {
    path_in(request_line(header))
}

/// The raw query of a request.
pub open spec fn query_of(header: Seq<char>) -> Seq<char> {
    query_in(request_line(header))
}

/// The headers that a list of lines declares. A line without a colon
/// declares nothing; the key is what stands before the first colon, trimmed
/// and in lowercase; the value is the trimmed rest. A later line replaces an
/// earlier one with the same key.
pub open spec fn header_entries(ls: Seq<Seq<char>>) -> TextEntries
    decreases ls.len(),
{
    if ls.len() == 0 {
        Seq::empty()
    } else {
        let earlier = header_entries(ls.drop_last());
        match after(ls.last(), ':') {
            Some(value) => put(earlier, lowercased(trim(before(ls.last(), ':'))), trim(value)),
            None => earlier,
        }
    }
}

/// The headers of a request.
pub open spec fn headers_of(header: Seq<char>) -> TextEntries {
    header_entries(header_lines(header))
}

/// The parameter that one `key=value` segment declares: the key trimmed and
/// in lowercase, the value trimmed, and empty where there is no `=`.
pub open spec fn parameter_entry(segment: Seq<char>) -> (Seq<char>, Seq<char>) {
    (
        lowercased(trim(before(segment, '='))),
        match after(segment, '=') {
            Some(value) => trim(value),
            None => Seq::empty(),
        },
    )
}

/// The parameters that a list of segments declares, later ones replacing
/// earlier ones with the same key.
pub open spec fn parameter_entries(segments: Seq<Seq<char>>) -> TextEntries
    decreases segments.len(),
{
    if segments.len() == 0 {
        Seq::empty()
    } else {
        let e = parameter_entry(segments.last());
        put(parameter_entries(segments.drop_last()), e.0, e.1)
    }
}

/// The parameters of `key=value&key2=value2` text.
pub open spec fn parameters_of(raw: Seq<char>) -> TextEntries {
    parameter_entries(split_by(raw, seq!['&']))
}

/// The keys of parsed headers are distinct.
pub proof fn lemma_header_entries_distinct(ls: Seq<Seq<char>>)
    ensures
        distinct_keys(header_entries(ls)),
    decreases ls.len(),
{
    if ls.len() > 0 {
        lemma_header_entries_distinct(ls.drop_last());
        match after(ls.last(), ':') {
            Some(value) => {
                lemma_put(
                    header_entries(ls.drop_last()),
                    lowercased(trim(before(ls.last(), ':'))),
                    trim(value),
                );
            },
            None => {},
        }
    }
}

/// Of two header lines with the same key, the later one decides the value:
/// the value of a key is that of the last line which declares it.
pub proof fn law_last_header_wins(ls: Seq<Seq<char>>, i: int)
    requires
        0 <= i < ls.len(),
        after(ls[i], ':') is Some,
        forall|j: int|
            i < j < ls.len() && after(#[trigger] ls[j], ':') is Some ==> lowercased(
                trim(before(ls[j], ':')),
            ) != lowercased(trim(before(ls[i], ':'))),
    ensures
        as_map(header_entries(ls)).contains_key(lowercased(trim(before(ls[i], ':')))),
        as_map(header_entries(ls))[lowercased(trim(before(ls[i], ':')))] == trim(
            after(ls[i], ':')->Some_0,
        ),
    decreases ls.len(),
{
    let key = lowercased(trim(before(ls[i], ':')));
    let earlier = ls.drop_last();
    lemma_header_entries_distinct(earlier);
    if i == ls.len() - 1 {
        lemma_put(header_entries(earlier), key, trim(after(ls[i], ':')->Some_0));
    } else {
        assert(earlier[i] == ls[i]);
        assert forall|j: int| i < j < earlier.len() && after(#[trigger] earlier[j], ':') is Some
            implies lowercased(trim(before(earlier[j], ':'))) != key by {
            assert(earlier[j] == ls[j]);
        }
        law_last_header_wins(earlier, i);
        match after(ls.last(), ':') {
            Some(value) => {
                let k2 = lowercased(trim(before(ls.last(), ':')));
                assert(ls.last() == ls[ls.len() - 1]);
                assert(k2 != key);
                lemma_put(header_entries(earlier), k2, trim(value));
            },
            None => {},
        }
    }
}

/// Reads the request line: the method, the path and the raw query.
pub fn parse_request_line(line: &[char]) -> (r: (HttpMethod, Vec<char>, Vec<char>))
    ensures
        r.0 == method_in(line@),
        r.1@ == path_in(line@),
        r.2@ == query_in(line@),
{
    let words = split_char(line, ' ');
    let ghost word_views = views(words@);
    assert(word_views[0] == words[0]@);
    let post = chars_of("POST");
    let method = if same(words[0].as_slice(), post.as_slice()) {
        HttpMethod::Post
    } else {
        HttpMethod::Get
    };
    if words.len() > 1 {
        assert(word_views[1] == words[1]@);
        let (path, query) = split_once(words[1].as_slice(), '?');
        match query {
            Some(q) => (method, path, q),
            None => (method, path, Vec::new()),
        }
    } else {
        (method, chars_of("/"), Vec::new())
    }
}

/// Reads the header lines that follow the request line.
pub fn parse_headers(header_lines: &Vec<Vec<char>>) -> (r: Dict<String>)
    ensures
        r.entries() == header_entries(
            if header_lines.len() > 0 {
                views(header_lines@).skip(1)
            } else {
                Seq::empty()
            },
        ),
{
    let mut headers: Dict<String> = Dict::new();
    if header_lines.len() == 0 {
        return headers;
    }
    let ghost ls = views(header_lines@).skip(1);
    let mut i: usize = 1;
    assert(ls.take(0) =~= Seq::<Seq<char>>::empty());
    while i < header_lines.len()
        invariant
            1 <= i <= header_lines.len(),
            ls == views(header_lines@).skip(1),
            headers.entries() == header_entries(ls.take(i - 1)),
        decreases header_lines.len() - i,
    {
        let line = &header_lines[i];
        proof {
            assert(ls.take(i as int).drop_last() =~= ls.take(i - 1));
            assert(ls.take(i as int).last() == line@);
        }
        let (key, value) = split_once(line.as_slice(), ':');
        match value {
            Some(v) => {
                let k = lowercase_chars(trimmed(key.as_slice()).as_slice());
                let val = string_of(trimmed(v.as_slice()).as_slice());
                headers.insert(k, val);
            },
            None => {},
        }
        i += 1;
    }
    assert(ls.take(i - 1) =~= ls);
    headers
}

/// Parses `key=value&key2=value2` text into a dictionary.
pub fn parse_parameters(raw: &[char]) -> (r: Dict<String>)
    ensures
        r.entries() == parameters_of(raw@),
{
    let segments = split_char(raw, '&');
    let ghost segs = views(segments@);
    let mut params: Dict<String> = Dict::new();
    let mut i: usize = 0;
    assert(segs.take(0) =~= Seq::<Seq<char>>::empty());
    while i < segments.len()
        invariant
            i <= segments.len(),
            segs == views(segments@),
            params.entries() == parameter_entries(segs.take(i as int)),
        decreases segments.len() - i,
    {
        let segment = &segments[i];
        proof {
            assert(segs.take(i + 1).drop_last() =~= segs.take(i as int));
            assert(segs.take(i + 1).last() == segment@);
        }
        let (key, value) = split_once(segment.as_slice(), '=');
        let k = lowercase_chars(trimmed(key.as_slice()).as_slice());
        let val = match value {
            Some(v) => string_of(trimmed(v.as_slice()).as_slice()),
            None => String::new(),
        };
        params.insert(k, val);
        i += 1;
    }
    assert(segs.take(i as int) =~= segs);
    params
}

/// The bytes `\r\n`.
pub open spec fn crlf() -> Seq<u8> {
    seq![13u8, 10u8]
}

/// The line that opens a multipart section: `--`, the boundary, `\r\n`.
pub open spec fn opening(boundary: Seq<char>) -> Seq<u8> {
    seq![45u8, 45u8] + encode_utf8(boundary) + crlf()
}

/// The line that closes a multipart body: `--`, the boundary, `--\r\n`.
pub open spec fn closing(boundary: Seq<char>) -> Seq<u8> {
    seq![45u8, 45u8] + encode_utf8(boundary) + seq![45u8, 45u8] + crlf()
}

/// The value of an attribute `prefix...=value`: what stands between the first
/// `=` of `attr` and the next, where `attr` begins with `prefix`.
pub open spec fn attr_value(attr: Seq<char>, prefix: Seq<char>) -> Option<Seq<char>> {
    if prefix.is_prefix_of(attr) {
        match after(attr, '=') {
            Some(rest) => Some(before(rest, '=')),
            None => None,
        }
    } else {
        None
    }
}

/// The boundary that the first `boundary=` attribute among `attrs` gives.
pub open spec fn boundary_among(attrs: Seq<Seq<char>>) -> Option<Seq<char>>
    decreases attrs.len(),
{
    if attrs.len() == 0 {
        None
    } else {
        match attr_value(trim(attrs[0]), "boundary="@) {
            Some(b) => Some(b),
            None => boundary_among(attrs.skip(1)),
        }
    }
}

/// The field name that an attribute `name="..."` gives: its value without
/// the first and the last character, in lowercase.
pub open spec fn quoted_name(attr: Seq<char>) -> Option<Seq<char>> {
    match attr_value(attr, "name="@) {
        Some(v) => if v.len() >= 2 {
            Some(lowercased(v.subrange(1, v.len() - 1)))
        } else {
            None
        },
        None => None,
    }
}

/// The field name that the first `name="..."` attribute among `attrs` gives.
pub open spec fn name_among(attrs: Seq<Seq<char>>) -> Option<Seq<char>>
    decreases attrs.len(),
{
    if attrs.len() == 0 {
        None
    } else {
        match quoted_name(trim(attrs[0])) {
            Some(n) => Some(n),
            None => name_among(attrs.skip(1)),
        }
    }
}

/// The field name in the first line of a multipart section.
pub open spec fn field_name_of(line: Seq<u8>) -> Option<Seq<char>> {
    name_among(split_by(lossy_text(line), seq![';']))
}

/// A section without the closing line and the line break before it, where
/// it ends with the closing line.
pub open spec fn section_body(section: Seq<u8>, closing_line: Seq<u8>) -> Seq<u8> {
    if closing_line.is_suffix_of(section) {
        if section.len() >= closing_line.len() + 2 {
            section.take(section.len() - closing_line.len() - 2)
        } else {
            Seq::empty()
        }
    } else {
        section
    }
}

/// The value in the data part of a section: the part is split once at a line
/// break; an empty first line gives the rest, an empty or missing rest gives
/// the first line, and otherwise both are kept with the line break.
pub open spec fn field_value(data: Seq<u8>) -> Seq<u8> {
    let parts = splitn_by(2, data, crlf());
    if parts.len() > 1 {
        if parts[0].len() == 0 {
            parts[1]
        } else if parts[1].len() == 0 {
            parts[0]
        } else {
            parts[0] + crlf() + parts[1]
        }
    } else {
        parts[0]
    }
}

/// The field that one multipart section declares.
pub open spec fn section_field(section: Seq<u8>, closing_line: Seq<u8>) -> Result<
    (Seq<char>, Seq<u8>),
    HttpError,
> {
    let parts = splitn_by(3, section_body(section, closing_line), crlf());
    match field_name_of(parts[0]) {
        None => Err(HttpError::MissingFieldName),
        Some(name) => if parts.len() < 3 {
            Err(HttpError::MalformedSection)
        } else {
            Ok((name, field_value(parts[2])))
        },
    }
}

/// The fields that a list of multipart sections declares; the first section
/// that is broken decides the error.
pub open spec fn multipart_entries(sections: Seq<Seq<u8>>, closing_line: Seq<u8>) -> Result<
    ByteEntries,
    HttpError,
>
    decreases sections.len(),
{
    if sections.len() == 0 {
        Ok(Seq::empty())
    } else {
        match multipart_entries(sections.drop_last(), closing_line) {
            Err(e) => Err(e),
            Ok(earlier) => match section_field(sections.last(), closing_line) {
                Err(e) => Err(e),
                Ok(field) => Ok(put(earlier, field.0, field.1)),
            },
        }
    }
}

/// The fields of a multipart body: the body is split at the opening lines,
/// and what stands before the first of them is dropped.
pub open spec fn multipart_of(body: Seq<u8>, boundary: Seq<char>) -> Result<ByteEntries, HttpError> {
    multipart_entries(split_by(body, opening(boundary)).skip(1), closing(boundary))
}

/// Text entries with each value as its UTF-8 bytes.
pub open spec fn bytes_entries(entries: TextEntries) -> ByteEntries {
    entries.map_values(|e: (Seq<char>, Seq<char>)| (e.0, encode_utf8(e.1)))
}

/// Byte entries with each value read as text, malformed bytes replaced.
pub open spec fn lossy_entries(entries: ByteEntries) -> TextEntries {
    entries.map_values(|e: (Seq<char>, Seq<u8>)| (e.0, lossy_text(e.1)))
}

/// Whether a content type names a multipart form: its first attribute is
/// `multipart/form-data`.
pub open spec fn is_multipart(content_type: Seq<char>) -> bool {
    trim(split_by(content_type, seq![';'])[0]) == "multipart/form-data"@
}

/// The form fields of a body under the given headers.
pub open spec fn form_of(headers: Map<Seq<char>, Seq<char>>, body: Seq<u8>) -> Result<
    ByteEntries,
    HttpError,
> {
    if headers.contains_key("content-type"@) && is_multipart(headers["content-type"@]) {
        match boundary_among(split_by(headers["content-type"@], seq![';'])) {
            Some(boundary) => multipart_of(body, boundary),
            None => Err(HttpError::MissingBoundary),
        }
    } else if valid_utf8(body) {
        Ok(bytes_entries(parameters_of(decode_utf8(body))))
    } else {
        Err(HttpError::InvalidFormEncoding)
    }
}

/// A text ends with a line break.
pub open spec fn ends_with_line_break(c: Seq<u8>) -> bool {
    c.len() >= 2 && c[c.len() - 2] == 13u8 && c[c.len() - 1] == 10u8
}

/// The value of a data part is the end of that part, or it holds no line
/// break at all.
pub proof fn lemma_field_value(data: Seq<u8>)
    ensures
        (exists|k: int| 0 <= k <= data.len() && field_value(data) == #[trigger] data.skip(k)) || (
        forall|j: int| 0 <= j ==> !matches_at(field_value(data), crlf(), j)),
{
    lemma_splitn_two(data, crlf());
    lemma_find_is_first(data, crlf());
    match find(data, crlf()) {
        Some(i) => {
            let first = data.take(i);
            let rest = data.skip(i + 2);
            if first.len() == 0 {
                assert(field_value(data) == data.skip(i + 2));
            } else if rest.len() == 0 {
                assert(field_value(data) == first);
                assert forall|j: int| 0 <= j implies !matches_at(first, crlf(), j) by {
                    if matches_at(first, crlf(), j) {
                        assert(data.subrange(j, j + 2) =~= first.subrange(j, j + 2));
                        assert(matches_at(data, crlf(), j));
                    }
                }
            } else {
                assert(first + crlf() + rest =~= data);
                assert(data.skip(0) =~= data);
                assert(field_value(data) == data.skip(0));
            }
        },
        None => {
            assert(data.skip(0) =~= data);
            assert(field_value(data) == data.skip(0));
        },
    }
}

/// The closing line belongs to no value. Where a section, once its closing
/// line is cut, does not end with the text of the closing line again, its
/// value does not end with the closing line.
pub proof fn law_value_without_closing_line(section: Seq<u8>, closing_line: Seq<u8>)
    requires
        ends_with_line_break(closing_line),
        !closing_line.is_suffix_of(section_body(section, closing_line)),
        section_field(section, closing_line) is Ok,
    ensures
        !closing_line.is_suffix_of(section_field(section, closing_line)->Ok_0.1),
{
    let content = section_body(section, closing_line);
    let parts = splitn_by(3, content, crlf());
    let data = parts[2];
    let value = field_value(data);
    assert(section_field(section, closing_line)->Ok_0.1 == value);
    lemma_splitn_three_last(content, crlf());
    let k = choose|k: int| 0 <= k <= content.len() && data == #[trigger] content.skip(k);
    lemma_field_value(data);
    if closing_line.is_suffix_of(value) {
        if exists|m: int| 0 <= m <= data.len() && value == #[trigger] data.skip(m) {
            let m = choose|m: int| 0 <= m <= data.len() && value == #[trigger] data.skip(m);
            lemma_suffix_of_skip(closing_line, data, m);
            lemma_suffix_of_skip(closing_line, content, k);
        } else {
            let at = value.len() - 2;
            assert(value.subrange(at, at + 2) =~= closing_line.subrange(
                closing_line.len() - 2,
                closing_line.len() as int,
            ));
            assert(closing_line.subrange(closing_line.len() - 2, closing_line.len() as int)
                =~= crlf());
            assert(matches_at(value, crlf(), at));
        }
    }
}

/// The same of a whole body: where no section, once its closing line is cut,
/// ends with the text of the closing line again, no value of the form ends
/// with the closing line.
pub proof fn law_no_value_ends_with_closing_line(sections: Seq<Seq<u8>>, closing_line: Seq<u8>)
    requires
        ends_with_line_break(closing_line),
        forall|i: int|
            0 <= i < sections.len() ==> !closing_line.is_suffix_of(
                section_body(#[trigger] sections[i], closing_line),
            ),
        multipart_entries(sections, closing_line) is Ok,
    ensures
        forall|j: int|
            0 <= j < multipart_entries(sections, closing_line)->Ok_0.len()
                ==> !closing_line.is_suffix_of(
                (#[trigger] multipart_entries(sections, closing_line)->Ok_0[j]).1,
            ),
    decreases sections.len(),
{
    if sections.len() > 0 {
        let earlier = sections.drop_last();
        assert forall|i: int| 0 <= i < earlier.len() implies !closing_line.is_suffix_of(
            section_body(#[trigger] earlier[i], closing_line),
        ) by {
            assert(earlier[i] == sections[i]);
        }
        law_no_value_ends_with_closing_line(earlier, closing_line);
        assert(sections.last() == sections[sections.len() - 1]);
        law_value_without_closing_line(sections.last(), closing_line);
        let before = multipart_entries(earlier, closing_line)->Ok_0;
        let field = section_field(sections.last(), closing_line)->Ok_0;
        let after = put(before, field.0, field.1);
        assert(multipart_entries(sections, closing_line)->Ok_0 == after);
        assert forall|j: int| 0 <= j < after.len() implies !closing_line.is_suffix_of(
            (#[trigger] after[j]).1,
        ) by {
            if has_key(before, field.0) {
                let p = crate::dict::key_index(before, field.0);
                if j != p {
                    assert(after[j] == before[j]);
                }
            } else {
                if j < before.len() {
                    assert(after[j] == before[j]);
                }
            }
        }
    }
}

/// The closing line of every boundary ends with a line break.
pub proof fn lemma_closing_ends_with_line_break(boundary: Seq<char>)
    ensures
        ends_with_line_break(closing(boundary)),
{
    let c = closing(boundary);
    let head = seq![45u8, 45u8] + encode_utf8(boundary) + seq![45u8, 45u8];
    assert(c == head + crlf());
    assert(c[c.len() - 2] == crlf()[0]);
    assert(c[c.len() - 1] == crlf()[1]);
}

/// The same of what `multipart_of` gives for a body: no field of a form
/// ends with the closing line, as long as no section holds the text of the
/// closing line a second time at its end.
pub proof fn law_multipart_without_closing_line(body: Seq<u8>, boundary: Seq<char>)
    requires
        forall|i: int|
            1 <= i < split_by(body, opening(boundary)).len() ==> !closing(boundary).is_suffix_of(
                section_body(#[trigger] split_by(body, opening(boundary))[i], closing(boundary)),
            ),
        multipart_of(body, boundary) is Ok,
    ensures
        forall|j: int|
            0 <= j < multipart_of(body, boundary)->Ok_0.len() ==> !closing(boundary).is_suffix_of(
                (#[trigger] multipart_of(body, boundary)->Ok_0[j]).1,
            ),
{
    let all = split_by(body, opening(boundary));
    let sections = all.skip(1);
    lemma_closing_ends_with_line_break(boundary);
    assert forall|i: int| 0 <= i < sections.len() implies !closing(boundary).is_suffix_of(
        section_body(#[trigger] sections[i], closing(boundary)),
    ) by {
        assert(sections[i] == all[i + 1]);
    }
    law_no_value_ends_with_closing_line(sections, closing(boundary));
}

/// Once a section is broken, sections after it change nothing.
pub proof fn lemma_multipart_error_stays(
    sections: Seq<Seq<u8>>,
    closing_line: Seq<u8>,
    k: int,
)
    requires
        0 <= k <= sections.len(),
        multipart_entries(sections.take(k), closing_line) is Err,
    ensures
        multipart_entries(sections, closing_line) == multipart_entries(
            sections.take(k),
            closing_line,
        ),
    decreases sections.len() - k,
{
    if k == sections.len() {
        assert(sections.take(k) =~= sections);
    } else {
        assert(sections.drop_last().take(k) =~= sections.take(k));
        lemma_multipart_error_stays(sections.drop_last(), closing_line, k);
    }
}

/// The value that follows `prefix...=` in a trimmed attribute.
fn attr_value_of(attr: &[char], prefix: &[char]) -> (r: Option<Vec<char>>)
    ensures
        match r {
            Some(v) => attr_value(attr@, prefix@) == Some(v@),
            None => attr_value(attr@, prefix@) is None,
        },
{
    if starts_with(attr, prefix) {
        let (_, rest) = split_once(attr, '=');
        match rest {
            Some(rest) => {
                let (value, _) = split_once(rest.as_slice(), '=');
                Some(value)
            },
            None => None,
        }
    } else {
        None
    }
}

/// The boundary named in a content type.
pub fn boundary_in(content_type: &[char]) -> (r: Option<Vec<char>>)
    ensures
        match r {
            Some(b) => boundary_among(split_by(content_type@, seq![';'])) == Some(b@),
            None => boundary_among(split_by(content_type@, seq![';'])) is None,
        },
{
    let attrs = split_char(content_type, ';');
    let prefix = chars_of("boundary=");
    let ghost all = views(attrs@);
    let mut i: usize = 0;
    assert(all.skip(0) =~= all);
    while i < attrs.len()
        invariant
            i <= attrs.len(),
            all == views(attrs@),
            all == split_by(content_type@, seq![';']),
            prefix@ == "boundary="@,
            boundary_among(all.skip(i as int)) == boundary_among(all),
        decreases attrs.len() - i,
    {
        let attr = trimmed(attrs[i].as_slice());
        proof {
            assert(all.skip(i as int)[0] == attrs[i as int]@);
            assert(all.skip(i as int).skip(1) =~= all.skip(i + 1));
        }
        match attr_value_of(attr.as_slice(), prefix.as_slice()) {
            Some(b) => {
                return Some(b);
            },
            None => {},
        }
        i += 1;
    }
    None
}

/// The field name that the text of a section's first line gives: the line
/// is split at `;`, and the first attribute `name="..."` decides.
pub fn name_in(text: &[char]) -> (r: Option<String>)
    ensures
        match r {
            Some(n) => name_among(split_by(text@, seq![';'])) == Some(n@),
            None => name_among(split_by(text@, seq![';'])) is None,
        },
{
    let attrs = split_char(text, ';');
    let prefix = chars_of("name=");
    let ghost all = views(attrs@);
    let mut i: usize = 0;
    assert(all.skip(0) =~= all);
    while i < attrs.len()
        invariant
            i <= attrs.len(),
            all == views(attrs@),
            all == split_by(text@, seq![';']),
            prefix@ == "name="@,
            name_among(all.skip(i as int)) == name_among(all),
        decreases attrs.len() - i,
    {
        let attr = trimmed(attrs[i].as_slice());
        proof {
            assert(all.skip(i as int)[0] == attrs[i as int]@);
            assert(all.skip(i as int).skip(1) =~= all.skip(i + 1));
        }
        match attr_value_of(attr.as_slice(), prefix.as_slice()) {
            Some(v) => {
                if v.len() >= 2 {
                    let inner = part(v.as_slice(), 1, v.len() - 1);
                    return Some(lowercase_chars(inner.as_slice()));
                }
            },
            None => {},
        }
        i += 1;
    }
    None
}

/// The field name in the first line of a multipart section: the line is
/// read as text, malformed bytes replaced, and the text gives the name.
pub fn field_name(line: &[u8]) -> (r: Option<String>)
    ensures
        match r {
            Some(n) => field_name_of(line@) == Some(n@),
            None => field_name_of(line@) is None,
        },
{
    let text = utf8_lossy(line);
    let chars = chars_of(text.as_str());
    name_in(chars.as_slice())
}

/// The value in the data part of a multipart section.
pub fn field_value_of(data: &[u8]) -> (r: Vec<u8>)
    ensures
        r@ == field_value(data@),
{
    let sep: Vec<u8> = vec![13u8, 10u8];
    assert(sep@ =~= crlf());
    let parts = splitn(2, data, sep.as_slice());
    let ghost pv = slice_views(parts@);
    assert(pv[0] == parts[0]@);
    if parts.len() > 1 {
        assert(pv[1] == parts[1]@);
        if parts[0].len() == 0 {
            slice_to_vec(parts[1])
        } else if parts[1].len() == 0 {
            slice_to_vec(parts[0])
        } else {
            let mut value = slice_to_vec(parts[0]);
            value.push(13u8);
            value.push(10u8);
            value.extend_from_slice(parts[1]);
            assert(value@ =~= parts[0]@ + crlf() + parts[1]@);
            value
        }
    } else {
        slice_to_vec(parts[0])
    }
}

/// Reads one multipart section.
pub fn parse_section(section: &[u8], closing_line: &[u8]) -> (r: Result<(String, Vec<u8>), HttpError>)
    ensures
        match r {
            Ok(field) => section_field(section@, closing_line@) == Ok::<
                (Seq<char>, Seq<u8>),
                HttpError,
            >((field.0@, field.1@)),
            Err(e) => section_field(section@, closing_line@) == Err::<
                (Seq<char>, Seq<u8>),
                HttpError,
            >(e),
        },
{
    let content: &[u8] = if ends_with(section, closing_line) {
        if section.len() - closing_line.len() >= 2 {
            slice_subrange(section, 0, section.len() - closing_line.len() - 2)
        } else {
            slice_subrange(section, 0, 0)
        }
    } else {
        section
    };
    assert(content@ =~= section_body(section@, closing_line@));
    let sep: Vec<u8> = vec![13u8, 10u8];
    assert(sep@ =~= crlf());
    let parts = splitn(3, content, sep.as_slice());
    let ghost pv = slice_views(parts@);
    assert(pv[0] == parts[0]@);
    match field_name(parts[0]) {
        None => Err(HttpError::MissingFieldName),
        Some(name) => {
            if parts.len() < 3 {
                Err(HttpError::MalformedSection)
            } else {
                assert(pv[2] == parts[2]@);
                Ok((name, field_value_of(parts[2])))
            }
        },
    }
}

/// Parses a multipart body into its fields.
pub fn parse_post_upload(body: &[u8], boundary: &str) -> (r: Result<Dict<Vec<u8>>, HttpError>)
    ensures
        match r {
            Ok(fields) => multipart_of(body@, boundary@) == Ok::<ByteEntries, HttpError>(
                fields.entries(),
            ),
            Err(e) => multipart_of(body@, boundary@) == Err::<ByteEntries, HttpError>(e),
        },
{
    let mut opening_line: Vec<u8> = vec![45u8, 45u8];
    opening_line.extend_from_slice(boundary.as_bytes());
    opening_line.push(13u8);
    opening_line.push(10u8);
    assert(opening_line@ =~= opening(boundary@));
    let mut closing_line: Vec<u8> = vec![45u8, 45u8];
    closing_line.extend_from_slice(boundary.as_bytes());
    closing_line.push(45u8);
    closing_line.push(45u8);
    closing_line.push(13u8);
    closing_line.push(10u8);
    assert(closing_line@ =~= closing(boundary@));
    let sections = split(body, opening_line.as_slice());
    let ghost secs = slice_views(sections@).skip(1);
    let mut params: Dict<Vec<u8>> = Dict::new();
    let mut i: usize = 1;
    assert(secs.take(0) =~= Seq::<Seq<u8>>::empty());
    while i < sections.len()
        invariant
            1 <= i <= sections.len(),
            secs == slice_views(sections@).skip(1),
            slice_views(sections@) == split_by(body@, opening(boundary@)),
            closing_line@ == closing(boundary@),
            multipart_entries(secs.take(i - 1), closing_line@) == Ok::<ByteEntries, HttpError>(
                params.entries(),
            ),
        decreases sections.len() - i,
    {
        proof {
            assert(secs.take(i as int).drop_last() =~= secs.take(i - 1));
            assert(secs.take(i as int).last() == sections[i as int]@);
        }
        match parse_section(sections[i], closing_line.as_slice()) {
            Err(e) => {
                proof {
                    lemma_multipart_error_stays(secs, closing_line@, i as int);
                }
                return Err(e);
            },
            Ok((name, value)) => {
                params.insert(name, value);
            },
        }
        i += 1;
    }
    assert(secs.take(i - 1) =~= secs);
    Ok(params)
}

/// The same entries with each value as its UTF-8 bytes.
pub fn as_bytes_dict(params: &Dict<String>) -> (r: Dict<Vec<u8>>)
    ensures
        r.entries() == bytes_entries(params.entries()),
{
    let mut out: Dict<Vec<u8>> = Dict::new();
    let n = params.len();
    let ghost target = bytes_entries(params.entries());
    let mut i: usize = 0;
    assert(target.take(0) =~= Seq::<(Seq<char>, Seq<u8>)>::empty());
    while i < n
        invariant
            i <= n,
            n == params.entries().len(),
            distinct_keys(params.entries()),
            target == bytes_entries(params.entries()),
            out.entries() == target.take(i as int),
        decreases n - i,
    {
        let key = params.key_at(i).clone();
        let value = slice_to_vec(params.value_at(i).as_str().as_bytes());
        proof {
            let so_far = target.take(i as int);
            if has_key(so_far, key@) {
                let j = choose|j: int| 0 <= j < so_far.len() && #[trigger] so_far[j].0 == key@;
                assert(params.entries()[j].0 == params.entries()[i as int].0);
            }
            assert(target.take(i + 1) =~= so_far.push((key@, value@)));
        }
        out.insert(key, value);
        i += 1;
    }
    assert(target.take(i as int) =~= target);
    out
}

/// Parses the form fields of a body: a multipart form where the content type
/// says so, `key=value` pairs otherwise.
pub fn parse_post(headers: &Dict<String>, body: &[u8]) -> (r: Result<Dict<Vec<u8>>, HttpError>)
    ensures
        match r {
            Ok(fields) => form_of(headers@, body@) == Ok::<ByteEntries, HttpError>(
                fields.entries(),
            ),
            Err(e) => form_of(headers@, body@) == Err::<ByteEntries, HttpError>(e),
        },
{
    match headers.get("content-type") {
        Some(content_type) => {
            let ct = chars_of(content_type.as_str());
            let attrs = split_char(ct.as_slice(), ';');
            assert(views(attrs@)[0] == attrs[0]@);
            let first = trimmed(attrs[0].as_slice());
            let wanted = chars_of("multipart/form-data");
            if same(first.as_slice(), wanted.as_slice()) {
                return match boundary_in(ct.as_slice()) {
                    Some(boundary) => parse_post_upload(body, string_of(boundary.as_slice()).as_str()),
                    None => Err(HttpError::MissingBoundary),
                };
            }
        },
        None => {},
    }
    match utf8_text(body) {
        Some(text) => {
            let chars = chars_of(text.as_str());
            let params = parse_parameters(chars.as_slice());
            Ok(as_bytes_dict(&params))
        },
        None => Err(HttpError::InvalidFormEncoding),
    }
}

/// The body length that the headers declare: none without a
/// `content-length` header; `BadContentLength` where its value is no unsigned
/// number of the machine's word size; `BodyTooLarge` where it is above
/// `max_body_size`.
pub open spec fn declared_length(headers: Map<Seq<char>, Seq<char>>, max_body_size: usize) -> Result<
    Option<nat>,
    HttpError,
> {
    if headers.contains_key("content-length"@) {
        match unsigned_value(headers["content-length"@]) {
            Some(n) => if n > usize::MAX {
                Err(HttpError::BadContentLength)
            } else if n > max_body_size {
                Err(HttpError::BodyTooLarge)
            } else {
                Ok(Some(n))
            },
            None => Err(HttpError::BadContentLength),
        }
    } else {
        Ok(None)
    }
}

/// The client address: the `x-real-ip` header where the peer is a loopback
/// address and the header is present, the peer's address otherwise.
pub open spec fn resolved_ip(
    headers: Map<Seq<char>, Seq<char>>,
    address: Seq<char>,
    loopback: bool,
) -> Seq<char> {
    if loopback && headers.contains_key("x-real-ip"@) {
        headers["x-real-ip"@]
    } else {
        address
    }
}

/// What a request holds, as mathematical values.
pub struct RequestView {
    pub method: HttpMethod,
    pub url: Seq<char>,
    pub headers: TextEntries,
    pub get: TextEntries,
    pub post: ByteEntries,
    pub body: Seq<u8>,
    pub ip: Seq<char>,
}

/// The request that a header and the bytes read after it make up, or the
/// reason why they make up none. `raw_body` is all that the stream gave after
/// the header: a body shorter than the declared length was cut off.
pub open spec fn request_of(
    header: Seq<char>,
    raw_body: Seq<u8>,
    address: Seq<char>,
    loopback: bool,
    max_body_size: usize,
) -> Result<RequestView, HttpError> {
    let headers = headers_of(header);
    match declared_length(as_map(headers), max_body_size) {
        Err(e) => Err(e),
        Ok(Some(n)) => if raw_body.len() < n {
            Err(HttpError::BodyReadFailedTooOften)
        } else {
            match form_of(as_map(headers), raw_body) {
                Err(e) => Err(e),
                Ok(post) => Ok(
                    RequestView {
                        method: method_of(header),
                        url: path_of(header),
                        headers,
                        get: parameters_of(query_of(header)),
                        post,
                        body: raw_body,
                        ip: resolved_ip(as_map(headers), address, loopback),
                    },
                ),
            }
        },
        Ok(None) => match form_of(as_map(headers), Seq::empty()) {
            Err(e) => Err(e),
            Ok(post) => Ok(
                RequestView {
                    method: method_of(header),
                    url: path_of(header),
                    headers,
                    get: parameters_of(query_of(header)),
                    post,
                    body: Seq::empty(),
                    ip: resolved_ip(as_map(headers), address, loopback),
                },
            ),
        },
    }
}

/// With a peer that is no loopback address the `x-real-ip` header is
/// ignored, whether it is present or not.
pub proof fn law_real_ip_needs_loopback(headers: Map<Seq<char>, Seq<char>>, address: Seq<char>)
    ensures
        resolved_ip(headers, address, false) == address,
        headers.contains_key("x-real-ip"@) ==> resolved_ip(headers, address, true)
            == headers["x-real-ip"@],
        !headers.contains_key("x-real-ip"@) ==> resolved_ip(headers, address, true) == address,
{
}

/// The body length that the headers declare.
pub fn body_length(headers: &Dict<String>, http_settings: &HttpSettings) -> (r: Result<
    Option<usize>,
    HttpError,
>)
    ensures
        match r {
            Ok(Some(n)) => declared_length(headers@, http_settings.max_body_size) == Ok::<
                Option<nat>,
                HttpError,
            >(Some(n as nat)),
            Ok(None) => declared_length(headers@, http_settings.max_body_size) == Ok::<
                Option<nat>,
                HttpError,
            >(None),
            Err(e) => declared_length(headers@, http_settings.max_body_size) == Err::<
                Option<nat>,
                HttpError,
            >(e),
        },
{
    match headers.get("content-length") {
        Some(value) => {
            let chars = chars_of(value.as_str());
            match parse_unsigned(chars.as_slice()) {
                Some(n) => {
                    if n > http_settings.max_body_size {
                        Err(HttpError::BodyTooLarge)
                    } else {
                        Ok(Some(n))
                    }
                },
                None => Err(HttpError::BadContentLength),
            }
        },
        None => Ok(None),
    }
}

/// The client address of a request.
pub fn client_ip(headers: &Dict<String>, address: &str, loopback: bool) -> (r: String)
    ensures
        r@ == resolved_ip(headers@, address@, loopback),
{
    if loopback {
        match headers.get("x-real-ip") {
            Some(forwarded) => forwarded.clone(),
            None => address.to_owned(),
        }
    } else {
        address.to_owned()
    }
}

/// HTTP request structure.
#[derive(Debug)]
pub struct HttpRequest {
    method: HttpMethod,
    url: String,
    headers: Dict<String>,
    get: Dict<String>,
    post: Dict<Vec<u8>>,
    body: Vec<u8>,
    ip: String,
}

impl View for HttpRequest {
    type V = RequestView;

    closed spec fn view(&self) -> RequestView {
        RequestView {
            method: self.method,
            url: self.url@,
            headers: self.headers.entries(),
            get: self.get.entries(),
            post: self.post.entries(),
            body: self.body@,
            ip: self.ip@,
        }
    }
}

impl HttpRequest {
    /// Get HTTP request method.
    pub fn method(&self) -> (r: &HttpMethod)
        ensures
            *r == self@.method,
    {
        &self.method
    }

    /// Get URL.
    pub fn url(&self) -> (r: &str)
        ensures
            r@ == self@.url,
    {
        self.url.as_str()
    }

    /// Get headers map.
    pub fn headers(&self) -> (r: &Dict<String>)
        ensures
            r.entries() == self@.headers,
    {
        &self.headers
    }

    /// Get GET parameters.
    pub fn get(&self) -> (r: &Dict<String>)
        ensures
            r.entries() == self@.get,
    {
        &self.get
    }

    /// Get POST parameters.
    pub fn post(&self) -> (r: &Dict<Vec<u8>>)
        ensures
            r.entries() == self@.post,
    {
        &self.post
    }

    /// Get POST parameters as text, malformed bytes replaced.
    pub fn post_utf8(&self) -> (r: Dict<String>)
        ensures
            r.entries() == lossy_entries(self@.post),
    {
        let mut out: Dict<String> = Dict::new();
        let n = self.post.len();
        let ghost target = lossy_entries(self.post.entries());
        let mut i: usize = 0;
        assert(target.take(0) =~= Seq::<(Seq<char>, Seq<char>)>::empty());
        while i < n
            invariant
                i <= n,
                n == self.post.entries().len(),
                distinct_keys(self.post.entries()),
                target == lossy_entries(self.post.entries()),
                out.entries() == target.take(i as int),
            decreases n - i,
        {
            let key = self.post.key_at(i).clone();
            let value = utf8_lossy(self.post.value_at(i).as_slice());
            proof {
                let so_far = target.take(i as int);
                if has_key(so_far, key@) {
                    let j = choose|j: int| 0 <= j < so_far.len() && #[trigger] so_far[j].0 == key@;
                    assert(self.post.entries()[j].0 == self.post.entries()[i as int].0);
                }
                assert(target.take(i + 1) =~= so_far.push((key@, value@)));
            }
            out.insert(key, value);
            i += 1;
        }
        assert(target.take(i as int) =~= target);
        out
    }

    /// Get body.
    pub fn body(&self) -> (r: &[u8])
        ensures
            r@ == self@.body,
    {
        self.body.as_slice()
    }

    /// Get IP address.
    pub fn ip(&self) -> (r: &str)
        ensures
            r@ == self@.ip,
    {
        self.ip.as_str()
    }

    /// Parses an HTTP request from its header and from all the bytes that
    /// were read after the header. `address` is the peer's address and
    /// `loopback` says whether it is a loopback address.
    pub fn from(
        raw_header: &str,
        raw_body: Vec<u8>,
        address: &str,
        loopback: bool,
        http_settings: &HttpSettings,
    ) -> (r: Result<Self, HttpError>)
        ensures
            match r {
                Ok(req) => request_of(
                    raw_header@,
                    raw_body@,
                    address@,
                    loopback,
                    http_settings.max_body_size,
                ) == Ok::<RequestView, HttpError>(req@),
                Err(e) => request_of(
                    raw_header@,
                    raw_body@,
                    address@,
                    loopback,
                    http_settings.max_body_size,
                ) == Err::<RequestView, HttpError>(e),
            },
    {
        let chars = chars_of(raw_header);
        let header_lines = lines_of(chars.as_slice());
        let empty: Vec<char> = Vec::new();
        let (method, path, query) = if header_lines.len() > 0 {
            assert(views(header_lines@)[0] == header_lines[0]@);
            parse_request_line(header_lines[0].as_slice())
        } else {
            parse_request_line(empty.as_slice())
        };
        let headers = parse_headers(&header_lines);
        let body = match body_length(&headers, http_settings) {
            Err(e) => {
                return Err(e);
            },
            Ok(Some(n)) => {
                if raw_body.len() < n {
                    return Err(HttpError::BodyReadFailedTooOften);
                }
                raw_body
            },
            Ok(None) => Vec::new(),
        };
        let get = parse_parameters(query.as_slice());
        let post = match parse_post(&headers, body.as_slice()) {
            Err(e) => {
                return Err(e);
            },
            Ok(post) => post,
        };
        let ip = client_ip(&headers, address, loopback);
        let url = string_of(path.as_slice());
        Ok(HttpRequest { method, url, headers, get, post, body, ip })
    }
}

} // verus!
