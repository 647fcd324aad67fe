//! Text as sequences of characters: conversions between strings and
//! character vectors, whitespace trimming, case folding, splitting and
//! decimal numbers.

use vstd::prelude::*;
use vstd::slice::{slice_subrange, slice_to_vec};
use vstd::std_specs::iter::IteratorSpec;
use vstd::utf8::{decode_utf8, valid_utf8};
use crate::seqs::{
    find, matches_at, split_by, views, lemma_find_none, lemma_find_some, lemma_matches_single,
};

verus! {

/// The lowercase form of a text, as `str::to_lowercase` computes it from the
/// Unicode case mappings.
pub uninterp spec fn lowercased(s: Seq<char>) -> Seq<char>;

/// The text that `String::from_utf8_lossy` reads from bytes, with each
/// malformed sequence replaced by U+FFFD.
pub uninterp spec fn lossy_text(bytes: Seq<u8>) -> Seq<char>;

/// The characters of `s`, in order.
pub(crate) fn chars_of(s: &str) -> (r: Vec<char>)
    ensures
        r@ == s@,
{
    broadcast use vstd::string::group_string_axioms;

    let mut out: Vec<char> = Vec::new();
    let mut rest = s.chars();
    assert(out@ + rest.remaining() =~= s@);
    loop
        invariant
            out@ + rest.remaining() == s@,
            rest.obeys_prophetic_iter_laws(),
            rest.decrease() is Some,
        ensures
            out@ == s@,
        decreases rest.decrease()->0,
    {
        match rest.next() {
            Some(c) => {
                out.push(c);
                assert(out@ + rest.remaining() =~= s@);
            },
            None => {
                assert(out@ + rest.remaining() =~= out@);
                break ;
            },
        }
    }
    out
}

/// Wraps `String::from_iter`: the string made of the characters of `chars`.
#[verifier::external_body]
pub(crate) fn string_of(chars: &[char]) -> (r: String)
    ensures
        r@ == chars@,
{
    chars.iter().collect()
}

/// Wraps `str::to_lowercase`; the result is the named lowercase form.
#[verifier::external_body]
pub(crate) fn lowercase(s: &str) -> (r: String)
    ensures
        r@ == lowercased(s@),
{
    s.to_lowercase()
}

/// Wraps `String::from_utf8`: the text that well-formed UTF-8 encodes, and
/// nothing for bytes that are not well-formed.
#[verifier::external_body]
pub(crate) fn utf8_text(bytes: &[u8]) -> (r: Option<String>)
    ensures
        match r {
            Some(s) => valid_utf8(bytes@) && s@ == decode_utf8(bytes@),
            None => !valid_utf8(bytes@),
        },
{
    String::from_utf8(bytes.to_vec()).ok()
}

/// Wraps `String::from_utf8_lossy`; the result is the named lossy reading.
#[verifier::external_body]
pub(crate) fn utf8_lossy(bytes: &[u8]) -> (r: String)
    ensures
        r@ == lossy_text(bytes@),
{
    String::from_utf8_lossy(bytes).into_owned()
}

/// Wraps `str::parse` for any type that can be read from text: the value
/// that the text stands for, or nothing where it does not parse. What parses
/// is up to the type, so nothing is promised of the result.
#[verifier::external_body]
pub(crate) fn parse_text<T: std::str::FromStr>(s: &str) -> (r: Option<T>) {
    s.parse().ok()
}

/// The parsed value, or the default where the text did not parse.
pub fn parsed_or<T>(parsed: Option<T>, default: T) -> (r: T)
    ensures
        r == (match parsed {
            Some(value) => value,
            None => default,
        }),
{
    match parsed {
        Some(value) => value,
        None => default,
    }
}

/// The characters with the Unicode property `White_Space`.
pub open spec fn is_space(c: char) -> bool {
    ||| '\u{0009}' <= c <= '\u{000D}'
    ||| c == ' '
    ||| c == '\u{0085}'
    ||| c == '\u{00A0}'
    ||| c == '\u{1680}'
    ||| '\u{2000}' <= c <= '\u{200A}'
    ||| c == '\u{2028}'
    ||| c == '\u{2029}'
    ||| c == '\u{202F}'
    ||| c == '\u{205F}'
    ||| c == '\u{3000}'
}

/// `s` without its leading whitespace.
pub open spec fn trim_start(s: Seq<char>) -> Seq<char>
    decreases s.len(),
{
    if s.len() > 0 && is_space(s[0]) {
        trim_start(s.skip(1))
    } else {
        s
    }
}

/// `s` without its trailing whitespace.
pub open spec fn trim_end(s: Seq<char>) -> Seq<char>
    decreases s.len(),
{
    if s.len() > 0 && is_space(s.last()) {
        trim_end(s.drop_last())
    } else {
        s
    }
}

/// `s` without leading and trailing whitespace.
pub open spec fn trim(s: Seq<char>) -> Seq<char> {
    trim_end(trim_start(s))
}

/// The part of `s` before the first `c`; all of `s` where there is none.
pub open spec fn before(s: Seq<char>, c: char) -> Seq<char> {
    match find(s, seq![c]) {
        Some(i) => s.take(i),
        None => s,
    }
}

/// The part of `s` after the first `c`, where there is one.
pub open spec fn after(s: Seq<char>, c: char) -> Option<Seq<char>> {
    match find(s, seq![c]) {
        Some(i) => Some(s.skip(i + 1)),
        None => None,
    }
}

/// `s` without one trailing carriage return.
pub open spec fn strip_cr(s: Seq<char>) -> Seq<char> {
    if s.len() > 0 && s.last() == '\r' {
        s.drop_last()
    } else {
        s
    }
}

/// The lines of `s`: each ends at a line feed, which is left out together
/// with a carriage return before it. A last line need not be terminated, and
/// an empty text has no line.
pub open spec fn lines(s: Seq<char>) -> Seq<Seq<char>>
    decreases s.len(),
{
    if s.len() == 0 {
        Seq::empty()
    } else {
        match find(s, seq!['\n']) {
            Some(i) => if 0 <= i < s.len() {
                seq![strip_cr(s.take(i))] + lines(s.skip(i + 1))
            } else {
                seq![s]
            },
            None => seq![s],
        }
    }
}

/// Whether `c` is a decimal digit.
pub open spec fn is_digit(c: char) -> bool {
    '0' <= c <= '9'
}

/// Whether every character of `s` is a decimal digit.
pub open spec fn all_digits(s: Seq<char>) -> bool {
    forall|i: int| 0 <= i < s.len() ==> is_digit(#[trigger] s[i])
}

/// The number that a text of decimal digits denotes.
pub open spec fn digits_value(s: Seq<char>) -> nat
    decreases s.len(),
{
    if s.len() == 0 {
        0
    } else {
        digits_value(s.drop_last()) * 10 + digit_value(s.last())
    }
}

/// The value of a decimal digit; zero for any other character.
pub open spec fn digit_value(c: char) -> nat {
    if is_digit(c) {
        (c as nat - '0' as nat) as nat
    } else {
        0
    }
}

/// The number that `s` denotes as an unsigned decimal: digits, with an
/// optional plus sign before them and nothing else.
pub open spec fn unsigned_value(s: Seq<char>) -> Option<nat> {
    let d = if s.len() > 0 && s[0] == '+' {
        s.skip(1)
    } else {
        s
    };
    if d.len() > 0 && all_digits(d) {
        Some(digits_value(d))
    } else {
        None
    }
}

/// The decimal digits of `n`, as ASCII bytes, without leading zeros.
pub open spec fn decimal_digits(n: nat) -> Seq<u8>
    decreases n,
{
    if n < 10 {
        seq![(48 + n) as u8]
    } else {
        decimal_digits(n / 10).push((48 + n % 10) as u8)
    }
}

/// Leading whitespace ends at the first character that is none.
pub proof fn lemma_trim_start(s: Seq<char>, k: int)
    requires
        0 <= k <= s.len(),
        forall|i: int| 0 <= i < k ==> is_space(#[trigger] s[i]),
        k == s.len() || !is_space(s[k]),
    ensures
        trim_start(s) == s.skip(k),
    decreases k,
{
    if k == 0 {
        assert(s.skip(0) =~= s);
    } else {
        assert(is_space(s[0]));
        let t = s.skip(1);
        assert forall|i: int| 0 <= i < k - 1 implies is_space(#[trigger] t[i]) by {
            assert(t[i] == s[i + 1]);
        }
        lemma_trim_start(t, k - 1);
        assert(t.skip(k - 1) =~= s.skip(k));
    }
}

/// Trailing whitespace begins after the last character that is none.
pub proof fn lemma_trim_end(s: Seq<char>, k: int)
    requires
        0 <= k <= s.len(),
        forall|i: int| k <= i < s.len() ==> is_space(#[trigger] s[i]),
        k == 0 || !is_space(s[k - 1]),
    ensures
        trim_end(s) == s.take(k),
    decreases s.len() - k,
{
    if k == s.len() {
        assert(s.take(k) =~= s);
    } else {
        assert(is_space(s[s.len() - 1]));
        let t = s.drop_last();
        assert forall|i: int| k <= i < t.len() implies is_space(#[trigger] t[i]) by {
            assert(t[i] == s[i]);
        }
        lemma_trim_end(t, k);
        assert(t.take(k) =~= s.take(k));
    }
}

/// Whether `c` is whitespace.
pub fn is_space_char(c: char) -> (r: bool)
    ensures
        r == is_space(c),
{
    ('\u{0009}' <= c && c <= '\u{000D}') || c == ' ' || c == '\u{0085}' || c == '\u{00A0}' || c
        == '\u{1680}' || ('\u{2000}' <= c && c <= '\u{200A}') || c == '\u{2028}' || c
        == '\u{2029}' || c == '\u{202F}' || c == '\u{205F}' || c == '\u{3000}'
}

/// A copy of the characters of `s` from `from` up to `to`.
pub fn part(s: &[char], from: usize, to: usize) -> (r: Vec<char>)
    requires
        from <= to <= s.len(),
    ensures
        r@ == s@.subrange(from as int, to as int),
{
    slice_to_vec(slice_subrange(s, from, to))
}

/// `s` without leading and trailing whitespace.
pub fn trimmed(s: &[char]) -> (r: Vec<char>)
    ensures
        r@ == trim(s@),
{
    let mut lo: usize = 0;
    while lo < s.len() && is_space_char(s[lo])
        invariant
            lo <= s.len(),
            forall|i: int| 0 <= i < lo ==> is_space(#[trigger] s@[i]),
        decreases s.len() - lo,
    {
        lo += 1;
    }
    let mut hi: usize = s.len();
    while hi > lo && is_space_char(s[hi - 1])
        invariant
            lo <= hi <= s.len(),
            forall|i: int| hi <= i < s.len() ==> is_space(#[trigger] s@[i]),
        decreases hi,
    {
        hi -= 1;
    }
    proof {
        lemma_trim_start(s@, lo as int);
        let t = s@.skip(lo as int);
        assert forall|i: int| hi - lo <= i < t.len() implies is_space(#[trigger] t[i]) by {
            assert(t[i] == s@[lo + i]);
        }
        if hi > lo {
            assert(t[hi - lo - 1] == s@[hi - 1]);
        }
        lemma_trim_end(t, hi - lo);
        assert(t.take(hi - lo) =~= s@.subrange(lo as int, hi as int));
    }
    part(s, lo, hi)
}

/// The position, counted from the start of `s`, of the first `c` at or after
/// `from`.
pub fn index_of(s: &[char], c: char, from: usize) -> (r: Option<usize>)
    requires
        from <= s.len(),
    ensures
        match r {
            Some(p) => from <= p < s.len() && s@[p as int] == c && find(
                s@.skip(from as int),
                seq![c],
            ) == Some(p - from),
            None => find(s@.skip(from as int), seq![c]) is None,
        },
{
    let ghost rest = s@.skip(from as int);
    let mut i: usize = from;
    while i < s.len()
        invariant
            from <= i <= s.len(),
            rest == s@.skip(from as int),
            forall|j: int| 0 <= j < i - from ==> !matches_at(rest, seq![c], j),
        decreases s.len() - i,
    {
        proof {
            lemma_matches_single(rest, c, i - from);
        }
        if s[i] == c {
            proof {
                lemma_find_some(rest, seq![c], i - from);
            }
            return Some(i);
        }
        i += 1;
    }
    proof {
        assert forall|j: int| 0 <= j implies !matches_at(rest, seq![c], j) by {}
        lemma_find_none(rest, seq![c]);
    }
    None
}

/// The part of `s` before the first `c` and, where there is a `c`, the part
/// after it.
pub fn split_once(s: &[char], c: char) -> (r: (Vec<char>, Option<Vec<char>>))
    ensures
        r.0@ == before(s@, c),
        match r.1 {
            Some(t) => after(s@, c) == Some(t@),
            None => after(s@, c) is None,
        },
{
    assert(s@.skip(0) =~= s@);
    match index_of(s, c, 0) {
        Some(p) => {
            let head = part(s, 0, p);
            let tail = part(s, p + 1, s.len());
            assert(head@ =~= s@.take(p as int));
            assert(tail@ =~= s@.skip(p + 1));
            (head, Some(tail))
        },
        None => {
            let head = part(s, 0, s.len());
            assert(head@ =~= s@);
            (head, None)
        },
    }
}

/// The pieces of `s` between the occurrences of `c`.
pub fn split_char(s: &[char], c: char) -> (r: Vec<Vec<char>>)
    ensures
        views(r@) == split_by(s@, seq![c]),
        r.len() >= 1,
{
    let mut out: Vec<Vec<char>> = Vec::new();
    let mut pos: usize = 0;
    let mut done: bool = false;
    proof {
        assert(s@.skip(0) =~= s@);
        assert(views(out@) + split_by(s@, seq![c]) =~= split_by(s@, seq![c]));
    }
    while !done
        invariant
            pos <= s.len(),
            views(out@) + split_by(s@.skip(pos as int), seq![c]) == split_by(s@, seq![c]),
            done ==> split_by(s@.skip(pos as int), seq![c]) == seq![s@.skip(pos as int)],
        decreases s.len() - pos + if done { 0int } else { 1int },
    {
        let ghost rest = s@.skip(pos as int);
        let ghost so_far = views(out@);
        match index_of(s, c, pos) {
            Some(p) => {
                let piece = part(s, pos, p);
                proof {
                    assert(rest.take(p - pos) =~= piece@);
                    assert(rest.skip(p - pos + 1) =~= s@.skip(p + 1));
                    assert(views(out@.push(piece)) =~= so_far + seq![piece@]);
                    let tail = split_by(s@.skip(p + 1), seq![c]);
                    assert(split_by(rest, seq![c]) == seq![piece@] + tail);
                    assert((so_far + seq![piece@]) + tail =~= so_far + (seq![piece@] + tail));
                }
                out.push(piece);
                pos = p + 1;
            },
            None => {
                done = true;
            },
        }
    }
    let last = part(s, pos, s.len());
    proof {
        assert(last@ =~= s@.skip(pos as int));
        assert(views(out@.push(last)) =~= views(out@) + seq![last@]);
    }
    out.push(last);
    out
}

/// The lines of `s`.
pub fn lines_of(s: &[char]) -> (r: Vec<Vec<char>>)
    ensures
        views(r@) == lines(s@),
{
    let mut out: Vec<Vec<char>> = Vec::new();
    let mut pos: usize = 0;
    proof {
        assert(s@.skip(0) =~= s@);
        assert(views(out@) + lines(s@) =~= lines(s@));
    }
    while pos < s.len()
        invariant
            pos <= s.len(),
            views(out@) + lines(s@.skip(pos as int)) == lines(s@),
        decreases s.len() - pos,
    {
        let ghost rest = s@.skip(pos as int);
        let ghost so_far = views(out@);
        match index_of(s, '\n', pos) {
            Some(p) => {
                let end = if p > pos && s[p - 1] == '\r' {
                    p - 1
                } else {
                    p
                };
                let piece = part(s, pos, end);
                proof {
                    assert(rest.take(p - pos) =~= s@.subrange(pos as int, p as int));
                    assert(strip_cr(rest.take(p - pos)) =~= piece@);
                    assert(rest.skip(p - pos + 1) =~= s@.skip(p + 1));
                    assert(views(out@.push(piece)) =~= so_far + seq![piece@]);
                    let tail = lines(s@.skip(p + 1));
                    assert(lines(rest) == seq![piece@] + tail);
                    assert((so_far + seq![piece@]) + tail =~= so_far + (seq![piece@] + tail));
                }
                out.push(piece);
                pos = p + 1;
            },
            None => {
                let piece = part(s, pos, s.len());
                proof {
                    assert(piece@ =~= rest);
                    assert(views(out@.push(piece)) =~= so_far + seq![piece@]);
                    assert(s@.skip(s.len() as int).len() == 0);
                    assert(lines(s@.skip(s.len() as int)) =~= Seq::<Seq<char>>::empty());
                    assert((so_far + seq![piece@]) + Seq::<Seq<char>>::empty() =~= so_far + seq![
                        piece@,
                    ]);
                }
                out.push(piece);
                pos = s.len();
            },
        }
    }
    proof {
        assert(s@.skip(pos as int).len() == 0);
        assert(views(out@) + Seq::<Seq<char>>::empty() =~= views(out@));
    }
    out
}

/// Whether `s` begins with `prefix`.
pub fn starts_with(s: &[char], prefix: &[char]) -> (r: bool)
    ensures
        r == prefix@.is_prefix_of(s@),
{
    if prefix.len() > s.len() {
        return false;
    }
    let mut k: usize = 0;
    while k < prefix.len()
        invariant
            k <= prefix.len() <= s.len(),
            forall|m: int| 0 <= m < k ==> s@[m] == prefix@[m],
        decreases prefix.len() - k,
    {
        if s[k] != prefix[k] {
            assert(s@.subrange(0, prefix.len() as int)[k as int] == s@[k as int]);
            return false;
        }
        k += 1;
    }
    assert(s@.subrange(0, prefix.len() as int) =~= prefix@);
    true
}

/// Whether two texts are the same.
pub fn same(a: &[char], b: &[char]) -> (r: bool)
    ensures
        r == (a@ == b@),
{
    if a.len() != b.len() {
        return false;
    }
    let mut k: usize = 0;
    while k < a.len()
        invariant
            k <= a.len(),
            a.len() == b.len(),
            forall|m: int| 0 <= m < k ==> a@[m] == b@[m],
        decreases a.len() - k,
    {
        if a[k] != b[k] {
            return false;
        }
        k += 1;
    }
    assert(a@ =~= b@);
    true
}

/// The lowercase form of `s`.
pub fn lowercase_chars(s: &[char]) -> (r: String)
    ensures
        r@ == lowercased(s@),
{
    let t = string_of(s);
    lowercase(t.as_str())
}

/// Appends the decimal digits of `n` to `out`.
pub fn push_decimal(out: &mut Vec<u8>, n: u128)
    ensures
        final(out)@ == old(out)@ + decimal_digits(n as nat),
    decreases n,
{
    if n >= 10 {
        push_decimal(out, n / 10);
        let d: u8 = (n % 10) as u8;
        out.push(48 + d);
        assert(out@ =~= old(out)@ + decimal_digits(n as nat));
    } else {
        let d: u8 = n as u8;
        out.push(48 + d);
        assert(out@ =~= old(out)@ + decimal_digits(n as nat));
    }
}

/// The value of a text of digits does not shrink as digits are appended.
pub proof fn lemma_digits_prefix(s: Seq<char>, k: int)
    requires
        0 <= k <= s.len(),
    ensures
        digits_value(s.take(k)) <= digits_value(s),
    decreases s.len() - k,
{
    if k == s.len() {
        assert(s.take(k) =~= s);
    } else {
        lemma_digits_prefix(s.drop_last(), k);
        assert(s.drop_last().take(k) =~= s.take(k));
    }
}

/// Reads an unsigned decimal number that fits the machine's word.
pub fn parse_unsigned(s: &[char]) -> (r: Option<usize>)
    ensures
        match r {
            Some(n) => unsigned_value(s@) == Some(n as nat),
            None => match unsigned_value(s@) {
                Some(v) => v > usize::MAX,
                None => true,
            },
        },
{
    let start: usize = if s.len() > 0 && s[0] == '+' {
        1
    } else {
        0
    };
    let ghost d = s@.skip(start as int);
    assert(s@.skip(0) =~= s@);
    if start == s.len() {
        return None;
    }
    let mut acc: usize = 0;
    let mut i: usize = start;
    assert(d.take(0) =~= Seq::<char>::empty());
    while i < s.len()
        invariant
            start <= i <= s.len(),
            start < s.len(),
            d == s@.skip(start as int),
            d == (if s@.len() > 0 && s@[0] == '+' {
                s@.skip(1)
            } else {
                s@
            }),
            forall|j: int| 0 <= j < i - start ==> is_digit(#[trigger] d[j]),
            acc == digits_value(d.take(i - start)),
        decreases s.len() - i,
    {
        let c = s[i];
        assert(d[i - start] == c);
        if !('0' <= c && c <= '9') {
            assert(!is_digit(d[i - start]));
            return None;
        }
        let digit: usize = (c as u32 - '0' as u32) as usize;
        proof {
            assert(d.take(i - start + 1).drop_last() =~= d.take(i - start));
            assert(d.take(i - start + 1).last() == c);
            lemma_digits_prefix(d, i - start + 1);
            assert(digit == digit_value(c));
            assert(digits_value(d.take(i - start + 1)) == acc * 10 + digit);
        }
        if acc > (usize::MAX - digit) / 10 {
            return None;
        }
        acc = acc * 10 + digit;
        i += 1;
    }
    assert(d.take(i - start) =~= d);
    Some(acc)
}

/// Whether two string slices hold the same text.
pub fn str_eq(a: &str, b: &str) -> (r: bool)
    ensures
        r == (a@ == b@),
{
    let x = chars_of(a);
    let y = chars_of(b);
    same(x.as_slice(), y.as_slice())
}

/// `s` without `prefix` at its start, where it begins with it.
pub open spec fn strip_prefix(s: Seq<char>, prefix: Seq<char>) -> Option<Seq<char>> {
    if prefix.is_prefix_of(s) {
        Some(s.skip(prefix.len() as int))
    } else {
        None
    }
}

/// `s` without `prefix` at its start, where it begins with it.
pub fn without_prefix(s: &[char], prefix: &[char]) -> (r: Option<Vec<char>>)
    ensures
        match r {
            Some(rest) => strip_prefix(s@, prefix@) == Some(rest@),
            None => strip_prefix(s@, prefix@) is None,
        },
{
    if starts_with(s, prefix) {
        let rest = part(s, prefix.len(), s.len());
        assert(rest@ =~= s@.skip(prefix.len() as int));
        Some(rest)
    } else {
        None
    }
}

/// Wraps `core::str::from_utf8`: the text that well-formed UTF-8 encodes,
/// borrowed from the bytes, and nothing for bytes that are not well-formed.
#[verifier::external_body]
pub(crate) fn utf8_str(bytes: &[u8]) -> (r: Option<&str>)
    ensures
        match r {
            Some(s) => valid_utf8(bytes@) && s@ == decode_utf8(bytes@),
            None => !valid_utf8(bytes@),
        },
{
    core::str::from_utf8(bytes).ok()
}

} // verus!
