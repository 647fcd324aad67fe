//! Byte-level operations: pattern search and splitting.

use vstd::prelude::*;
use vstd::slice::slice_subrange;
use crate::seqs::{find, matches_at, slice_views, split_by, splitn_by, lemma_find_none, lemma_find_some, lemma_find_is_first, lemma_matches_skip};

verus! {

/// Whether `pat` occurs in `data` at offset `at`.
fn occurs_at(data: &[u8], pat: &[u8], at: usize) -> (r: bool)
    requires
        at <= data.len(),
    ensures
        r == matches_at(data@, pat@, at as int),
{
    if pat.len() > data.len() - at {
        return false;
    }
    let mut k: usize = 0;
    while k < pat.len()
        invariant
            k <= pat.len(),
            at + pat.len() <= data.len(),
            forall|m: int| 0 <= m < k ==> data@[at + m] == pat@[m],
        decreases pat.len() - k,
    {
        if data[at + k] != pat[k] {
            assert(data@.subrange(at as int, at + pat.len())[k as int] == data@[at + k]);
            return false;
        }
        k += 1;
    }
    assert(data@.subrange(at as int, at + pat.len()) =~= pat@);
    true
}

/// The offset, counted from the start of `data`, of the first occurrence of
/// `pattern` at or after `from`.
pub fn scan_from(data: &[u8], pattern: &[u8], from: usize) -> (r: Option<usize>)
    requires
        from <= data.len(),
    ensures
        match r {
            Some(p) => from <= p && p + pattern.len() <= data.len() && pattern.len() > 0 && find(
                data@.skip(from as int),
                pattern@,
            ) == Some(p - from),
            None => find(data@.skip(from as int), pattern@) is None,
        },
{
    let ghost rest = data@.skip(from as int);
    if pattern.len() == 0 {
        proof {
            lemma_find_none(rest, pattern@);
        }
        return None;
    }
    let mut i: usize = from;
    while i < data.len()
        invariant
            from <= i <= data.len(),
            pattern.len() > 0,
            rest == data@.skip(from as int),
            forall|j: int| 0 <= j < i - from ==> !matches_at(rest, pattern@, j),
        decreases data.len() - i,
    {
        proof {
            lemma_matches_skip(data@, pattern@, from as int, i - from);
        }
        if occurs_at(data, pattern, i) {
            proof {
                lemma_find_some(rest, pattern@, i - from);
            }
            return Some(i);
        }
        i += 1;
    }
    proof {
        assert forall|j: int| 0 <= j implies !matches_at(rest, pattern@, j) by {}
        lemma_find_none(rest, pattern@);
    }
    None
}

/// Returns the index of the first byte of the first occurrence of `pattern`
/// in `data`. An empty pattern is found nowhere.
pub fn scan(data: &[u8], pattern: &[u8]) -> (r: Option<usize>)
    ensures
        match r {
            Some(p) => find(data@, pattern@) == Some(p as int) && p + pattern.len() <= data.len()
                && pattern.len() > 0,
            None => find(data@, pattern@) is None,
        },
{
    assert(data@.skip(0) =~= data@);
    scan_from(data, pattern, 0)
}

/// Splits `data` at most `n - 1` times at the occurrences of `seperator`; with
/// `n == 0` it splits at every occurrence.
pub fn splitn<'a>(n: usize, data: &'a [u8], seperator: &[u8]) -> (r: Vec<&'a [u8]>)
    ensures
        slice_views(r@) == splitn_by(n as nat, data@, seperator@),
        r.len() >= 1,
{
    let mut buf: Vec<&'a [u8]> = Vec::new();
    let mut pos: usize = 0;
    let mut left: usize = n;
    let mut done: bool = false;
    proof {
        assert(data@.skip(0) =~= data@);
        assert(slice_views(buf@) + splitn_by(n as nat, data@, seperator@) =~= splitn_by(
            n as nat,
            data@,
            seperator@,
        ));
    }
    while !done
        invariant
            pos <= data.len(),
            n == 0 ==> left == 0,
            n > 0 ==> left >= 1,
            slice_views(buf@) + splitn_by(left as nat, data@.skip(pos as int), seperator@)
                == splitn_by(n as nat, data@, seperator@),
            done ==> splitn_by(left as nat, data@.skip(pos as int), seperator@) == seq![
                data@.skip(pos as int),
            ],
        decreases data.len() - pos + if done { 0int } else { 1int },
    {
        let ghost rest = data@.skip(pos as int);
        let ghost before = slice_views(buf@);
        if left == 1 {
            done = true;
        } else {
            match scan_from(data, seperator, pos) {
                Some(p) => {
                    let piece = slice_subrange(data, pos, p);
                    proof {
                        lemma_find_is_first(rest, seperator@);
                        assert(rest.take(p - pos) =~= piece@);
                        assert(rest.skip(p - pos + seperator.len()) =~= data@.skip(
                            p + seperator.len(),
                        ));
                        assert(slice_views(buf@.push(piece)) =~= before + seq![piece@]);
                        let next: nat = if left == 0 {
                            0
                        } else {
                            (left - 1) as nat
                        };
                        let tail = splitn_by(next, data@.skip(p + seperator.len()), seperator@);
                        assert(splitn_by(left as nat, rest, seperator@) == seq![piece@] + tail);
                        assert((before + seq![piece@]) + tail =~= before + (seq![piece@] + tail));
                    }
                    buf.push(piece);
                    pos = p + seperator.len();
                    if left > 0 {
                        left -= 1;
                    }
                },
                None => {
                    done = true;
                },
            }
        }
    }
    let last = slice_subrange(data, pos, data.len());
    proof {
        assert(last@ =~= data@.skip(pos as int));
        assert(slice_views(buf@.push(last)) =~= slice_views(buf@) + seq![last@]);
    }
    buf.push(last);
    buf
}

/// Splits `data` at every occurrence of `seperator`.
pub fn split<'a>(data: &'a [u8], seperator: &[u8]) -> (r: Vec<&'a [u8]>)
    ensures
        slice_views(r@) == split_by(data@, seperator@),
        r.len() >= 1,
{
    let mut buf: Vec<&'a [u8]> = Vec::new();
    let mut pos: usize = 0;
    let mut done: bool = false;
    proof {
        assert(data@.skip(0) =~= data@);
        assert(slice_views(buf@) + split_by(data@, seperator@) =~= split_by(data@, seperator@));
    }
    while !done
        invariant
            pos <= data.len(),
            slice_views(buf@) + split_by(data@.skip(pos as int), seperator@) == split_by(
                data@,
                seperator@,
            ),
            done ==> split_by(data@.skip(pos as int), seperator@) == seq![data@.skip(pos as int)],
        decreases data.len() - pos + if done { 0int } else { 1int },
    {
        let ghost rest = data@.skip(pos as int);
        let ghost before = slice_views(buf@);
        match scan_from(data, seperator, pos) {
            Some(p) => {
                let piece = slice_subrange(data, pos, p);
                proof {
                    lemma_find_is_first(rest, seperator@);
                    assert(rest.take(p - pos) =~= piece@);
                    assert(rest.skip(p - pos + seperator.len()) =~= data@.skip(
                        p + seperator.len(),
                    ));
                    assert(slice_views(buf@.push(piece)) =~= before + seq![piece@]);
                    let tail = split_by(data@.skip(p + seperator.len()), seperator@);
                    assert(split_by(rest, seperator@) == seq![piece@] + tail);
                    assert((before + seq![piece@]) + tail =~= before + (seq![piece@] + tail));
                }
                buf.push(piece);
                pos = p + seperator.len();
            },
            None => {
                done = true;
            },
        }
    }
    let last = slice_subrange(data, pos, data.len());
    proof {
        assert(last@ =~= data@.skip(pos as int));
        assert(slice_views(buf@.push(last)) =~= slice_views(buf@) + seq![last@]);
    }
    buf.push(last);
    buf
}

/// Whether `data` ends with `suffix`.
pub fn ends_with(data: &[u8], suffix: &[u8]) -> (r: bool)
    ensures
        r == suffix@.is_suffix_of(data@),
{
    if suffix.len() > data.len() {
        return false;
    }
    let at = data.len() - suffix.len();
    let r = occurs_at(data, suffix, at);
    assert(data@.subrange(at as int, at + suffix.len()) == data@.subrange(
        data@.len() - suffix@.len(),
        data@.len() as int,
    ));
    r
}

} // verus!
