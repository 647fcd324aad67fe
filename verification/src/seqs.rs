//! Searching and splitting sequences by a pattern: the mathematical model
//! shared by the byte and text utilities.

use vstd::prelude::*;

verus! {

/// `pat` occurs in `data` at offset `i`.
pub open spec fn matches_at<T>(data: Seq<T>, pat: Seq<T>, i: int) -> bool {
    &&& 0 <= i
    &&& i + pat.len() <= data.len()
    &&& data.subrange(i, i + pat.len()) == pat
}

/// `i` is the offset of the first occurrence of the non-empty `pat` in `data`.
pub open spec fn first_match_at<T>(data: Seq<T>, pat: Seq<T>, i: int) -> bool {
    &&& pat.len() > 0
    &&& matches_at(data, pat, i)
    &&& forall|j: int| 0 <= j < i ==> !matches_at(data, pat, j)
}

/// The offset of the first occurrence of `pat` in `data`. An empty pattern
/// occurs nowhere.
pub open spec fn find<T>(data: Seq<T>, pat: Seq<T>) -> Option<int> {
    if exists|i: int| first_match_at(data, pat, i) {
        Some(choose|i: int| first_match_at(data, pat, i))
    } else {
        None
    }
}

/// The pieces of `data` between the occurrences of `pat`, found from left to
/// right. There is always at least one piece.
pub open spec fn split_by<T>(data: Seq<T>, pat: Seq<T>) -> Seq<Seq<T>>
    decreases data.len(),
{
    match find(data, pat) {
        Some(i) => if 0 <= i && pat.len() > 0 && i + pat.len() <= data.len() {
            seq![data.take(i)] + split_by(data.skip(i + pat.len()), pat)
        } else {
            seq![data]
        },
        None => seq![data],
    }
}

/// As `split_by`, but with at most `n` pieces, the last of which holds the
/// unsplit remainder. With `n == 0` the number of pieces is not limited.
pub open spec fn splitn_by<T>(n: nat, data: Seq<T>, pat: Seq<T>) -> Seq<Seq<T>>
    decreases data.len(),
{
    if n == 1 {
        seq![data]
    } else {
        match find(data, pat) {
            Some(i) => if 0 <= i && pat.len() > 0 && i + pat.len() <= data.len() {
                seq![data.take(i)] + splitn_by(
                    if n == 0 {
                        0
                    } else {
                        (n - 1) as nat
                    },
                    data.skip(i + pat.len()),
                    pat,
                )
            } else {
                seq![data]
            },
            None => seq![data],
        }
    }
}

/// The views of a list of vectors.
pub open spec fn views<T>(v: Seq<Vec<T>>) -> Seq<Seq<T>> {
    v.map_values(|x: Vec<T>| x@)
}

/// The views of a list of slices.
pub open spec fn slice_views<T>(v: Seq<&[T]>) -> Seq<Seq<T>> {
    v.map_values(|x: &[T]| x@)
}

/// A first occurrence is what `find` returns.
pub proof fn lemma_find_some<T>(data: Seq<T>, pat: Seq<T>, i: int)
    requires
        first_match_at(data, pat, i),
    ensures
        find(data, pat) == Some(i),
{
    let j = choose|j: int| first_match_at(data, pat, j);
    assert(first_match_at(data, pat, j));
    if j < i {
        assert(!matches_at(data, pat, j));
    } else if i < j {
        assert(!matches_at(data, pat, i));
    }
}

/// Where the pattern is empty or occurs nowhere, `find` returns nothing.
pub proof fn lemma_find_none<T>(data: Seq<T>, pat: Seq<T>)
    requires
        pat.len() == 0 || forall|j: int| 0 <= j ==> !matches_at(data, pat, j),
    ensures
        find(data, pat) is None,
{
    if exists|i: int| first_match_at(data, pat, i) {
        let i = choose|i: int| first_match_at(data, pat, i);
        assert(matches_at(data, pat, i));
    }
}

/// What `find` returns is a first occurrence.
pub proof fn lemma_find_is_first<T>(data: Seq<T>, pat: Seq<T>)
    ensures
        match find(data, pat) {
            Some(i) => first_match_at(data, pat, i),
            None => pat.len() == 0 || forall|j: int| 0 <= j ==> !matches_at(data, pat, j),
        },
{
    if find(data, pat) is None && pat.len() > 0 {
        assert forall|j: int| 0 <= j implies !matches_at(data, pat, j) by {
            if matches_at(data, pat, j) {
                lemma_least_match(data, pat, j);
            }
        }
    }
}

/// Where the pattern occurs at all, it has a first occurrence.
proof fn lemma_least_match<T>(data: Seq<T>, pat: Seq<T>, j: int)
    requires
        pat.len() > 0,
        matches_at(data, pat, j),
    ensures
        exists|i: int| first_match_at(data, pat, i),
    decreases j,
{
    if forall|k: int| 0 <= k < j ==> !matches_at(data, pat, k) {
        assert(first_match_at(data, pat, j));
    } else {
        let k = choose|k: int| 0 <= k < j && matches_at(data, pat, k);
        lemma_least_match(data, pat, k);
    }
}

/// An occurrence in a suffix is an occurrence in the whole, shifted.
pub proof fn lemma_matches_skip<T>(data: Seq<T>, pat: Seq<T>, from: int, j: int)
    requires
        0 <= from <= data.len(),
        0 <= j,
    ensures
        matches_at(data.skip(from), pat, j) == matches_at(data, pat, from + j),
{
    if j + pat.len() <= data.len() - from {
        assert(data.skip(from).subrange(j, j + pat.len()) =~= data.subrange(
            from + j,
            from + j + pat.len(),
        ));
    }
}

/// A pattern of one element occurs exactly where that element stands.
pub proof fn lemma_matches_single<T>(data: Seq<T>, c: T, i: int)
    ensures
        matches_at(data, seq![c], i) == (0 <= i < data.len() && data[i] == c),
{
    if 0 <= i < data.len() {
        if data[i] == c {
            assert(data.subrange(i, i + 1) =~= seq![c]);
        } else {
            assert(data.subrange(i, i + 1)[0] == data[i]);
            assert(seq![c][0] == c);
        }
    }
}

/// Splitting into at most two pieces: what stands before the first
/// occurrence and what stands after it, or the whole where there is none.
pub proof fn lemma_splitn_two<T>(data: Seq<T>, pat: Seq<T>)
    ensures
        match find(data, pat) {
            Some(i) => 0 <= i && i + pat.len() <= data.len() && pat.len() > 0 && splitn_by(
                2,
                data,
                pat,
            ) == seq![data.take(i), data.skip(i + pat.len())],
            None => splitn_by(2, data, pat) == seq![data],
        },
{
    lemma_find_is_first(data, pat);
    match find(data, pat) {
        Some(i) => {
            let rest = data.skip(i + pat.len());
            assert(splitn_by(1, rest, pat) == seq![rest]);
            assert(seq![data.take(i)] + seq![rest] =~= seq![data.take(i), rest]);
        },
        None => {},
    }
}

/// The third of at most three pieces is the end of the whole.
pub proof fn lemma_splitn_three_last<T>(data: Seq<T>, pat: Seq<T>)
    requires
        splitn_by(3, data, pat).len() >= 3,
    ensures
        exists|k: int| 0 <= k <= data.len() && splitn_by(3, data, pat)[2] == #[trigger] data.skip(k),
{
    lemma_find_is_first(data, pat);
    match find(data, pat) {
        Some(i) => {
            let rest = data.skip(i + pat.len());
            assert(splitn_by(3, data, pat) == seq![data.take(i)] + splitn_by(2, rest, pat));
            lemma_splitn_two(rest, pat);
            match find(rest, pat) {
                Some(j) => {
                    let last = rest.skip(j + pat.len());
                    assert(splitn_by(3, data, pat)[2] == last);
                    assert(last =~= data.skip(i + pat.len() + j + pat.len()));
                },
                None => {
                    assert(splitn_by(3, data, pat).len() == 2);
                },
            }
        },
        None => {},
    }
}

/// What ends the end of a sequence ends the sequence.
pub proof fn lemma_suffix_of_skip<T>(c: Seq<T>, data: Seq<T>, k: int)
    requires
        0 <= k <= data.len(),
        c.is_suffix_of(data.skip(k)),
    ensures
        c.is_suffix_of(data),
{
    let tail = data.skip(k);
    assert(data.subrange(data.len() - c.len(), data.len() as int) =~= tail.subrange(
        tail.len() - c.len(),
        tail.len() as int,
    ));
}

} // verus!
