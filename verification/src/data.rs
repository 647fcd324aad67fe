//! Storage format: one `key=value` entry on each line.

use vstd::prelude::*;
use vstd::string::StringExecFns;
use crate::dict::{put, Dict};
use crate::seqs::{split_by, views};
use crate::text::{
    after, before, chars_of, lowercase_chars, lowercased, split_char, split_once, string_of, trim,
    trimmed,
};

verus! {

/// The entries that a list of `key=value` lines declares. A line without
/// `=` declares nothing; the key is trimmed and in lowercase, the value is
/// trimmed; a later line replaces an earlier one with the same key.
pub open spec fn storage_entries(lines: Seq<Seq<char>>) -> Seq<(Seq<char>, Seq<char>)>
    decreases lines.len(),
{
    if lines.len() == 0 {
        Seq::empty()
    } else {
        let earlier = storage_entries(lines.drop_last());
        match after(lines.last(), '=') {
            Some(value) => put(earlier, lowercased(trim(before(lines.last(), '='))), trim(value)),
            None => earlier,
        }
    }
}

/// The entries that a storage text declares.
pub open spec fn parsed(buf: Seq<char>) -> Seq<(Seq<char>, Seq<char>)> {
    storage_entries(split_by(buf, seq!['\n']))
}

/// The storage text of a list of entries: for each, in order, the key, `=`,
/// the value and a line feed.
pub open spec fn serialized(entries: Seq<(Seq<char>, Seq<char>)>) -> Seq<char>
    decreases entries.len(),
{
    if entries.len() == 0 {
        Seq::empty()
    } else {
        serialized(entries.drop_last()) + entries.last().0 + seq!['='] + entries.last().1
            + seq!['\n']
    }
}

/// Parse storage file buf to map.
pub fn parse(buf: &str) -> (r: Dict<String>)
    ensures
        r.entries() == parsed(buf@),
{
    let chars = chars_of(buf);
    let lines = split_char(chars.as_slice(), '\n');
    let ghost ls = views(lines@);
    let mut conf: Dict<String> = Dict::new();
    let mut i: usize = 0;
    assert(ls.take(0) =~= Seq::<Seq<char>>::empty());
    while i < lines.len()
        invariant
            i <= lines.len(),
            ls == views(lines@),
            conf.entries() == storage_entries(ls.take(i as int)),
        decreases lines.len() - i,
    {
        let line = &lines[i];
        proof {
            assert(ls.take(i + 1).drop_last() =~= ls.take(i as int));
            assert(ls.take(i + 1).last() == line@);
        }
        let (key, value) = split_once(line.as_slice(), '=');
        match value {
            Some(v) => {
                let k = lowercase_chars(trimmed(key.as_slice()).as_slice());
                let val = string_of(trimmed(v.as_slice()).as_slice());
                conf.insert(k, val);
            },
            None => {},
        }
        i += 1;
    }
    assert(ls.take(i as int) =~= ls);
    conf
}

/// Serialize map to string.
pub fn serialize(data: &Dict<String>) -> (r: String)
    ensures
        r@ == serialized(data.entries()),
{
    let mut buf = String::new();
    let n = data.len();
    let ghost entries = data.entries();
    let mut i: usize = 0;
    assert(entries.take(0) =~= Seq::<(Seq<char>, Seq<char>)>::empty());
    while i < n
        invariant
            i <= n,
            n == entries.len(),
            entries == data.entries(),
            buf@ == serialized(entries.take(i as int)),
        decreases n - i,
    {
        proof {
            assert(entries.take(i + 1).drop_last() =~= entries.take(i as int));
            assert(entries.take(i + 1).last() == entries[i as int]);
            reveal_strlit("=");
            reveal_strlit("\n");
            assert("="@ =~= seq!['=']);
            assert("\n"@ =~= seq!['\n']);
        }
        buf.append(data.key_at(i).as_str());
        buf.append("=");
        buf.append(data.value_at(i).as_str());
        buf.append("\n");
        i += 1;
    }
    assert(entries.take(i as int) =~= entries);
    buf
}

} // verus!
