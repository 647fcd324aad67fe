//! Name and version of a package, read from its manifest.

use vstd::prelude::*;
use crate::seqs::{split_by, views};
use crate::text::{chars_of, same, split_char, string_of};

verus! {

/// `s` without its spaces.
pub open spec fn without_spaces(s: Seq<char>) -> Seq<char> {
    s.filter(|c: char| c != ' ')
}

/// The last line of `s`.
pub open spec fn last_line(s: Seq<char>) -> Seq<char> {
    split_by(s, seq!['\n']).last()
}

/// Among the blocks between double quotes, the first from position `from`
/// on that follows a block whose last line, spaces left out, is `key`.
pub open spec fn value_after(blocks: Seq<Seq<char>>, key: Seq<char>, from: int) -> Option<Seq<char>>
    decreases blocks.len() - from,
{
    if from < 1 || from >= blocks.len() {
        None
    } else if without_spaces(last_line(blocks[from - 1])) == key {
        Some(blocks[from])
    } else {
        value_after(blocks, key, from + 1)
    }
}

/// The value of `key` in a manifest: the text between the double quotes that
/// follow the first line which, spaces left out, is `key`.
pub open spec fn value_of(cargo_toml: Seq<char>, key: Seq<char>) -> Option<Seq<char>> {
    value_after(split_by(cargo_toml, seq!['"']), key, 1)
}

/// The version that a manifest declares, or `0.0.0`.
pub open spec fn version_of(cargo_toml: Seq<char>) -> Seq<char> {
    match value_of(cargo_toml, "version="@) {
        Some(v) => v,
        None => "0.0.0"@,
    }
}

/// The name that a manifest declares, or `kern`.
pub open spec fn name_of(cargo_toml: Seq<char>) -> Seq<char> {
    match value_of(cargo_toml, "name="@) {
        Some(v) => v,
        None => "kern"@,
    }
}

/// `s` without its spaces.
fn strip_spaces(s: &[char]) -> (r: Vec<char>)
    ensures
        r@ == without_spaces(s@),
{
    let mut out: Vec<char> = Vec::new();
    let mut i: usize = 0;
    assert(s@.take(0) =~= Seq::<char>::empty());
    while i < s.len()
        invariant
            i <= s.len(),
            out@ == without_spaces(s@.take(i as int)),
        decreases s.len() - i,
    {
        proof {
            assert(s@.take(i + 1).drop_last() =~= s@.take(i as int));
            assert(s@.take(i + 1).last() == s@[i as int]);
            reveal(Seq::filter);
        }
        if s[i] != ' ' {
            out.push(s[i]);
        }
        i += 1;
    }
    assert(s@.take(i as int) =~= s@);
    out
}

/// Search value of key (key must end with =) in cargo_toml.
pub fn search(cargo_toml: &str, key: &str) -> (r: Option<String>)
    ensures
        match r {
            Some(v) => value_of(cargo_toml@, key@) == Some(v@),
            None => value_of(cargo_toml@, key@) is None,
        },
{
    let chars = chars_of(cargo_toml);
    let wanted = chars_of(key);
    let blocks = split_char(chars.as_slice(), '"');
    let ghost all = views(blocks@);
    let mut i: usize = 1;
    while i < blocks.len()
        invariant
            1 <= i,
            all == views(blocks@),
            all == split_by(cargo_toml@, seq!['"']),
            wanted@ == key@,
            value_after(all, key@, i as int) == value_of(cargo_toml@, key@),
        decreases blocks.len() - i,
    {
        let lines = split_char(blocks[i - 1].as_slice(), '\n');
        assert(all[i - 1] == blocks[i - 1]@);
        assert(all[i as int] == blocks[i as int]@);
        assert(views(lines@).last() == lines[lines.len() - 1]@);
        let previous = strip_spaces(lines[lines.len() - 1].as_slice());
        if same(previous.as_slice(), wanted.as_slice()) {
            return Some(string_of(blocks[i].as_slice()));
        }
        i += 1;
    }
    None
}

/// Get version string from a Cargo.toml.
pub fn init_version(cargo_toml: &str) -> (r: String)
    ensures
        r@ == version_of(cargo_toml@),
{
    match search(cargo_toml, "version=") {
        Some(v) => v,
        None => "0.0.0".to_owned(),
    }
}

/// Get name string from a Cargo.toml.
pub fn init_name(cargo_toml: &str) -> (r: String)
    ensures
        r@ == name_of(cargo_toml@),
{
    match search(cargo_toml, "name=") {
        Some(v) => v,
        None => "kern".to_owned(),
    }
}

/// The name and the version of a package. Both are empty until they are
/// read from a manifest.
#[derive(Debug)]
pub struct Meta {
    version: String,
    name: String,
}

impl View for Meta {
    type V = (Seq<char>, Seq<char>);

    closed spec fn view(&self) -> (Seq<char>, Seq<char>) {
        (self.version@, self.name@)
    }
}

impl Meta {
    /// Nothing is known yet.
    pub fn new() -> (r: Self)
        ensures
            r@ == (Seq::<char>::empty(), Seq::<char>::empty()),
    {
        Meta { version: String::new(), name: String::new() }
    }

    /// Reads version and name from a manifest.
    pub fn init(cargo_toml: &str) -> (r: Self)
        ensures
            r@ == (version_of(cargo_toml@), name_of(cargo_toml@)),
    {
        Meta { version: init_version(cargo_toml), name: init_name(cargo_toml) }
    }
}

/// Get version.
pub fn version(meta: &Meta) -> (r: &str)
    ensures
        r@ == meta@.0,
{
    meta.version.as_str()
}

/// Get name.
pub fn name(meta: &Meta) -> (r: &str)
    ensures
        r@ == meta@.1,
{
    meta.name.as_str()
}

} // verus!
