//! Configuration utilities.

use vstd::prelude::*;
use crate::dict::{put, Dict};
use crate::seqs::{split_by, views};
use crate::text::{after, before, chars_of, parse_text, parsed_or, split_char, split_once, string_of, trim, trimmed};

verus! {

/// The entries that a list of `key=value` lines declares. A line without
/// `=` declares nothing; key and value are trimmed; a later line replaces an
/// earlier one with the same key.
pub open spec fn config_entries(lines: Seq<Seq<char>>) -> Seq<(Seq<char>, Seq<char>)>
    decreases lines.len(),
{
    if lines.len() == 0 {
        Seq::empty()
    } else {
        let earlier = config_entries(lines.drop_last());
        match after(lines.last(), '=') {
            Some(value) => put(earlier, trim(before(lines.last(), '=')), trim(value)),
            None => earlier,
        }
    }
}

/// The entries that a configuration text declares, one line each.
pub open spec fn config_of(raw: Seq<char>) -> Seq<(Seq<char>, Seq<char>)> {
    config_entries(split_by(raw, seq!['\n']))
}

/// Configuration file parser.
#[derive(Debug)]
pub struct Config {
    conf: Dict<String>,
}

impl View for Config {
    type V = Map<Seq<char>, Seq<char>>;

    closed spec fn view(&self) -> Map<Seq<char>, Seq<char>> {
        self.conf@
    }
}

impl Config {
    /// The entries in the order in which their keys first occur.
    pub closed spec fn entries(&self) -> Seq<(Seq<char>, Seq<char>)> {
        self.conf.entries()
    }

    /// Get parsed value from config or default: the default where the key is
    /// missing, and where the value does not parse.
    pub fn get<T: std::str::FromStr>(&self, name: &str, default: T) -> (r: T)
        ensures
            !self@.contains_key(name@) ==> r == default,
    {
        match self.conf.get(name) {
            Some(value) => parsed_or(parse_text(value.as_str()), default),
            None => default,
        }
    }

    /// Get &str value from config or default.
    pub fn value<'a>(&'a self, name: &str, default: &'a str) -> (r: &'a str)
        ensures
            r@ == (if self@.contains_key(name@) {
                self@[name@]
            } else {
                default@
            }),
    {
        match self.conf.get(name) {
            Some(value) => value.as_str(),
            None => default,
        }
    }

    /// Check whether key exists in config.
    pub fn contains(&self, name: &str) -> (r: bool)
        ensures
            r == self@.contains_key(name@),
    {
        self.conf.contains_key(name)
    }

    /// Get config key/value map.
    pub fn conf(&self) -> (r: &Dict<String>)
        ensures
            r@ == self@,
            r.entries() == self.entries(),
    {
        &self.conf
    }

    /// Create new config from raw config string.
    pub fn from(raw: &str) -> (r: Self)
        ensures
            r.entries() == config_of(raw@),
            r@ == crate::dict::as_map(config_of(raw@)),
    {
        let chars = chars_of(raw);
        let lines = split_char(chars.as_slice(), '\n');
        let ghost ls = views(lines@);
        let mut conf: Dict<String> = Dict::new();
        let mut i: usize = 0;
        assert(ls.take(0) =~= Seq::<Seq<char>>::empty());
        while i < lines.len()
            invariant
                i <= lines.len(),
                ls == views(lines@),
                conf.entries() == config_entries(ls.take(i as int)),
            decreases lines.len() - i,
        {
            let line = &lines[i];
            proof {
                assert(ls.take(i + 1).drop_last() =~= ls.take(i as int));
                assert(ls.take(i + 1).last() == line@);
            }
            let (key, value) = split_once(line.as_slice(), '=');
            match value {
                Some(v) => {
                    let k = string_of(trimmed(key.as_slice()).as_slice());
                    let val = string_of(trimmed(v.as_slice()).as_slice());
                    conf.insert(k, val);
                },
                None => {},
            }
            i += 1;
        }
        assert(ls.take(i as int) =~= ls);
        Config { conf }
    }
}

} // verus!
