//! HTTP to HTTPS redirecter: what to answer to a plain request.

use vstd::prelude::*;
use vstd::slice::slice_subrange;
use vstd::string::StringExecFns;
use vstd::utf8::{decode_utf8, valid_utf8};
use crate::byte::scan;
use crate::seqs::{find, split_by, views, lemma_find_is_first};
use crate::text::{chars_of, split_char, string_of, utf8_text};
use crate::http::server::response::{redirect, redirect_page, response_bytes};

verus! {

/// Whether more of the request is to be read: until a line feed has come,
/// and as long as fewer than 2048 bytes were read.
pub open spec fn wants_more(buf: Seq<u8>) -> bool {
    !buf.contains(10u8) && buf.len() < 2048
}

/// The second word of a text that is split at spaces, if it has one.
pub open spec fn second_word(text: Seq<char>) -> Option<Seq<char>> {
    let words = split_by(text, seq![' ']);
    if words.len() > 1 {
        Some(words[1])
    } else {
        None
    }
}

/// The request target in what was read of a request: the second word of the
/// text up to and including the first carriage return. There is none without
/// a carriage return, where the text is not UTF-8, and where it is a single
/// word.
pub open spec fn plain_target(buf: Seq<u8>) -> Option<Seq<char>> {
    match find(buf, seq![13u8]) {
        Some(i) => if valid_utf8(buf.take(i + 1)) {
            second_word(decode_utf8(buf.take(i + 1)))
        } else {
            None
        },
        None => None,
    }
}

/// The secure address of a target.
pub open spec fn secure_url(secure_addr: Seq<char>, target: Seq<char>) -> Seq<char> {
    "https://"@ + secure_addr + target
}

/// Whether more of the request is to be read.
pub fn needs_more(buf: &[u8]) -> (r: bool)
    ensures
        r == wants_more(buf@),
{
    if buf.len() >= 2048 {
        return false;
    }
    let mut i: usize = 0;
    while i < buf.len()
        invariant
            i <= buf.len(),
            forall|j: int| 0 <= j < i ==> buf@[j] != 10u8,
        decreases buf.len() - i,
    {
        if buf[i] == 10u8 {
            return false;
        }
        i += 1;
    }
    true
}

/// The second word of a text that is split at spaces.
pub fn target_in(text: &[char]) -> (r: Option<String>)
    ensures
        match r {
            Some(t) => second_word(text@) == Some(t@),
            None => second_word(text@) is None,
        },
{
    let words = split_char(text, ' ');
    if words.len() > 1 {
        assert(views(words@)[1] == words[1]@);
        Some(string_of(words[1].as_slice()))
    } else {
        None
    }
}

/// The request target in what was read of a request.
pub fn read_target(buf: &[u8]) -> (r: Option<String>)
    ensures
        match r {
            Some(t) => plain_target(buf@) == Some(t@),
            None => plain_target(buf@) is None,
        },
{
    let mark: Vec<u8> = vec![13u8];
    assert(mark@ =~= seq![13u8]);
    match scan(buf, mark.as_slice()) {
        Some(pos) => {
            proof {
                lemma_find_is_first(buf@, seq![13u8]);
            }
            let line = slice_subrange(buf, 0, pos + 1);
            assert(line@ =~= buf@.take(pos + 1));
            match utf8_text(line) {
                Some(text) => {
                    let chars = chars_of(text.as_str());
                    target_in(chars.as_slice())
                },
                None => None,
            }
        },
        None => None,
    }
}

/// The answer to a plain request: a redirect to the same target at the
/// secure address, or nothing where no target can be read.
pub fn redirect_reply(buf: &[u8], secure_addr: &str) -> (r: Option<Vec<u8>>)
    ensures
        match r {
            Some(reply) => plain_target(buf@) is Some && reply@ == response_bytes(
                redirect_page(secure_url(secure_addr@, plain_target(buf@)->Some_0)),
                "text/html"@,
                "303 See Other"@,
                seq![("location"@, secure_url(secure_addr@, plain_target(buf@)->Some_0))],
            ),
            None => plain_target(buf@) is None,
        },
{
    match read_target(buf) {
        Some(target) => {
            let url = "https://".to_owned().concat(secure_addr).concat(target.as_str());
            Some(redirect(url.as_str()))
        },
        None => None,
    }
}

} // verus!
