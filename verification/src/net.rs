//! Single values on a stream: how bytes and truth values are encoded, and
//! when a stream has been read in full.

use vstd::prelude::*;
use crate::error::Fail;

verus! {

/// The truth value that a byte stands for: 1 is true, 0 is false, and any
/// other byte stands for none.
pub open spec fn bool_of(byte: u8) -> Option<bool> {
    if byte == 1 {
        Some(true)
    } else if byte == 0 {
        Some(false)
    } else {
        None
    }
}

/// The byte that stands for a truth value.
pub open spec fn byte_of(b: bool) -> u8 {
    if b {
        1
    } else {
        0
    }
}

/// Reads a truth value from the byte that was received.
pub fn read_bool(byte: u8) -> (r: Result<bool, Box<Fail>>)
    ensures
        match r {
            Ok(b) => bool_of(byte) == Some(b),
            Err(fail) => bool_of(byte) is None && fail.0@ == "received byte is neither 1 nor 0"@,
        },
{
    if byte == 1u8 {
        Ok(true)
    } else if byte == 0u8 {
        Ok(false)
    } else {
        Fail::from("received byte is neither 1 nor 0")
    }
}

/// The byte to send for a truth value.
pub fn write_bool(b: bool) -> (r: u8)
    ensures
        r == byte_of(b),
        bool_of(r) == Some(b),
{
    if b {
        1
    } else {
        0
    }
}

/// Adds what a read of at most `buf_size` bytes returned to what was read
/// before, and says whether to read on: a read that came back short was the
/// last one.
pub fn read_full(data: &mut Vec<u8>, chunk: &[u8], buf_size: usize) -> (more: bool)
    ensures
        final(data)@ == old(data)@ + chunk@,
        more == (chunk@.len() >= buf_size),
{
    data.extend_from_slice(chunk);
    chunk.len() >= buf_size
}

} // verus!
