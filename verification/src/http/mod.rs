//! Lightweight HTTP library.

pub mod client;
pub mod common;
pub mod server;

use vstd::prelude::*;
use crate::meta::{init_name, init_version, name_of, version_of, Meta};

verus! {

/// Get the version string: the known one, or the one that the manifest
/// declares where none is known yet.
pub fn version(meta: &Meta, cargo_toml: &str) -> (r: String)
    ensures
        r@ == (if meta@.0.len() == 0 {
            version_of(cargo_toml@)
        } else {
            meta@.0
        }),
{
    let known = crate::meta::version(meta);
    if known.as_bytes().len() == 0 {
        init_version(cargo_toml)
    } else {
        known.to_owned()
    }
}

/// Get the name string: the known one, or the one that the manifest declares
/// where none is known yet.
pub fn name(meta: &Meta, cargo_toml: &str) -> (r: String)
    ensures
        r@ == (if meta@.1.len() == 0 {
            name_of(cargo_toml@)
        } else {
            meta@.1
        }),
{
    let known = crate::meta::name(meta);
    if known.as_bytes().len() == 0 {
        init_name(cargo_toml)
    } else {
        known.to_owned()
    }
}

} // verus!
