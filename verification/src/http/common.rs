//! What client and server share.

use vstd::prelude::*;
use crate::error::Fail;
use crate::text::str_eq;

verus! {

/// HTTP request method.
#[derive(Clone, Copy, Debug, PartialEq, Eq, Structural)]
pub enum HttpMethod {
    Get,
    Post,
    Put,
    Delete,
    Head,
    Connect,
    Options,
    Trace,
}

impl HttpMethod {
    /// The method's name on the wire.
    pub open spec fn text(self) -> Seq<char> {
        match self {
            HttpMethod::Get => "GET"@,
            HttpMethod::Post => "POST"@,
            HttpMethod::Put => "PUT"@,
            HttpMethod::Delete => "DELETE"@,
            HttpMethod::Head => "HEAD"@,
            HttpMethod::Connect => "CONNECT"@,
            HttpMethod::Options => "OPTIONS"@,
            HttpMethod::Trace => "TRACE"@,
        }
    }

    /// The method's name on the wire.
    pub fn as_str(&self) -> (r: &'static str)
        ensures
            r@ == self.text(),
    {
        match self {
            HttpMethod::Get => "GET",
            HttpMethod::Post => "POST",
            HttpMethod::Put => "PUT",
            HttpMethod::Delete => "DELETE",
            HttpMethod::Head => "HEAD",
            HttpMethod::Connect => "CONNECT",
            HttpMethod::Options => "OPTIONS",
            HttpMethod::Trace => "TRACE",
        }
    }

    /// The method with the given name; names are in upper case.
    pub fn try_from(item: &str) -> (r: Result<Self, Box<Fail>>)
        ensures
            match r {
                Ok(method) => item@ == method.text(),
                Err(fail) => fail.0@ == "Invalid method in header"@ && forall|m: HttpMethod|
                    item@ != #[trigger] m.text(),
            },
    {
        if str_eq(item, "GET") {
            Ok(HttpMethod::Get)
        } else if str_eq(item, "POST") {
            Ok(HttpMethod::Post)
        } else if str_eq(item, "PUT") {
            Ok(HttpMethod::Put)
        } else if str_eq(item, "DELETE") {
            Ok(HttpMethod::Delete)
        } else if str_eq(item, "HEAD") {
            Ok(HttpMethod::Head)
        } else if str_eq(item, "CONNECT") {
            Ok(HttpMethod::Connect)
        } else if str_eq(item, "OPTIONS") {
            Ok(HttpMethod::Options)
        } else if str_eq(item, "TRACE") {
            Ok(HttpMethod::Trace)
        } else {
            Fail::from("Invalid method in header")
        }
    }
}

} // verus!
