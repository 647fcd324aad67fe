//! A plain error value that carries a message.

use vstd::prelude::*;

verus! {

/// Anything that can be read as text: string slices, strings and failures.
pub trait ToText {
    /// The text, as contracts speak of it.
    spec fn text(&self) -> Seq<char>;

    /// The text as an owned string.
    fn to_text(&self) -> (r: String)
        ensures
            r@ == self.text(),
    ;
}

impl ToText for &str {
    open spec fn text(&self) -> Seq<char> {
        (*self)@
    }

    fn to_text(&self) -> (r: String) {
        (*self).to_owned()
    }
}

impl ToText for &String {
    open spec fn text(&self) -> Seq<char> {
        (*self)@
    }

    fn to_text(&self) -> (r: String) {
        (*self).clone()
    }
}

impl ToText for String {
    open spec fn text(&self) -> Seq<char> {
        self@
    }

    fn to_text(&self) -> (r: String) {
        self.clone()
    }
}

impl ToText for Fail {
    open spec fn text(&self) -> Seq<char> {
        self.0@
    }

    fn to_text(&self) -> (r: String) {
        self.0.clone()
    }
}

impl ToText for Box<Fail> {
    open spec fn text(&self) -> Seq<char> {
        self.0@
    }

    fn to_text(&self) -> (r: String) {
        self.0.clone()
    }
}

/// An error that is nothing but its message.
#[derive(Clone, Debug, Eq, Hash, Ord, PartialEq, PartialOrd)]
pub struct Fail(pub String);

impl Fail {
    /// A boxed `Fail` with the message of `err`.
    pub fn new<E: ToText>(err: E) -> (r: Box<Self>)
        ensures
            r.0@ == err.text(),
    {
        Box::new(Fail(err.to_text()))
    }

    /// A failed result that holds a boxed `Fail` with the message of `err`.
    pub fn from<T, E: ToText>(err: E) -> (r: Result<T, Box<Self>>)
        ensures
            r is Err,
            r->Err_0.0@ == err.text(),
    {
        Err(Self::new(err))
    }

    /// A failed result that holds a `Fail` with the message of `err`.
    pub fn std_result<T, E: ToText>(err: E) -> (r: Result<T, Self>)
        ensures
            r is Err,
            r->Err_0.0@ == err.text(),
    {
        Err(Fail(err.to_text()))
    }

    /// The error message.
    pub fn err_msg(&self) -> (r: &str)
        ensures
            r@ == self.0@,
    {
        self.0.as_str()
    }

    /// The error message as an owned string.
    pub fn to_string(&self) -> (r: String)
        ensures
            r@ == self.0@,
    {
        self.0.clone()
    }
}

} // verus!
