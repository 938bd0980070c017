//! The error type a failed parse returns.

use vstd::prelude::*;

verus! {

/// The one failure a parse can report: a rendered, line- and
/// column-annotated diagnostic of the rule stack that rejected the input.
#[derive(Debug, Eq, PartialEq)]
#[non_exhaustive]
pub enum Error {
    ParseError(String),
}

impl View for Error {
    type V = Seq<char>;

    open spec fn view(&self) -> Seq<char> {
        match self {
            Error::ParseError(m) => m@,
        }
    }
}

impl Error {
    /// The rendered diagnostic.
    pub fn message(&self) -> (r: &str)
        ensures
            r@ == self@,
    {
        match self {
            Error::ParseError(m) => m.as_str(),
        }
    }
}

} // verus!
