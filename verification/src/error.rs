//! Failure taxonomy for generation. Input/output failures live with the
//! caller; generation itself can only meet a document that fails validation
//! or a construct it refuses to translate.

use vstd::prelude::*;

verus! {

#[derive(Clone, Copy, PartialEq, Eq, Structural, Debug)]
pub enum Error {
    /// The document fails semantic validation: a name that does not resolve,
    /// an alias cycle, or a layout that exceeds the address space.
    MalformedInput,
    /// A type or conversion shape the generator does not translate; nothing
    /// is emitted rather than emitting wrong layout code.
    UnsupportedConstruct,
}

impl Error {
    /// A short diagnostic text for the failure.
    pub fn message(&self) -> (r: &'static str)
        ensures
            *self is MalformedInput ==> r@ == "malformed interface document"@,
            *self is UnsupportedConstruct ==> r@ == "unsupported construct in interface document"@,
    {
        match self {
            Error::MalformedInput => "malformed interface document",
            Error::UnsupportedConstruct => "unsupported construct in interface document",
        }
    }
}

} // verus!
