//! The library's failure type.
//!
//! Store or collaborator failures abort the operation in which they occur and
//! carry a human-readable description; the transport layer renders them as a
//! generic failure.

use vstd::prelude::*;

verus! {

/// A failure surfaced to the caller of an operation, carrying a description.
pub struct Error {
    message: String,
}

impl Error {
    /// The description carried by this error.
    pub closed spec fn spec_message(&self) -> Seq<char> {
        self.message@
    }

    /// Wrap a description into an error value.
    pub fn new(message: String) -> (e: Error)
        ensures
            e.spec_message() == message@,
    {
        Error { message }
    }

    /// The description, for rendering by the caller.
    pub fn message(&self) -> (m: &String)
        ensures
            m@ == self.spec_message(),
    {
        &self.message
    }
}

} // verus!
