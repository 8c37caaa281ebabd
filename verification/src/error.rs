//! The one error type of the crate: a message for a human reader.

use vstd::prelude::*;
use vstd::std_specs::convert::FromSpecImpl;

verus! {

/// A failure, described by a message. It carries nothing else: whatever
/// went wrong, the caller is expected to report the message and stop.
#[derive(Debug, Clone)]
pub struct Error {
    pub message: String,
}

impl View for Error {
    type V = Seq<char>;

    /// An error is its message.
    open spec fn view(&self) -> Seq<char> {
        self.message@
    }
}

impl Error {
    /// The message, as a string of its own.
    pub fn to_string(&self) -> (text: String)
        ensures
            text@ == self@,
    {
        self.message.clone()
    }
}

impl From<&str> for Error {
    fn from(message: &str) -> (error: Error)
        ensures
            error@ == message@,
    {
        Error { message: message.to_owned() }
    }
}

impl FromSpecImpl<&str> for Error {
    /// Two strings with the same characters need not be the same value to
    /// the verifier, so the conversion is described by its `ensures` alone.
    open spec fn obeys_from_spec() -> bool {
        false
    }

    open spec fn from_spec(message: &str) -> Error {
        arbitrary()
    }
}

impl From<&String> for Error {
    fn from(message: &String) -> (error: Error)
        ensures
            error@ == message@,
    {
        Error { message: message.clone() }
    }
}

impl FromSpecImpl<&String> for Error {
    open spec fn obeys_from_spec() -> bool {
        true
    }

    open spec fn from_spec(message: &String) -> Error {
        Error { message: *message }
    }
}

impl From<String> for Error {
    fn from(message: String) -> (error: Error)
        ensures
            error@ == message@,
    {
        Error { message }
    }
}

impl FromSpecImpl<String> for Error {
    open spec fn obeys_from_spec() -> bool {
        true
    }

    open spec fn from_spec(message: String) -> Error {
        Error { message }
    }
}

} // verus!
