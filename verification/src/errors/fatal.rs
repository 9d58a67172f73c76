//! Failures that end a request without more to say.

use vstd::prelude::*;
use vstd::string::StringExecFns;

verus! {

/// A failure nobody recovers from; holds the cause in words.
#[derive(Debug)]
pub struct FatalError {
    pub message: String,
}

/// What a fatal error shows to people.
pub const FATAL_TEXT: &'static str = "Fatal problem";

impl FatalError {
    /// A fatal error with the given cause.
    pub fn new(message: String) -> (error: Self)
        ensures
            error.message == message,
    {
        Self { message }
    }

    /// The long text: the short text, a colon and the cause.
    pub open spec fn spec_debug_string(self) -> Seq<char> {
        FATAL_TEXT@ + ": "@ + self.message@
    }

    /// Renders the error for people: always the same words.
    pub fn to_string(&self) -> (text: String)
        ensures
            text@ == FATAL_TEXT@,
    {
        String::from_str(FATAL_TEXT)
    }

    /// Renders the error with its cause, for logs.
    pub fn debug_string(&self) -> (text: String)
        ensures
            text@ == self.spec_debug_string(),
    {
        String::from_str(FATAL_TEXT).concat(": ").concat(self.message.as_str())
    }
}

} // verus!
