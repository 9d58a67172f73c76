//! Failures while turning one representation into another.

use vstd::prelude::*;
use vstd::string::StringExecFns;

verus! {

/// What kind of mapping failed.
#[derive(Debug, Clone, Copy, PartialEq, Eq, Structural)]
pub enum Reason {
    Other,
    FromDb,
}

impl Reason {
    /// The text shown for this kind.
    pub open spec fn spec_to_string(self) -> Seq<char> {
        match self {
            Reason::Other => "Error while mapping between types"@,
            Reason::FromDb => "Error while mapping from DB"@,
        }
    }

    /// Renders the kind for people.
    pub fn to_string(&self) -> (text: String)
        ensures
            text@ == self.spec_to_string(),
    {
        match self {
            Reason::Other => String::from_str("Error while mapping between types"),
            Reason::FromDb => String::from_str("Error while mapping from DB"),
        }
    }
}

/// A failed mapping: its kind and the cause in words.
#[derive(Debug)]
pub struct MappingError {
    pub reason: Reason,
    pub message: String,
}

impl MappingError {
    /// A row of the database could not be read; `message` describes why.
    pub fn from_db(message: String) -> (error: Self)
        ensures
            error.reason == Reason::FromDb,
            error.message == message,
    {
        Self { reason: Reason::FromDb, message }
    }

    /// Any other failure; `message` describes it.
    pub fn other(message: String) -> (error: Self)
        ensures
            error.reason == Reason::Other,
            error.message == message,
    {
        Self { reason: Reason::Other, message }
    }

    /// The short text: the kind alone.
    pub open spec fn spec_to_string(self) -> Seq<char> {
        self.reason.spec_to_string()
    }

    /// The long text: the kind, a colon and the cause.
    pub open spec fn spec_debug_string(self) -> Seq<char> {
        self.reason.spec_to_string() + ": "@ + self.message@
    }

    /// Renders the error for people.
    pub fn to_string(&self) -> (text: String)
        ensures
            text@ == self.spec_to_string(),
    {
        self.reason.to_string()
    }

    /// Renders the error with its cause, for logs.
    pub fn debug_string(&self) -> (text: String)
        ensures
            text@ == self.spec_debug_string(),
    {
        self.reason.to_string().concat(": ").concat(self.message.as_str())
    }
}

} // verus!
