//! Failures while talking to the database.

use crate::errors::mapping::MappingError;
use vstd::prelude::*;
use vstd::string::StringExecFns;

verus! {

/// What kind of database failure it was.
#[derive(Debug, Clone, Copy, PartialEq, Eq, Structural)]
pub enum Reason {
    Other,
    Mapping,
    ConnectionFailed,
}

impl Reason {
    /// The text shown for this kind.
    pub open spec fn spec_to_string(self) -> Seq<char> {
        match self {
            Reason::Other => "Error while using DB"@,
            Reason::Mapping => "Could not map data as expected"@,
            Reason::ConnectionFailed => "Error while connecting to DB"@,
        }
    }

    /// Renders the kind for people.
    pub fn to_string(&self) -> (text: String)
        ensures
            text@ == self.spec_to_string(),
    {
        match self {
            Reason::Other => String::from_str("Error while using DB"),
            Reason::Mapping => String::from_str("Could not map data as expected"),
            Reason::ConnectionFailed => String::from_str("Error while connecting to DB"),
        }
    }
}

/// A database failure: its kind and the cause in words.
#[derive(Debug, Clone)]
pub struct DbError {
    pub reason: Reason,
    pub message: String,
}

impl DbError {
    /// No connection could be had; `message` describes why.
    pub fn connection(message: String) -> (error: Self)
        ensures
            error.reason == Reason::ConnectionFailed,
            error.message == message,
    {
        Self { reason: Reason::ConnectionFailed, message }
    }

    /// Any other failure; `message` describes it.
    pub fn other(message: String) -> (error: Self)
        ensures
            error.reason == Reason::Other,
            error.message == message,
    {
        Self { reason: Reason::Other, message }
    }

    /// A mapping failure seen from the database layer: the cause is the
    /// mapping error's short text.
    pub fn from_mapping(value: MappingError) -> (error: Self)
        ensures
            error.reason == Reason::Mapping,
            error.message@ == value.spec_to_string(),
    {
        Self { reason: Reason::Mapping, message: value.to_string() }
    }

    /// The short text: the kind alone.
    pub open spec fn spec_to_string(self) -> Seq<char> {
        self.reason.spec_to_string()
    }

    /// The long text: the kind, a colon and the cause.
    pub open spec fn spec_debug_string(self) -> Seq<char> {
        self.reason.spec_to_string() + ": "@ + self.message@
    }

    /// Renders the error for people.
    pub fn to_string(&self) -> (text: String)
        ensures
            text@ == self.spec_to_string(),
    {
        self.reason.to_string()
    }

    /// Renders the error with its cause, for logs.
    pub fn debug_string(&self) -> (text: String)
        ensures
            text@ == self.spec_debug_string(),
    {
        self.reason.to_string().concat(": ").concat(self.message.as_str())
    }
}

} // verus!
