//! Failures while answering a query.

use crate::errors::db::DbError;
use crate::errors::mapping::MappingError;
use vstd::prelude::*;
use vstd::string::StringExecFns;

verus! {

/// What kind of query failure it was.
#[derive(Debug, Clone, Copy, PartialEq, Eq, Structural)]
pub enum Reason {
    Other,
    NotFound,
    Db,
    InvalidInput,
    InternalSystem,
}

impl Reason {
    /// The text shown for this kind.
    pub open spec fn spec_to_string(self) -> Seq<char> {
        match self {
            Reason::Other => "Unexpected error"@,
            Reason::NotFound => "Could not find the requested data"@,
            Reason::Db => "Encountered an error while accessing the database"@,
            Reason::InvalidInput => "Given input had the wrong format"@,
            Reason::InternalSystem => "Internal error"@,
        }
    }

    /// Renders the kind for people.
    pub fn to_string(&self) -> (text: String)
        ensures
            text@ == self.spec_to_string(),
    {
        match self {
            Reason::Other => String::from_str("Unexpected error"),
            Reason::NotFound => String::from_str("Could not find the requested data"),
            Reason::Db => String::from_str("Encountered an error while accessing the database"),
            Reason::InvalidInput => String::from_str("Given input had the wrong format"),
            Reason::InternalSystem => String::from_str("Internal error"),
        }
    }
}

/// A failed query: its kind and, where known, the cause in words.
#[derive(Debug)]
pub struct QueryError {
    pub reason: Reason,
    pub message: Option<String>,
}

impl QueryError {
    /// The requested data does not exist.
    pub fn not_found() -> (error: Self)
        ensures
            error.reason == Reason::NotFound,
            error.message is None,
    {
        Self { reason: Reason::NotFound, message: None }
    }

    /// Something inside the server went wrong; `value` describes it.
    pub fn internal(value: String) -> (error: Self)
        ensures
            error.reason == Reason::InternalSystem,
            error.message == Some(value),
    {
        Self { reason: Reason::InternalSystem, message: Some(value) }
    }

    /// The request was malformed; `message` says how.
    pub fn invalid_input(message: String) -> (error: Self)
        ensures
            error.reason == Reason::InvalidInput,
            error.message == Some(message),
    {
        Self { reason: Reason::InvalidInput, message: Some(message) }
    }

    /// Any other failure; `message` describes it.
    pub fn other(message: String) -> (error: Self)
        ensures
            error.reason == Reason::Other,
            error.message == Some(message),
    {
        Self { reason: Reason::Other, message: Some(message) }
    }

    /// A mapping failure seen from a query: kind `Other`, the cause is the
    /// mapping error's short text.
    pub fn from_mapping(value: MappingError) -> (error: Self)
        ensures
            error.reason == Reason::Other,
            error.message matches Some(cause) && cause@ == value.spec_to_string(),
    {
        Self { reason: Reason::Other, message: Some(value.to_string()) }
    }

    /// A database failure seen from a query: kind `Db`, the cause is the
    /// database error's short text.
    pub fn from_db(value: DbError) -> (error: Self)
        ensures
            error.reason == Reason::Db,
            error.message matches Some(cause) && cause@ == value.spec_to_string(),
    {
        Self { reason: Reason::Db, message: Some(value.to_string()) }
    }

    /// The short text: the kind alone.
    pub open spec fn spec_to_string(self) -> Seq<char> {
        self.reason.spec_to_string()
    }

    /// The long text: the kind, then a colon and the cause where one is
    /// known.
    pub open spec fn spec_debug_string(self) -> Seq<char> {
        match self.message {
            Some(cause) => self.reason.spec_to_string() + ": "@ + cause@,
            None => self.reason.spec_to_string(),
        }
    }

    /// Renders the error for people.
    pub fn to_string(&self) -> (text: String)
        ensures
            text@ == self.spec_to_string(),
    {
        self.reason.to_string()
    }

    /// Renders the error with its cause, for logs.
    pub fn debug_string(&self) -> (text: String)
        ensures
            text@ == self.spec_debug_string(),
    {
        match &self.message {
            Some(cause) => self.reason.to_string().concat(": ").concat(cause.as_str()),
            None => self.reason.to_string(),
        }
    }
}

} // verus!
