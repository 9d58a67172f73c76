//! Failures that the request layer reports.

use vstd::prelude::*;
use vstd::string::StringExecFns;

verus! {

/// A value could not be turned into another.
#[derive(Debug)]
pub enum MappingError {
    /// A relay id was not what it should be; holds the cause.
    DecodeRelayId(String),
}

impl MappingError {
    /// The error for a relay id that could not be decoded, with the cause
    /// already put in words.
    pub fn decode_relay_id(e: String) -> (error: Self)
        ensures
            error == MappingError::DecodeRelayId(e),
    {
        Self::DecodeRelayId(e)
    }

    /// The text shown for this error.
    pub open spec fn spec_to_string(self) -> Seq<char> {
        match self {
            MappingError::DecodeRelayId(cause) => "Could not decode relay id: "@ + cause@,
        }
    }

    /// Renders the error for people.
    pub fn to_string(&self) -> (text: String)
        ensures
            text@ == self.spec_to_string(),
    {
        match self {
            MappingError::DecodeRelayId(cause) => String::from_str(
                "Could not decode relay id: ",
            ).concat(cause.as_str()),
        }
    }
}

/// What a request can fail with.
#[derive(Debug)]
pub enum GqlError {
    DbLoad,
    DbSave,
    InternalData(String),
    InvalidState(String),
    InvalidRequest(String),
    OtherServer(String),
}

impl GqlError {
    /// The error for a request that names something malformed: the mapping
    /// error's text becomes the cause.
    pub fn invalid_request(cause: &MappingError) -> (error: Self)
        ensures
            error matches GqlError::InvalidRequest(text) && text@ == cause.spec_to_string(),
    {
        GqlError::InvalidRequest(cause.to_string())
    }

    /// The text shown for this error.
    pub open spec fn spec_to_string(self) -> Seq<char> {
        match self {
            GqlError::DbLoad => "Could not load from db"@,
            GqlError::DbSave => "Could not save to db"@,
            GqlError::InternalData(_) => "Could not access internal tooling"@,
            GqlError::InvalidState(cause) => "Invalid internal state: "@ + cause@,
            GqlError::InvalidRequest(cause) => "Invalid request: "@ + cause@,
            GqlError::OtherServer(cause) => "Other server returned error: "@ + cause@,
        }
    }

    /// Renders the error for people.
    pub fn to_string(&self) -> (text: String)
        ensures
            text@ == self.spec_to_string(),
    {
        match self {
            GqlError::DbLoad => String::from_str("Could not load from db"),
            GqlError::DbSave => String::from_str("Could not save to db"),
            GqlError::InternalData(_) => String::from_str("Could not access internal tooling"),
            GqlError::InvalidState(cause) => String::from_str("Invalid internal state: ").concat(
                cause.as_str(),
            ),
            GqlError::InvalidRequest(cause) => String::from_str("Invalid request: ").concat(
                cause.as_str(),
            ),
            GqlError::OtherServer(cause) => String::from_str(
                "Other server returned error: ",
            ).concat(cause.as_str()),
        }
    }
}

} // verus!
