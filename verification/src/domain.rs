//! Domain values shared by every layer.

use crate::errors::query::QueryError;
use vstd::prelude::*;

pub mod app_user;
pub mod comment;
pub mod db_id;
pub mod errors;
pub mod loading;
pub mod post;
pub mod relay_meta;
pub mod schema;
pub mod viewer;

verus! {

/// Input that can say whether it is acceptable.
pub trait ValidInput {
    /// Checks the input; a rejected input says why.
    fn validate(&self) -> Result<(), QueryError>;
}

} // verus!
