//! Error values of the request-handling layers.

pub mod db;
pub mod fatal;
pub mod loader;
pub mod mapping;
pub mod query;
