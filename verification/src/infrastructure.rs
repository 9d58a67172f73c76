//! Runtime-facing pieces: the notification fan-out, its errors, and the
//! settings of the database and of neighbouring services.

pub mod db;
pub mod errors;
pub mod notification_center;
pub mod urls;
