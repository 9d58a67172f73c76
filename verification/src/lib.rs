//! Verified core of a small social-network backend.
//!
//! The heart is the notification fan-out in
//! [`infrastructure::notification_center`]: raw database notifications are
//! decoded into typed events, a daemon that owns the registry of listeners
//! decides who gets each event and who is swept out, and every subscriber is
//! handed its events in batches. Around it stand the identifiers, relay ids
//! and cursors of [`domain`], the page arithmetic of
//! [`domain::relay_meta`], and the error values of [`errors`].
//!
//! Nothing in here waits. Queues, sockets and timers belong to the program
//! that drives the library: it hands over what arrived and carries out what
//! is decided. The few calls into other crates (tokio's channel halves, the
//! base64 codec, the standard library's UTF-8 check) go through small
//! functions whose contracts are taken on trust; each says what it claims.

pub mod domain;
pub mod encoding;
pub mod errors;
pub mod infrastructure;
pub mod text;
