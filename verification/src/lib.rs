//! Verified core of a WebDAV sync service for a reader's vocabulary database.
//!
//! The library decides who may reach the WebDAV store (HTTP Basic credentials checked
//! against a static account or against short-lived sessions), which requests the store
//! accepts, where an accepted request is routed inside the user's own directory, and
//! what the session and event endpoints answer. Networking, file access and
//! serialisation stay outside this crate.

pub mod basic_auth;
pub mod clock;
pub mod dav;
pub mod events;
pub mod session;
pub mod text;
pub mod vocabulary;

use vstd::prelude::*;

verus! {

/// Name of the only file that a client may upload or download.
pub const DB_FILE_NAME: &'static str = "vocabulary_builder.sqlite3";

/// Largest number of sessions that may be open at once in public mode.
pub const SESSION_LIMIT: u32 = 20;

/// Largest upload, in bytes, that the store accepts.
pub const MAX_DB_SIZE: u64 = 25 * 1024 * 1024;

/// How long a session of public mode stays open, in nanoseconds: one hour.
pub const SESSION_LIFETIME_NANOS: i128 = 60 * 60 * 1_000_000_000;

/// HTTP status `400 Bad Request`.
pub const STATUS_BAD_REQUEST: u16 = 400;

/// HTTP status `401 Unauthorized`.
pub const STATUS_UNAUTHORIZED: u16 = 401;

/// HTTP status `403 Forbidden`.
pub const STATUS_FORBIDDEN: u16 = 403;

/// HTTP status `405 Method Not Allowed`.
pub const STATUS_METHOD_NOT_ALLOWED: u16 = 405;

/// HTTP status `411 Length Required`.
pub const STATUS_LENGTH_REQUIRED: u16 = 411;

/// HTTP status `413 Payload Too Large`.
pub const STATUS_PAYLOAD_TOO_LARGE: u16 = 413;

/// HTTP status `429 Too Many Requests`.
pub const STATUS_TOO_MANY_REQUESTS: u16 = 429;

/// An answer that refuses a request: its HTTP status and the text of its body.
#[derive(Debug)]
pub struct ApiError {
    pub status: u16,
    pub message: String,
}

} // verus!
