//! Verified core of a media-backed content platform backend.
//!
//! The two load-bearing pieces are verified here: the streaming
//! object-storage gateway (moving large binary payloads between HTTP
//! bodies and a blob store without whole-file buffering) and the
//! cursor-based pagination primitive for listing large append-only
//! collections consistently under concurrent writes.

use vstd::prelude::*;

pub mod bytebuf;
pub mod chapters;
pub mod comic_genres;
pub mod errors;
pub mod keys;
pub mod paginate;
pub mod storage;
pub mod stream;
pub mod users;

verus! {

/// An instant, as the plain values the rows carry: seconds and
/// subsecond nanoseconds since the epoch. Nothing here computes with
/// time; the boundary converts its timestamp type both ways.
#[derive(PartialEq, Eq, Structural, Debug, Clone, Copy)]
pub struct Timestamp {
    pub seconds: i64,
    pub nanos: u32,
}

/// Startup configuration, constructed once at the boundary and passed
/// in explicitly — no ambient lookup.
pub struct Config {
    pub cookie_secret: String,
}

/// Marker for the generated API documentation; the generator itself
/// lives at the boundary.
pub struct ApiDoc;

/// Marker for the security scheme the API documentation advertises;
/// the documentation generator itself lives at the boundary.
pub struct SecurityAddon;

/// A machine-readable error payload returned to API callers.
pub struct ErrorResponse {
    pub error: String,
    pub details: Option<Vec<String>>,
}

impl Default for ErrorResponse {
    fn default() -> (r: Self)
        ensures
            r.error@ == Seq::<char>::empty(),
            r.details is None,
    {
        ErrorResponse { error: String::new(), details: None }
    }
}

impl ErrorResponse {
    pub fn new(error_message: String) -> (r: Self)
        ensures
            r.error@ == error_message@,
            r.details is None,
    {
        ErrorResponse { error: error_message, details: None }
    }

    pub fn with_details(error_message: String, details: Vec<String>) -> (r: Self)
        ensures
            r.error@ == error_message@,
            r.details == Some(details),
    {
        ErrorResponse { error: error_message, details: Some(details) }
    }
}

} // verus!
