//! Verified core of an HTTP gateway that maps content identifiers to byte
//! streams produced by an external content-addressed transfer tool.
//!
//! The library holds the request-scoped logic that can be checked: validating
//! client-supplied content hashes, resolving a file name to its hash from the
//! tool's line-oriented listing output, classifying failures, and shaping the
//! fixed response fragments. Process spawning, sockets and streaming live
//! outside the library and hand it plain byte values.

pub mod error;
pub mod gateway;
pub mod hash;
pub mod listing;
pub mod percent;
pub mod respond;
pub mod route;
pub mod text;

pub use error::AppError;
pub use gateway::check_hash_request;
pub use gateway::resolve_listing;
pub use hash::hash_is_valid;
pub use percent::percent_decode;
pub use listing::resolve_hash;
pub use route::parse_route;
pub use route::Route;
