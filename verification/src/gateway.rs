//! Request-level decisions: what a download request is allowed to do before
//! any process is spawned, and what a finished listing invocation means.

use vstd::prelude::*;
use crate::error::AppError;
use crate::hash::{hash_is_valid, valid_hash};
use crate::listing::{resolve_hash, resolved_hash};
use crate::respond::{
    invalid_hash_message, invalid_hash_msg, listing_failed_message, listing_failed_msg,
    not_found_message, not_found_msg,
};

verus! {

/// Admission decision for a hash-based download: the request may proceed to
/// spawn a fetch exactly when the supplied identifier is a well-formed
/// content hash; otherwise it is rejected with the fixed bad-request
/// message before any process is spawned.
pub fn check_hash_request(hash: &Vec<u8>) -> (r: Result<(), AppError>)
    ensures
        match r {
            Ok(_) => valid_hash(hash@),
            Err(e) => !valid_hash(hash@) && (e matches AppError::BadRequest(m) && m@
                == invalid_hash_msg()),
        },
{
    if hash_is_valid(hash) {
        Ok(())
    } else {
        Err(AppError::BadRequest(invalid_hash_message()))
    }
}

/// Outcome of a completed listing invocation for `file`.
///
/// A failed invocation surfaces the tool's diagnostic text as an upstream
/// failure; a successful one either resolves the file name to the hash on
/// the first matching listing line or reports the file as not found.
pub fn resolve_listing(listing_ok: bool, stdout: &Vec<u8>, stderr: &Vec<u8>, file: &Vec<u8>) -> (r:
    Result<Vec<u8>, AppError>)
    ensures
        match r {
            Ok(h) => listing_ok && resolved_hash(stdout@, file@) == Some(h@),
            Err(e) => match e {
                AppError::Upstream(m) => !listing_ok && m@ == listing_failed_msg(stderr@),
                AppError::NotFound(m) => listing_ok && resolved_hash(stdout@, file@) is None
                    && m@ == not_found_msg(file@),
                _ => false,
            },
        },
{
    if !listing_ok {
        return Err(AppError::Upstream(listing_failed_message(stderr)));
    }
    match resolve_hash(stdout, file) {
        Some(h) => Ok(h),
        None => Err(AppError::NotFound(not_found_message(file))),
    }
}

} // verus!
