//! Fixed response fragments and message text, as bytes with exact contents.
//!
//! Every constant is stated as the byte rendering of an ASCII literal, so a
//! caller's contract can speak of the precise bytes that reach the client.

use vstd::prelude::*;
use vstd::string::StringSliceAdditionalSpecFns;

verus! {

/// The bytes of an ASCII character sequence, one byte per character.
pub open spec fn ascii_bytes_of(s: Seq<char>) -> Seq<u8> {
    Seq::new(s.len(), |i: int| s[i] as u8)
}

/// The health probe's response body.
pub open spec fn health_body_spec() -> Seq<u8> {
    ascii_bytes_of("{\"status\":\"ok\",\"version\":\"0.1.0\"}"@)
}

/// The health probe's response body, as bytes.
pub fn health_body() -> (r: Vec<u8>)
    ensures
        r@ == health_body_spec(),
{
    let s = "{\"status\":\"ok\",\"version\":\"0.1.0\"}";
    proof {
        reveal_strlit("{\"status\":\"ok\",\"version\":\"0.1.0\"}");
        assert(vstd::string::is_ascii(s));
        vstd::string::is_ascii_spec_bytes(s);
        assert(s.spec_bytes() =~= health_body_spec());
    }
    vstd::slice::slice_to_vec(s.as_bytes())
}

/// The message sent when a client-supplied hash is malformed.
pub open spec fn invalid_hash_msg() -> Seq<u8> {
    ascii_bytes_of("Invalid XET hash format (expected 64 hex characters)"@)
}

/// The malformed-hash message, as bytes.
pub fn invalid_hash_message() -> (r: Vec<u8>)
    ensures
        r@ == invalid_hash_msg(),
{
    let s = "Invalid XET hash format (expected 64 hex characters)";
    proof {
        reveal_strlit("Invalid XET hash format (expected 64 hex characters)");
        assert(vstd::string::is_ascii(s));
        vstd::string::is_ascii_spec_bytes(s);
        assert(s.spec_bytes() =~= invalid_hash_msg());
    }
    vstd::slice::slice_to_vec(s.as_bytes())
}

/// The message sent when the listing holds no line for the file: the file
/// name framed by a fixed prefix and suffix.
pub open spec fn not_found_msg(file: Seq<u8>) -> Seq<u8> {
    ascii_bytes_of("File '"@) + file + ascii_bytes_of("' not found or not XET-enabled"@)
}

/// The not-found message for `file`, as bytes.
pub fn not_found_message(file: &Vec<u8>) -> (r: Vec<u8>)
    ensures
        r@ == not_found_msg(file@),
{
    let p = "File '";
    let q = "' not found or not XET-enabled";
    proof {
        reveal_strlit("File '");
        reveal_strlit("' not found or not XET-enabled");
        assert(vstd::string::is_ascii(p));
        assert(vstd::string::is_ascii(q));
        vstd::string::is_ascii_spec_bytes(p);
        vstd::string::is_ascii_spec_bytes(q);
    }
    let mut r = vstd::slice::slice_to_vec(p.as_bytes());
    r.extend_from_slice(file.as_slice());
    r.extend_from_slice(q.as_bytes());
    proof {
        assert(r@ =~= not_found_msg(file@));
    }
    r
}

/// The message sent when the listing invocation reports failure: a fixed
/// prefix followed by the tool's diagnostic text.
pub open spec fn listing_failed_msg(diag: Seq<u8>) -> Seq<u8> {
    ascii_bytes_of("Failed to list files: "@) + diag
}

/// The listing-failure message for diagnostic text `diag`, as bytes.
pub fn listing_failed_message(diag: &Vec<u8>) -> (r: Vec<u8>)
    ensures
        r@ == listing_failed_msg(diag@),
{
    let p = "Failed to list files: ";
    proof {
        reveal_strlit("Failed to list files: ");
        assert(vstd::string::is_ascii(p));
        vstd::string::is_ascii_spec_bytes(p);
    }
    let mut r = vstd::slice::slice_to_vec(p.as_bytes());
    r.extend_from_slice(diag.as_slice());
    proof {
        assert(r@ =~= listing_failed_msg(diag@));
    }
    r
}

/// The fixed placeholder repository identifier that fetch-mode invocations
/// pass as their first argument; it only satisfies the external tool's own
/// authentication requirement and does not select what is fetched.
pub open spec fn placeholder_repo_spec() -> Seq<u8> {
    ascii_bytes_of("jedisct1/MiMo-7B-RL-GGUF"@)
}

/// The placeholder repository identifier for fetch-mode invocations.
pub fn placeholder_repo() -> (r: Vec<u8>)
    ensures
        r@ == placeholder_repo_spec(),
{
    let s = "jedisct1/MiMo-7B-RL-GGUF";
    proof {
        reveal_strlit("jedisct1/MiMo-7B-RL-GGUF");
        assert(vstd::string::is_ascii(s));
        vstd::string::is_ascii_spec_bytes(s);
        assert(s.spec_bytes() =~= placeholder_repo_spec());
    }
    vstd::slice::slice_to_vec(s.as_bytes())
}

/// The attachment header value for a download: a fixed prefix, the first
/// eight digits of the hash as the file name, and a fixed suffix.
pub open spec fn disposition_spec(hash: Seq<u8>) -> Seq<u8> {
    ascii_bytes_of("attachment; filename=\""@) + hash.take(8) + ascii_bytes_of(".bin\""@)
}

/// The attachment header value derived from a short prefix of `hash`.
pub fn disposition_value(hash: &Vec<u8>) -> (r: Vec<u8>)
    requires
        hash@.len() >= 8,
    ensures
        r@ == disposition_spec(hash@),
{
    let p = "attachment; filename=\"";
    let q = ".bin\"";
    proof {
        reveal_strlit("attachment; filename=\"");
        reveal_strlit(".bin\"");
        assert(vstd::string::is_ascii(p));
        assert(vstd::string::is_ascii(q));
        vstd::string::is_ascii_spec_bytes(p);
        vstd::string::is_ascii_spec_bytes(q);
    }
    let mut r = vstd::slice::slice_to_vec(p.as_bytes());
    let head = vstd::slice::slice_subrange(hash.as_slice(), 0, 8);
    r.extend_from_slice(head);
    r.extend_from_slice(q.as_bytes());
    proof {
        assert(r@ =~= disposition_spec(hash@));
    }
    r
}

} // verus!
