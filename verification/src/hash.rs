//! Validation of client-supplied content hashes.
//!
//! A content hash addresses a file's payload in the upstream store. A
//! directly supplied hash is accepted only when it is exactly 64 bytes long
//! and every byte is an ASCII hexadecimal digit.

use vstd::prelude::*;

verus! {

/// The required length of a content hash, in hexadecimal digits.
pub const HASH_LEN: usize = 64;

/// Whether `b` is the ASCII code of a hexadecimal digit.
pub open spec fn is_hex_digit(b: u8) -> bool {
    (48 <= b && b <= 57) || (65 <= b && b <= 70) || (97 <= b && b <= 102)
}

/// Whether `s` is a well-formed content hash: exactly 64 ASCII hex digits.
pub open spec fn valid_hash(s: Seq<u8>) -> bool {
    s.len() == HASH_LEN && forall|i: int| 0 <= i < s.len() ==> is_hex_digit(#[trigger] s[i])
}

/// Decides whether the bytes of a client-supplied identifier form a
/// well-formed content hash.
pub fn hash_is_valid(s: &Vec<u8>) -> (r: bool)
    ensures
        r == valid_hash(s@),
{
    if s.len() != HASH_LEN {
        return false;
    }
    let mut i: usize = 0;
    while i < s.len()
        invariant
            0 <= i <= s.len(),
            forall|j: int| 0 <= j < i ==> is_hex_digit(#[trigger] s@[j]),
        decreases s.len() - i,
    {
        let b = s[i];
        if !((48 <= b && b <= 57) || (65 <= b && b <= 70) || (97 <= b && b <= 102)) {
            return false;
        }
        i += 1;
    }
    true
}

} // verus!
