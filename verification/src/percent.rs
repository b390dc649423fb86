//! Percent-decoding of path segment values.
//!
//! Values bound by the router arrive percent-encoded. A `%` followed by two
//! hexadecimal digits decodes to the byte they name; any other byte, and any
//! `%` not followed by two hexadecimal digits, passes through unchanged.

use vstd::prelude::*;
use crate::hash::is_hex_digit;

verus! {

/// The numeric value of the ASCII hexadecimal digit `b`.
pub open spec fn hex_val(b: u8) -> u8
    recommends
        is_hex_digit(b),
{
    if 48 <= b && b <= 57 {
        (b - 48) as u8
    } else if 65 <= b && b <= 70 {
        (b - 55) as u8
    } else {
        (b - 87) as u8
    }
}

/// Whether the three bytes starting at `i` form a percent escape.
pub open spec fn is_escape(s: Seq<u8>, i: int) -> bool {
    i + 3 <= s.len() && s[i] == 37 && is_hex_digit(s[i + 1]) && is_hex_digit(s[i + 2])
}

/// `s` with every percent escape decoded to the byte it names.
pub open spec fn pct_decoded(s: Seq<u8>) -> Seq<u8>
    decreases s.len(),
{
    if s.len() == 0 {
        Seq::empty()
    } else if is_escape(s, 0) {
        seq![(hex_val(s[1]) * 16 + hex_val(s[2])) as u8] + pct_decoded(s.skip(3))
    } else {
        seq![s[0]] + pct_decoded(s.skip(1))
    }
}

/// The numeric value of a hexadecimal digit byte.
fn hex_digit_val(b: u8) -> (r: u8)
    requires
        is_hex_digit(b),
    ensures
        r == hex_val(b),
        r <= 15,
{
    if 48 <= b && b <= 57 {
        b - 48
    } else if 65 <= b && b <= 70 {
        b - 55
    } else {
        b - 87
    }
}

/// Whether `b` is an ASCII hexadecimal digit, decided on the byte value.
fn hex_digit(b: u8) -> (r: bool)
    ensures
        r == is_hex_digit(b),
{
    (48 <= b && b <= 57) || (65 <= b && b <= 70) || (97 <= b && b <= 102)
}

/// Decodes every percent escape in `s`; all other bytes pass through.
pub fn percent_decode(s: &Vec<u8>) -> (r: Vec<u8>)
    ensures
        r@ == pct_decoded(s@),
{
    let n = s.len();
    let mut r: Vec<u8> = Vec::new();
    let mut i: usize = 0;
    proof {
        assert(s@.skip(0) =~= s@);
        assert(Seq::<u8>::empty() + pct_decoded(s@) =~= pct_decoded(s@));
    }
    while i < n
        invariant
            0 <= i <= n,
            n == s@.len(),
            r@ + pct_decoded(s@.skip(i as int)) == pct_decoded(s@),
        decreases n - i,
    {
        let ghost rest = s@.skip(i as int);
        if n - i >= 3 && s[i] == 37 && hex_digit(s[i + 1]) && hex_digit(s[i + 2]) {
            let b = hex_digit_val(s[i + 1]) * 16 + hex_digit_val(s[i + 2]);
            proof {
                assert(rest[0] == s@[i as int] && rest[1] == s@[i + 1] && rest[2] == s@[i + 2]);
                assert(is_escape(rest, 0));
                assert(rest.skip(3) =~= s@.skip(i + 3));
                assert(pct_decoded(rest) == seq![b] + pct_decoded(s@.skip(i + 3)));
                assert((r@ + seq![b]) + pct_decoded(s@.skip(i + 3)) =~= r@ + pct_decoded(rest));
            }
            r.push(b);
            i += 3;
        } else {
            let b = s[i];
            proof {
                assert(rest[0] == s@[i as int]);
                if n - i >= 3 {
                    assert(rest[1] == s@[i + 1] && rest[2] == s@[i + 2]);
                }
                assert(!is_escape(rest, 0));
                assert(rest.skip(1) =~= s@.skip(i + 1));
                assert(pct_decoded(rest) == seq![b] + pct_decoded(s@.skip(i + 1)));
                assert((r@ + seq![b]) + pct_decoded(s@.skip(i + 1)) =~= r@ + pct_decoded(rest));
            }
            r.push(b);
            i += 1;
        }
    }
    proof {
        assert(s@.skip(n as int) =~= Seq::<u8>::empty());
        assert(r@ =~= pct_decoded(s@));
    }
    r
}

} // verus!
