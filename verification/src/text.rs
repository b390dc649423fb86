//! Byte-level text helpers: substring search, whitespace trimming and
//! subrange extraction, each with an exact functional contract.
//!
//! The listing produced by the external tool is a byte stream; the resolver
//! works on bytes throughout, so these helpers are stated over `Seq<u8>`.

use vstd::prelude::*;

verus! {

/// Whether `needle` occurs in `hay` starting at index `i`.
pub open spec fn match_at(hay: Seq<u8>, needle: Seq<u8>, i: int) -> bool {
    0 <= i && i + needle.len() <= hay.len() && hay.subrange(i, i + needle.len() as int)
        == needle
}

/// Whether `needle` occurs anywhere in `hay`.
pub open spec fn has_sub(hay: Seq<u8>, needle: Seq<u8>) -> bool {
    exists|i: int| match_at(hay, needle, i)
}

/// The least index at which `needle` occurs in `hay`; meaningful only when
/// `has_sub(hay, needle)` holds (see `lemma_first_match`).
pub open spec fn first_match(hay: Seq<u8>, needle: Seq<u8>) -> int
    decreases hay.len(),
{
    if match_at(hay, needle, 0) {
        0
    } else if hay.len() == 0 {
        0
    } else {
        1 + first_match(hay.drop_first(), needle)
    }
}

proof fn lemma_match_shift(hay: Seq<u8>, needle: Seq<u8>, j: int)
    requires
        hay.len() > 0,
        0 <= j,
    ensures
        match_at(hay.drop_first(), needle, j) <==> match_at(hay, needle, j + 1),
{
    if j + needle.len() <= hay.drop_first().len() {
        assert(hay.drop_first().subrange(j, j + needle.len() as int) =~= hay.subrange(
            j + 1,
            j + 1 + needle.len() as int,
        ));
    }
}

/// When `needle` occurs in `hay`, `first_match` names its least occurrence.
pub proof fn lemma_first_match(hay: Seq<u8>, needle: Seq<u8>)
    requires
        has_sub(hay, needle),
    ensures
        match_at(hay, needle, first_match(hay, needle)),
        forall|j: int| 0 <= j < first_match(hay, needle) ==> !match_at(hay, needle, j),
    decreases hay.len(),
{
    if match_at(hay, needle, 0) {
    } else {
        let w = choose|i: int| match_at(hay, needle, i);
        assert(w >= 1);
        assert(hay.len() > 0);
        lemma_match_shift(hay, needle, w - 1);
        assert(match_at(hay.drop_first(), needle, w - 1));
        lemma_first_match(hay.drop_first(), needle);
        let f = first_match(hay.drop_first(), needle);
        lemma_match_shift(hay, needle, f);
        assert forall|j: int| 0 <= j < 1 + f implies !match_at(hay, needle, j) by {
            if j >= 1 {
                lemma_match_shift(hay, needle, j - 1);
            }
        }
    }
}

/// Whether `needle` occurs in `hay` starting exactly at `i`, decided by
/// comparing bytes.
fn eq_at(hay: &[u8], needle: &[u8], i: usize) -> (r: bool)
    requires
        i + needle@.len() <= hay@.len(),
    ensures
        r == match_at(hay@, needle@, i as int),
{
    let hay_len = hay.len();
    let mut k: usize = 0;
    while k < needle.len()
        invariant
            0 <= k <= needle@.len(),
            i + needle@.len() <= hay@.len(),
            hay@.len() == hay_len,
            forall|t: int| 0 <= t < k ==> hay@[i + t] == needle@[t],
        decreases needle@.len() - k,
    {
        if hay[i + k] != needle[k] {
            assert(!match_at(hay@, needle@, i as int)) by {
                assert(hay@[i + k] != needle@[k as int]);
            }
            return false;
        }
        k += 1;
    }
    assert(hay@.subrange(i as int, i + needle@.len() as int) =~= needle@);
    true
}

/// Finds the least index at which `needle` occurs in `hay`, if any.
pub fn find_sub(hay: &[u8], needle: &[u8]) -> (r: Option<usize>)
    ensures
        match r {
            Some(i) => match_at(hay@, needle@, i as int) && i == first_match(hay@, needle@),
            None => !has_sub(hay@, needle@),
        },
{
    if needle.len() > hay.len() {
        assert(!has_sub(hay@, needle@));
        return None;
    }
    if needle.len() == 0 {
        assert(hay@.subrange(0, 0) =~= needle@);
        return Some(0);
    }
    let last = hay.len() - needle.len();
    let mut i: usize = 0;
    while i <= last
        invariant
            1 <= needle@.len() <= hay@.len(),
            hay@.len() <= usize::MAX,
            last == hay@.len() - needle@.len(),
            0 <= i <= last + 1,
            forall|j: int| 0 <= j < i ==> !match_at(hay@, needle@, j),
        decreases last + 1 - i,
    {
        if eq_at(hay, needle, i) {
            proof {
                lemma_first_match_at(hay@, needle@, i as int);
            }
            return Some(i);
        }
        i += 1;
    }
    assert(!has_sub(hay@, needle@));
    None
}

/// A witness that `m` is the least occurrence pins `first_match` to `m`.
pub proof fn lemma_first_match_at(hay: Seq<u8>, needle: Seq<u8>, m: int)
    requires
        match_at(hay, needle, m),
        forall|j: int| 0 <= j < m ==> !match_at(hay, needle, j),
    ensures
        first_match(hay, needle) == m,
{
    lemma_first_match(hay, needle);
    let f = first_match(hay, needle);
    if f < m {
        assert(match_at(hay, needle, f));
        assert(false);
    }
    if m < f {
        assert(!match_at(hay, needle, m));
        assert(false);
    }
}

/// Whether `needle` occurs anywhere in `hay`, decided by scanning.
pub fn contains_sub(hay: &[u8], needle: &[u8]) -> (r: bool)
    ensures
        r == has_sub(hay@, needle@),
{
    match find_sub(hay, needle) {
        Some(_) => true,
        None => false,
    }
}

/// Index of the first occurrence of byte `t` in `s`, or `s.len()` when `t`
/// does not occur.
pub open spec fn first_pos(s: Seq<u8>, t: u8) -> nat
    decreases s.len(),
{
    if s.len() == 0 {
        0
    } else if s[0] == t {
        0
    } else {
        1 + first_pos(s.drop_first(), t)
    }
}

/// A witness that every byte before `m` differs from `t`, and that `m` is
/// the end or holds `t`, pins `first_pos` to `m`.
pub proof fn lemma_first_pos_at(s: Seq<u8>, t: u8, m: int)
    requires
        0 <= m <= s.len(),
        forall|k: int| 0 <= k < m ==> s[k] != t,
        m == s.len() || s[m] == t,
    ensures
        first_pos(s, t) == m,
    decreases s.len(),
{
    if s.len() == 0 {
    } else if s[0] == t {
        assert(m == 0);
    } else {
        assert(m >= 1);
        lemma_first_pos_at(s.drop_first(), t, m - 1);
    }
}

/// First index of `t` in `s`, or `s.len()` when `t` does not occur.
pub fn find_pos(s: &[u8], t: u8) -> (r: usize)
    ensures
        r == first_pos(s@, t),
        r <= s@.len(),
{
    let n = s.len();
    let mut j: usize = 0;
    while j < n && s[j] != t
        invariant
            0 <= j <= n,
            n == s@.len(),
            forall|k: int| 0 <= k < j ==> s@[k] != t,
        decreases n - j,
    {
        j += 1;
    }
    proof {
        lemma_first_pos_at(s@, t, j as int);
    }
    j
}

/// Whether `prefix` is a prefix of `hay`.
pub open spec fn is_prefix(hay: Seq<u8>, prefix: Seq<u8>) -> bool {
    match_at(hay, prefix, 0)
}

/// Whether `hay` begins with `prefix`, decided by comparing bytes.
pub fn begins_with(hay: &[u8], prefix: &[u8]) -> (r: bool)
    ensures
        r == is_prefix(hay@, prefix@),
{
    if prefix.len() > hay.len() {
        return false;
    }
    eq_at(hay, prefix, 0)
}

/// Whether `a` and `b` hold the same bytes.
pub fn eq_bytes(a: &[u8], b: &[u8]) -> (r: bool)
    ensures
        r == (a@ == b@),
{
    if a.len() != b.len() {
        return false;
    }
    let r = eq_at(a, b, 0);
    proof {
        assert(a@.subrange(0, b@.len() as int) =~= a@);
        if a@ == b@ {
            assert(match_at(a@, b@, 0));
        }
    }
    r
}

/// Whether `b` is an ASCII whitespace byte, as trimming understands it.
pub open spec fn is_space(b: u8) -> bool {
    b == 32 || b == 9 || b == 10 || b == 13 || b == 11 || b == 12
}

/// `s` with its leading whitespace removed.
pub open spec fn trim_start(s: Seq<u8>) -> Seq<u8>
    decreases s.len(),
{
    if s.len() > 0 && is_space(s[0]) {
        trim_start(s.drop_first())
    } else {
        s
    }
}

/// `s` with its trailing whitespace removed.
pub open spec fn trim_end(s: Seq<u8>) -> Seq<u8>
    decreases s.len(),
{
    if s.len() > 0 && is_space(s.last()) {
        trim_end(s.drop_last())
    } else {
        s
    }
}

/// `s` with whitespace removed from both ends.
pub open spec fn trimmed(s: Seq<u8>) -> Seq<u8> {
    trim_end(trim_start(s))
}

proof fn lemma_trim_start_skip(s: Seq<u8>, lo: int)
    requires
        0 <= lo <= s.len(),
        forall|k: int| 0 <= k < lo ==> is_space(#[trigger] s[k]),
        lo == s.len() || !is_space(s[lo]),
    ensures
        trim_start(s) == s.subrange(lo, s.len() as int),
    decreases lo,
{
    if lo == 0 {
        assert(s.subrange(0, s.len() as int) =~= s);
    } else {
        assert(is_space(s[0]));
        lemma_trim_start_skip(s.drop_first(), lo - 1);
        assert(s.drop_first().subrange(lo - 1, s.drop_first().len() as int) =~= s.subrange(
            lo,
            s.len() as int,
        ));
    }
}

proof fn lemma_trim_end_take(s: Seq<u8>, hi: int)
    requires
        0 <= hi <= s.len(),
        forall|k: int| hi <= k < s.len() ==> is_space(#[trigger] s[k]),
        hi == 0 || !is_space(s[hi - 1]),
    ensures
        trim_end(s) == s.subrange(0, hi),
    decreases s.len(),
{
    if hi == s.len() {
        assert(s.subrange(0, s.len() as int) =~= s);
    } else {
        assert(is_space(s.last()));
        lemma_trim_end_take(s.drop_last(), hi);
        assert(s.drop_last().subrange(0, hi) =~= s.subrange(0, hi));
    }
}

/// Copies `s[lo..hi]` into a fresh vector.
pub fn sub_bytes(s: &[u8], lo: usize, hi: usize) -> (r: Vec<u8>)
    requires
        lo <= hi <= s@.len(),
    ensures
        r@ == s@.subrange(lo as int, hi as int),
{
    let part = vstd::slice::slice_subrange(s, lo, hi);
    vstd::slice::slice_to_vec(part)
}

/// Whether `b` is an ASCII whitespace byte, decided on the byte value.
fn space_byte(b: u8) -> (r: bool)
    ensures
        r == is_space(b),
{
    b == 32 || b == 9 || b == 10 || b == 13 || b == 11 || b == 12
}

/// Copies `s` with ASCII whitespace removed from both ends.
pub fn trim_bytes(s: &[u8]) -> (r: Vec<u8>)
    ensures
        r@ == trimmed(s@),
{
    let n = s.len();
    let mut lo: usize = 0;
    while lo < n && space_byte(s[lo])
        invariant
            0 <= lo <= n,
            n == s@.len(),
            forall|k: int| 0 <= k < lo ==> is_space(#[trigger] s@[k]),
        decreases n - lo,
    {
        lo += 1;
    }
    let mut hi: usize = n;
    while hi > lo && space_byte(s[hi - 1])
        invariant
            lo <= hi <= n,
            n == s@.len(),
            forall|k: int| 0 <= k < lo ==> is_space(#[trigger] s@[k]),
            lo == n || !is_space(s@[lo as int]),
            forall|k: int| hi <= k < n ==> is_space(#[trigger] s@[k]),
        decreases hi,
    {
        hi -= 1;
    }
    proof {
        lemma_trim_start_skip(s@, lo as int);
        let t = s@.subrange(lo as int, n as int);
        lemma_trim_end_take(t, hi - lo);
        assert(t.subrange(0, hi - lo) =~= s@.subrange(lo as int, hi as int));
    }
    sub_bytes(s, lo, hi)
}

} // verus!
