//! Resolution of a file name to its content hash from the external tool's
//! line-oriented listing output.
//!
//! The tool's listing mode writes zero or more lines, each optionally of the
//! shape `<...file-name...> ... xetHash: <hash-text>`. A line is a candidate
//! match when it contains the requested file name and the marker token; the
//! hash is the trimmed text following the first marker occurrence on that
//! line. The first matching line wins.

use vstd::prelude::*;
use crate::text::{
    contains_sub, find_sub, first_match, has_sub, sub_bytes, trim_bytes, trimmed,
};

verus! {

/// The marker token `xetHash:` that introduces a content hash on a line.
pub open spec fn marker() -> Seq<u8> {
    seq![120u8, 101u8, 116u8, 72u8, 97u8, 115u8, 104u8, 58u8]
}

/// The marker token `xetHash:`, as a byte vector.
pub fn marker_bytes() -> (r: Vec<u8>)
    ensures
        r@ == marker(),
{
    let mut r: Vec<u8> = Vec::new();
    r.push(120);
    r.push(101);
    r.push(116);
    r.push(72);
    r.push(97);
    r.push(115);
    r.push(104);
    r.push(58);
    proof {
        assert(r@ =~= marker());
    }
    r
}

/// Index of the first line-feed byte in `s`, or `s.len()` when none occurs.
pub open spec fn first_nl(s: Seq<u8>) -> nat
    decreases s.len(),
{
    if s.len() == 0 {
        0
    } else if s[0] == 10 {
        0
    } else {
        1 + first_nl(s.drop_first())
    }
}

proof fn lemma_first_nl_at(s: Seq<u8>, m: int)
    requires
        0 <= m <= s.len(),
        forall|k: int| 0 <= k < m ==> s[k] != 10,
        m == s.len() || s[m] == 10,
    ensures
        first_nl(s) == m,
    decreases s.len(),
{
    if s.len() == 0 {
    } else if s[0] == 10 {
        assert(m == 0);
    } else {
        assert(m >= 1);
        lemma_first_nl_at(s.drop_first(), m - 1);
    }
}

/// A line's text with one trailing carriage return removed, as line
/// splitting strips it before a line feed.
pub open spec fn strip_cr(s: Seq<u8>) -> Seq<u8> {
    if s.len() > 0 && s.last() == 13 {
        s.drop_last()
    } else {
        s
    }
}

/// The lines of `s`: split at line feeds, a carriage return before each line
/// feed stripped, the final line-feed optional.
pub open spec fn lines_of(s: Seq<u8>) -> Seq<Seq<u8>>
    decreases s.len(),
{
    if s.len() == 0 {
        Seq::empty()
    } else {
        let i = first_nl(s) as int;
        if i < s.len() {
            seq![strip_cr(s.subrange(0, i))] + lines_of(s.subrange(i + 1, s.len() as int))
        } else {
            seq![s]
        }
    }
}

/// Whether a listing line names the requested file and carries the marker.
pub open spec fn line_matches(line: Seq<u8>, file: Seq<u8>) -> bool {
    has_sub(line, file) && has_sub(line, marker())
}

/// The hash carried by a matching line: the text after the first marker
/// occurrence, trimmed of surrounding whitespace.
pub open spec fn line_hash(line: Seq<u8>) -> Seq<u8> {
    trimmed(line.subrange(first_match(line, marker()) + marker().len() as int, line.len() as int))
}

/// The result of scanning lines in order for the first match.
pub open spec fn scan_lines(ls: Seq<Seq<u8>>, file: Seq<u8>) -> Option<Seq<u8>>
    decreases ls.len(),
{
    if ls.len() == 0 {
        None
    } else if line_matches(ls[0], file) {
        Some(line_hash(ls[0]))
    } else {
        scan_lines(ls.drop_first(), file)
    }
}

/// The hash that a listing resolves the file name to, if any line matches.
pub open spec fn resolved_hash(listing: Seq<u8>, file: Seq<u8>) -> Option<Seq<u8>> {
    scan_lines(lines_of(listing), file)
}

/// Scans the listing line by line for the first line that contains both the
/// file name and the marker token, and returns the trimmed text following
/// the marker on that line.
pub fn resolve_hash(listing: &Vec<u8>, file: &Vec<u8>) -> (r: Option<Vec<u8>>)
    ensures
        match r {
            Some(h) => resolved_hash(listing@, file@) == Some(h@),
            None => resolved_hash(listing@, file@) is None,
        },
{
    let mk = marker_bytes();
    let n = listing.len();
    let mut pos: usize = 0;
    proof {
        assert(listing@.subrange(0, n as int) =~= listing@);
    }
    loop
        invariant
            0 <= pos <= n,
            n == listing@.len(),
            mk@ == marker(),
            resolved_hash(listing@, file@) == scan_lines(
                lines_of(listing@.subrange(pos as int, n as int)),
                file@,
            ),
        decreases n - pos,
    {
        if pos >= n {
            proof {
                assert(listing@.subrange(pos as int, n as int).len() == 0);
            }
            return None;
        }
        let mut j: usize = pos;
        while j < n && listing[j] != 10
            invariant
                pos <= j <= n,
                n == listing@.len(),
                forall|k: int| pos <= k < j ==> listing@[k] != 10,
            decreases n - j,
        {
            j += 1;
        }
        proof {
            let rest = listing@.subrange(pos as int, n as int);
            lemma_first_nl_at(rest, j - pos);
        }
        let line_end: usize;
        let next_pos: usize;
        if j < n {
            if j > pos && listing[j - 1] == 13 {
                line_end = j - 1;
            } else {
                line_end = j;
            }
            next_pos = j + 1;
        } else {
            line_end = j;
            next_pos = j;
        }
        let line = sub_bytes(listing.as_slice(), pos, line_end);
        proof {
            let rest = listing@.subrange(pos as int, n as int);
            let i = first_nl(rest) as int;
            assert(i == j - pos);
            if j < n {
                assert(rest.subrange(0, i) =~= listing@.subrange(pos as int, j as int));
                let prefix = rest.subrange(0, i);
                if line_end < j {
                    assert(prefix.last() == 13);
                    assert(strip_cr(prefix) =~= listing@.subrange(pos as int, line_end as int));
                } else {
                    assert(prefix.len() == 0 || prefix.last() != 13);
                    assert(strip_cr(prefix) == prefix);
                    assert(prefix =~= listing@.subrange(pos as int, line_end as int));
                }
                assert(rest.subrange(i + 1, rest.len() as int) =~= listing@.subrange(
                    next_pos as int,
                    n as int,
                ));
                assert(lines_of(rest) == seq![line@] + lines_of(
                    listing@.subrange(next_pos as int, n as int),
                ));
            } else {
                assert(i == rest.len());
                assert(line@ =~= rest);
                assert(lines_of(rest) == seq![line@]);
            }
            assert(lines_of(rest).len() > 0 && lines_of(rest)[0] == line@);
        }
        let file_found = contains_sub(line.as_slice(), file.as_slice());
        if file_found {
            match find_sub(line.as_slice(), mk.as_slice()) {
                Some(m) => {
                    proof {
                        assert(marker().len() == 8);
                        assert(line_matches(line@, file@));
                    }
                    let tail = vstd::slice::slice_subrange(line.as_slice(), m + 8, line.len());
                    let h = trim_bytes(tail);
                    proof {
                        assert(h@ == line_hash(line@));
                        let rest = listing@.subrange(pos as int, n as int);
                        assert(scan_lines(lines_of(rest), file@) == Some(line_hash(line@)));
                    }
                    return Some(h);
                },
                None => {
                    proof {
                        assert(!line_matches(line@, file@));
                    }
                },
            }
        } else {
            proof {
                assert(!line_matches(line@, file@));
            }
        }
        proof {
            let rest = listing@.subrange(pos as int, n as int);
            let ls = lines_of(rest);
            assert(scan_lines(ls, file@) == scan_lines(ls.drop_first(), file@));
            if j < n {
                assert(ls.drop_first() =~= lines_of(listing@.subrange(next_pos as int, n as int)));
            } else {
                assert(ls.drop_first() =~= Seq::<Seq<u8>>::empty());
                assert(listing@.subrange(next_pos as int, n as int).len() == 0);
                assert(lines_of(listing@.subrange(next_pos as int, n as int)) =~= Seq::<
                    Seq<u8>,
                >::empty());
            }
        }
        pos = next_pos;
    }
}

} // verus!
