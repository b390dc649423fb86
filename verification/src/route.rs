//! Request routing: mapping an inbound request path to the shape of the
//! handler that owns it.
//!
//! Four shapes are dispatched: the landing page at `/`, the health probe at
//! `/health`, path-based download at `/download/<owner>/<repo>/<file...>`
//! (the file part greedy, so it may contain separators), and hash-based
//! download at `/download-hash/<hash>` (the hash a single segment). Any
//! other path matches no route.

use vstd::prelude::*;
use vstd::string::StringSliceAdditionalSpecFns;
use crate::respond::ascii_bytes_of;
use crate::text::{begins_with, eq_bytes, find_pos, first_pos, is_prefix, sub_bytes};

verus! {

/// The shape of a dispatched request, over mathematical values.
pub enum RouteSpec {
    /// The landing/help page.
    Landing,
    /// The health probe.
    Health,
    /// Path-based download: resolve `file` within `repo_id`, then stream.
    DownloadPath { repo_id: Seq<u8>, file: Seq<u8> },
    /// Hash-based download: validate `hash`, then stream.
    DownloadHash { hash: Seq<u8> },
    /// No route matches.
    Unknown,
}

/// The shape of a dispatched request.
pub enum Route {
    /// The landing/help page.
    Landing,
    /// The health probe.
    Health,
    /// Path-based download: resolve `file` within `repo_id`, then stream.
    DownloadPath { repo_id: Vec<u8>, file: Vec<u8> },
    /// Hash-based download: validate `hash`, then stream.
    DownloadHash { hash: Vec<u8> },
    /// No route matches.
    Unknown,
}

impl View for Route {
    type V = RouteSpec;

    open spec fn view(&self) -> RouteSpec {
        match self {
            Route::Landing => RouteSpec::Landing,
            Route::Health => RouteSpec::Health,
            Route::DownloadPath { repo_id, file } => RouteSpec::DownloadPath {
                repo_id: repo_id@,
                file: file@,
            },
            Route::DownloadHash { hash } => RouteSpec::DownloadHash { hash: hash@ },
            Route::Unknown => RouteSpec::Unknown,
        }
    }
}

/// The path prefix of path-based downloads.
pub open spec fn download_prefix() -> Seq<u8> {
    ascii_bytes_of("/download/"@)
}

/// The path prefix of hash-based downloads.
pub open spec fn download_hash_prefix() -> Seq<u8> {
    ascii_bytes_of("/download-hash/"@)
}

/// The route bound after the path-download prefix: a non-empty owner
/// segment, a non-empty repository segment, and a non-empty greedy file
/// part; the repository identifier spans owner and repository.
pub open spec fn path_route(rest: Seq<u8>) -> RouteSpec {
    let a = first_pos(rest, 47) as int;
    if 0 < a && a < rest.len() {
        let tail = rest.skip(a + 1);
        let b = first_pos(tail, 47) as int;
        if 0 < b && b < tail.len() && b + 1 < tail.len() {
            RouteSpec::DownloadPath { repo_id: rest.take(a + 1 + b), file: tail.skip(b + 1) }
        } else {
            RouteSpec::Unknown
        }
    } else {
        RouteSpec::Unknown
    }
}

/// The route bound after the hash-download prefix: one non-empty segment
/// without separators.
pub open spec fn hash_route(rest: Seq<u8>) -> RouteSpec {
    if rest.len() > 0 && first_pos(rest, 47) == rest.len() {
        RouteSpec::DownloadHash { hash: rest }
    } else {
        RouteSpec::Unknown
    }
}

/// The route that `path` dispatches to.
pub open spec fn route_of(path: Seq<u8>) -> RouteSpec {
    if path == ascii_bytes_of("/"@) {
        RouteSpec::Landing
    } else if path == ascii_bytes_of("/health"@) {
        RouteSpec::Health
    } else if is_prefix(path, download_prefix()) {
        path_route(path.skip(download_prefix().len() as int))
    } else if is_prefix(path, download_hash_prefix()) {
        hash_route(path.skip(download_hash_prefix().len() as int))
    } else {
        RouteSpec::Unknown
    }
}

/// The landing path `/`, as bytes.
fn lit_root() -> (r: Vec<u8>)
    ensures
        r@ == ascii_bytes_of("/"@),
{
    let s = "/";
    proof {
        reveal_strlit("/");
        assert(vstd::string::is_ascii(s));
        vstd::string::is_ascii_spec_bytes(s);
        assert(s.spec_bytes() =~= ascii_bytes_of(s@));
    }
    vstd::slice::slice_to_vec(s.as_bytes())
}

/// The health path `/health`, as bytes.
fn lit_health() -> (r: Vec<u8>)
    ensures
        r@ == ascii_bytes_of("/health"@),
{
    let s = "/health";
    proof {
        reveal_strlit("/health");
        assert(vstd::string::is_ascii(s));
        vstd::string::is_ascii_spec_bytes(s);
        assert(s.spec_bytes() =~= ascii_bytes_of(s@));
    }
    vstd::slice::slice_to_vec(s.as_bytes())
}

/// The path-download prefix `/download/`, as bytes.
fn lit_download() -> (r: Vec<u8>)
    ensures
        r@ == download_prefix(),
        r@.len() == 10,
{
    let s = "/download/";
    proof {
        reveal_strlit("/download/");
        assert(vstd::string::is_ascii(s));
        vstd::string::is_ascii_spec_bytes(s);
        assert(s.spec_bytes() =~= download_prefix());
    }
    vstd::slice::slice_to_vec(s.as_bytes())
}

/// The hash-download prefix `/download-hash/`, as bytes.
fn lit_download_hash() -> (r: Vec<u8>)
    ensures
        r@ == download_hash_prefix(),
        r@.len() == 15,
{
    let s = "/download-hash/";
    proof {
        reveal_strlit("/download-hash/");
        assert(vstd::string::is_ascii(s));
        vstd::string::is_ascii_spec_bytes(s);
        assert(s.spec_bytes() =~= download_hash_prefix());
    }
    vstd::slice::slice_to_vec(s.as_bytes())
}

/// Dispatches `path` to the route that owns it.
pub fn parse_route(path: &Vec<u8>) -> (r: Route)
    ensures
        r@ == route_of(path@),
{
    let root = lit_root();
    if eq_bytes(path.as_slice(), root.as_slice()) {
        return Route::Landing;
    }
    let health = lit_health();
    if eq_bytes(path.as_slice(), health.as_slice()) {
        return Route::Health;
    }
    let dl = lit_download();
    if begins_with(path.as_slice(), dl.as_slice()) {
        let n = path.len();
        let rest = sub_bytes(path.as_slice(), 10, n);
        proof {
            assert(rest@ =~= path@.skip(download_prefix().len() as int));
        }
        let a = find_pos(rest.as_slice(), 47);
        if 0 < a && a < rest.len() {
            let tail = sub_bytes(rest.as_slice(), a + 1, rest.len());
            proof {
                assert(tail@ =~= rest@.skip(a + 1));
            }
            let b = find_pos(tail.as_slice(), 47);
            if 0 < b && b < tail.len() && b + 1 < tail.len() {
                let repo_id = sub_bytes(rest.as_slice(), 0, a + 1 + b);
                let file = sub_bytes(tail.as_slice(), b + 1, tail.len());
                proof {
                    assert(repo_id@ =~= rest@.take(a + 1 + b));
                    assert(file@ =~= tail@.skip(b + 1));
                }
                return Route::DownloadPath { repo_id, file };
            }
            return Route::Unknown;
        }
        return Route::Unknown;
    }
    let dlh = lit_download_hash();
    if begins_with(path.as_slice(), dlh.as_slice()) {
        let n = path.len();
        let rest = sub_bytes(path.as_slice(), 15, n);
        proof {
            assert(rest@ =~= path@.skip(download_hash_prefix().len() as int));
        }
        let a = find_pos(rest.as_slice(), 47);
        if rest.len() > 0 && a == rest.len() {
            return Route::DownloadHash { hash: rest };
        }
        return Route::Unknown;
    }
    Route::Unknown
}

} // verus!
