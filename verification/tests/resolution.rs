use xet_proxy::error::AppError;
use xet_proxy::gateway::resolve_listing;
use xet_proxy::listing::resolve_hash;
use xet_proxy::respond::disposition_value;
use xet_proxy::route::{parse_route, Route};

fn v(s: &str) -> Vec<u8> {
    s.as_bytes().to_vec()
}

#[test]
fn finds_hash_on_a_matching_line() {
    let listing = v("model.gguf - 100 bytes - xetHash: abc123\n");
    assert_eq!(resolve_hash(&listing, &v("model.gguf")), Some(v("abc123")));
}

#[test]
fn finds_hash_without_trailing_newline() {
    let listing = v("model.gguf - 100 bytes - xetHash: abc123");
    assert_eq!(resolve_hash(&listing, &v("model.gguf")), Some(v("abc123")));
}

#[test]
fn strips_carriage_return_and_spaces_around_hash() {
    let listing = v("model.gguf - 100 bytes - xetHash:   abc123  \r\nother\n");
    assert_eq!(resolve_hash(&listing, &v("model.gguf")), Some(v("abc123")));
}

#[test]
fn first_matching_line_wins() {
    let listing = v(
        "readme.md - 5 bytes - xetHash: aaa\n\
         model.gguf - 100 bytes - xetHash: bbb\n\
         model.gguf - 100 bytes - xetHash: ccc\n",
    );
    assert_eq!(resolve_hash(&listing, &v("model.gguf")), Some(v("bbb")));
}

#[test]
fn substring_of_another_file_name_matches() {
    let listing = v("data.txt - 3 bytes - xetHash: h1\n");
    assert_eq!(resolve_hash(&listing, &v("a.txt")), Some(v("h1")));
}

#[test]
fn no_match_without_marker() {
    let listing = v("model.gguf - 100 bytes\nmodel.gguf - plain\n");
    assert_eq!(resolve_hash(&listing, &v("model.gguf")), None);
}

#[test]
fn no_match_without_file_name() {
    let listing = v("other.bin - 2 bytes - xetHash: zzz\n");
    assert_eq!(resolve_hash(&listing, &v("model.gguf")), None);
}

#[test]
fn empty_listing_resolves_nothing() {
    assert_eq!(resolve_hash(&Vec::new(), &v("model.gguf")), None);
}

#[test]
fn successful_listing_resolves_file() {
    let out = v("model.gguf - 100 bytes - xetHash: abc123\n");
    match resolve_listing(true, &out, &Vec::new(), &v("model.gguf")) {
        Ok(h) => assert_eq!(h, v("abc123")),
        Err(_) => panic!("resolution must succeed"),
    }
}

#[test]
fn missing_file_reports_not_found() {
    let out = v("other.bin - 2 bytes - xetHash: zzz\n");
    match resolve_listing(true, &out, &Vec::new(), &v("model.gguf")) {
        Ok(_) => panic!("resolution must fail"),
        Err(e) => {
            assert_eq!(e.status_code(), 404);
            match &e {
                AppError::NotFound(m) => {
                    assert_eq!(m.as_slice(), b"File 'model.gguf' not found or not XET-enabled");
                }
                _ => panic!("failure must be not-found"),
            }
        }
    }
}

#[test]
fn path_download_scenario_resolves_then_names_the_attachment() {
    let (repo_id, file) = match parse_route(&v("/download/owner/repo/model.gguf")) {
        Route::DownloadPath { repo_id, file } => (repo_id, file),
        _ => panic!("path download must dispatch"),
    };
    assert_eq!(repo_id, v("owner/repo"));
    let listing = v("model.gguf - 100 bytes - xetHash: abc123def4567890\n");
    let hash = match resolve_listing(true, &listing, &Vec::new(), &file) {
        Ok(h) => h,
        Err(_) => panic!("resolution must succeed"),
    };
    assert_eq!(hash, v("abc123def4567890"));
    assert_eq!(disposition_value(&hash).as_slice(), b"attachment; filename=\"abc123de.bin\"");
}

#[test]
fn failed_listing_surfaces_diagnostics() {
    match resolve_listing(false, &Vec::new(), &v("token invalid"), &v("model.gguf")) {
        Ok(_) => panic!("a failed invocation must not resolve"),
        Err(e) => {
            assert_eq!(e.status_code(), 500);
            match &e {
                AppError::Upstream(m) => {
                    assert_eq!(m.as_slice(), b"Failed to list files: token invalid");
                }
                _ => panic!("failure must be upstream"),
            }
        }
    }
}
