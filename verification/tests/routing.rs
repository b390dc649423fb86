use xet_proxy::route::{parse_route, Route};

fn v(s: &str) -> Vec<u8> {
    s.as_bytes().to_vec()
}

#[test]
fn root_is_landing() {
    match parse_route(&v("/")) {
        Route::Landing => {}
        _ => panic!("/ must dispatch to the landing page"),
    }
}

#[test]
fn health_is_health() {
    match parse_route(&v("/health")) {
        Route::Health => {}
        _ => panic!("/health must dispatch to the health probe"),
    }
}

#[test]
fn download_path_binds_repo_and_file() {
    match parse_route(&v("/download/owner/repo/model.gguf")) {
        Route::DownloadPath { repo_id, file } => {
            assert_eq!(repo_id, v("owner/repo"));
            assert_eq!(file, v("model.gguf"));
        }
        _ => panic!("path download must dispatch"),
    }
}

#[test]
fn download_path_file_part_is_greedy() {
    match parse_route(&v("/download/o/r/a/b/c.bin")) {
        Route::DownloadPath { repo_id, file } => {
            assert_eq!(repo_id, v("o/r"));
            assert_eq!(file, v("a/b/c.bin"));
        }
        _ => panic!("path download must dispatch"),
    }
}

#[test]
fn download_path_needs_all_segments() {
    for p in ["/download/o/r", "/download/o/r/", "/download//r/f", "/download/o//f", "/download/"] {
        match parse_route(&v(p)) {
            Route::Unknown => {}
            _ => panic!("incomplete path download must not dispatch"),
        }
    }
}

#[test]
fn download_hash_binds_one_segment() {
    match parse_route(&v("/download-hash/abc123")) {
        Route::DownloadHash { hash } => assert_eq!(hash, v("abc123")),
        _ => panic!("hash download must dispatch"),
    }
}

#[test]
fn download_hash_rejects_empty_or_nested() {
    for p in ["/download-hash/", "/download-hash/a/b"] {
        match parse_route(&v(p)) {
            Route::Unknown => {}
            _ => panic!("malformed hash path must not dispatch"),
        }
    }
}

#[test]
fn unrelated_paths_do_not_dispatch() {
    for p in ["/nope", "", "health", "/downloads/o/r/f"] {
        match parse_route(&v(p)) {
            Route::Unknown => {}
            _ => panic!("unrelated path must not dispatch"),
        }
    }
}
