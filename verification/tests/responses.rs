use xet_proxy::error::AppError;
use xet_proxy::respond::{disposition_value, health_body};

#[test]
fn health_body_is_the_fixed_json() {
    assert_eq!(health_body().as_slice(), br#"{"status":"ok","version":"0.1.0"}"#);
}

#[test]
fn disposition_names_the_hash_prefix() {
    let hash = b"89dbfa4888600b29be17ddee8bdbf9c48999c81cb811964eee6b057d8467f927".to_vec();
    assert_eq!(disposition_value(&hash).as_slice(), b"attachment; filename=\"89dbfa48.bin\"");
}

#[test]
fn placeholder_repo_is_fixed() {
    assert_eq!(
        xet_proxy::respond::placeholder_repo().as_slice(),
        b"jedisct1/MiMo-7B-RL-GGUF"
    );
}

#[test]
fn statuses_follow_the_taxonomy() {
    assert_eq!(AppError::BadRequest(Vec::new()).status_code(), 400);
    assert_eq!(AppError::NotFound(Vec::new()).status_code(), 404);
    assert_eq!(AppError::Upstream(Vec::new()).status_code(), 500);
    assert_eq!(AppError::Internal(Vec::new()).status_code(), 500);
}

#[test]
fn message_returns_the_carried_bytes() {
    let e = AppError::Internal(b"Failed to capture stdout".to_vec());
    assert_eq!(e.message().as_slice(), b"Failed to capture stdout");
}
