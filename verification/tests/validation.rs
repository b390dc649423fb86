use xet_proxy::error::AppError;
use xet_proxy::gateway::check_hash_request;
use xet_proxy::hash::hash_is_valid;

const GOOD: &str = "89dbfa4888600b29be17ddee8bdbf9c48999c81cb811964eee6b057d8467f927";

#[test]
fn accepts_a_valid_hash() {
    assert!(hash_is_valid(&GOOD.as_bytes().to_vec()));
}

#[test]
fn accepts_upper_and_mixed_case_hex() {
    let upper = GOOD.to_uppercase();
    assert!(hash_is_valid(&upper.into_bytes()));
    let mixed = "89DBFA4888600b29bE17ddee8bdbf9c48999c81cb811964eee6b057d8467f927";
    assert!(hash_is_valid(&mixed.as_bytes().to_vec()));
}

#[test]
fn rejects_wrong_length() {
    assert!(!hash_is_valid(&Vec::new()));
    assert!(!hash_is_valid(&GOOD.as_bytes()[..63].to_vec()));
    let mut long = GOOD.as_bytes().to_vec();
    long.push(b'a');
    assert!(!hash_is_valid(&long));
}

#[test]
fn rejects_non_hex_characters() {
    assert!(!hash_is_valid(&b"ZZZ".to_vec()));
    let mut bad = GOOD.as_bytes().to_vec();
    bad[10] = b'g';
    assert!(!hash_is_valid(&bad));
    bad[10] = b' ';
    assert!(!hash_is_valid(&bad));
}

#[test]
fn admits_a_valid_hash_request() {
    match check_hash_request(&GOOD.as_bytes().to_vec()) {
        Ok(()) => {}
        Err(_) => panic!("a well-formed hash must be admitted"),
    }
}

#[test]
fn rejects_a_malformed_hash_request_with_bad_request() {
    match check_hash_request(&b"ZZZ".to_vec()) {
        Ok(()) => panic!("a malformed hash must be rejected"),
        Err(e) => {
            assert_eq!(e.status_code(), 400);
            match &e {
                AppError::BadRequest(m) => {
                    assert_eq!(
                        m.as_slice(),
                        b"Invalid XET hash format (expected 64 hex characters)"
                    );
                }
                _ => panic!("rejection must be a bad request"),
            }
        }
    }
}
