use xet_proxy::percent::percent_decode;

fn v(s: &str) -> Vec<u8> {
    s.as_bytes().to_vec()
}

#[test]
fn plain_text_passes_through() {
    assert_eq!(percent_decode(&v("model.gguf")), v("model.gguf"));
    assert_eq!(percent_decode(&Vec::new()), Vec::<u8>::new());
}

#[test]
fn escapes_decode_to_their_byte() {
    assert_eq!(percent_decode(&v("a%20b")), v("a b"));
    assert_eq!(percent_decode(&v("%2Fetc")), v("/etc"));
    assert_eq!(percent_decode(&v("%2fetc")), v("/etc"));
    assert_eq!(percent_decode(&v("%41%42%43")), v("ABC"));
}

#[test]
fn malformed_escapes_pass_through() {
    assert_eq!(percent_decode(&v("100%")), v("100%"));
    assert_eq!(percent_decode(&v("%2")), v("%2"));
    assert_eq!(percent_decode(&v("%zz")), v("%zz"));
    assert_eq!(percent_decode(&v("%%41")), v("%A"));
}
