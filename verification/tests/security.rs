use bugs::security::Security;

#[test]
fn token_is_64_hex_digits_and_verifies() {
    let s = Security::new();
    let t = s.token().to_string();
    assert_eq!(t.len(), 64);
    assert!(t.chars().all(|c| c.is_ascii_digit() || ('a'..='f').contains(&c)));
    assert!(s.verify(&t));
    assert!(!s.verify(""));
    assert!(!s.verify("nope"));
}

#[test]
fn regenerate_replaces_token() {
    let mut s = Security::new();
    let before = s.token().to_string();
    s.regenerate();
    assert_eq!(s.token().len(), 64);
    assert!(!s.verify(&before) || before == s.token());
}
