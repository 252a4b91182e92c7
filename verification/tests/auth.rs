use mtbfile_sender::auth::check_basic_auth;

fn test_hash() -> String {
    bcrypt::hash("secret", 4).expect("hash")
}

#[test]
fn matching_password_is_accepted() {
    // "user:secret"
    let header = "Basic dXNlcjpzZWNyZXQ=";
    assert!(check_basic_auth(header.as_bytes(), &test_hash()));
}

#[test]
fn username_is_ignored() {
    // "someone-else:secret"
    let header = "Basic c29tZW9uZS1lbHNlOnNlY3JldA==";
    assert!(check_basic_auth(header.as_bytes(), &test_hash()));
}

#[test]
fn wrong_password_is_rejected() {
    // "user:wrong"
    let header = "Basic dXNlcjp3cm9uZw==";
    assert!(!check_basic_auth(header.as_bytes(), &test_hash()));
}

#[test]
fn wrong_credential_header_is_rejected() {
    // "wrong:wrong"
    let header = "Basic d3Jvbmc6d3Jvbmc=";
    assert!(!check_basic_auth(header.as_bytes(), &test_hash()));
}

#[test]
fn wrong_scheme_is_rejected() {
    let header = "Bearer dXNlcjpzZWNyZXQ=";
    assert!(!check_basic_auth(header.as_bytes(), &test_hash()));
}

#[test]
fn absent_header_is_rejected() {
    assert!(!check_basic_auth(b"", &test_hash()));
}

#[test]
fn malformed_base64_is_rejected() {
    assert!(!check_basic_auth(b"Basic ###", &test_hash()));
}

#[test]
fn credential_without_colon_is_rejected() {
    // "secret" alone, no user:password split
    let header = "Basic c2VjcmV0";
    assert!(!check_basic_auth(header.as_bytes(), &test_hash()));
}

#[test]
fn malformed_configured_hash_matches_nothing() {
    let header = "Basic dXNlcjpzZWNyZXQ=";
    assert!(!check_basic_auth(header.as_bytes(), "not-a-bcrypt-hash"));
}
