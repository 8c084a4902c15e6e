use base64::engine::general_purpose::STANDARD as BASE64;
use base64::Engine as _;

use onshape_core::auth::{
    basic_authorization_header_value, bearer_authorization_header_value, Credentials,
};

fn test_credentials() -> Credentials {
    Credentials {
        access_key: "my_access_key".to_string(),
        secret_key: "my_secret_key".to_string(),
    }
}

fn decoded_pair(header: &str) -> String {
    let encoded = header
        .strip_prefix("Basic ")
        .expect("should have Basic prefix");
    let decoded_bytes = BASE64.decode(encoded).expect("should be valid base64");
    String::from_utf8(decoded_bytes).expect("should be valid UTF-8")
}

#[test]
fn basic_auth_starts_with_basic_prefix() {
    let header = basic_authorization_header_value(&test_credentials());
    assert!(header.starts_with("Basic "));
}

#[test]
fn basic_auth_encodes_correctly() {
    let header = basic_authorization_header_value(&test_credentials());
    assert_eq!(decoded_pair(&header), "my_access_key:my_secret_key");
}

#[test]
fn basic_auth_matches_known_value() {
    let creds = Credentials {
        access_key: "access".to_string(),
        secret_key: "secret".to_string(),
    };
    let header = basic_authorization_header_value(&creds);
    assert_eq!(header, "Basic YWNjZXNzOnNlY3JldA==");
}

#[test]
fn basic_auth_handles_empty_keys() {
    let creds = Credentials {
        access_key: String::new(),
        secret_key: String::new(),
    };
    let header = basic_authorization_header_value(&creds);
    assert_eq!(decoded_pair(&header), ":");
}

#[test]
fn basic_auth_handles_special_characters() {
    let creds = Credentials {
        access_key: "key+with/special=chars".to_string(),
        secret_key: "s3cr3t!@#$%^&*()".to_string(),
    };
    let header = basic_authorization_header_value(&creds);
    assert_eq!(decoded_pair(&header), "key+with/special=chars:s3cr3t!@#$%^&*()");
}

#[test]
fn basic_auth_handles_colon_in_keys() {
    let creds = Credentials {
        access_key: "key:with:colons".to_string(),
        secret_key: "secret:too".to_string(),
    };
    let header = basic_authorization_header_value(&creds);
    assert_eq!(decoded_pair(&header), "key:with:colons:secret:too");
}

#[test]
fn basic_auth_encodes_non_ascii_as_utf8() {
    let creds = Credentials {
        access_key: "é".to_string(),
        secret_key: "x".to_string(),
    };
    let header = basic_authorization_header_value(&creds);
    assert_eq!(header, "Basic w6k6eA==");
}

#[test]
fn bearer_auth_starts_with_bearer_prefix() {
    let header = bearer_authorization_header_value("test-access-token");
    assert!(header.starts_with("Bearer "));
}

#[test]
fn bearer_auth_contains_token() {
    let header = bearer_authorization_header_value("my-oauth-token-12345");
    assert_eq!(header, "Bearer my-oauth-token-12345");
}

#[test]
fn bearer_auth_handles_empty_token() {
    let header = bearer_authorization_header_value("");
    assert_eq!(header, "Bearer ");
}
