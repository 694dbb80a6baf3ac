use aws_assume_role::mfa::{code_from_secret_bytes, totp_code, MfaError};

// base32 of the RFC 6238 SHA-1 test key "12345678901234567890"
const RFC_SECRET: &str = "GEZDGNBVGY3TQOJQGEZDGNBVGY3TQOJQ";

#[test]
fn derives_rfc_test_vectors() {
    let secret = Some(RFC_SECRET.to_string());
    assert_eq!(totp_code(&None, &secret, 59).ok(), Some("287082".to_string()));
    assert_eq!(totp_code(&None, &secret, 1111111109).ok(), Some("081804".to_string()));
}

#[test]
fn same_step_same_code() {
    let secret = Some(RFC_SECRET.to_string());
    let a = totp_code(&None, &secret, 1111111080).unwrap();
    let b = totp_code(&None, &secret, 1111111109).unwrap();
    assert_eq!(a, b);
    assert_eq!(a.len(), 6);
    assert!(a.chars().all(|c| c.is_ascii_digit()));
}

#[test]
fn undecodable_secret_fails() {
    let secret = Some("not base32!".to_string());
    assert_eq!(totp_code(&None, &secret, 59), Err(MfaError::UndecodableSecret));
}

#[test]
fn short_secret_fails() {
    assert_eq!(code_from_secret_bytes(&vec![1u8; 15], 59), Err(MfaError::SecretTooShort));
    let secret = Some("GEZDGNBV".to_string());
    assert_eq!(totp_code(&None, &secret, 59), Err(MfaError::SecretTooShort));
}

#[test]
fn raw_bytes_give_rfc_code() {
    let bytes = b"12345678901234567890".to_vec();
    assert_eq!(code_from_secret_bytes(&bytes, 59).ok(), Some("287082".to_string()));
}

#[test]
fn missing_inputs_message() {
    assert_eq!(
        MfaError::Missing.message(),
        "a proof code or its generating secret is required"
    );
}
