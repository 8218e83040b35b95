use mail_mover::credentials::{open_password, seal_password, CredentialError};

fn key() -> Vec<u8> {
    (0u8..32).collect()
}

#[test]
fn sealed_password_opens_again() {
    let nonce = vec![7u8; 12];
    let stored = seal_password(&key(), &nonce, "s3cret pässword").unwrap();
    assert_eq!(open_password(&key(), &stored), Ok("s3cret pässword".to_string()));
}

#[test]
fn stored_form_starts_with_the_nonce() {
    let stored = seal_password(&key(), &vec![0u8; 12], "pw").unwrap();
    assert!(stored.starts_with("AAAAAAAAAAAAAAAA"));
    // 12 bytes of nonce, 2 of ciphertext, 16 of tag: 30 bytes, 40 base64 characters.
    assert_eq!(stored.len(), 40);
}

#[test]
fn fresh_nonce_changes_the_stored_form() {
    let a = seal_password(&key(), &vec![1u8; 12], "pw").unwrap();
    let b = seal_password(&key(), &vec![2u8; 12], "pw").unwrap();
    assert_ne!(a, b);
}

#[test]
fn wrong_key_is_rejected() {
    let stored = seal_password(&key(), &vec![3u8; 12], "pw").unwrap();
    let other: Vec<u8> = vec![9u8; 32];
    assert_eq!(open_password(&other, &stored), Err(CredentialError::Rejected));
}

#[test]
fn malformed_stored_forms() {
    assert_eq!(open_password(&key(), "not base64!"), Err(CredentialError::NotBase64));
    assert_eq!(open_password(&key(), "AAAA"), Err(CredentialError::TooShort));
    assert_eq!(open_password(&vec![1u8; 16], "AAAA"), Err(CredentialError::InvalidKey));
    assert_eq!(seal_password(&key(), &vec![0u8; 8], "pw"), Err(CredentialError::InvalidKey));
}
