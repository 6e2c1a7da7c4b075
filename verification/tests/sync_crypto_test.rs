use todo_app::error::AppErrorKind;
use todo_app::sync_crypto::{credential_error, decrypt_snapshot, encrypt_snapshot};

#[test]
fn encrypt_then_decrypt_round_trips_without_exposing_plaintext() {
    let payload = br#"{"title":"private task"}"#;
    let encrypted = encrypt_snapshot(payload, "correct horse battery staple").unwrap();

    assert!(!encrypted.contains("private task"));
    assert_eq!(decrypt_snapshot(&encrypted, "correct horse battery staple").unwrap(), payload);
}

#[test]
fn decrypt_rejects_wrong_password_and_tampering() {
    let encrypted = encrypt_snapshot(b"payload", "password").unwrap();
    assert!(decrypt_snapshot(&encrypted, "wrong password").is_err());

    let mut tampered = encrypted.into_bytes();
    let last = tampered.len() - 1;
    tampered[last] = if tampered[last] == b'A' { b'B' } else { b'A' };
    let tampered = String::from_utf8(tampered).unwrap();
    assert!(decrypt_snapshot(&tampered, "password").is_err());
}

#[test]
fn empty_password_is_rejected() {
    assert!(encrypt_snapshot(b"payload", "").is_err());
}

#[test]
fn malformed_envelopes_are_rejected_with_the_encryption_error() {
    assert_eq!(decrypt_snapshot("not base64!", "password").unwrap_err().code(), "sync.encryption.failed");
    assert_eq!(decrypt_snapshot("AQID", "password").unwrap_err().code(), "sync.encryption.failed");
    let encrypted = encrypt_snapshot(b"payload", "password").unwrap();
    assert!(decrypt_snapshot(&encrypted, "").is_err());
}

#[test]
fn credential_failures_share_one_configuration_error() {
    let error = credential_error();

    assert_eq!(error.code(), "sync.credential.failed");
    assert_eq!(error.translation_key(), "errors.sync.credential.failed");
    assert_eq!(error.kind, AppErrorKind::Configuration);
}
