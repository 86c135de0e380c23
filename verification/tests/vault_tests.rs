use explorer_core::errors::ErrorKind;
use explorer_core::vault::{decrypt_core, encrypt_core, encrypt_payload};

#[test]
fn round_trip_returns_original_plaintext() {
    let plaintext: Vec<u8> = b"attack at dawn".to_vec();
    let payload = encrypt_payload(&plaintext, "hunter2").expect("encryption failed");
    let opened = decrypt_core(&payload, "hunter2").expect("decryption failed");
    assert_eq!(opened, plaintext);
}

#[test]
fn round_trip_of_empty_plaintext() {
    let plaintext: Vec<u8> = Vec::new();
    let payload = encrypt_payload(&plaintext, "pw").expect("encryption failed");
    let opened = decrypt_core(&payload, "pw").expect("decryption failed");
    assert_eq!(opened, plaintext);
}

#[test]
fn payload_layout_is_salt_nonce_ciphertext() {
    let plaintext: Vec<u8> = vec![1, 2, 3, 4, 5];
    let payload = encrypt_payload(&plaintext, "pw").expect("encryption failed");
    // 16-byte salt + 12-byte nonce + plaintext + 16-byte tag.
    assert_eq!(payload.len(), 16 + 12 + plaintext.len() + 16);
}

#[test]
fn fresh_salt_and_nonce_each_time() {
    let plaintext: Vec<u8> = b"same input".to_vec();
    let one = encrypt_payload(&plaintext, "pw").expect("encryption failed");
    let two = encrypt_payload(&plaintext, "pw").expect("encryption failed");
    assert_ne!(one, two);
}

#[test]
fn explicit_salt_and_nonce_round_trip() {
    let plaintext: Vec<u8> = b"payload".to_vec();
    let salt: Vec<u8> = (0u8..16).collect();
    let nonce: Vec<u8> = (100u8..112).collect();
    let payload = encrypt_core(&plaintext, "s3cret", &salt, &nonce).expect("encryption failed");
    assert_eq!(&payload[..16], &salt[..]);
    assert_eq!(&payload[16..28], &nonce[..]);
    let opened = decrypt_core(&payload, "s3cret").expect("decryption failed");
    assert_eq!(opened, plaintext);
}

#[test]
fn wrong_password_fails_authentication_and_leaves_payload_intact() {
    let plaintext: Vec<u8> = b"secret data".to_vec();
    let payload = encrypt_payload(&plaintext, "right").expect("encryption failed");
    let before = payload.clone();
    let err = decrypt_core(&payload, "wrong").expect_err("wrong password accepted");
    assert_eq!(err.kind(), ErrorKind::AuthenticationFailed);
    assert_eq!(payload, before);
}

#[test]
fn tampered_ciphertext_fails_authentication() {
    let plaintext: Vec<u8> = b"integrity matters".to_vec();
    let mut payload = encrypt_payload(&plaintext, "pw").expect("encryption failed");
    let last = payload.len() - 1;
    payload[last] ^= 0x01;
    let err = decrypt_core(&payload, "pw").expect_err("tampered payload accepted");
    assert_eq!(err.kind(), ErrorKind::AuthenticationFailed);
}

#[test]
fn short_payload_is_invalid_format() {
    let payload: Vec<u8> = vec![0u8; 27];
    let err = decrypt_core(&payload, "pw").expect_err("short payload accepted");
    assert_eq!(err.kind(), ErrorKind::InvalidFormat);
}

#[test]
fn empty_payload_is_invalid_format() {
    let payload: Vec<u8> = Vec::new();
    let err = decrypt_core(&payload, "pw").expect_err("empty payload accepted");
    assert_eq!(err.kind(), ErrorKind::InvalidFormat);
}
