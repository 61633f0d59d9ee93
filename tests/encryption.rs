use open_context_vault::encryption::{CipherError, EncryptionService, KEY_LEN, NONCE_LEN, TAG_LEN};

#[test]
fn round_trip_returns_plaintext() {
    let mut svc = EncryptionService::new().unwrap();
    let plaintext = b"{\"seat\":\"window\"}".to_vec();
    let blob = svc.encrypt(7, &plaintext).unwrap();
    assert_eq!(blob.len(), NONCE_LEN + plaintext.len() + TAG_LEN);
    assert_ne!(&blob[NONCE_LEN..NONCE_LEN + plaintext.len()], &plaintext[..]);
    let back = svc.decrypt(7, &blob).unwrap();
    assert_eq!(back, plaintext);
}

#[test]
fn round_trip_empty_plaintext() {
    let mut svc = EncryptionService::new().unwrap();
    let blob = svc.encrypt(1, &[]).unwrap();
    assert_eq!(blob.len(), NONCE_LEN + TAG_LEN);
    assert_eq!(svc.decrypt(1, &blob).unwrap(), Vec::<u8>::new());
}

#[test]
fn fresh_nonce_per_encryption() {
    let mut svc = EncryptionService::new().unwrap();
    let a = svc.encrypt(1, b"same").unwrap();
    let b = svc.encrypt(1, b"same").unwrap();
    assert_ne!(a[..NONCE_LEN], b[..NONCE_LEN]);
}

#[test]
fn cross_key_decrypt_fails() {
    let mut svc = EncryptionService::new().unwrap();
    let blob = svc.encrypt(1, b"secret").unwrap();
    assert_eq!(svc.decrypt(2, &blob), Err(CipherError::AuthenticationFailed));
}

#[test]
fn short_blob_is_invalid_ciphertext() {
    let mut svc = EncryptionService::new().unwrap();
    assert_eq!(svc.decrypt(1, &[0u8; NONCE_LEN - 1]), Err(CipherError::InvalidCiphertext));
    assert_eq!(svc.decrypt(1, &[]), Err(CipherError::InvalidCiphertext));
}

#[test]
fn tampered_blob_fails_authentication() {
    let mut svc = EncryptionService::new().unwrap();
    let mut blob = svc.encrypt(3, b"payload").unwrap();
    let last = blob.len() - 1;
    blob[last] ^= 0x01;
    assert_eq!(svc.decrypt(3, &blob), Err(CipherError::AuthenticationFailed));
}

#[test]
fn nonce_only_blob_fails_authentication() {
    let mut svc = EncryptionService::new().unwrap();
    assert_eq!(svc.decrypt(3, &[0u8; NONCE_LEN]), Err(CipherError::AuthenticationFailed));
}

#[test]
fn rotated_key_cannot_open_old_blob() {
    let mut svc = EncryptionService::new().unwrap();
    let blob = svc.encrypt(5, b"before rotation").unwrap();
    svc.rotate_key(5).unwrap();
    assert_eq!(svc.decrypt(5, &blob), Err(CipherError::AuthenticationFailed));
    let fresh = svc.encrypt(5, b"after").unwrap();
    assert_eq!(svc.decrypt(5, &fresh).unwrap(), b"after".to_vec());
}

#[test]
fn set_key_replaces_the_key() {
    let mut a = EncryptionService::new().unwrap();
    let mut b = EncryptionService::new().unwrap();
    a.set_key(1, vec![7u8; KEY_LEN]);
    b.set_key(2, vec![7u8; KEY_LEN]);
    let blob = a.encrypt(1, b"shared key").unwrap();
    assert_eq!(b.decrypt(2, &blob).unwrap(), b"shared key".to_vec());
    b.set_key(2, vec![8u8; KEY_LEN]);
    assert_eq!(b.decrypt(2, &blob), Err(CipherError::AuthenticationFailed));
}
