use oxify::secret_store::{EncryptionService, SecretError};

#[test]
fn test_encrypt_decrypt() {
    let master_key = EncryptionService::generate_master_key();
    let service = EncryptionService::new(master_key);

    let plaintext = "my-secret-api-key";
    let (ciphertext, metadata) = service.encrypt(plaintext).unwrap();

    // Verify encrypted value is different
    assert_ne!(ciphertext, plaintext.as_bytes());

    // Decrypt and verify
    let decrypted = service.decrypt(&ciphertext, &metadata).unwrap();
    assert_eq!(decrypted, plaintext);
}

#[test]
fn test_different_ivs() {
    let master_key = EncryptionService::generate_master_key();
    let service = EncryptionService::new(master_key);

    let plaintext = "same-plaintext";

    let (ciphertext1, metadata1) = service.encrypt(plaintext).unwrap();
    let (ciphertext2, metadata2) = service.encrypt(plaintext).unwrap();

    // Different IVs should produce different ciphertexts
    assert_ne!(metadata1.iv, metadata2.iv);
    assert_ne!(ciphertext1, ciphertext2);

    // Both should decrypt correctly
    let decrypted1 = service.decrypt(&ciphertext1, &metadata1).unwrap();
    let decrypted2 = service.decrypt(&ciphertext2, &metadata2).unwrap();

    assert_eq!(decrypted1, plaintext);
    assert_eq!(decrypted2, plaintext);
}

#[test]
fn test_wrong_key_fails() {
    let master_key1 = EncryptionService::generate_master_key();
    let master_key2 = EncryptionService::generate_master_key();

    let service1 = EncryptionService::new(master_key1);
    let service2 = EncryptionService::new(master_key2);

    let plaintext = "secret-data";
    let (ciphertext, metadata) = service1.encrypt(plaintext).unwrap();

    // Decryption with wrong key should fail
    let result = service2.decrypt(&ciphertext, &metadata);
    assert!(result.is_err());
}

#[test]
fn secret_metadata_and_versions() {
    let mut service = EncryptionService::new(vec![1u8; 32]);
    let (ct, md) = service.encrypt_with("abc", &[0u8; 12], &[2u8; 32]).unwrap();
    assert_eq!(md.algorithm, "AES-256-GCM");
    assert_eq!(md.kdf, "PBKDF2-HMAC-SHA256");
    assert_eq!(md.iv, "AAAAAAAAAAAAAAAA");
    assert_eq!(md.key_version, 1);
    // AES-GCM adds a 16-byte tag.
    assert_eq!(ct.len(), 3 + 16);
    assert_eq!(service.decrypt(&ct, &md).unwrap(), "abc");
    service.rotate_key(vec![3u8; 32]);
    assert_eq!(service.key_version(), 2);
    assert!(matches!(service.decrypt(&ct, &md), Err(SecretError::DecryptionFailed)));
}

#[test]
fn secret_decrypt_errors() {
    let service = EncryptionService::new(vec![1u8; 32]);
    let (ct, md) = service.encrypt("x").unwrap();
    let mut bad = md.clone();
    bad.algorithm = "DES".to_string();
    match service.decrypt(&ct, &bad) {
        Err(SecretError::UnsupportedAlgorithm(a)) => assert_eq!(a, "DES"),
        _ => panic!("expected UnsupportedAlgorithm"),
    }
    let mut bad = md.clone();
    bad.salt = "!!".to_string();
    assert!(matches!(service.decrypt(&ct, &bad), Err(SecretError::InvalidSalt)));
    let mut bad = md.clone();
    bad.iv = "!!".to_string();
    assert!(matches!(service.decrypt(&ct, &bad), Err(SecretError::InvalidIv)));
    let mut bad = md;
    bad.iv = "AAAA".to_string();
    assert!(matches!(service.decrypt(&ct, &bad), Err(SecretError::InvalidIvLength)));
}

#[test]
fn secret_master_key_from_base64() {
    let key = "AAAAAAAAAAAAAAAAAAAAAAAAAAAAAAAAAAAAAAAAAAA=";
    let s = EncryptionService::from_base64_key(key).unwrap();
    assert_eq!(s.key_version(), 1);
    assert!(matches!(
        EncryptionService::from_base64_key("AAAA"),
        Err(SecretError::InvalidMasterKeyLength)
    ));
    assert!(matches!(
        EncryptionService::from_base64_key("not base64!"),
        Err(SecretError::InvalidMasterKeyEncoding)
    ));
}
