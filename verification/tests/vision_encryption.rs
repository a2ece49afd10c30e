use oxify::vision_crypto::{
    EncryptionAlgorithm, EncryptionConfig, EncryptionError, EncryptionProvider,
    KeyDerivationFunction,
};

#[test]
fn test_encryption_config_default() {
    let config = EncryptionConfig::default();
    assert_eq!(config.algorithm, EncryptionAlgorithm::Aes256Gcm);
    assert_eq!(config.kdf, KeyDerivationFunction::Argon2id);
    assert_eq!(config.salt_size, 32);
    assert_eq!(config.nonce_size, 12);
}

#[test]
fn test_encryption_config_builder() {
    let config = EncryptionConfig::new()
        .with_master_key(b"test-master-key")
        .with_algorithm(EncryptionAlgorithm::ChaCha20Poly1305)
        .with_kdf(KeyDerivationFunction::Pbkdf2Sha256)
        .with_key_version(2);

    assert_eq!(config.algorithm, EncryptionAlgorithm::ChaCha20Poly1305);
    assert_eq!(config.kdf, KeyDerivationFunction::Pbkdf2Sha256);
    assert_eq!(config.key_version, 2);
}

#[test]
fn test_encryption_config_validation() {
    let config = EncryptionConfig::default();
    assert!(config.validate().is_err()); // No master key

    let config = EncryptionConfig::default().with_master_key(b"test-key");
    assert!(config.validate().is_ok());
}

#[test]
fn test_encrypt_decrypt_aes() {
    let config = EncryptionConfig::new()
        .with_master_key(b"test-master-key-32-bytes-long!!!")
        .with_algorithm(EncryptionAlgorithm::Aes256Gcm);

    let mut provider = EncryptionProvider::new(config).unwrap();

    let plaintext = b"Hello, World! This is a secret message.";
    let encrypted = provider.encrypt(plaintext).unwrap();

    assert_eq!(encrypted.algorithm, EncryptionAlgorithm::Aes256Gcm);
    assert_eq!(encrypted.version, 1);
    assert_ne!(encrypted.ciphertext, plaintext);

    let decrypted = provider.decrypt(&encrypted).unwrap();
    assert_eq!(decrypted, plaintext);
}

#[test]
fn test_encrypt_decrypt_chacha20() {
    let config = EncryptionConfig::new()
        .with_master_key(b"test-master-key-32-bytes-long!!!")
        .with_algorithm(EncryptionAlgorithm::ChaCha20Poly1305);

    let mut provider = EncryptionProvider::new(config).unwrap();

    let plaintext = b"Hello, World! This is a secret message.";
    let encrypted = provider.encrypt(plaintext).unwrap();

    assert_eq!(encrypted.algorithm, EncryptionAlgorithm::ChaCha20Poly1305);
    assert_ne!(encrypted.ciphertext, plaintext);

    let decrypted = provider.decrypt(&encrypted).unwrap();
    assert_eq!(decrypted, plaintext);
}

#[test]
fn test_encryption_statistics() {
    let config = EncryptionConfig::new().with_master_key(b"test-master-key-32-bytes-long!!!");

    let mut provider = EncryptionProvider::new(config).unwrap();

    let plaintext = b"Test data";
    let encrypted = provider.encrypt(plaintext).unwrap();
    let _decrypted = provider.decrypt(&encrypted).unwrap();

    let stats = provider.get_stats();
    assert_eq!(stats.total_encryptions, 1);
    assert_eq!(stats.total_decryptions, 1);
    assert_eq!(stats.bytes_encrypted, plaintext.len() as u64);
    assert_eq!(stats.bytes_decrypted, plaintext.len() as u64);
}

#[test]
fn test_key_derivation_pbkdf2() {
    let config = EncryptionConfig::new()
        .with_master_key(b"test-master-key")
        .with_kdf(KeyDerivationFunction::Pbkdf2Sha256);

    let mut provider = EncryptionProvider::new(config).unwrap();

    let plaintext = b"Test data";
    let encrypted = provider.encrypt(plaintext).unwrap();
    let decrypted = provider.decrypt(&encrypted).unwrap();

    assert_eq!(decrypted, plaintext);
}

#[test]
fn test_key_derivation_argon2() {
    let config = EncryptionConfig::new()
        .with_master_key(b"test-master-key")
        .with_kdf(KeyDerivationFunction::Argon2id);

    let mut provider = EncryptionProvider::new(config).unwrap();

    let plaintext = b"Test data";
    let encrypted = provider.encrypt(plaintext).unwrap();
    let decrypted = provider.decrypt(&encrypted).unwrap();

    assert_eq!(decrypted, plaintext);
}

#[test]
fn test_key_versioning() {
    let config = EncryptionConfig::new()
        .with_master_key(b"test-master-key-v1")
        .with_key_version(1);

    let mut provider = EncryptionProvider::new(config).unwrap();

    let plaintext = b"Test data with versioning";
    let encrypted_v1 = provider.encrypt(plaintext).unwrap();
    assert_eq!(encrypted_v1.version, 1);

    // Can still decrypt with v1 key
    let decrypted = provider.decrypt(&encrypted_v1).unwrap();
    assert_eq!(decrypted, plaintext);
}

#[test]
fn test_key_rotation() {
    let config = EncryptionConfig::new()
        .with_master_key(b"test-master-key-v1")
        .with_key_version(1);

    let mut provider = EncryptionProvider::new(config).unwrap();

    let plaintext = b"Test data";
    let encrypted_v1 = provider.encrypt(plaintext).unwrap();
    assert_eq!(encrypted_v1.version, 1);

    // Decrypt before rotation works
    let decrypted_v1 = provider.decrypt(&encrypted_v1).unwrap();
    assert_eq!(decrypted_v1, plaintext);

    // Rotate to new key
    provider.rotate_key(2, b"test-master-key-v2").unwrap();

    // New encryptions use v2
    let encrypted_v2 = provider.encrypt(plaintext).unwrap();
    assert_eq!(encrypted_v2.version, 2);

    // Can decrypt v2 data
    let decrypted_v2 = provider.decrypt(&encrypted_v2).unwrap();
    assert_eq!(decrypted_v2, plaintext);

    // Old v1 data cannot be decrypted after key rotation
    // because the master key has been replaced
    let result = provider.decrypt(&encrypted_v1);
    assert!(result.is_err());
}

#[test]
fn test_tampered_data_detection() {
    let config = EncryptionConfig::new().with_master_key(b"test-master-key");

    let mut provider = EncryptionProvider::new(config).unwrap();

    let plaintext = b"Important data";
    let mut encrypted = provider.encrypt(plaintext).unwrap();

    // Tamper with ciphertext
    encrypted.ciphertext[0] ^= 1;

    // Should fail to decrypt
    let result = provider.decrypt(&encrypted);
    assert!(result.is_err());
}

#[test]
fn test_empty_data() {
    let config = EncryptionConfig::new().with_master_key(b"test-master-key");

    let mut provider = EncryptionProvider::new(config).unwrap();

    let plaintext = b"";
    let encrypted = provider.encrypt(plaintext).unwrap();
    let decrypted = provider.decrypt(&encrypted).unwrap();

    assert_eq!(decrypted, plaintext);
}

#[test]
fn test_large_data() {
    let config = EncryptionConfig::new().with_master_key(b"test-master-key");

    let mut provider = EncryptionProvider::new(config).unwrap();

    let plaintext = vec![42u8; 10_000];
    let encrypted = provider.encrypt(&plaintext).unwrap();
    let decrypted = provider.decrypt(&encrypted).unwrap();

    assert_eq!(decrypted, plaintext);
}

#[test]
fn test_stats_reset() {
    let config = EncryptionConfig::new().with_master_key(b"test-master-key");

    let mut provider = EncryptionProvider::new(config).unwrap();

    let plaintext = b"Test";
    let encrypted = provider.encrypt(plaintext).unwrap();
    let _decrypted = provider.decrypt(&encrypted).unwrap();

    let stats = provider.get_stats();
    assert_eq!(stats.total_encryptions, 1);

    provider.reset_stats();
    let stats = provider.get_stats();
    assert_eq!(stats.total_encryptions, 0);
}

#[test]
fn test_clear_keys() {
    let config = EncryptionConfig::new().with_master_key(b"test-master-key");

    let mut provider = EncryptionProvider::new(config).unwrap();

    let plaintext = b"Test";
    let encrypted = provider.encrypt(plaintext).unwrap();

    // Clear cached keys
    provider.clear_keys();

    // Should still be able to decrypt (will re-derive key)
    let decrypted = provider.decrypt(&encrypted).unwrap();
    assert_eq!(decrypted, plaintext);
}

#[test]
fn test_different_nonces() {
    let config = EncryptionConfig::new().with_master_key(b"test-master-key");

    let mut provider = EncryptionProvider::new(config).unwrap();

    let plaintext = b"Same data";
    let encrypted1 = provider.encrypt(plaintext).unwrap();
    let encrypted2 = provider.encrypt(plaintext).unwrap();

    // Same plaintext should produce different ciphertexts (different nonces)
    assert_ne!(encrypted1.nonce, encrypted2.nonce);
    assert_ne!(encrypted1.ciphertext, encrypted2.ciphertext);

    // Both should decrypt correctly
    let decrypted1 = provider.decrypt(&encrypted1).unwrap();
    let decrypted2 = provider.decrypt(&encrypted2).unwrap();
    assert_eq!(decrypted1, plaintext);
    assert_eq!(decrypted2, plaintext);
}

#[test]
fn vision_rotate_to_same_version_is_refused() {
    let config = EncryptionConfig::new().with_master_key(b"k").with_key_version(3);
    let mut provider = EncryptionProvider::new(config).unwrap();
    match provider.rotate_key(3, b"other") {
        Err(EncryptionError::InvalidKey(m)) => {
            assert_eq!(m, "New version must be greater than current version")
        }
        _ => panic!("expected InvalidKey"),
    }
    assert_eq!(provider.config().key_version, 3);
}

#[test]
fn vision_validation_messages() {
    let mut config = EncryptionConfig::new().with_master_key(b"k");
    config.salt_size = 8;
    match config.validate() {
        Err(EncryptionError::ConfigError(m)) => assert_eq!(m, "Salt size must be at least 16 bytes"),
        _ => panic!("expected ConfigError"),
    }
    let mut config = EncryptionConfig::new().with_master_key(b"k");
    config.nonce_size = 4;
    match config.validate() {
        Err(EncryptionError::ConfigError(m)) => assert_eq!(m, "Nonce size must be at least 12 bytes"),
        _ => panic!("expected ConfigError"),
    }
    let mut config = EncryptionConfig::new().with_master_key(b"k");
    config.pbkdf2_iterations = 10;
    match config.validate() {
        Err(EncryptionError::ConfigError(m)) => {
            assert_eq!(m, "PBKDF2 iterations must be at least 10,000")
        }
        _ => panic!("expected ConfigError"),
    }
    match EncryptionProvider::new(EncryptionConfig::new()) {
        Err(EncryptionError::ConfigError(m)) => assert_eq!(m, "Master key is required"),
        _ => panic!("expected ConfigError"),
    }
}

#[test]
fn vision_encrypt_with_is_deterministic() {
    let config = EncryptionConfig::new().with_master_key(b"test-master-key");
    let mut p1 = EncryptionProvider::new(config.clone()).unwrap();
    let mut p2 = EncryptionProvider::new(config).unwrap();
    let salt = vec![7u8; 32];
    let nonce = vec![9u8; 12];
    let a = p1.encrypt_with(b"abc", salt.clone(), nonce.clone()).unwrap();
    let b = p2.encrypt_with(b"abc", salt, nonce).unwrap();
    assert_eq!(a.ciphertext, b.ciphertext);
    assert_eq!(a.tag, b.tag);
    assert_eq!(a.ciphertext.len(), 3);
    assert_ne!(a.ciphertext, b"abc".to_vec());
    assert_eq!(p1.decrypt(&b).unwrap(), b"abc".to_vec());
}

#[test]
fn vision_failed_decrypt_keeps_stats() {
    let config = EncryptionConfig::new().with_master_key(b"test-master-key");
    let mut provider = EncryptionProvider::new(config).unwrap();
    let mut e = provider.encrypt(b"data").unwrap();
    e.tag[0] ^= 0xff;
    match provider.decrypt(&e) {
        Err(EncryptionError::DecryptionFailed(m)) => assert_eq!(m, "Authentication failed"),
        _ => panic!("expected DecryptionFailed"),
    }
    assert_eq!(provider.get_stats().total_decryptions, 0);
    assert_eq!(provider.get_stats().failed_decryptions, 0);
}

#[test]
fn clear_keys_then_decrypt_both_messages() {
    let config = EncryptionConfig::new().with_master_key(b"test-master-key");
    let mut provider = EncryptionProvider::new(config).unwrap();
    let e1 = provider.encrypt(b"first").unwrap();
    let e2 = provider.encrypt(b"second").unwrap();
    assert_eq!(e1.tag.len(), 16);
    assert_eq!(e2.tag.len(), 16);
    assert_ne!(e1.salt, e2.salt);
    provider.clear_keys();
    assert_eq!(provider.decrypt(&e2).unwrap(), b"second".to_vec());
    assert_eq!(provider.decrypt(&e1).unwrap(), b"first".to_vec());
    // Without clearing, the second salt's key replaces the first in the
    // cache, and both still decrypt.
    assert_eq!(provider.decrypt(&e2).unwrap(), b"second".to_vec());
}
