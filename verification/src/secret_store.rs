//! AES-256-GCM encryption of stored secrets, with a key derived from the
//! master key and a random salt by PBKDF2-HMAC-SHA256.

use vstd::prelude::*;

use crate::secret_primitives::{
    aes256gcm_decrypt, aes256gcm_encrypt, aes256gcm_open_spec, aes256gcm_seal_spec, base64_decode,
    base64_decode_spec, base64_encode, base64_encode_spec, pbkdf2_sha256, pbkdf2_sha256_spec,
    random_bytes, utf8_to_string,
};

verus! {

/// PBKDF2 rounds used to derive each encryption key.
pub const KDF_ROUNDS: u32 = 100_000;

/// Errors of the secret encryption service.
#[derive(Debug)]
pub enum SecretError {
    /// The master key is not valid Base64.
    InvalidMasterKeyEncoding,
    /// The master key does not have 32 bytes.
    InvalidMasterKeyLength,
    /// The cipher refused the plaintext.
    EncryptionFailed,
    /// The metadata names another algorithm.
    UnsupportedAlgorithm(String),
    /// The salt is not valid Base64.
    InvalidSalt,
    /// The IV is not valid Base64.
    InvalidIv,
    /// The IV does not have 12 bytes.
    InvalidIvLength,
    /// The ciphertext does not authenticate under the derived key.
    DecryptionFailed,
    /// The decrypted bytes are not valid UTF-8.
    InvalidUtf8,
}

/// How a secret was encrypted.
#[derive(Debug, Clone)]
pub struct EncryptionMetadata {
    pub algorithm: String,
    pub kdf: String,
    /// Base64 of the key-derivation salt.
    pub salt: String,
    /// Base64 of the AES-GCM nonce.
    pub iv: String,
    pub key_version: u32,
}

/// The mathematical content of `EncryptionMetadata`.
pub struct EncryptionMetadataView {
    pub algorithm: Seq<char>,
    pub kdf: Seq<char>,
    pub salt: Seq<char>,
    pub iv: Seq<char>,
    pub key_version: u32,
}

impl View for EncryptionMetadata {
    type V = EncryptionMetadataView;

    open spec fn view(&self) -> EncryptionMetadataView {
        EncryptionMetadataView {
            algorithm: self.algorithm@,
            kdf: self.kdf@,
            salt: self.salt@,
            iv: self.iv@,
            key_version: self.key_version,
        }
    }
}

/// The key derived from the master key and a salt.
pub open spec fn secret_key(master: Seq<u8>, salt: Seq<u8>) -> Seq<u8> {
    pbkdf2_sha256_spec(master, salt, KDF_ROUNDS)
}

/// The metadata that encryption with `salt`, `iv` and a key version records.
pub open spec fn sealed_metadata(salt: Seq<u8>, iv: Seq<u8>, version: u32) -> EncryptionMetadataView {
    EncryptionMetadataView {
        algorithm: "AES-256-GCM"@,
        kdf: "PBKDF2-HMAC-SHA256"@,
        salt: base64_encode_spec(salt),
        iv: base64_encode_spec(iv),
        key_version: version,
    }
}

/// `ciphertext` and `meta` are what encrypting `plaintext` under `master`
/// produced, for some salt and 12-byte IV.
pub open spec fn seals(
    master: Seq<u8>,
    plaintext: Seq<char>,
    ciphertext: Seq<u8>,
    meta: EncryptionMetadataView,
) -> bool {
    exists|salt: Seq<u8>, iv: Seq<u8>|
        iv.len() == 12 && meta == sealed_metadata(salt, iv, meta.key_version)
            && #[trigger] aes256gcm_seal_spec(
            secret_key(master, salt),
            iv,
            vstd::utf8::encode_utf8(plaintext),
        ) == Some(ciphertext)
}

/// Encryption service for secrets.
pub struct EncryptionService {
    master_key: Vec<u8>,
    key_version: u32,
}

impl EncryptionService {
    /// The master key.
    pub closed spec fn spec_master_key(&self) -> Seq<u8> {
        self.master_key@
    }

    /// The current key version.
    pub closed spec fn spec_key_version(&self) -> u32 {
        self.key_version
    }

    /// Create a new encryption service with a master key (version 1).
    pub fn new(master_key: Vec<u8>) -> (s: Self)
        ensures
            s.spec_master_key() == master_key@,
            s.spec_key_version() == 1,
    {
        Self { master_key, key_version: 1 }
    }

    /// Create the service from a Base64 master key, which must decode to
    /// 32 bytes.
    pub fn from_base64_key(key_b64: &str) -> (r: Result<Self, SecretError>)
        ensures
            match base64_decode_spec(key_b64@) {
                None => r matches Err(SecretError::InvalidMasterKeyEncoding),
                Some(k) => if k.len() == 32 {
                    r matches Ok(s) && s.spec_master_key() == k && s.spec_key_version() == 1
                } else {
                    r matches Err(SecretError::InvalidMasterKeyLength)
                },
            },
    {
        let master_key = match base64_decode(key_b64) {
            Some(k) => k,
            None => return Err(SecretError::InvalidMasterKeyEncoding),
        };
        if master_key.len() != 32 {
            return Err(SecretError::InvalidMasterKeyLength);
        }
        Ok(Self { master_key, key_version: 1 })
    }

    /// Generate a random master key of 32 bytes.
    pub fn generate_master_key() -> (k: Vec<u8>)
        ensures
            k@.len() == 32,
    {
        random_bytes(32)
    }

    /// Encrypt a plaintext under a random salt and IV.
    pub fn encrypt(&self, plaintext: &str) -> (r: Result<(Vec<u8>, EncryptionMetadata), SecretError>)
        ensures
            match r {
                Ok((c, m)) => seals(self.spec_master_key(), plaintext@, c@, m@) && m@.key_version
                    == self.spec_key_version(),
                Err(e) => e is EncryptionFailed,
            },
    {
        let iv = random_bytes(12);
        let salt = random_bytes(32);
        self.encrypt_with(plaintext, &iv, &salt)
    }

    /// Encrypt a plaintext under the given IV (12 bytes) and salt.
    pub fn encrypt_with(&self, plaintext: &str, iv: &[u8], salt: &[u8]) -> (r: Result<
        (Vec<u8>, EncryptionMetadata),
        SecretError,
    >)
        requires
            iv@.len() == 12,
        ensures
            match aes256gcm_seal_spec(
                secret_key(self.spec_master_key(), salt@),
                iv@,
                vstd::utf8::encode_utf8(plaintext@),
            ) {
                Some(ct) => r matches Ok((c, m)) && c@ == ct && m@ == sealed_metadata(
                    salt@,
                    iv@,
                    self.spec_key_version(),
                ),
                None => r matches Err(SecretError::EncryptionFailed),
            },
            r matches Ok((c, m)) ==> seals(self.spec_master_key(), plaintext@, c@, m@),
    {
        let key = pbkdf2_sha256(&self.master_key, salt, KDF_ROUNDS);
        let bytes = plaintext.as_bytes();
        let ciphertext = match aes256gcm_encrypt(&key, iv, bytes) {
            Some(c) => c,
            None => return Err(SecretError::EncryptionFailed),
        };
        let metadata = EncryptionMetadata {
            algorithm: String::from_str("AES-256-GCM"),
            kdf: String::from_str("PBKDF2-HMAC-SHA256"),
            salt: base64_encode(salt),
            iv: base64_encode(iv),
            key_version: self.key_version,
        };
        proof {
            assert(metadata@ == sealed_metadata(salt@, iv@, self.key_version));
            assert(aes256gcm_seal_spec(
                secret_key(self.master_key@, salt@),
                iv@,
                vstd::utf8::encode_utf8(plaintext@),
            ) == Some(ciphertext@));
        }
        Ok((ciphertext, metadata))
    }

    /// Decrypt a ciphertext with its metadata. Whatever `encrypt` produced
    /// under the same master key decrypts to the original plaintext.
    pub fn decrypt(&self, ciphertext: &[u8], metadata: &EncryptionMetadata) -> (r: Result<
        String,
        SecretError,
    >)
        ensures
            metadata.algorithm@ != "AES-256-GCM"@ ==> (r matches Err(
                SecretError::UnsupportedAlgorithm(a),
            ) && a@ == metadata.algorithm@),
            metadata.algorithm@ == "AES-256-GCM"@ ==> match base64_decode_spec(metadata.salt@) {
                None => r matches Err(SecretError::InvalidSalt),
                Some(salt) => match base64_decode_spec(metadata.iv@) {
                    None => r matches Err(SecretError::InvalidIv),
                    Some(iv) => if iv.len() != 12 {
                        r matches Err(SecretError::InvalidIvLength)
                    } else {
                        match aes256gcm_open_spec(
                            secret_key(self.spec_master_key(), salt),
                            iv,
                            ciphertext@,
                        ) {
                            None => r matches Err(SecretError::DecryptionFailed),
                            Some(pt) => if vstd::utf8::valid_utf8(pt) {
                                r matches Ok(s) && s@ == vstd::utf8::decode_utf8(pt)
                            } else {
                                r matches Err(SecretError::InvalidUtf8)
                            },
                        }
                    },
                },
            },
            forall|p: Seq<char>|
                #[trigger] seals(self.spec_master_key(), p, ciphertext@, metadata@) ==> (r matches Ok(
                    s,
                ) && s@ == p),
    {
        let expected = String::from_str("AES-256-GCM");
        if !(metadata.algorithm == expected) {
            proof {
                assert forall|p: Seq<char>|
                    #[trigger] seals(self.master_key@, p, ciphertext@, metadata@) implies false by {
                    let (salt, iv) = choose|salt: Seq<u8>, iv: Seq<u8>|
                        iv.len() == 12 && metadata@ == sealed_metadata(
                            salt,
                            iv,
                            metadata@.key_version,
                        ) && #[trigger] aes256gcm_seal_spec(
                            secret_key(self.master_key@, salt),
                            iv,
                            vstd::utf8::encode_utf8(p),
                        ) == Some(ciphertext@);
                    assert(metadata@.algorithm == "AES-256-GCM"@);
                }
            }
            return Err(SecretError::UnsupportedAlgorithm(metadata.algorithm.clone()));
        }
        let salt = match base64_decode(metadata.salt.as_str()) {
            Some(s) => s,
            None => {
                proof {
                    assert forall|p: Seq<char>|
                        #[trigger] seals(self.master_key@, p, ciphertext@, metadata@) implies false by {
                        let (s0, i0) = choose|salt: Seq<u8>, iv: Seq<u8>|
                            iv.len() == 12 && metadata@ == sealed_metadata(
                                salt,
                                iv,
                                metadata@.key_version,
                            ) && #[trigger] aes256gcm_seal_spec(
                                secret_key(self.master_key@, salt),
                                iv,
                                vstd::utf8::encode_utf8(p),
                            ) == Some(ciphertext@);
                        assert(base64_encode_spec(s0) == metadata.salt@);
                    }
                }
                return Err(SecretError::InvalidSalt);
            },
        };
        let iv = match base64_decode(metadata.iv.as_str()) {
            Some(v) => v,
            None => {
                proof {
                    assert forall|p: Seq<char>|
                        #[trigger] seals(self.master_key@, p, ciphertext@, metadata@) implies false by {
                        let (s0, i0) = choose|salt: Seq<u8>, iv: Seq<u8>|
                            iv.len() == 12 && metadata@ == sealed_metadata(
                                salt,
                                iv,
                                metadata@.key_version,
                            ) && #[trigger] aes256gcm_seal_spec(
                                secret_key(self.master_key@, salt),
                                iv,
                                vstd::utf8::encode_utf8(p),
                            ) == Some(ciphertext@);
                        assert(base64_encode_spec(i0) == metadata.iv@);
                    }
                }
                return Err(SecretError::InvalidIv);
            },
        };
        let key = pbkdf2_sha256(&self.master_key, &salt, KDF_ROUNDS);
        if iv.len() != 12 {
            proof {
                assert forall|p: Seq<char>|
                    #[trigger] seals(self.master_key@, p, ciphertext@, metadata@) implies false by {
                    let (s0, i0) = choose|salt: Seq<u8>, iv: Seq<u8>|
                        iv.len() == 12 && metadata@ == sealed_metadata(
                            salt,
                            iv,
                            metadata@.key_version,
                        ) && #[trigger] aes256gcm_seal_spec(
                            secret_key(self.master_key@, salt),
                            iv,
                            vstd::utf8::encode_utf8(p),
                        ) == Some(ciphertext@);
                    assert(base64_encode_spec(i0) == metadata.iv@);
                }
            }
            return Err(SecretError::InvalidIvLength);
        }
        let bytes = match aes256gcm_decrypt(&key, &iv, ciphertext) {
            Some(b) => b,
            None => {
                proof {
                    assert forall|p: Seq<char>|
                        #[trigger] seals(self.master_key@, p, ciphertext@, metadata@) implies false by {
                        let (s0, i0) = choose|salt: Seq<u8>, iv: Seq<u8>|
                            iv.len() == 12 && metadata@ == sealed_metadata(
                                salt,
                                iv,
                                metadata@.key_version,
                            ) && #[trigger] aes256gcm_seal_spec(
                                secret_key(self.master_key@, salt),
                                iv,
                                vstd::utf8::encode_utf8(p),
                            ) == Some(ciphertext@);
                        assert(base64_encode_spec(s0) == metadata.salt@);
                        assert(base64_encode_spec(i0) == metadata.iv@);
                        assert(aes256gcm_seal_spec(key@, iv@, vstd::utf8::encode_utf8(p)) == Some(
                            ciphertext@,
                        ));
                    }
                }
                return Err(SecretError::DecryptionFailed);
            },
        };
        let ghost pt = bytes@;
        let r = utf8_to_string(bytes);
        proof {
            assert forall|p: Seq<char>|
                #[trigger] seals(self.master_key@, p, ciphertext@, metadata@) implies r matches Some(
                s,
            ) && s@ == p by {
                let (s0, i0) = choose|salt: Seq<u8>, iv: Seq<u8>|
                    iv.len() == 12 && metadata@ == sealed_metadata(salt, iv, metadata@.key_version)
                        && #[trigger] aes256gcm_seal_spec(
                        secret_key(self.master_key@, salt),
                        iv,
                        vstd::utf8::encode_utf8(p),
                    ) == Some(ciphertext@);
                assert(base64_encode_spec(s0) == metadata.salt@);
                assert(base64_encode_spec(i0) == metadata.iv@);
                assert(aes256gcm_seal_spec(key@, iv@, vstd::utf8::encode_utf8(p)) == Some(
                    ciphertext@,
                ));
                assert(pt == vstd::utf8::encode_utf8(p));
                vstd::utf8::encode_utf8_valid_utf8(p);
                vstd::utf8::encode_utf8_decode_utf8(p);
            }
        }
        match r {
            Some(s) => Ok(s),
            None => Err(SecretError::InvalidUtf8),
        }
    }

    /// Replace the master key and move to the next key version.
    pub fn rotate_key(&mut self, new_master_key: Vec<u8>)
        requires
            old(self).spec_key_version() < u32::MAX,
        ensures
            final(self).spec_master_key() == new_master_key@,
            final(self).spec_key_version() == old(self).spec_key_version() + 1,
    {
        self.master_key = new_master_key;
        self.key_version = self.key_version + 1;
    }

    /// Get current key version.
    pub fn key_version(&self) -> (v: u32)
        ensures
            v == self.spec_key_version(),
    {
        self.key_version
    }
}

} // verus!
