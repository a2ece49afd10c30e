//! Encryption of cached results and model files.
//!
//! Keys are derived from a master key and a per-message salt (an iterated
//! SHA-256 chain, in a PBKDF2-like or an Argon2-like flavour), cached by key
//! version, and used to XOR the data with a SHA-256 keystream. A truncated
//! SHA-256 over key, nonce and ciphertext authenticates each message.

use std::collections::HashMap;
use vstd::prelude::*;

use crate::bytes::{append_bytes, bytes_eq, copy_bytes, le_bytes, le_encode, prefix};
use crate::clock::unix_time_nanos;
use crate::hashing::{sha256, sha256_spec};

verus! {

broadcast use vstd::std_specs::hash::group_hash_axioms;

/// Encryption errors.
#[derive(Debug)]
pub enum EncryptionError {
    EncryptionFailed(String),
    DecryptionFailed(String),
    InvalidKey(String),
    KeyDerivationFailed(String),
    ConfigError(String),
    KeyNotFound(String),
    InvalidFormat,
}

/// Encryption algorithm.
#[derive(Debug, Clone, Copy, PartialEq, Eq, Structural)]
pub enum EncryptionAlgorithm {
    /// AES-256-GCM flavour (the default).
    Aes256Gcm,
    /// ChaCha20-Poly1305 flavour.
    ChaCha20Poly1305,
}

impl Default for EncryptionAlgorithm {
    fn default() -> (r: Self)
        ensures
            r == EncryptionAlgorithm::Aes256Gcm,
    {
        EncryptionAlgorithm::Aes256Gcm
    }
}

/// Key derivation function.
#[derive(Debug, Clone, Copy, PartialEq, Eq, Structural)]
pub enum KeyDerivationFunction {
    /// Iterated SHA-256 over key and salt.
    Pbkdf2Sha256,
    /// SHA-256 over key, salt and cost parameters, then iterated (the default).
    Argon2id,
}

impl Default for KeyDerivationFunction {
    fn default() -> (r: Self)
        ensures
            r == KeyDerivationFunction::Argon2id,
    {
        KeyDerivationFunction::Argon2id
    }
}

/// Encryption configuration.
#[derive(Debug, Clone)]
pub struct EncryptionConfig {
    pub algorithm: EncryptionAlgorithm,
    pub kdf: KeyDerivationFunction,
    /// Master key (for key derivation).
    pub master_key: Option<Vec<u8>>,
    /// Salt size in bytes.
    pub salt_size: usize,
    /// Nonce size in bytes.
    pub nonce_size: usize,
    /// Rounds of the iterated derivation (PBKDF2 flavour).
    pub pbkdf2_iterations: u32,
    /// Memory cost mixed into the Argon2 flavour.
    pub argon2_memory_cost: u32,
    /// Rounds of the Argon2 flavour.
    pub argon2_time_cost: u32,
    /// Enable key versioning for rotation.
    pub enable_versioning: bool,
    /// Current key version.
    pub key_version: u32,
}

/// The configuration that `EncryptionConfig::default` builds.
pub open spec fn default_config_spec(c: EncryptionConfig) -> bool {
    &&& c.algorithm == EncryptionAlgorithm::Aes256Gcm
    &&& c.kdf == KeyDerivationFunction::Argon2id
    &&& c.master_key is None
    &&& c.salt_size == 32
    &&& c.nonce_size == 12
    &&& c.pbkdf2_iterations == 100_000
    &&& c.argon2_memory_cost == 65536
    &&& c.argon2_time_cost == 3
    &&& c.enable_versioning
    &&& c.key_version == 1
}

impl Default for EncryptionConfig {
    fn default() -> (r: Self)
        ensures
            default_config_spec(r),
    {
        EncryptionConfig {
            algorithm: EncryptionAlgorithm::Aes256Gcm,
            kdf: KeyDerivationFunction::Argon2id,
            master_key: None,
            salt_size: 32,
            nonce_size: 12,
            pbkdf2_iterations: 100_000,
            argon2_memory_cost: 65536,
            argon2_time_cost: 3,
            enable_versioning: true,
            key_version: 1,
        }
    }
}

/// The message of the first check that `validate` finds failing, if any.
pub open spec fn config_error_spec(c: EncryptionConfig) -> Option<Seq<char>> {
    if c.master_key is None {
        Some("Master key is required"@)
    } else if c.salt_size < 16 {
        Some("Salt size must be at least 16 bytes"@)
    } else if c.nonce_size < 12 {
        Some("Nonce size must be at least 12 bytes"@)
    } else if c.pbkdf2_iterations < 10_000 {
        Some("PBKDF2 iterations must be at least 10,000"@)
    } else {
        None
    }
}

/// A configuration that `validate` accepts.
pub open spec fn valid_config(c: EncryptionConfig) -> bool {
    config_error_spec(c) is None
}

impl EncryptionConfig {
    /// Create a new configuration with the default settings.
    pub fn new() -> (r: Self)
        ensures
            default_config_spec(r),
    {
        Self::default()
    }

    /// Set the master key.
    pub fn with_master_key(self, key: &[u8]) -> (r: Self)
        ensures
            r == (EncryptionConfig { master_key: r.master_key, ..self }),
            r.master_key matches Some(k) && k@ == key@,
    {
        let mut s = self;
        s.master_key = Some(copy_bytes(key));
        s
    }

    /// Set the encryption algorithm.
    pub fn with_algorithm(self, algorithm: EncryptionAlgorithm) -> (r: Self)
        ensures
            r == (EncryptionConfig { algorithm, ..self }),
    {
        let mut s = self;
        s.algorithm = algorithm;
        s
    }

    /// Set the key derivation function.
    pub fn with_kdf(self, kdf: KeyDerivationFunction) -> (r: Self)
        ensures
            r == (EncryptionConfig { kdf, ..self }),
    {
        let mut s = self;
        s.kdf = kdf;
        s
    }

    /// Set the key version.
    pub fn with_key_version(self, version: u32) -> (r: Self)
        ensures
            r == (EncryptionConfig { key_version: version, ..self }),
    {
        let mut s = self;
        s.key_version = version;
        s
    }

    /// Validate the configuration: a master key, a salt of at least 16 bytes,
    /// a nonce of at least 12 bytes and at least 10,000 derivation rounds.
    pub fn validate(&self) -> (r: Result<(), EncryptionError>)
        ensures
            match config_error_spec(*self) {
                None => r is Ok,
                Some(msg) => r matches Err(EncryptionError::ConfigError(m)) && m@ == msg,
            },
    {
        if self.master_key.is_none() {
            return Err(EncryptionError::ConfigError(String::from_str("Master key is required")));
        }
        if self.salt_size < 16 {
            return Err(
                EncryptionError::ConfigError(
                    String::from_str("Salt size must be at least 16 bytes"),
                ),
            );
        }
        if self.nonce_size < 12 {
            return Err(
                EncryptionError::ConfigError(
                    String::from_str("Nonce size must be at least 12 bytes"),
                ),
            );
        }
        if self.pbkdf2_iterations < 10_000 {
            return Err(
                EncryptionError::ConfigError(
                    String::from_str("PBKDF2 iterations must be at least 10,000"),
                ),
            );
        }
        Ok(())
    }
}

/// Encrypted data container.
#[derive(Debug, Clone)]
pub struct EncryptedData {
    pub algorithm: EncryptionAlgorithm,
    /// Key version.
    pub version: u32,
    /// Salt used for key derivation.
    pub salt: Vec<u8>,
    /// Nonce used for encryption.
    pub nonce: Vec<u8>,
    /// Encrypted ciphertext.
    pub ciphertext: Vec<u8>,
    /// Authentication tag.
    pub tag: Vec<u8>,
}

/// The mathematical content of an `EncryptedData`.
pub struct EncryptedDataView {
    pub algorithm: EncryptionAlgorithm,
    pub version: u32,
    pub salt: Seq<u8>,
    pub nonce: Seq<u8>,
    pub ciphertext: Seq<u8>,
    pub tag: Seq<u8>,
}

impl View for EncryptedData {
    type V = EncryptedDataView;

    open spec fn view(&self) -> EncryptedDataView {
        EncryptedDataView {
            algorithm: self.algorithm,
            version: self.version,
            salt: self.salt@,
            nonce: self.nonce@,
            ciphertext: self.ciphertext@,
            tag: self.tag@,
        }
    }
}

/// Encryption statistics.
#[derive(Debug, Clone, Copy)]
pub struct EncryptionStats {
    pub total_encryptions: u64,
    pub total_decryptions: u64,
    pub bytes_encrypted: u64,
    pub bytes_decrypted: u64,
    pub failed_encryptions: u64,
    pub failed_decryptions: u64,
}

/// All counters at zero.
pub open spec fn zero_stats() -> EncryptionStats {
    EncryptionStats {
        total_encryptions: 0,
        total_decryptions: 0,
        bytes_encrypted: 0,
        bytes_decrypted: 0,
        failed_encryptions: 0,
        failed_decryptions: 0,
    }
}

impl Default for EncryptionStats {
    fn default() -> (r: Self)
        ensures
            r == zero_stats(),
    {
        EncryptionStats {
            total_encryptions: 0,
            total_decryptions: 0,
            bytes_encrypted: 0,
            bytes_decrypted: 0,
            failed_encryptions: 0,
            failed_decryptions: 0,
        }
    }
}

/// The bytes of "chacha20".
pub open spec fn chacha_label() -> Seq<u8> {
    seq![0x63u8, 0x68u8, 0x61u8, 0x63u8, 0x68u8, 0x61u8, 0x32u8, 0x30u8]
}

/// The bytes of "poly1305".
pub open spec fn poly_label() -> Seq<u8> {
    seq![0x70u8, 0x6fu8, 0x6cu8, 0x79u8, 0x31u8, 0x33u8, 0x30u8, 0x35u8]
}

/// The bytes of "nonce".
pub open spec fn nonce_label() -> Seq<u8> {
    seq![0x6eu8, 0x6fu8, 0x6eu8, 0x63u8, 0x65u8]
}

fn chacha_label_bytes() -> (v: Vec<u8>)
    ensures
        v@ == chacha_label(),
{
    let v: Vec<u8> = vec![0x63u8, 0x68u8, 0x61u8, 0x63u8, 0x68u8, 0x61u8, 0x32u8, 0x30u8];
    assert(v@ =~= chacha_label());
    v
}

fn poly_label_bytes() -> (v: Vec<u8>)
    ensures
        v@ == poly_label(),
{
    let v: Vec<u8> = vec![0x70u8, 0x6fu8, 0x6cu8, 0x79u8, 0x31u8, 0x33u8, 0x30u8, 0x35u8];
    assert(v@ =~= poly_label());
    v
}

fn nonce_label_bytes() -> (v: Vec<u8>)
    ensures
        v@ == nonce_label(),
{
    let v: Vec<u8> = vec![0x6eu8, 0x6fu8, 0x6eu8, 0x63u8, 0x65u8];
    assert(v@ =~= nonce_label());
    v
}

/// `rounds` applications of `k := SHA-256(k ++ salt)`, starting from `key`.
pub open spec fn chain_hash(key: Seq<u8>, salt: Seq<u8>, rounds: nat) -> Seq<u8>
    decreases rounds,
{
    if rounds == 0 {
        key
    } else {
        sha256_spec(chain_hash(key, salt, (rounds - 1) as nat) + salt)
    }
}

/// The key that the configuration derives from `master` and `salt`.
pub open spec fn derive_key_spec(c: EncryptionConfig, master: Seq<u8>, salt: Seq<u8>) -> Seq<u8> {
    match c.kdf {
        KeyDerivationFunction::Pbkdf2Sha256 => chain_hash(master, salt, c.pbkdf2_iterations as nat),
        KeyDerivationFunction::Argon2id => chain_hash(
            sha256_spec(
                master + salt + le_bytes(c.argon2_memory_cost as nat, 4) + le_bytes(
                    c.argon2_time_cost as nat,
                    4,
                ),
            ),
            salt,
            c.argon2_time_cost as nat,
        ),
    }
}

/// The key for a message with salt `salt`: the one the configuration
/// derives from its master key and that salt (a cached key is only ever this
/// key, kept for the version and salt it was derived for).
pub open spec fn key_for(c: EncryptionConfig, salt: Seq<u8>) -> Seq<u8> {
    derive_key_spec(c, c.master_key->0@, salt)
}

/// The key cache after looking up `version` with `salt`: the version's entry
/// holds that salt and its key.
pub open spec fn keys_after(
    keys: Map<u32, (Seq<u8>, Seq<u8>)>,
    c: EncryptionConfig,
    salt: Seq<u8>,
    version: u32,
) -> Map<u32, (Seq<u8>, Seq<u8>)> {
    keys.insert(version, (salt, key_for(c, salt)))
}

/// Every cached entry holds the key derived from its own salt.
pub open spec fn cache_consistent(keys: Map<u32, (Seq<u8>, Seq<u8>)>, c: EncryptionConfig) -> bool {
    forall|v: u32| #[trigger] keys.contains_key(v) ==> keys[v].1 == key_for(c, keys[v].0)
}

/// Extra keystream input that distinguishes the algorithms.
pub open spec fn stream_suffix(alg: EncryptionAlgorithm) -> Seq<u8> {
    match alg {
        EncryptionAlgorithm::Aes256Gcm => Seq::empty(),
        EncryptionAlgorithm::ChaCha20Poly1305 => chacha_label(),
    }
}

/// Extra tag input that distinguishes the algorithms.
pub open spec fn tag_suffix(alg: EncryptionAlgorithm) -> Seq<u8> {
    match alg {
        EncryptionAlgorithm::Aes256Gcm => Seq::empty(),
        EncryptionAlgorithm::ChaCha20Poly1305 => poly_label(),
    }
}

/// The keystream byte at position `i`.
pub open spec fn keystream_byte(
    key: Seq<u8>,
    nonce: Seq<u8>,
    alg: EncryptionAlgorithm,
    i: nat,
) -> u8 {
    sha256_spec(key + nonce + le_bytes(i, 8) + stream_suffix(alg))[0]
}

/// `data` XORed with the keystream.
pub open spec fn apply_keystream(
    key: Seq<u8>,
    nonce: Seq<u8>,
    alg: EncryptionAlgorithm,
    data: Seq<u8>,
) -> Seq<u8> {
    Seq::new(data.len(), |i: int| data[i] ^ keystream_byte(key, nonce, alg, i as nat))
}

/// The authentication tag: the first 16 bytes of a SHA-256 over key, nonce
/// and ciphertext.
pub open spec fn auth_tag(
    key: Seq<u8>,
    nonce: Seq<u8>,
    ciphertext: Seq<u8>,
    alg: EncryptionAlgorithm,
) -> Seq<u8> {
    sha256_spec(key + nonce + ciphertext + tag_suffix(alg)).take(16)
}

/// What `encrypt` produces for `plaintext` with the given salt and nonce.
pub open spec fn seal(
    c: EncryptionConfig,
    plaintext: Seq<u8>,
    salt: Seq<u8>,
    nonce: Seq<u8>,
) -> EncryptedDataView {
    let key = key_for(c, salt);
    let ct = apply_keystream(key, nonce, c.algorithm, plaintext);
    EncryptedDataView {
        algorithm: c.algorithm,
        version: c.key_version,
        salt,
        nonce,
        ciphertext: ct,
        tag: auth_tag(key, nonce, ct, c.algorithm),
    }
}

/// What `decrypt` produces: the plaintext when the tag checks out.
pub open spec fn open(c: EncryptionConfig, d: EncryptedDataView) -> Option<Seq<u8>> {
    let key = key_for(c, d.salt);
    if auth_tag(key, d.nonce, d.ciphertext, d.algorithm) == d.tag {
        Some(apply_keystream(key, d.nonce, d.algorithm, d.ciphertext))
    } else {
        None
    }
}

/// Encryption provider.
pub struct EncryptionProvider {
    config: EncryptionConfig,
    /// Derived keys, cached by version, each with the salt it was derived
    /// from.
    keys: HashMap<u32, (Vec<u8>, Vec<u8>)>,
    stats: EncryptionStats,
    /// Counter mixed into each generated salt.
    salt_counter: u64,
    /// Counter mixed into each generated nonce.
    nonce_counter: u64,
}

impl EncryptionProvider {
    /// The configuration in use.
    pub closed spec fn spec_config(&self) -> EncryptionConfig {
        self.config
    }

    /// The cached salts and keys, by version.
    pub closed spec fn key_cache(&self) -> Map<u32, (Seq<u8>, Seq<u8>)> {
        self.keys@.map_values(|v: (Vec<u8>, Vec<u8>)| (v.0@, v.1@))
    }

    /// The statistics so far.
    pub closed spec fn spec_stats(&self) -> EncryptionStats {
        self.stats
    }

    /// The provider's invariant: its configuration is a valid one, and each
    /// cached key is the one derived from the salt cached with it.
    pub closed spec fn wf(&self) -> bool {
        &&& valid_config(self.config)
        &&& cache_consistent(self.key_cache(), self.config)
    }

    /// Create a new provider; fails exactly when the configuration does not
    /// validate.
    pub fn new(config: EncryptionConfig) -> (r: Result<Self, EncryptionError>)
        ensures
            match config_error_spec(config) {
                None => r matches Ok(p) && p.wf() && p.spec_config() == config && p.key_cache()
                    == Map::<u32, (Seq<u8>, Seq<u8>)>::empty() && p.spec_stats() == zero_stats(),
                Some(msg) => r matches Err(EncryptionError::ConfigError(m)) && m@ == msg,
            },
    {
        config.validate()?;
        let p = Self {
            config,
            keys: HashMap::new(),
            stats: EncryptionStats::default(),
            salt_counter: 0,
            nonce_counter: 0,
        };
        assert(p.key_cache() =~= Map::<u32, (Seq<u8>, Seq<u8>)>::empty());
        Ok(p)
    }

    /// Derive a key from the master key and salt.
    fn derive_key(&self, salt: &[u8], _version: u32) -> (r: Result<Vec<u8>, EncryptionError>)
        ensures
            match self.config.master_key {
                Some(m) => r matches Ok(k) && k@ == derive_key_spec(self.config, m@, salt@),
                None => r matches Err(EncryptionError::InvalidKey(_)),
            },
    {
        match &self.config.master_key {
            Some(master) => match self.config.kdf {
                KeyDerivationFunction::Pbkdf2Sha256 => Ok(
                    chain_rounds(copy_bytes(master), salt, self.config.pbkdf2_iterations),
                ),
                KeyDerivationFunction::Argon2id => {
                    let mut buf: Vec<u8> = Vec::new();
                    append_bytes(&mut buf, master);
                    append_bytes(&mut buf, salt);
                    let mem = le_encode(self.config.argon2_memory_cost as u128, 4);
                    append_bytes(&mut buf, &mem);
                    let time = le_encode(self.config.argon2_time_cost as u128, 4);
                    append_bytes(&mut buf, &time);
                    assert(buf@ == master@ + salt@ + le_bytes(self.config.argon2_memory_cost as nat, 4)
                        + le_bytes(self.config.argon2_time_cost as nat, 4));
                    let start = sha256(&buf);
                    Ok(chain_rounds(start, salt, self.config.argon2_time_cost))
                },
            },
            None => Err(EncryptionError::InvalidKey(String::from_str("Master key not set"))),
        }
    }

    /// The key for a message of `version` with `salt`: the cached one when
    /// it was derived from that salt, else a freshly derived one, which then
    /// replaces the version's entry.
    fn get_or_create_key(&mut self, salt: &[u8], version: u32) -> (r: Result<
        Vec<u8>,
        EncryptionError,
    >)
        requires
            old(self).wf(),
        ensures
            final(self).wf(),
            r matches Ok(k) && k@ == key_for(old(self).config, salt@),
            final(self).key_cache() == keys_after(old(self).key_cache(), old(self).config, salt@, version),
            final(self).config == old(self).config,
            final(self).stats == old(self).stats,
            final(self).salt_counter == old(self).salt_counter,
            final(self).nonce_counter == old(self).nonce_counter,
    {
        match self.keys.get(&version) {
            Some(entry) => {
                if bytes_eq(&entry.0, salt) {
                    let key = copy_bytes(&entry.1);
                    assert(self.key_cache().contains_key(version));
                    assert(self.key_cache() =~= keys_after(
                        old(self).key_cache(),
                        old(self).config,
                        salt@,
                        version,
                    ));
                    return Ok(key);
                }
            },
            None => {},
        }
        let key = self.derive_key(salt, version)?;
        self.keys.insert(version, (copy_bytes(salt), copy_bytes(&key)));
        assert(self.key_cache() =~= keys_after(
            old(self).key_cache(),
            old(self).config,
            salt@,
            version,
        ));
        Ok(key)
    }

    /// A salt of `salt_size` bytes from the clock and a counter.
    fn generate_salt(&mut self) -> (salt: Vec<u8>)
        requires
            old(self).config.salt_size <= 32,
        ensures
            salt@.len() == final(self).config.salt_size,
            final(self).config == old(self).config,
            final(self).keys == old(self).keys,
            final(self).stats == old(self).stats,
            final(self).nonce_counter == old(self).nonce_counter,
    {
        let counter = self.salt_counter;
        self.salt_counter = self.salt_counter.wrapping_add(1);
        let timestamp = unix_time_nanos();
        let mut buf = le_encode(timestamp, 16);
        let c = le_encode(counter as u128, 8);
        append_bytes(&mut buf, &c);
        let digest = sha256(&buf);
        prefix(&digest, self.config.salt_size)
    }

    /// A nonce of `nonce_size` bytes from the clock and a counter.
    fn generate_nonce(&mut self) -> (nonce: Vec<u8>)
        requires
            old(self).config.nonce_size <= 32,
        ensures
            nonce@.len() == final(self).config.nonce_size,
            final(self).config == old(self).config,
            final(self).keys == old(self).keys,
            final(self).stats == old(self).stats,
            final(self).salt_counter == old(self).salt_counter,
    {
        let counter = self.nonce_counter;
        self.nonce_counter = self.nonce_counter.wrapping_add(1);
        let timestamp = unix_time_nanos();
        let mut buf = le_encode(timestamp, 16);
        let c = le_encode(counter as u128, 8);
        append_bytes(&mut buf, &c);
        let label = nonce_label_bytes();
        append_bytes(&mut buf, &label);
        let digest = sha256(&buf);
        prefix(&digest, self.config.nonce_size)
    }

    /// Encrypt `plaintext` under a fresh salt and nonce.
    pub fn encrypt(&mut self, plaintext: &[u8]) -> (r: Result<EncryptedData, EncryptionError>)
        requires
            old(self).wf(),
            old(self).spec_config().salt_size <= 32,
            old(self).spec_config().nonce_size <= 32,
            old(self).spec_stats().total_encryptions < u64::MAX,
            old(self).spec_stats().bytes_encrypted + plaintext@.len() <= u64::MAX,
        ensures
            final(self).wf(),
            final(self).spec_config() == old(self).spec_config(),
            r matches Ok(d) && {
                &&& d@.salt.len() == old(self).spec_config().salt_size
                &&& d@.nonce.len() == old(self).spec_config().nonce_size
                &&& d@.tag.len() == 16
                &&& d@ == seal(
                    old(self).spec_config(),
                    plaintext@,
                    d@.salt,
                    d@.nonce,
                )
                &&& final(self).key_cache() == keys_after(
                    old(self).key_cache(),
                    old(self).spec_config(),
                    d@.salt,
                    old(self).spec_config().key_version,
                )
            },
            final(self).spec_stats() == (EncryptionStats {
                total_encryptions: (old(self).spec_stats().total_encryptions + 1) as u64,
                bytes_encrypted: (old(self).spec_stats().bytes_encrypted
                    + plaintext@.len()) as u64,
                ..old(self).spec_stats()
            }),
    {
        let salt = self.generate_salt();
        let nonce = self.generate_nonce();
        self.encrypt_with(plaintext, salt, nonce)
    }

    /// Encrypt `plaintext` under the given salt and nonce.
    pub fn encrypt_with(&mut self, plaintext: &[u8], salt: Vec<u8>, nonce: Vec<u8>) -> (r: Result<
        EncryptedData,
        EncryptionError,
    >)
        requires
            old(self).wf(),
            old(self).spec_stats().total_encryptions < u64::MAX,
            old(self).spec_stats().bytes_encrypted + plaintext@.len() <= u64::MAX,
        ensures
            final(self).wf(),
            final(self).spec_config() == old(self).spec_config(),
            r matches Ok(d) && d@.tag.len() == 16 && d@ == seal(
                old(self).spec_config(),
                plaintext@,
                salt@,
                nonce@,
            ),
            final(self).key_cache() == keys_after(
                old(self).key_cache(),
                old(self).spec_config(),
                salt@,
                old(self).spec_config().key_version,
            ),
            final(self).spec_stats() == (EncryptionStats {
                total_encryptions: (old(self).spec_stats().total_encryptions + 1) as u64,
                bytes_encrypted: (old(self).spec_stats().bytes_encrypted
                    + plaintext@.len()) as u64,
                ..old(self).spec_stats()
            }),
    {
        let version = self.config.key_version;
        let key = self.get_or_create_key(&salt, version)?;
        let algorithm = self.config.algorithm;
        let ciphertext = keystream_xor(&key, &nonce, algorithm, plaintext);
        let tag = compute_tag(&key, &nonce, &ciphertext, algorithm);
        self.stats.total_encryptions = self.stats.total_encryptions + 1;
        self.stats.bytes_encrypted = self.stats.bytes_encrypted + plaintext.len() as u64;
        Ok(EncryptedData { algorithm, version, salt, nonce, ciphertext, tag })
    }

    /// Decrypt data; fails when the authentication tag does not match.
    pub fn decrypt(&mut self, encrypted: &EncryptedData) -> (r: Result<Vec<u8>, EncryptionError>)
        requires
            old(self).wf(),
            old(self).spec_stats().total_decryptions < u64::MAX,
            old(self).spec_stats().bytes_decrypted + encrypted.ciphertext@.len() <= u64::MAX,
        ensures
            final(self).wf(),
            final(self).spec_config() == old(self).spec_config(),
            final(self).key_cache() == keys_after(
                old(self).key_cache(),
                old(self).spec_config(),
                encrypted@.salt,
                encrypted.version,
            ),
            match open(old(self).spec_config(), encrypted@) {
                Some(p) => {
                    &&& r matches Ok(v) && v@ == p
                    &&& final(self).spec_stats() == (EncryptionStats {
                        total_decryptions: (old(self).spec_stats().total_decryptions + 1) as u64,
                        bytes_decrypted: (old(self).spec_stats().bytes_decrypted
                            + p.len()) as u64,
                        ..old(self).spec_stats()
                    })
                },
                None => {
                    &&& r matches Err(EncryptionError::DecryptionFailed(m)) && m@
                        == "Authentication failed"@
                    &&& final(self).spec_stats() == old(self).spec_stats()
                },
            },
    {
        let key = self.get_or_create_key(&encrypted.salt, encrypted.version)?;
        let expected = compute_tag(&key, &encrypted.nonce, &encrypted.ciphertext, encrypted.algorithm);
        if !bytes_eq(&expected, &encrypted.tag) {
            return Err(EncryptionError::DecryptionFailed(String::from_str("Authentication failed")));
        }
        let plaintext = keystream_xor(&key, &encrypted.nonce, encrypted.algorithm, &encrypted.ciphertext);
        self.stats.total_decryptions = self.stats.total_decryptions + 1;
        self.stats.bytes_decrypted = self.stats.bytes_decrypted + plaintext.len() as u64;
        Ok(plaintext)
    }

    /// Rotate to a new key version with a new master key; the version must
    /// grow. Cached keys are dropped.
    pub fn rotate_key(&mut self, new_version: u32, new_master_key: &[u8]) -> (r: Result<
        (),
        EncryptionError,
    >)
        requires
            old(self).wf(),
        ensures
            final(self).wf(),
            final(self).spec_stats() == old(self).spec_stats(),
            if new_version <= old(self).spec_config().key_version {
                &&& r matches Err(EncryptionError::InvalidKey(m)) && m@
                    == "New version must be greater than current version"@
                &&& final(self).spec_config() == old(self).spec_config()
                &&& final(self).key_cache() == old(self).key_cache()
            } else {
                &&& r is Ok
                &&& final(self).spec_config() == (EncryptionConfig {
                    master_key: final(self).spec_config().master_key,
                    key_version: new_version,
                    ..old(self).spec_config()
                })
                &&& final(self).spec_config().master_key matches Some(k) && k@ == new_master_key@
                &&& final(self).key_cache() == Map::<u32, (Seq<u8>, Seq<u8>)>::empty()
            },
    {
        if new_version <= self.config.key_version {
            return Err(
                EncryptionError::InvalidKey(
                    String::from_str("New version must be greater than current version"),
                ),
            );
        }
        self.config.master_key = Some(copy_bytes(new_master_key));
        self.config.key_version = new_version;
        self.keys.clear();
        assert(self.key_cache() =~= Map::<u32, (Seq<u8>, Seq<u8>)>::empty());
        Ok(())
    }

    /// Get encryption statistics.
    pub fn get_stats(&self) -> (s: EncryptionStats)
        ensures
            s == self.spec_stats(),
    {
        self.stats
    }

    /// Reset statistics.
    pub fn reset_stats(&mut self)
        ensures
            final(self).spec_stats() == zero_stats(),
            final(self).spec_config() == old(self).spec_config(),
            final(self).key_cache() == old(self).key_cache(),
            final(self).wf() == old(self).wf(),
    {
        self.stats = EncryptionStats::default();
    }

    /// Get configuration.
    pub fn config(&self) -> (c: &EncryptionConfig)
        ensures
            *c == self.spec_config(),
    {
        &self.config
    }

    /// Clear cached keys.
    pub fn clear_keys(&mut self)
        ensures
            final(self).key_cache() == Map::<u32, (Seq<u8>, Seq<u8>)>::empty(),
            final(self).spec_config() == old(self).spec_config(),
            final(self).spec_stats() == old(self).spec_stats(),
            old(self).wf() ==> final(self).wf(),
    {
        self.keys.clear();
        assert(self.key_cache() =~= Map::<u32, (Seq<u8>, Seq<u8>)>::empty());
    }
}

/// `rounds` applications of `k := SHA-256(k ++ salt)`.
fn chain_rounds(start: Vec<u8>, salt: &[u8], rounds: u32) -> (k: Vec<u8>)
    ensures
        k@ == chain_hash(start@, salt@, rounds as nat),
{
    let mut key = start;
    let mut i: u32 = 0;
    while i < rounds
        invariant
            i <= rounds,
            key@ == chain_hash(start@, salt@, i as nat),
        decreases rounds - i,
    {
        let mut buf: Vec<u8> = Vec::new();
        append_bytes(&mut buf, &key);
        append_bytes(&mut buf, salt);
        key = sha256(&buf);
        i = i + 1;
    }
    key
}

/// `data` XORed with the keystream for `key`, `nonce` and `alg`.
fn keystream_xor(key: &[u8], nonce: &[u8], alg: EncryptionAlgorithm, data: &[u8]) -> (out: Vec<
    u8,
>)
    ensures
        out@ == apply_keystream(key@, nonce@, alg, data@),
{
    let mut out: Vec<u8> = Vec::new();
    let mut i: usize = 0;
    while i < data.len()
        invariant
            i <= data@.len(),
            out@.len() == i,
            forall|j: int|
                0 <= j < i ==> out@[j] == data@[j] ^ keystream_byte(key@, nonce@, alg, j as nat),
        decreases data@.len() - i,
    {
        let mut buf: Vec<u8> = Vec::new();
        append_bytes(&mut buf, key);
        append_bytes(&mut buf, nonce);
        let idx = le_encode(i as u128, 8);
        append_bytes(&mut buf, &idx);
        match alg {
            EncryptionAlgorithm::Aes256Gcm => {},
            EncryptionAlgorithm::ChaCha20Poly1305 => {
                let label = chacha_label_bytes();
                append_bytes(&mut buf, &label);
            },
        }
        assert(buf@ == key@ + nonce@ + le_bytes(i as nat, 8) + stream_suffix(alg));
        let ks = sha256(&buf);
        out.push(data[i] ^ ks[0]);
        i = i + 1;
    }
    assert(out@ =~= apply_keystream(key@, nonce@, alg, data@));
    out
}

/// The authentication tag for `ciphertext`.
fn compute_tag(key: &[u8], nonce: &[u8], ciphertext: &[u8], alg: EncryptionAlgorithm) -> (tag: Vec<
    u8,
>)
    ensures
        tag@ == auth_tag(key@, nonce@, ciphertext@, alg),
        tag@.len() == 16,
{
    let mut buf: Vec<u8> = Vec::new();
    append_bytes(&mut buf, key);
    append_bytes(&mut buf, nonce);
    append_bytes(&mut buf, ciphertext);
    if alg == EncryptionAlgorithm::ChaCha20Poly1305 {
        let label = poly_label_bytes();
        append_bytes(&mut buf, &label);
    }
    assert(buf@ == key@ + nonce@ + ciphertext@ + tag_suffix(alg));
    let digest = sha256(&buf);
    prefix(&digest, 16)
}

/// XORing twice with the same keystream gives the data back.
pub proof fn lemma_keystream_involutive(
    key: Seq<u8>,
    nonce: Seq<u8>,
    alg: EncryptionAlgorithm,
    data: Seq<u8>,
)
    ensures
        apply_keystream(key, nonce, alg, apply_keystream(key, nonce, alg, data)) == data,
{
    let once = apply_keystream(key, nonce, alg, data);
    let twice = apply_keystream(key, nonce, alg, once);
    assert forall|i: int| 0 <= i < data.len() implies twice[i] == data[i] by {
        let k = keystream_byte(key, nonce, alg, i as nat);
        let b = data[i];
        assert((b ^ k) ^ k == b) by (bit_vector);
    }
    assert(twice =~= data);
}

/// Decrypting what `encrypt` sealed gives the plaintext back, under the
/// same configuration, whatever the key cache holds at either end (cleared
/// keys are derived again from the message's own salt).
pub proof fn law_decrypt_after_encrypt(
    c: EncryptionConfig,
    plaintext: Seq<u8>,
    salt: Seq<u8>,
    nonce: Seq<u8>,
)
    ensures
        open(c, seal(c, plaintext, salt, nonce)) == Some(plaintext),
{
    lemma_keystream_involutive(key_for(c, salt), nonce, c.algorithm, plaintext);
}

/// Looking up a key leaves every cached entry consistent with its salt.
pub proof fn law_cache_stays_consistent(
    keys: Map<u32, (Seq<u8>, Seq<u8>)>,
    c: EncryptionConfig,
    salt: Seq<u8>,
    version: u32,
)
    requires
        cache_consistent(keys, c),
    ensures
        cache_consistent(keys_after(keys, c, salt, version), c),
{
}

/// After a rotation to version `n` with a new master key, what is sealed
/// carries version `n` and decrypts to its plaintext under the rotated
/// configuration.
pub proof fn law_rotated_key_round_trip(
    c: EncryptionConfig,
    rotated: EncryptionConfig,
    n: u32,
    plaintext: Seq<u8>,
    salt: Seq<u8>,
    nonce: Seq<u8>,
)
    requires
        rotated == (EncryptionConfig { master_key: rotated.master_key, key_version: n, ..c }),
    ensures
        seal(rotated, plaintext, salt, nonce).version == n,
        seal(rotated, plaintext, salt, nonce).algorithm == c.algorithm,
        open(rotated, seal(rotated, plaintext, salt, nonce)) == Some(plaintext),
{
    law_decrypt_after_encrypt(rotated, plaintext, salt, nonce);
}

} // verus!
