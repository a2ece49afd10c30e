//! The outside primitives that secret storage relies on: randomness,
//! PBKDF2-HMAC-SHA256, AES-256-GCM, Base64 and UTF-8 decoding.

use aes_gcm::aead::{Aead, KeyInit};
use base64::Engine;
use rand::RngExt;
use vstd::prelude::*;

verus! {

/// The PBKDF2-HMAC-SHA256 key of 32 bytes for a password, a salt and a
/// number of rounds.
pub uninterp spec fn pbkdf2_sha256_spec(password: Seq<u8>, salt: Seq<u8>, rounds: u32) -> Seq<u8>;

/// The AES-256-GCM ciphertext (with its tag) of a plaintext, or `None` when
/// the cipher refuses it.
pub uninterp spec fn aes256gcm_seal_spec(key: Seq<u8>, nonce: Seq<u8>, plaintext: Seq<u8>) -> Option<
    Seq<u8>,
>;

/// The AES-256-GCM plaintext of a ciphertext, or `None` when it does not
/// authenticate.
pub uninterp spec fn aes256gcm_open_spec(key: Seq<u8>, nonce: Seq<u8>, ciphertext: Seq<u8>) -> Option<
    Seq<u8>,
>;

/// The standard (padded) Base64 text of some bytes.
pub uninterp spec fn base64_encode_spec(bytes: Seq<u8>) -> Seq<char>;

/// The bytes that a standard Base64 text decodes to, or `None` when it is
/// not valid Base64.
pub uninterp spec fn base64_decode_spec(text: Seq<char>) -> Option<Seq<u8>>;

/// Fills `len` bytes with `rand::rng().fill`. Only the length is promised:
/// the bytes are random.
#[verifier::external_body]
pub(crate) fn random_bytes(len: usize) -> (r: Vec<u8>)
    ensures
        r@.len() == len,
{
    let mut v = vec![0u8; len];
    rand::rng().fill(&mut v[..]);
    v
}

/// Calls `pbkdf2::pbkdf2_hmac::<sha2::Sha256>` into a 32-byte output.
/// Trusted: the output is the PBKDF2 key named by `pbkdf2_sha256_spec`
/// (the function fills its output and cannot fail for HMAC).
#[verifier::external_body]
pub(crate) fn pbkdf2_sha256(password: &[u8], salt: &[u8], rounds: u32) -> (r: Vec<u8>)
    ensures
        r@ == pbkdf2_sha256_spec(password@, salt@, rounds),
        r@.len() == 32,
{
    let mut out = [0u8; 32];
    pbkdf2::pbkdf2_hmac::<sha2::Sha256>(password, salt, rounds, &mut out);
    out.to_vec()
}

/// Calls `aes_gcm::Aes256Gcm::encrypt` with a 32-byte key and a 12-byte
/// nonce. Trusted: the result is the sealed message named by
/// `aes256gcm_seal_spec` (`None` where the crate returns an error).
#[verifier::external_body]
pub(crate) fn aes256gcm_encrypt(key: &[u8], nonce: &[u8], plaintext: &[u8]) -> (r: Option<Vec<u8>>)
    requires
        key@.len() == 32,
        nonce@.len() == 12,
    ensures
        match r {
            Some(c) => aes256gcm_seal_spec(key@, nonce@, plaintext@) == Some(c@),
            None => aes256gcm_seal_spec(key@, nonce@, plaintext@) is None,
        },
{
    let cipher = aes_gcm::Aes256Gcm::new_from_slice(key).ok()?;
    let nonce = aes_gcm::aead::Nonce::<aes_gcm::Aes256Gcm>::try_from(nonce).ok()?;
    cipher.encrypt(&nonce, plaintext).ok()
}

/// Calls `aes_gcm::Aes256Gcm::decrypt` with a 32-byte key and a 12-byte
/// nonce. Trusted: the result is the plaintext named by
/// `aes256gcm_open_spec` (`None` where the crate returns an error), and, as
/// an AEAD does, decrypting what encryption sealed under the same key and
/// nonce gives the plaintext back.
#[verifier::external_body]
pub(crate) fn aes256gcm_decrypt(key: &[u8], nonce: &[u8], ciphertext: &[u8]) -> (r: Option<Vec<u8>>)
    requires
        key@.len() == 32,
        nonce@.len() == 12,
    ensures
        match r {
            Some(v) => aes256gcm_open_spec(key@, nonce@, ciphertext@) == Some(v@) && forall|p: Seq<
                u8,
            >| #[trigger] aes256gcm_seal_spec(key@, nonce@, p) == Some(ciphertext@) ==> v@ == p,
            None => aes256gcm_open_spec(key@, nonce@, ciphertext@) is None && forall|p: Seq<u8>|
                #[trigger] aes256gcm_seal_spec(key@, nonce@, p) != Some(ciphertext@),
        },
{
    let cipher = aes_gcm::Aes256Gcm::new_from_slice(key).ok()?;
    let nonce = aes_gcm::aead::Nonce::<aes_gcm::Aes256Gcm>::try_from(nonce).ok()?;
    cipher.decrypt(&nonce, ciphertext).ok()
}

/// Calls `base64::engine::general_purpose::STANDARD.encode`. Trusted: the
/// text is the one named by `base64_encode_spec`.
#[verifier::external_body]
pub(crate) fn base64_encode(bytes: &[u8]) -> (r: String)
    ensures
        r@ == base64_encode_spec(bytes@),
{
    base64::engine::general_purpose::STANDARD.encode(bytes)
}

/// Calls `base64::engine::general_purpose::STANDARD.decode` on the bytes of
/// `text`. Trusted: the result is the one named by `base64_decode_spec`
/// (`None` where the crate returns an error), and decoding what encoding
/// produced gives the bytes back.
#[verifier::external_body]
pub(crate) fn base64_decode(text: &str) -> (r: Option<Vec<u8>>)
    ensures
        match r {
            Some(v) => base64_decode_spec(text@) == Some(v@) && forall|b: Seq<u8>|
                #[trigger] base64_encode_spec(b) == text@ ==> v@ == b,
            None => base64_decode_spec(text@) is None && forall|b: Seq<u8>|
                #[trigger] base64_encode_spec(b) != text@,
        },
{
    base64::engine::general_purpose::STANDARD.decode(text.as_bytes()).ok()
}

/// Calls `String::from_utf8`, which succeeds exactly on valid UTF-8 and
/// then holds the decoded characters.
#[verifier::external_body]
pub(crate) fn utf8_to_string(bytes: Vec<u8>) -> (r: Option<String>)
    ensures
        r is Some <==> vstd::utf8::valid_utf8(bytes@),
        r matches Some(s) ==> s@ == vstd::utf8::decode_utf8(bytes@),
{
    String::from_utf8(bytes).ok()
}

} // verus!
