//! Key derivation and authenticated encryption of the vault plaintext.
//!
//! A key is derived from the master passphrase and a per-store random salt;
//! the credential plaintext is sealed with AES-256-GCM under that key and a
//! single-use nonce. A wrong passphrase or a tampered file surfaces as a
//! failed open: tag verification is the sole passphrase check.

use vstd::prelude::*;
use vstd::string::*;

use aes_gcm::KeyInit;
use aes_gcm::aead::Aead;
use ring::rand::SecureRandom;

verus! {

/// The key that PBKDF2-HMAC-SHA-256 derives from a passphrase and a salt.
pub uninterp spec fn derived_key(passphrase: Seq<char>, salt: Seq<u8>) -> Seq<u8>;

/// The AES-256-GCM ciphertext (tag appended) of a plaintext under a key and nonce.
pub uninterp spec fn sealed(key: Seq<u8>, nonce: Seq<u8>, plaintext: Seq<u8>) -> Seq<u8>;

/// What AES-256-GCM decryption yields for a ciphertext under a key and nonce:
/// the unique plaintext it seals to, or nothing when the tag does not verify.
pub uninterp spec fn opened(key: Seq<u8>, nonce: Seq<u8>, ciphertext: Seq<u8>) -> Option<Seq<u8>>;

/// Relies on ring's `pbkdf2::derive` with `PBKDF2_HMAC_SHA256` and a fixed
/// count of 100,000 iterations: the 32-byte key it fills is a function of the
/// passphrase and salt alone.
#[verifier::external_body]
pub fn derive_encryption_key(master_password: &str, salt: &[u8]) -> (r: Vec<u8>)
    ensures
        r@ == derived_key(master_password@, salt@),
        r@.len() == 32,
{
    let mut enc_key = vec![0u8; 32];
    ring::pbkdf2::derive(
        ring::pbkdf2::PBKDF2_HMAC_SHA256,
        std::num::NonZeroU32::new(100_000).unwrap(),
        salt,
        master_password.as_bytes(),
        &mut enc_key,
    );
    enc_key
}

/// Relies on ring's `SystemRandom::fill`: the bytes are random, so nothing is
/// promised of them but the length of the filled buffer.
#[verifier::external_body]
pub(crate) fn random_bytes(n: usize) -> (r: Option<Vec<u8>>)
    ensures
        r matches Some(b) ==> b@.len() == n,
{
    let mut buf = vec![0u8; n];
    match ring::rand::SystemRandom::new().fill(&mut buf) {
        Ok(()) => Some(buf),
        Err(_) => None,
    }
}

/// Relies on `Aes256Gcm::encrypt` (the `aead` crate's `Aead` trait): under one
/// key and nonce the ciphertext is a function of the plaintext, decrypting it
/// under the same key and nonce yields the plaintext back, and the ciphertext
/// is the encrypted plaintext followed by the 16-byte postfix tag.
#[verifier::external_body]
pub(crate) fn aead_encrypt(key: &Vec<u8>, nonce: &Vec<u8>, plaintext: &Vec<u8>) -> (r: Option<Vec<u8>>)
    requires
        key@.len() == 32,
        nonce@.len() == 12,
    ensures
        r matches Some(c) ==> c@ == sealed(key@, nonce@, plaintext@) && opened(key@, nonce@, c@)
            == Some(plaintext@) && c@.len() == plaintext@.len() + 16,
{
    let cipher = aes_gcm::Aes256Gcm::new(aes_gcm::aead::generic_array::GenericArray::from_slice(
        key,
    ));
    let nonce = aes_gcm::aead::generic_array::GenericArray::from_slice(nonce);
    match cipher.encrypt(nonce, plaintext.as_slice()) {
        Ok(c) => Some(c),
        Err(_) => None,
    }
}

/// Relies on `Aes256Gcm::decrypt`: it returns the plaintext that the
/// ciphertext seals under this key and nonce, and fails exactly when the
/// authentication tag does not verify.
#[verifier::external_body]
pub(crate) fn aead_decrypt(key: &Vec<u8>, nonce: &Vec<u8>, ciphertext: &Vec<u8>) -> (r: Option<Vec<u8>>)
    requires
        key@.len() == 32,
        nonce@.len() == 12,
    ensures
        match r {
            Some(p) => opened(key@, nonce@, ciphertext@) == Some(p@),
            None => opened(key@, nonce@, ciphertext@) is None,
        },
{
    let cipher = aes_gcm::Aes256Gcm::new(aes_gcm::aead::generic_array::GenericArray::from_slice(
        key,
    ));
    let nonce = aes_gcm::aead::generic_array::GenericArray::from_slice(nonce);
    match cipher.decrypt(nonce, ciphertext.as_slice()) {
        Ok(p) => Some(p),
        Err(_) => None,
    }
}

/// A fresh 16-byte salt for key derivation; random, so only its length is known.
pub fn get_random_salt() -> (r: Option<Vec<u8>>)
    ensures
        r matches Some(s) ==> s@.len() == 16,
{
    random_bytes(16)
}

/// Seals `contents` under the key derived from `master_password` and `salt`,
/// with a fresh random nonce; returns the ciphertext and the nonce used.
///
/// Decrypting the returned ciphertext under the same key and nonce yields
/// the UTF-8 bytes of `contents` back, so an encrypt/decrypt round trip
/// restores the plaintext exactly.
pub fn encrypt_contents(contents: &str, master_password: &str, salt: &Vec<u8>) -> (r: Option<
    (Vec<u8>, Vec<u8>),
>)
    ensures
        r matches Some((ciphertext, nonce)) ==> {
            let key = derived_key(master_password@, salt@);
            let plaintext = contents.spec_bytes();
            &&& nonce@.len() == 12
            &&& ciphertext@ == sealed(key, nonce@, plaintext)
            &&& opened(key, nonce@, ciphertext@) == Some(plaintext)
            &&& ciphertext@.len() == plaintext.len() + 16
        },
{
    let key = derive_encryption_key(master_password, salt.as_slice());
    let nonce = match random_bytes(12) {
        Some(n) => n,
        None => {
            return None;
        },
    };
    let plaintext = contents.as_bytes_vec();
    match aead_encrypt(&key, &nonce, &plaintext) {
        Some(ciphertext) => Some((ciphertext, nonce)),
        None => None,
    }
}

/// Opens a ciphertext under a key and nonce. A tag mismatch — a wrong key,
/// and so a wrong passphrase, or tampered data — is an authentication
/// failure, and nothing else is: tag verification is the sole passphrase
/// check.
pub fn decrypt_contents(ciphertext: &Vec<u8>, key: &Vec<u8>, nonce: &Vec<u8>) -> (r: Result<
    Vec<u8>,
    crate::store::StoreError,
>)
    requires
        key@.len() == 32,
        nonce@.len() == 12,
    ensures
        match r {
            Ok(plaintext) => opened(key@, nonce@, ciphertext@) == Some(plaintext@),
            Err(e) => e == crate::store::StoreError::AuthenticationFailure && opened(
                key@,
                nonce@,
                ciphertext@,
            ) is None,
        },
{
    match aead_decrypt(key, nonce, ciphertext) {
        Some(plaintext) => Ok(plaintext),
        None => Err(crate::store::StoreError::AuthenticationFailure),
    }
}

/// Key derivation is deterministic: two keys derived from the same
/// passphrase and the same salt are the same key.
pub proof fn lemma_derive_key_deterministic(
    passphrase: Seq<char>,
    salt: Seq<u8>,
    k1: Seq<u8>,
    k2: Seq<u8>,
)
    requires
        k1 == derived_key(passphrase, salt),
        k2 == derived_key(passphrase, salt),
    ensures
        k1 == k2,
{
}

} // verus!
