use lockbox::crypto::{decrypt_contents, derive_encryption_key, encrypt_contents, get_random_salt};
use lockbox::store::StoreError;

#[test]
fn test_encrypt_decrypt_round_trip() {
    let salt = get_random_salt().unwrap();
    let key = derive_encryption_key("master password", &salt);
    let (ciphertext, nonce) = encrypt_contents("any plaintext", "master password", &salt).unwrap();
    assert_ne!(ciphertext, b"any plaintext".to_vec());
    assert_eq!(ciphertext.len(), "any plaintext".len() + 16);
    let decrypted = decrypt_contents(&ciphertext, &key, &nonce).unwrap();
    assert_eq!(decrypted, b"any plaintext".to_vec());
}

#[test]
fn test_wrong_key_rejection() {
    let salt = get_random_salt().unwrap();
    let k1 = derive_encryption_key("passphrase one", &salt);
    let k2 = derive_encryption_key("passphrase two", &salt);
    assert_ne!(k1, k2);
    let (ciphertext, nonce) = encrypt_contents("secret", "passphrase one", &salt).unwrap();
    assert_eq!(decrypt_contents(&ciphertext, &k1, &nonce).unwrap(), b"secret".to_vec());
    assert_eq!(
        decrypt_contents(&ciphertext, &k2, &nonce).unwrap_err(),
        StoreError::AuthenticationFailure
    );
}

#[test]
fn test_tampered_ciphertext_rejected() {
    let salt = get_random_salt().unwrap();
    let key = derive_encryption_key("master", &salt);
    let (mut ciphertext, nonce) = encrypt_contents("data", "master", &salt).unwrap();
    ciphertext[0] = ciphertext[0].wrapping_add(1);
    assert_eq!(
        decrypt_contents(&ciphertext, &key, &nonce).unwrap_err(),
        StoreError::AuthenticationFailure
    );
}

#[test]
fn test_derive_key_deterministic() {
    let salt = get_random_salt().unwrap();
    let k1 = derive_encryption_key("same passphrase", &salt);
    let k2 = derive_encryption_key("same passphrase", &salt);
    assert_eq!(k1, k2);
    assert_eq!(k1.len(), 32);
}

#[test]
fn test_derive_key_salt_sensitivity() {
    let s1 = get_random_salt().unwrap();
    let s2 = get_random_salt().unwrap();
    assert_ne!(s1, s2);
    let k1 = derive_encryption_key("same passphrase", &s1);
    let k2 = derive_encryption_key("same passphrase", &s2);
    assert_ne!(k1, k2);
}

#[test]
fn test_encrypt_contents_fresh_nonce() {
    let salt = get_random_salt().unwrap();
    let (c1, n1) = encrypt_contents("[]", "master", &salt).unwrap();
    let (c2, n2) = encrypt_contents("[]", "master", &salt).unwrap();
    assert_eq!(n1.len(), 12);
    assert_ne!(n1, n2);
    assert_ne!(c1, c2);
    let key = derive_encryption_key("master", &salt);
    assert_eq!(decrypt_contents(&c1, &key, &n1).unwrap(), b"[]".to_vec());
    assert_eq!(decrypt_contents(&c2, &key, &n2).unwrap(), b"[]".to_vec());
}
