use lockbox::envelope::{pack_envelope, unpack_envelope};
use lockbox::store::{PasswordStore, StoreError};

const TEST_MASTER_PASSWORD: &str = "test_master";

#[test]
fn test_new_password_store() {
    let content = PasswordStore::initial_file_content(TEST_MASTER_PASSWORD).unwrap();
    assert!(content.len() >= 28);
    let store = PasswordStore::new(TEST_MASTER_PASSWORD.to_string());
    assert_eq!(store.master_password, TEST_MASTER_PASSWORD);
    assert!(store.passwords.is_none());
}

#[test]
fn test_new_password_store_with_nonexistent_file() {
    // a fresh file's content always loads back as the empty list
    let content = PasswordStore::initial_file_content(TEST_MASTER_PASSWORD).unwrap();
    let mut store = PasswordStore::new(TEST_MASTER_PASSWORD.to_string());
    assert!(store.passwords.is_none());
    store.load(&content).unwrap();
    assert!(store.passwords.is_some());
    assert!(store.find("any".to_string(), None).is_none());
}

#[test]
fn test_update_master() {
    let content = PasswordStore::initial_file_content("some_master_password").unwrap();
    let mut password_store = PasswordStore::new("some_master_password".to_string());
    password_store.update_master("new_master_password".to_string());
    assert!(password_store.master_password == "new_master_password");
    assert!(password_store.load(&content).is_err());
    if let Err(err) = password_store.load(&content) {
        assert!(err
            .message()
            .contains("Master password incorrect. Please try again."));
    };
}

#[test]
fn test_push_without_loading() {
    // pushing a password entry without loading passwords first fails
    let mut store = PasswordStore::new(TEST_MASTER_PASSWORD.to_string());
    let result = store.push(
        "test_service".to_string(),
        Some("test_username".to_string()),
        "test_password".to_string(),
    );
    assert!(result.is_err());
    assert!(store.passwords.is_none());
}

#[test]
fn test_pop_nonexistent_password() {
    let content = PasswordStore::initial_file_content(TEST_MASTER_PASSWORD).unwrap();
    let mut store = PasswordStore::new(TEST_MASTER_PASSWORD.to_string());
    store.load(&content).unwrap();
    let removed = store.pop("nonexistent_service".to_string(), None);
    assert!(removed.is_none());
}

#[test]
fn test_dump_empty_passwords() {
    let content = PasswordStore::initial_file_content(TEST_MASTER_PASSWORD).unwrap();
    let mut store = PasswordStore::new(TEST_MASTER_PASSWORD.to_string());
    store.load(&content).unwrap();
    let result = store.dump(&content);
    assert!(result.is_ok());
}

#[test]
fn test_dump_before_load_fails() {
    let content = PasswordStore::initial_file_content(TEST_MASTER_PASSWORD).unwrap();
    let store = PasswordStore::new(TEST_MASTER_PASSWORD.to_string());
    assert_eq!(store.dump(&content).unwrap_err(), StoreError::NotLoaded);
}

#[test]
fn test_load_short_file_is_parse_error() {
    let mut store = PasswordStore::new(TEST_MASTER_PASSWORD.to_string());
    let content: Vec<u8> = vec![1, 2, 3, 4, 5];
    assert_eq!(store.load(&content).unwrap_err(), StoreError::ParseError);
}

#[test]
fn test_store_round_trip() {
    let content = PasswordStore::initial_file_content(TEST_MASTER_PASSWORD).unwrap();
    let mut store = PasswordStore::new(TEST_MASTER_PASSWORD.to_string());
    store.load(&content).unwrap();
    store
        .push("svc1".to_string(), Some("u1".to_string()), "p1".to_string())
        .unwrap();
    store.push("svc2".to_string(), None, "p2".to_string()).unwrap();
    let content2 = store.dump(&content).unwrap();

    let mut fresh = PasswordStore::new(TEST_MASTER_PASSWORD.to_string());
    fresh.load(&content2).unwrap();
    assert_eq!(fresh.passwords, store.passwords);
    assert_eq!(
        fresh.find("svc1".to_string(), Some("u1".to_string())).unwrap().get_password(),
        "p1"
    );
    assert_eq!(fresh.find("svc2".to_string(), None).unwrap().get_password(), "p2");
}

#[test]
fn test_authentication_via_load() {
    // created with "secretA"; update_master("secretB") without a dump makes
    // the next load fail authentication, since the file is still under
    // "secretA"
    let content = PasswordStore::initial_file_content("secretA").unwrap();
    let mut store = PasswordStore::new("secretA".to_string());
    store.load(&content).unwrap();
    store.update_master("secretB".to_string());
    assert_eq!(
        store.load(&content).unwrap_err(),
        StoreError::AuthenticationFailure
    );
}

#[test]
fn test_dump_refreshes_nonce_and_keeps_salt() {
    let content = PasswordStore::initial_file_content(TEST_MASTER_PASSWORD).unwrap();
    let mut store = PasswordStore::new(TEST_MASTER_PASSWORD.to_string());
    store.load(&content).unwrap();
    let content2 = store.dump(&content).unwrap();
    assert_eq!(content[..16], content2[..16]);
    assert_ne!(content[16..28], content2[16..28]);
}

#[test]
fn test_envelope_round_trip() {
    let salt: Vec<u8> = (0u8..16).collect();
    let nonce: Vec<u8> = (100u8..112).collect();
    let ciphertext: Vec<u8> = vec![7, 8, 9];
    let packed = pack_envelope(&salt, &nonce, &ciphertext);
    let (s, n, c) = unpack_envelope(&packed).unwrap();
    assert_eq!(s, salt);
    assert_eq!(n, nonce);
    assert_eq!(c, ciphertext);
    assert!(unpack_envelope(&vec![0u8; 27]).is_none());
}
