use lockbox::commands::{
    add_password, list_passwords, remove_password, show_password, update_master_password,
};
use lockbox::store::{PasswordStore, StoreError};

const MASTER: &str = "master_password";

fn fresh_store() -> (PasswordStore, Vec<u8>) {
    let content = PasswordStore::initial_file_content(MASTER).unwrap();
    (PasswordStore::new(MASTER.to_string()), content)
}

#[test]
fn test_add_password() {
    let (mut store, content) = fresh_store();
    let content = add_password(
        &mut store,
        &content,
        "service1".to_string(),
        Some("username1".to_string()),
        "password1".to_string(),
    )
    .unwrap();
    let content = add_password(
        &mut store,
        &content,
        "service2".to_string(),
        None,
        "password2".to_string(),
    )
    .unwrap();
    store.load(&content).unwrap();
    assert!(store.find("service1".to_string(), Some("username1".to_string())).is_some());
    assert!(store.find("service2".to_string(), None).is_some());
}

#[test]
fn test_show_password() {
    let (mut store, content) = fresh_store();
    let content = add_password(
        &mut store,
        &content,
        "service1".to_string(),
        Some("username1".to_string()),
        "password1".to_string(),
    )
    .unwrap();
    let found = show_password(
        &mut store,
        &content,
        "service1".to_string(),
        Some("username1".to_string()),
    )
    .unwrap();
    assert_eq!(found.unwrap().get_password(), "password1");

    let missing = show_password(
        &mut store,
        &content,
        "not_found_service".to_string(),
        Some("not_found_username".to_string()),
    )
    .unwrap();
    assert!(missing.is_none());
}

#[test]
fn test_list_passwords() {
    let (mut store, content) = fresh_store();
    let listing = list_passwords(&mut store, &content, true).unwrap();
    assert!(listing.contains("No passwords found!"));

    let content = add_password(
        &mut store,
        &content,
        "service1".to_string(),
        Some("username1".to_string()),
        "password1".to_string(),
    )
    .unwrap();

    let shown = list_passwords(&mut store, &content, true).unwrap();
    assert!(shown.contains("Service:"));
    assert!(shown.contains("service1"));
    assert!(shown.contains("username1"));
    assert!(shown.contains("password1"));

    let masked = list_passwords(&mut store, &content, false).unwrap();
    assert!(masked.contains("service1"));
    assert!(!masked.contains("password1"));
    assert!(masked.contains("***"));
}

#[test]
fn test_remove_password() {
    let (mut store, content) = fresh_store();
    let content = add_password(
        &mut store,
        &content,
        "service1".to_string(),
        Some("username1".to_string()),
        "password1".to_string(),
    )
    .unwrap();
    let content = add_password(
        &mut store,
        &content,
        "service2".to_string(),
        Some("username2".to_string()),
        "password2".to_string(),
    )
    .unwrap();

    let (content, removed) = remove_password(
        &mut store,
        &content,
        "service1".to_string(),
        Some("username1".to_string()),
    )
    .unwrap();
    assert_eq!(removed.unwrap().get_password(), "password1");

    let (content, removed) = remove_password(
        &mut store,
        &content,
        "service5".to_string(),
        Some("username5".to_string()),
    )
    .unwrap();
    assert!(removed.is_none());

    store.load(&content).unwrap();
    assert!(store.find("service1".to_string(), Some("username1".to_string())).is_none());
    assert!(store.find("service2".to_string(), Some("username2".to_string())).is_some());
}

#[test]
fn test_update_master_password() {
    let (mut store, content) = fresh_store();
    let content = add_password(
        &mut store,
        &content,
        "service".to_string(),
        None,
        "password".to_string(),
    )
    .unwrap();
    let content = update_master_password(&mut store, &content, "new_master_password".to_string())
        .unwrap();

    // the old passphrase no longer opens the file, the new one does
    let mut old_store = PasswordStore::new(MASTER.to_string());
    assert_eq!(
        old_store.load(&content).unwrap_err(),
        StoreError::AuthenticationFailure
    );
    let mut new_store = PasswordStore::new("new_master_password".to_string());
    new_store.load(&content).unwrap();
    assert!(new_store.find("service".to_string(), None).is_some());
}

#[test]
fn test_commands_report_wrong_passphrase() {
    let (_, content) = fresh_store();
    let mut wrong = PasswordStore::new("not_the_master".to_string());
    let result = add_password(
        &mut wrong,
        &content,
        "svc".to_string(),
        None,
        "pw".to_string(),
    );
    assert_eq!(result.unwrap_err(), StoreError::AuthenticationFailure);
}
