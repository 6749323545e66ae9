use lockbox::pass::{PasswordEntry, Passwords};

#[test]
fn test_passwords() {
    assert_eq!(Passwords::new(), Passwords(vec![]));
    assert_eq!(Passwords::default(), Passwords(vec![]));
}

#[test]
fn test_entry_fields() {
    let entry = PasswordEntry::new(
        "svc".to_string(),
        Some("user".to_string()),
        "pw".to_string(),
    );
    assert_eq!(entry.service, "svc");
    assert_eq!(entry.username, Some("user".to_string()));
    assert_eq!(entry.get_password(), "pw");
    let copy = entry.duplicate();
    assert_eq!(copy, entry);
}

#[test]
fn test_append_and_find() {
    let mut passwords = Passwords::new();
    passwords.append(PasswordEntry::new(
        "svc1".to_string(),
        Some("u1".to_string()),
        "p1".to_string(),
    ));
    passwords.append(PasswordEntry::new("svc2".to_string(), None, "p2".to_string()));

    let found = passwords.find("svc1".to_string(), Some("u1".to_string()));
    assert_eq!(found.unwrap().get_password(), "p1");

    let found = passwords.find("svc2".to_string(), None);
    assert_eq!(found.unwrap().get_password(), "p2");

    // a missing username is distinct from an empty one
    assert!(passwords.find("svc2".to_string(), Some("".to_string())).is_none());
    assert!(passwords.find("svc1".to_string(), None).is_none());
}

#[test]
fn test_find_and_pop_first_of_duplicates() {
    let mut passwords = Passwords::new();
    passwords.append(PasswordEntry::new(
        "svc".to_string(),
        Some("u".to_string()),
        "p1".to_string(),
    ));
    passwords.append(PasswordEntry::new(
        "svc".to_string(),
        Some("u".to_string()),
        "p2".to_string(),
    ));

    let found = passwords.find("svc".to_string(), Some("u".to_string()));
    assert_eq!(found.unwrap().get_password(), "p1");

    let removed = passwords.remove("svc".to_string(), Some("u".to_string()));
    assert_eq!(removed.unwrap().get_password(), "p1");

    let found = passwords.find("svc".to_string(), Some("u".to_string()));
    assert_eq!(found.unwrap().get_password(), "p2");
}

#[test]
fn test_not_found_behavior() {
    let mut passwords = Passwords::new();
    assert!(passwords.find("nonexistent".to_string(), None).is_none());
    assert!(passwords.remove("nonexistent".to_string(), None).is_none());
    assert_eq!(passwords, Passwords(vec![]));

    passwords.append(PasswordEntry::new(
        "svc".to_string(),
        Some("u".to_string()),
        "p".to_string(),
    ));
    let before = passwords.find("svc".to_string(), Some("u".to_string())).unwrap().duplicate();
    assert!(passwords.remove("other".to_string(), None).is_none());
    let after = passwords.find("svc".to_string(), Some("u".to_string())).unwrap();
    assert_eq!(*after, before);
}

#[test]
fn test_remove_preserves_order() {
    let mut passwords = Passwords::new();
    passwords.append(PasswordEntry::new("a".to_string(), None, "1".to_string()));
    passwords.append(PasswordEntry::new("b".to_string(), None, "2".to_string()));
    passwords.append(PasswordEntry::new("c".to_string(), None, "3".to_string()));
    let removed = passwords.remove("b".to_string(), None);
    assert_eq!(removed.unwrap().get_password(), "2");
    let expected = Passwords(vec![
        PasswordEntry::new("a".to_string(), None, "1".to_string()),
        PasswordEntry::new("c".to_string(), None, "3".to_string()),
    ]);
    assert_eq!(passwords, expected);
}
