use lockbox::pass::{PasswordEntry, Passwords};

fn sample() -> Passwords {
    Passwords(vec![
        PasswordEntry::new("svc1".to_string(), Some("u1".to_string()), "p1".to_string()),
        PasswordEntry::new("svc2".to_string(), None, "p2".to_string()),
    ])
}

#[test]
fn test_serialize_exact_form() {
    let passwords = sample();
    let text = passwords.serialize();
    assert_eq!(
        text,
        "[{\"service\":\"svc1\",\"username\":\"u1\",\"password\":\"p1\"},\
{\"service\":\"svc2\",\"username\":null,\"password\":\"p2\"}]"
    );
}

#[test]
fn test_serialize_empty() {
    assert_eq!(Passwords::new().serialize(), "[]");
}

#[test]
fn test_parse_empty() {
    let parsed = Passwords::parse_passwords("[]").unwrap();
    assert_eq!(parsed, Passwords(vec![]));
}

#[test]
fn test_round_trip_plain() {
    let passwords = sample();
    let text = passwords.serialize();
    let parsed = Passwords::parse_passwords(&text).unwrap();
    assert_eq!(parsed, passwords);
}

#[test]
fn test_round_trip_escapes() {
    let passwords = Passwords(vec![
        PasswordEntry::new(
            "quo\"te".to_string(),
            Some("back\\slash".to_string()),
            "both\"\\\"".to_string(),
        ),
        PasswordEntry::new("".to_string(), Some("".to_string()), "\\".to_string()),
    ]);
    let text = passwords.serialize();
    let parsed = Passwords::parse_passwords(&text).unwrap();
    assert_eq!(parsed, passwords);
}

#[test]
fn test_round_trip_unicode() {
    let passwords = Passwords(vec![PasswordEntry::new(
        "bank €".to_string(),
        Some("ümlaut".to_string()),
        "pâss🔒word".to_string(),
    )]);
    let text = passwords.serialize();
    let parsed = Passwords::parse_passwords(&text).unwrap();
    assert_eq!(parsed, passwords);
}

#[test]
fn test_parse_rejects_garbage() {
    assert!(Passwords::parse_passwords("").is_err());
    assert!(Passwords::parse_passwords("garbage").is_err());
    assert!(Passwords::parse_passwords("[").is_err());
    assert!(Passwords::parse_passwords("[}").is_err());
    assert!(Passwords::parse_passwords("[{\"service\":\"a\"}]").is_err());
    assert!(Passwords::parse_passwords("null").is_err());
}

#[test]
fn test_parse_rejects_trailing_text() {
    let text = sample().serialize();
    let mut with_junk = text.clone();
    with_junk.push('x');
    assert!(Passwords::parse_passwords(&with_junk).is_err());
}

#[test]
fn test_parse_error_variant() {
    let err = Passwords::parse_passwords("nonsense").unwrap_err();
    assert_eq!(err, lockbox::store::StoreError::ParseError);
}

#[test]
fn test_parse_accepts_control_escapes() {
    // other writers of this format escape control characters
    let text = "[{\"service\":\"a\\nb\",\"username\":null,\"password\":\"x\\u0001y\\tz\"}]";
    let parsed = Passwords::parse_passwords(text).unwrap();
    let expected = Passwords(vec![PasswordEntry::new(
        "a\nb".to_string(),
        None,
        "x\u{1}y\tz".to_string(),
    )]);
    assert_eq!(parsed, expected);
}

#[test]
fn test_parse_rejects_unknown_escapes() {
    assert!(Passwords::parse_passwords(
        "[{\"service\":\"a\\qb\",\"username\":null,\"password\":\"p\"}]"
    )
    .is_err());
    assert!(Passwords::parse_passwords(
        "[{\"service\":\"a\\u0041b\",\"username\":null,\"password\":\"p\"}]"
    )
    .is_err());
}
