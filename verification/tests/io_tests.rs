use std::cell::RefCell;

use lockbox::pass::{PasswordEntry, Passwords};

use lockbox::io::{
    bold, colorize, print, print_key_value_with_color, read_hidden_input, MessageType,
    PromptPassword,
};

struct ScriptedPrompt {
    answer: Result<String, String>,
    seen: RefCell<Option<String>>,
}

impl PromptPassword for ScriptedPrompt {
    fn prompt_password(&self, prompt: String) -> Result<String, std::io::Error> {
        *self.seen.borrow_mut() = Some(prompt);
        match &self.answer {
            Ok(s) => Ok(s.clone()),
            Err(e) => Err(std::io::Error::new(std::io::ErrorKind::Other, e.clone())),
        }
    }
}

#[test]
fn test_read_hidden_input() {
    let prompt = ScriptedPrompt { answer: Ok("secret".to_string()), seen: RefCell::new(None) };
    let input = read_hidden_input("password", &prompt);
    assert_eq!(input, Some("secret".to_string()));
    assert_eq!(
        prompt.seen.borrow().clone().unwrap(),
        format!(
            "Please enter the {}\n{}",
            "password",
            colorize(">> ", MessageType::DarkYellow)
        )
    );
}

#[test]
fn test_read_hidden_input_trims() {
    let prompt =
        ScriptedPrompt { answer: Ok("  secret\n".to_string()), seen: RefCell::new(None) };
    assert_eq!(read_hidden_input("password", &prompt), Some("secret".to_string()));
}

#[test]
fn test_read_hidden_input_failure() {
    let prompt = ScriptedPrompt { answer: Err("closed".to_string()), seen: RefCell::new(None) };
    assert_eq!(read_hidden_input("password", &prompt), None);
}

#[test]
fn test_colorize() {
    let test_message = "test_message";
    let colored_message = colorize(test_message, MessageType::Success);
    assert!(colored_message.contains(test_message));
    assert!(colored_message.len() > test_message.len());
}

#[test]
fn test_bold() {
    let test_message = "test_message";
    let bold_message = bold(test_message);
    assert!(bold_message.contains(test_message));
    assert!(bold_message.len() > test_message.len());
}

#[test]
fn test_print() {
    let test_message = "test_message";
    let output_str = print(test_message, Some(MessageType::Success));
    assert!(output_str.contains(test_message));
    assert!(output_str.len() > test_message.len());
    assert!(output_str.ends_with('\n'));
}

#[test]
fn test_print_key_value_with_color() {
    let key = "key";
    let value = "value";
    let output_str = print_key_value_with_color(
        key,
        value,
        Some(MessageType::Success),
        Some(MessageType::Error),
        None,
    );
    assert!(output_str.contains(key));
    assert!(output_str.contains(value));
}

#[test]
fn test_print_all_listing() {
    let passwords = Passwords(vec![
        PasswordEntry::new("service1".to_string(), Some("username1".to_string()), "password1".to_string()),
        PasswordEntry::new("service2".to_string(), None, "password2".to_string()),
    ]);
    let shown = passwords.print_all(true, None);
    assert!(shown.contains("Service: service1,"));
    assert!(shown.contains("Username: username1,"));
    assert!(shown.contains("Password: password1"));
    assert!(shown.contains("Service: service2,"));
    assert!(!shown.contains("Username: username2"));
    assert!(shown.contains("password2"));

    let masked = passwords.print_all(false, None);
    assert!(masked.contains("Password: ***"));
    assert!(!masked.contains("password1"));

    let empty = Passwords::new().print_all(true, None);
    assert!(empty.contains("No passwords found!"));
}

#[test]
fn test_entry_print_password() {
    let entry = PasswordEntry::new("svc".to_string(), None, "pw".to_string());
    let line = entry.print_password(None);
    assert_eq!(line, "Password: pw\n");
}

#[test]
fn test_colorize_exact_escapes() {
    // green is ANSI 10; with colour disabled the escapes collapse to ESC[m
    let message = "ok";
    let colored = colorize(message, MessageType::Success);
    let enabled = format!("\u{1b}[38;5;10m{}\u{1b}[39m", message);
    let disabled = format!("\u{1b}[m{}\u{1b}[m", message);
    assert!(colored == enabled || colored == disabled);
}

#[test]
fn test_bold_exact_escapes() {
    assert_eq!(bold("x"), "\u{1b}[1mx\u{1b}[0m");
}
