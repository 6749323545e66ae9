use lockbox::args::Length;
use lockbox::repl::{parse_add_choice, parse_repl_command, AddChoice, ReplCommand};

#[test]
fn test_parse_repl_command() {
    for input in ["1", "add", "a"] {
        assert_eq!(parse_repl_command(input), ReplCommand::AddPassword);
    }
    for input in ["2", "generate", "g"] {
        assert_eq!(parse_repl_command(input), ReplCommand::GeneratePassword);
    }
    for input in ["3", "list", "l"] {
        assert_eq!(parse_repl_command(input), ReplCommand::ListPasswords);
    }
    for input in ["4", "remove", "r"] {
        assert_eq!(parse_repl_command(input), ReplCommand::RemovePassword);
    }
    for input in ["5", "show", "s"] {
        assert_eq!(parse_repl_command(input), ReplCommand::ShowPassword);
    }
    for input in ["6", "update", "u"] {
        assert_eq!(parse_repl_command(input), ReplCommand::UpdateMaster);
    }
    for input in ["7", "exit", "quit", "anything else"] {
        assert_eq!(parse_repl_command(input), ReplCommand::Exit);
    }
}

#[test]
fn test_parse_add_choice() {
    for input in ["1", "generate", "g", "random", "r"] {
        assert_eq!(parse_add_choice(input), AddChoice::Generate);
    }
    for input in ["2", "enter", "e"] {
        assert_eq!(parse_add_choice(input), AddChoice::Enter);
    }
    for input in ["3", "cancel", "x", ""] {
        assert_eq!(parse_add_choice(input), AddChoice::Cancel);
    }
}

#[test]
fn test_length_get_val() {
    assert_eq!(Length::Eight.get_val(), 8);
    assert_eq!(Length::Sixteen.get_val(), 16);
    assert_eq!(Length::ThirtyTwo.get_val(), 32);
}
