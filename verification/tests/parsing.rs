use kpshell::command::{words_of, Command, ErrorKind, ParseError};
use kpshell::text::{split, starts_with, text_eq};

fn words(v: &[&str]) -> Vec<String> {
    v.iter().map(|s| s.to_string()).collect()
}

fn error_of(line: &str) -> (ErrorKind, String) {
    match Command::try_parse(line) {
        Ok(c) => panic!("{:?} is a command", c),
        Err(e) => (e.kind, e.token),
    }
}

#[test]
fn split_keeps_empty_pieces() {
    assert_eq!(split("", '/'), words(&[""]));
    assert_eq!(split("a", '/'), words(&["a"]));
    assert_eq!(split("a/b", '/'), words(&["a", "b"]));
    assert_eq!(split("a//b/", '/'), words(&["a", "", "b", ""]));
    assert_eq!(split("/", '/'), words(&["", ""]));
    assert_eq!(split("é/ü", '/'), words(&["é", "ü"]));
}

#[test]
fn text_helpers_compare_by_characters() {
    assert!(text_eq("", ""));
    assert!(text_eq("päss", "päss"));
    assert!(!text_eq("pass", "pas"));
    assert!(!text_eq("pass", "pasS"));
    assert!(starts_with("totp", ""));
    assert!(starts_with("totp", "to"));
    assert!(starts_with("totp", "totp"));
    assert!(!starts_with("totp", "totpx"));
    assert!(!starts_with("totp", "x"));
}

#[test]
fn words_follow_shell_quoting() {
    assert_eq!(words_of("show  My\\ Login"), words(&["show", "My Login"]));
    assert_eq!(words_of("show 'My Login' \"a b\""), words(&["show", "My Login", "a b"]));
    assert_eq!(words_of(""), words(&[]));
    // an open quote leaves no words
    assert_eq!(words_of("show 'My"), words(&[]));
}

#[test]
fn every_command_parses() {
    assert!(matches!(Command::try_parse("ls"), Ok(Command::ListDir { path }) if path == ""));
    assert!(matches!(Command::try_parse("ls Work"), Ok(Command::ListDir { path }) if path == "Work"));
    assert!(matches!(Command::try_parse("cd"), Ok(Command::ChangeDir { path }) if path == ""));
    assert!(matches!(Command::try_parse("cd a/b"), Ok(Command::ChangeDir { path }) if path == "a/b"));
    assert!(matches!(
        Command::try_parse("show X"),
        Ok(Command::Show { show_hidden: false, totp: false, entry }) if entry == "X"
    ));
    assert!(matches!(Command::try_parse("cp X"), Ok(Command::CopyPassword { entry }) if entry == "X"));
    assert!(matches!(Command::try_parse("cu X"), Ok(Command::CopyUsername { entry }) if entry == "X"));
    assert!(matches!(Command::try_parse("cw X"), Ok(Command::CopyURL { entry }) if entry == "X"));
    assert!(matches!(Command::try_parse("cx"), Ok(Command::ClearClipboard)));
    assert!(matches!(
        Command::try_parse("open /tmp/db.kdbx 'pass word'"),
        Ok(Command::OpenDB { path, password }) if path == "/tmp/db.kdbx" && password == "pass word"
    ));
    assert!(matches!(Command::try_parse("close"), Ok(Command::CloseDB)));
}

#[test]
fn show_takes_its_flags_in_every_spelling() {
    assert!(matches!(
        Command::try_parse("show -s X"),
        Ok(Command::Show { show_hidden: true, totp: false, entry }) if entry == "X"
    ));
    assert!(matches!(
        Command::try_parse("show X -t"),
        Ok(Command::Show { show_hidden: false, totp: true, entry }) if entry == "X"
    ));
    assert!(matches!(
        Command::try_parse("show --totp X"),
        Ok(Command::Show { show_hidden: false, totp: true, entry }) if entry == "X"
    ));
    assert!(matches!(
        Command::try_parse("show -st X"),
        Ok(Command::Show { show_hidden: true, totp: true, entry }) if entry == "X"
    ));
    assert!(matches!(
        Command::try_parse("show -s --totp 'My Login'"),
        Ok(Command::Show { show_hidden: true, totp: true, entry }) if entry == "My Login"
    ));
    // a lone dash is an operand
    assert!(matches!(
        Command::try_parse("show -"),
        Ok(Command::Show { show_hidden: false, totp: false, entry }) if entry == "-"
    ));
}

#[test]
fn missing_command_is_an_error() {
    assert_eq!(error_of(""), (ErrorKind::MissingCommand, "".to_string()));
    assert_eq!(error_of("   "), (ErrorKind::MissingCommand, "".to_string()));
    assert_eq!(error_of("ls 'open"), (ErrorKind::MissingCommand, "".to_string()));
}

#[test]
fn unknown_command_is_an_error() {
    assert_eq!(error_of("list"), (ErrorKind::UnknownCommand, "list".to_string()));
    assert_eq!(error_of("LS"), (ErrorKind::UnknownCommand, "LS".to_string()));
    assert_eq!(error_of("-s show X"), (ErrorKind::UnknownCommand, "-s".to_string()));
}

#[test]
fn unknown_flag_is_an_error() {
    assert_eq!(error_of("show -x X"), (ErrorKind::UnknownFlag, "-x".to_string()));
    assert_eq!(error_of("show -sx X"), (ErrorKind::UnknownFlag, "-sx".to_string()));
    assert_eq!(error_of("show --show-hidden X"), (ErrorKind::UnknownFlag, "--show-hidden".to_string()));
    assert_eq!(error_of("show --tot X"), (ErrorKind::UnknownFlag, "--tot".to_string()));
    assert_eq!(error_of("show -- X"), (ErrorKind::UnknownFlag, "--".to_string()));
    assert_eq!(error_of("ls -s"), (ErrorKind::UnknownFlag, "-s".to_string()));
    assert_eq!(error_of("cp --totp X"), (ErrorKind::UnknownFlag, "--totp".to_string()));
    // the first word at fault decides
    assert_eq!(error_of("show -x -y"), (ErrorKind::UnknownFlag, "-x".to_string()));
}

#[test]
fn extra_operand_is_an_error() {
    assert_eq!(error_of("ls a b"), (ErrorKind::UnexpectedOperand, "b".to_string()));
    assert_eq!(error_of("cx now"), (ErrorKind::UnexpectedOperand, "now".to_string()));
    assert_eq!(error_of("close it"), (ErrorKind::UnexpectedOperand, "it".to_string()));
    assert_eq!(error_of("open a b c d"), (ErrorKind::UnexpectedOperand, "c".to_string()));
    assert_eq!(error_of("show -s a b"), (ErrorKind::UnexpectedOperand, "b".to_string()));
}

#[test]
fn missing_operand_is_an_error() {
    assert_eq!(error_of("show"), (ErrorKind::MissingOperand, "show".to_string()));
    assert_eq!(error_of("show -s"), (ErrorKind::MissingOperand, "show".to_string()));
    assert_eq!(error_of("cp"), (ErrorKind::MissingOperand, "cp".to_string()));
    assert_eq!(error_of("cu"), (ErrorKind::MissingOperand, "cu".to_string()));
    assert_eq!(error_of("cw"), (ErrorKind::MissingOperand, "cw".to_string()));
    assert_eq!(error_of("open file"), (ErrorKind::MissingOperand, "open".to_string()));
}

#[test]
fn parse_words_takes_words_as_they_are() {
    assert!(matches!(
        Command::parse_words(&words(&["ls", "a b"])),
        Ok(Command::ListDir { path }) if path == "a b"
    ));
    assert!(matches!(
        Command::parse_words(&words(&[])),
        Err(ParseError { kind: ErrorKind::MissingCommand, .. })
    ));
}

#[test]
fn messages_name_the_word_at_fault() {
    let e = ParseError { kind: ErrorKind::UnknownCommand, token: "list".to_string() };
    assert_eq!(e.message(), "error: unrecognized command: list");
    let e = ParseError { kind: ErrorKind::UnknownFlag, token: "-x".to_string() };
    assert_eq!(e.message(), "error: unexpected flag: -x");
    let e = ParseError { kind: ErrorKind::UnexpectedOperand, token: "b".to_string() };
    assert_eq!(e.message(), "error: unexpected argument: b");
    let e = ParseError { kind: ErrorKind::MissingOperand, token: "show".to_string() };
    assert_eq!(e.message(), "error: a required argument is missing for: show");
    let e = ParseError { kind: ErrorKind::MissingCommand, token: String::new() };
    assert_eq!(e.message(), "error: a command is required");
}
