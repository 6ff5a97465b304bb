use rust_os::cmd::{not_found_message, parse_pid, Command, CommandWithArgs};

#[test]
fn decode_words() {
    assert_eq!(Command::decode("ls"), Some(Command::ListFiles));
    assert_eq!(Command::decode("ps"), Some(Command::ProcessStatus));
    assert_eq!(Command::decode("exec"), Some(Command::Execute));
    assert_eq!(Command::decode("kill"), Some(Command::Kill));
    assert_eq!(Command::decode("exit"), Some(Command::Exit));
    assert_eq!(Command::decode("cat"), None);
    assert_eq!(Command::decode(""), None);
}

#[test]
fn parse_lines() {
    let c = CommandWithArgs::from_string("  exec   counter1  ").unwrap();
    assert_eq!(c.cmd, Command::Execute);
    assert_eq!(c.args, vec!["counter1".to_string()]);
    let c = CommandWithArgs::from_string("exec counter2 &").unwrap();
    assert_eq!(c.cmd, Command::ExecuteAsync);
    assert_eq!(c.args, vec!["counter2".to_string()]);
    let c = CommandWithArgs::from_string("kill\t3").unwrap();
    assert_eq!(c.cmd, Command::Kill);
    assert_eq!(c.args, vec!["3".to_string()]);
    let c = CommandWithArgs::from_string("ps").unwrap();
    assert_eq!(c.cmd, Command::ProcessStatus);
    assert!(c.args.is_empty());
    assert!(CommandWithArgs::from_string("").is_none());
    assert!(CommandWithArgs::from_string("   ").is_none());
    assert!(CommandWithArgs::from_string("frobnicate now").is_none());
    assert!(CommandWithArgs::from_string("lsx").is_none());
}

#[test]
fn parse_words_directly() {
    let words = vec!["exec".to_string(), "&".to_string()];
    let c = CommandWithArgs::from_words(&words).unwrap();
    assert_eq!(c.cmd, Command::ExecuteAsync);
    assert!(c.args.is_empty());
    let words = vec!["ls".to_string(), "a".to_string(), "&".to_string()];
    let c = CommandWithArgs::from_words(&words).unwrap();
    assert_eq!(c.cmd, Command::ListFiles);
    assert_eq!(c.args, vec!["a".to_string()]);
    assert!(CommandWithArgs::from_words(&Vec::new()).is_none());
}

#[test]
fn process_ids() {
    assert_eq!(parse_pid("0"), Some(0));
    assert_eq!(parse_pid("7"), Some(7));
    assert_eq!(parse_pid("0042"), Some(42));
    assert_eq!(parse_pid("65535"), Some(65535));
    assert_eq!(parse_pid("65536"), None);
    assert_eq!(parse_pid("1000000000000"), None);
    assert_eq!(parse_pid(""), None);
    assert_eq!(parse_pid("-1"), None);
    assert_eq!(parse_pid("3a"), None);
    assert_eq!(parse_pid(" 3"), None);
}

#[test]
fn unknown_command_reply() {
    assert_eq!(not_found_message("  frob  x y"), Some("frob: command not found".to_string()));
    assert_eq!(not_found_message("cat"), Some("cat: command not found".to_string()));
    assert_eq!(not_found_message("   "), None);
}
