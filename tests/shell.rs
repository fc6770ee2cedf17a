use rustdbg::interactive::commands::rdbg_commands;
use rustdbg::interactive::completer::DbgCompleter;
use rustdbg::interactive::console::{parse_address, parse_addresses, parse_command, Command};
use rustdbg::interactive::text::{split_first_word, starts_with, str_equal};

#[test]
fn command_table_lists_fourteen() {
    let t = rdbg_commands();
    assert_eq!(t.len(), 14);
    assert_eq!(t[0], ("help", "Display help"));
    assert_eq!(t[13], ("context", "Show context for current inferior"));
}

#[test]
fn first_word_split() {
    assert_eq!(split_first_word("  run   /bin/true  -v  "), ("run", "/bin/true  -v"));
    assert_eq!(split_first_word("quit"), ("quit", ""));
    assert_eq!(split_first_word("   "), ("", ""));
    assert_eq!(split_first_word("\tbreak\u{a0}0x10"), ("break", "0x10"));
}

#[test]
fn commands_parse() {
    assert_eq!(parse_command("run /bin/ls"), (Command::Run, "/bin/ls"));
    assert_eq!(parse_command("  continue"), (Command::Continue, ""));
    assert_eq!(parse_command("list-variables"), (Command::ListVariables, ""));
    assert_eq!(parse_command("set bell-style none"), (Command::SetVariable, "bell-style none"));
    assert_eq!(parse_command("frobnicate"), (Command::Unknown, ""));
    assert_eq!(parse_command(""), (Command::Unknown, ""));
    assert_eq!(parse_command("Quit"), (Command::Unknown, ""));
}

#[test]
fn addresses_parse() {
    assert_eq!(parse_address("0x55555555513d"), Some(0x5555_5555_513d));
    assert_eq!(parse_address("401000"), Some(0x401000));
    assert_eq!(parse_address("0XdeadBEEF"), Some(0xdead_beef));
    assert_eq!(parse_address("ffffffffffffffff"), Some(u64::MAX));
    assert_eq!(parse_address("0x0000000000000000001"), Some(1));
    assert_eq!(parse_address("10000000000000000"), None);
    assert_eq!(parse_address("0x"), None);
    assert_eq!(parse_address(""), None);
    assert_eq!(parse_address("0x12g4"), None);
    assert_eq!(parse_addresses(&vec!["0x10", "20"]), Ok(vec![0x10, 0x20]));
    assert_eq!(parse_addresses(&vec!["0x10", "zz", "q"]), Err(1));
}

#[test]
fn string_helpers() {
    assert!(starts_with("continue", "con"));
    assert!(starts_with("run", ""));
    assert!(!starts_with("run", "runs"));
    assert!(str_equal("abc", "abc"));
    assert!(!str_equal("abc", "abd"));
}

#[test]
fn completes_commands_and_variables() {
    let c = DbgCompleter;
    let vars = vec!["bell-style".to_string(), "blink-matching-paren".to_string(), "comment-begin".to_string()];
    assert_eq!(c.complete("co", "", &vars), Some(vec!["continue".to_string(), "context".to_string()]));
    assert_eq!(c.complete("", "  ", &vars).map(|v| v.len()), Some(14));
    assert_eq!(c.complete("zz", "", &vars), Some(vec![]));
    assert_eq!(
        c.complete("b", "set ", &vars),
        Some(vec!["bell-style".to_string(), "blink-matching-paren".to_string()])
    );
    assert_eq!(c.complete("c", "get ", &vars), Some(vec!["comment-begin".to_string()]));
    assert_eq!(c.complete("n", "set bell-style ", &vars), None);
    assert_eq!(c.complete("x", "run ", &vars), None);
}
