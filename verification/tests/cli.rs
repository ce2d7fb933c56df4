use ducklake_orm::cli::{parse_command, run, Command};

fn args(words: &[&str]) -> Vec<String> {
    words.iter().map(|w| w.to_string()).collect()
}

#[test]
fn parses_hello_command() {
    let args = vec!["ducklake-cli".to_string(), "hello".to_string()];
    let command = parse_command(args).unwrap();

    assert_eq!(command, Command::Hello);
}

#[test]
fn defaults_to_help_without_args() {
    let args = vec!["ducklake-cli".to_string()];
    let command = parse_command(args).unwrap();

    assert_eq!(command, Command::Help);
}

#[test]
fn help_flags_select_help() {
    for flag in ["help", "--help", "-h"] {
        assert_eq!(parse_command(args(&["ducklake-cli", flag])).unwrap(), Command::Help);
    }
}

#[test]
fn no_arguments_at_all_select_help() {
    assert_eq!(parse_command(Vec::new()).unwrap(), Command::Help);
}

#[test]
fn unknown_command_is_reported() {
    let err = parse_command(args(&["ducklake-cli", "frobnicate"])).unwrap_err();
    assert_eq!(
        err,
        "Unknown command: frobnicate\nRun `ducklake-cli help` to see available commands."
    );
}

#[test]
fn extra_arguments_are_ignored() {
    assert_eq!(
        parse_command(args(&["ducklake-cli", "hello", "world"])).unwrap(),
        Command::Hello
    );
}

#[test]
fn run_hello_prints_greeting() {
    assert_eq!(run(args(&["ducklake-cli", "hello"])).unwrap(), "Hello World\n");
}

#[test]
fn run_help_prints_usage() {
    let text = run(args(&["ducklake-cli"])).unwrap();
    assert_eq!(
        text,
        "ducklake-cli\n\nUSAGE:\n  ducklake-cli <COMMAND>\n\nCOMMANDS:\n  hello    Print \"Hello World\"\n  help     Show this help message\n"
    );
}

#[test]
fn run_unknown_command_fails() {
    let err = run(args(&["ducklake-cli", "bye"])).unwrap_err();
    assert!(err.starts_with("Unknown command: bye\n"));
}
