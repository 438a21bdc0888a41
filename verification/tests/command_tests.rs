use fyr::command::{command_check, command_from_words, parse_command, validate_command, ParsedCommand};
use fyr::error::FyrError;

fn strings(words: &[&str]) -> Vec<String> {
    words.iter().map(|w| w.to_string()).collect()
}

#[test]
fn parse_command_splits_program_and_arguments() {
    let c = parse_command("cargo run --release").unwrap();
    assert_eq!(c.cmd, "cargo");
    assert_eq!(c.args, strings(&["run", "--release"]));
}

#[test]
fn parse_command_keeps_quoted_words_together() {
    let c = parse_command("echo 'hello world' \"a b\" c\\ d").unwrap();
    assert_eq!(c.cmd, "echo");
    assert_eq!(c.args, strings(&["hello world", "a b", "c d"]));
}

#[test]
fn parse_command_refuses_unclosed_quote() {
    assert_eq!(parse_command("echo 'oops"), Err(FyrError::CommandParse));
}

#[test]
fn parse_command_refuses_empty_command() {
    assert_eq!(parse_command(""), Err(FyrError::EmptyCommand));
    assert_eq!(parse_command("   # only a comment"), Err(FyrError::EmptyCommand));
}

#[test]
fn command_from_words_takes_first_word_as_program() {
    let c = command_from_words(strings(&["ls", "-la", "src"])).unwrap();
    assert_eq!(c, ParsedCommand { cmd: "ls".to_string(), args: strings(&["-la", "src"]) });
    let single = command_from_words(strings(&["make"])).unwrap();
    assert_eq!(single.cmd, "make");
    assert!(single.args.is_empty());
    assert_eq!(command_from_words(Vec::new()), Err(FyrError::EmptyCommand));
}

#[test]
fn command_check_reports_missing_program() {
    let name = "nowhere-to-be-found".to_string();
    assert_eq!(command_check(&name, true), Ok(()));
    assert_eq!(command_check(&name, false), Err(FyrError::CommandNotFound(name.clone())));
}

#[test]
fn validate_command_finds_shell_and_misses_unknown_program() {
    let sh = parse_command("sh -c true").unwrap();
    assert_eq!(validate_command(&sh), Ok(()));
    let unknown = parse_command("fyr-no-such-program-4711 --flag").unwrap();
    assert_eq!(
        validate_command(&unknown),
        Err(FyrError::CommandNotFound("fyr-no-such-program-4711".to_string()))
    );
}

#[test]
fn error_messages_read_as_reported() {
    assert_eq!(FyrError::CommandParse.message(), "failed to parse command");
    assert_eq!(FyrError::EmptyCommand.message(), "empty command");
    assert_eq!(FyrError::CommandNotFound("cargo".to_string()).message(), "command 'cargo' not found");
    assert_eq!(FyrError::PathMissing("src".to_string()).message(), " 'src' doesn't exist");
    assert_eq!(FyrError::NoTasks.message(), "no tasks found");
    assert_eq!(FyrError::TaskNotFound("build".to_string()).message(), "task 'build' not found");
    assert_eq!(FyrError::NoRunCommand.message(), "task has no run command, provide one with -r");
    assert_eq!(
        FyrError::NoConfigFile.message(),
        "no 'fyr.toml' found, use -w/-e and -r to watch directly, or -g for global tasks"
    );
    assert_eq!(
        FyrError::NoWatchSource.message(),
        "please provide paths with -w or extensions with -e"
    );
    assert_eq!(FyrError::NoRunGiven.message(), "please provide a command with -r");
}
