use civa::command::{Command, ExecStrategy, PipeType};
use civa::env::EnvManager;
use civa::handler::{build_pipe_commands, split_pipe};
use civa::tokenizer::{has_next_delimiter_at, is_delimiter, split_commands};

fn index_of(pairs: &[(&str, &str)]) -> EnvManager {
    EnvManager::from_candidates(
        pairs.iter().map(|(n, p)| (String::from(*n), String::from(*p))).collect(),
    )
}

#[test]
fn test_split_pipe() {
    let pip_commands = vec![
        String::from("a"),
        String::from("-la"),
        String::from("|"),
        String::from("b"),
    ];

    let result = vec![
        vec![String::from("a"), String::from("-la")],
        vec![String::from("b")],
    ];
    assert_eq!(split_pipe(pip_commands), result);
}

#[test]
fn test_split_pipe_2() {
    let pip_commands = vec![String::from("echo"), String::from("|"), String::from("exa")];

    let result = vec![vec![String::from("echo")], vec![String::from("exa")]];
    assert_eq!(split_pipe(pip_commands), result);
}

#[test]
fn test_build_pipe_commands() {
    let cmd: Vec<String> = vec![
        String::from("ls"),
        String::from("|"),
        String::from("echo"),
        String::from("Hello"),
    ];

    let env_mananger = index_of(&[("ls", "/bin/ls"), ("echo", "/bin/echo")]);

    let expected_result = vec![
        Command {
            command_name: String::from("/bin/ls"),
            arguments: Vec::<String>::new(),
            pipe_type: PipeType::PassesOutput,
            strategy: ExecStrategy::PathCommand,
        },
        Command {
            command_name: String::from("/bin/echo"),
            arguments: vec![String::from("Hello")],
            pipe_type: PipeType::ReceivesInput,
            strategy: ExecStrategy::PathCommand,
        },
    ];

    assert_eq!(expected_result, build_pipe_commands(cmd, &env_mananger));
}

#[test]
fn test_build_pipe_commands_3_pipes() {
    let cmd: Vec<String> = vec![
        String::from("ls"),
        String::from("-la"),
        String::from("|"),
        String::from("echo"),
        String::from("|"),
        String::from("ls"),
    ];

    let env_manager = index_of(&[("ls", "/bin/ls"), ("echo", "/bin/echo")]);
    let expected_result = vec![
        Command {
            command_name: String::from("/bin/ls"),
            arguments: vec![String::from("-la")],
            strategy: ExecStrategy::PathCommand,
            pipe_type: PipeType::PassesOutput,
        },
        Command {
            command_name: String::from("/bin/echo"),
            arguments: Vec::<String>::new(),
            strategy: ExecStrategy::PathCommand,
            pipe_type: PipeType::OutAndInput,
        },
        Command {
            command_name: String::from("/bin/ls"),
            arguments: Vec::<String>::new(),
            strategy: ExecStrategy::PathCommand,
            pipe_type: PipeType::ReceivesInput,
        },
    ];

    assert_eq!(expected_result, build_pipe_commands(cmd, &env_manager));
}

#[test]
fn handler_test_is_delimiter_false() {
    assert_eq!(is_delimiter("ls"), false);
}

#[test]
fn handler_test_is_delimiter_true() {
    assert_eq!(is_delimiter("||"), true);
}

#[test]
fn handler_test_has_next_delimiter_at_found() {
    let v = vec!["ls", "||", "some"];

    let result = has_next_delimiter_at(&v);

    assert_eq!(result.unwrap(), 1);
}

#[test]
fn handler_test_has_next_delimiter_at_found_none() {
    let v = vec!["ls", "some"];

    let result = has_next_delimiter_at(&v);

    assert_eq!(result, None);
}

#[test]
fn handler_test_split_commands_empty() {
    let c = "";

    let result = split_commands(c);

    let expected_result: Vec<Vec<&str>> = vec![];
    assert_eq!(result, expected_result);
}

#[test]
fn handler_test_split_commands_single_command_name() {
    let c = "ls";

    let result = split_commands(c);

    let expected_result: Vec<Vec<&str>> = vec![vec!["ls"]];
    assert_eq!(result, expected_result);
}

#[test]
fn handler_test_split_commands_single_delimiter() {
    let c = ";";

    let result = split_commands(c);

    let expected_result: Vec<Vec<&str>> = vec![];
    assert_eq!(result, expected_result);
}

#[test]
fn handler_test_split_commands_single_command_with_args() {
    let c = "ls -la";

    let result = split_commands(c);

    let expected_result: Vec<Vec<&str>> = vec![vec!["ls", "-la"]];
    assert_eq!(result, expected_result);
}

#[test]
fn handler_test_split_commands_commands() {
    let c = "ls -la || cd ..";

    let result = split_commands(c);

    let expected_result: Vec<Vec<&str>> = vec![vec!["ls", "-la"], vec!["cd", ".."]];
    assert_eq!(result, expected_result);
}

#[test]
fn handler_test_split_commands_commands_delimiter_at_end() {
    let c = "ls -la || cd .. &&";

    let result = split_commands(c);

    let expected_result: Vec<Vec<&str>> = vec![vec!["ls", "-la"], vec!["cd", ".."]];
    assert_eq!(result, expected_result);
}
