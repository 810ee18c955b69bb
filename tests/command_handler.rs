use civa::tokenizer::{has_next_delimiter_at, is_delimiter, split_commands};

#[test]
fn command_handler_test_is_delimiter_false() {
    assert_eq!(is_delimiter("ls"), false);
}

#[test]
fn command_handler_test_is_delimiter_true() {
    assert_eq!(is_delimiter("||"), true);
}

#[test]
fn command_handler_test_has_next_delimiter_at_found() {
    let v = vec!["ls", "||", "some"];

    let result = has_next_delimiter_at(&v);

    assert_eq!(result.unwrap(), 1);
}

#[test]
fn command_handler_test_has_next_delimiter_at_found_none() {
    let v = vec!["ls", "some"];

    let result = has_next_delimiter_at(&v);

    assert_eq!(result, None);
}

#[test]
fn command_handler_test_split_commands_empty() {
    let c = "";

    let result = split_commands(c);

    let expected_result: Vec<Vec<&str>> = vec![];
    assert_eq!(result, expected_result);
}

#[test]
fn command_handler_test_split_commands_single_command_name() {
    let c = "ls";

    let result = split_commands(c);

    let expected_result: Vec<Vec<&str>> = vec![vec!["ls"]];
    assert_eq!(result, expected_result);
}

#[test]
fn command_handler_test_split_commands_single_delimiter() {
    let c = ";";

    let result = split_commands(c);

    let expected_result: Vec<Vec<&str>> = vec![];
    assert_eq!(result, expected_result);
}

#[test]
fn command_handler_test_split_commands_single_command_with_args() {
    let c = "ls -la";

    let result = split_commands(c);

    let expected_result: Vec<Vec<&str>> = vec![vec!["ls", "-la"]];
    assert_eq!(result, expected_result);
}

#[test]
fn command_handler_test_split_commands_commands() {
    let c = "ls -la || cd ..";

    let result = split_commands(c);

    let expected_result: Vec<Vec<&str>> = vec![vec!["ls", "-la"], vec!["cd", ".."]];
    assert_eq!(result, expected_result);
}

#[test]
fn command_handler_test_split_commands_commands_delimiter_at_end() {
    let c = "ls -la || cd .. &&";

    let result = split_commands(c);

    let expected_result: Vec<Vec<&str>> = vec![vec!["ls", "-la"], vec!["cd", ".."]];
    assert_eq!(result, expected_result);
}
