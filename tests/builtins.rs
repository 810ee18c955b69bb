use civa::builtins::{builtin_call, BuiltinCall};
use civa::command::{Command, CommandError};

#[test]
fn test_executor_no_builtin_found() {
    let mut cmd: Command = Command::default();
    cmd.command_name = String::from("test");

    let result = builtin_call(&cmd);

    assert_eq!(result.is_err(), true);
    assert_eq!(result.unwrap_err().message, "Could not find builtin 'test'");
}

#[test]
fn test_executor_builtin_found() {
    let mut cmd: Command = Command::default();
    cmd.command_name = String::from("cd");

    let result = builtin_call(&cmd);

    assert_eq!(result.is_ok(), true);
    assert_eq!(result.unwrap(), BuiltinCall::ChangeDir(String::from(".")));
}

#[test]
fn build_found_with_args() {
    let mut cmd: Command = Command::default();
    cmd.command_name = String::from("penv");
    cmd.arguments = vec![String::from("PATH")];

    let result = builtin_call(&cmd);

    assert_eq!(result.is_ok(), true);

    assert_eq!(result.ok(), Some(BuiltinCall::PrintEnv(String::from("PATH"))));
}

#[test]
fn build_found_failing() {
    let mut cmd: Command = Command::default();
    cmd.command_name = String::from("penv");

    let result = builtin_call(&cmd);

    assert!(result.is_err());
}

fn named(name: &str, args: &[&str]) -> Command {
    let mut cmd = Command::default();
    cmd.command_name = String::from(name);
    cmd.arguments = args.iter().map(|a| String::from(*a)).collect();
    cmd
}

#[test]
fn cd_with_a_path_and_quit() {
    assert_eq!(builtin_call(&named("cd", &["/tmp"])).unwrap(), BuiltinCall::ChangeDir(String::from("/tmp")));
    assert_eq!(builtin_call(&named(":q", &[])).unwrap(), BuiltinCall::Quit);
    assert_eq!(builtin_call(&named("quit", &[])).unwrap(), BuiltinCall::Quit);
}

#[test]
fn alias_builtin_arguments() {
    assert_eq!(
        builtin_call(&named("alias", &["ll", "ls -l"])).unwrap(),
        BuiltinCall::DefineAlias(String::from("ll"), String::from("ls -l"))
    );
    let wrong_count = builtin_call(&named("alias", &["ll"])).unwrap_err();
    assert_eq!(wrong_count.kind, "alias");
    let empty_key = builtin_call(&named("alias", &["", "x"])).unwrap_err();
    assert_eq!(empty_key.message, "No alias key provided");
    let as_command_error = CommandError::from(empty_key);
    assert_eq!(as_command_error.kind, "alias");
}

#[test]
fn command_to_str_and_default() {
    assert_eq!(named("ls", &["-l", "/tmp"]).to_str(), "ls -l /tmp");
    assert_eq!(named("ls", &[]).to_str(), "ls");
    let d = Command::default();
    assert_eq!(d.command_name, "");
    assert!(d.arguments.is_empty());
}
