use civa::alias::AliasSystem;
use civa::command::{Command, ExecStrategy, PipeType};
use civa::env::EnvManager;
use civa::handler::{build_pipe_commands, define_command_strategy, handle_commands};

fn index() -> EnvManager {
    EnvManager::from_candidates(vec![
        (String::from("ls"), String::from("/bin/ls")),
        (String::from("echo"), String::from("/bin/echo")),
        (String::from("cat"), String::from("/bin/cat")),
    ])
}

fn strings(v: &[&str]) -> Vec<String> {
    v.iter().map(|s| String::from(*s)).collect()
}

#[test]
fn strategy_classification() {
    let env = index();
    assert_eq!(define_command_strategy("./run.sh", &env), ExecStrategy::SlashCommand);
    assert_eq!(define_command_strategy("/bin/ls", &env), ExecStrategy::AbsolutePathCommand);
    assert_eq!(define_command_strategy("cd", &env), ExecStrategy::Builtin);
    assert_eq!(define_command_strategy("alias", &env), ExecStrategy::Builtin);
    assert_eq!(define_command_strategy("ls", &env), ExecStrategy::PathCommand);
    assert_eq!(define_command_strategy("doesnotexist", &env), ExecStrategy::Undefined);
}

#[test]
fn pipeline_roles_first_middle_last() {
    let cmds = build_pipe_commands(strings(&["ls", "-la", "|", "echo", "|", "ls"]), &index());
    assert_eq!(cmds.len(), 3);
    let roles: Vec<PipeType> = cmds.iter().map(|c| c.pipe_type).collect();
    assert_eq!(roles, vec![PipeType::PassesOutput, PipeType::OutAndInput, PipeType::ReceivesInput]);
    assert_eq!(cmds[0].arguments, vec!["-la"]);
    assert!(cmds[1].arguments.is_empty());
    assert!(cmds[2].arguments.is_empty());
}

#[test]
fn pipeline_skips_empty_pieces() {
    let cmds = build_pipe_commands(strings(&["|", "ls", "|", "|", "cat", "|"]), &index());
    assert_eq!(cmds.len(), 2);
    assert_eq!(cmds[0].pipe_type, PipeType::PassesOutput);
    assert_eq!(cmds[1].pipe_type, PipeType::ReceivesInput);
    let single = build_pipe_commands(strings(&["ls", "|"]), &index());
    assert_eq!(single.len(), 1);
    assert_eq!(single[0].pipe_type, PipeType::Undefined);
}

#[test]
fn handle_commands_resolves_each_group() {
    let cmds = handle_commands("cd .. ; ls | cat && \"x\"", &AliasSystem::new(), &index()).unwrap();
    assert_eq!(
        cmds,
        vec![
            Command {
                command_name: String::from("cd"),
                arguments: strings(&[".."]),
                strategy: ExecStrategy::Builtin,
                pipe_type: PipeType::Undefined,
            },
            Command {
                command_name: String::from("/bin/ls"),
                arguments: vec![],
                strategy: ExecStrategy::PathCommand,
                pipe_type: PipeType::PassesOutput,
            },
            Command {
                command_name: String::from("/bin/cat"),
                arguments: vec![],
                strategy: ExecStrategy::PathCommand,
                pipe_type: PipeType::ReceivesInput,
            },
            Command {
                command_name: String::from("\"x\""),
                arguments: vec![],
                strategy: ExecStrategy::Undefined,
                pipe_type: PipeType::Undefined,
            },
        ]
    );
}

#[test]
fn quoted_arguments_are_unquoted() {
    let cmds = handle_commands("echo \"hello world\" x", &AliasSystem::new(), &index()).unwrap();
    assert_eq!(cmds.len(), 1);
    assert_eq!(cmds[0].arguments, vec!["hello world", "x"]);
}

#[test]
fn alias_expands_with_extra_arguments() {
    let mut aliases = AliasSystem::new();
    assert!(!aliases.update_alias(String::from("ll"), String::from("ls -l")));
    assert!(!aliases.update_alias(String::from("la"), String::from("ll -a")));
    let cmds = handle_commands("la /tmp", &aliases, &index()).unwrap();
    assert_eq!(cmds.len(), 1);
    assert_eq!(cmds[0].command_name, "/bin/ls");
    assert_eq!(cmds[0].arguments, vec!["-l", "-a", "/tmp"]);
    assert_eq!(cmds[0].strategy, ExecStrategy::PathCommand);
}

#[test]
fn alias_to_several_groups_appends_to_the_last() {
    let mut aliases = AliasSystem::new();
    aliases.update_alias(String::from("both"), String::from("cd .. ; ls"));
    let cmds = handle_commands("both -a", &aliases, &index()).unwrap();
    assert_eq!(cmds.len(), 2);
    assert_eq!(cmds[0].arguments, vec![".."]);
    assert_eq!(cmds[1].arguments, vec!["-a"]);
}

#[test]
fn alias_cycle_is_an_error() {
    let mut aliases = AliasSystem::new();
    aliases.update_alias(String::from("ls"), String::from("ls"));
    let err = handle_commands("ls", &aliases, &index()).unwrap_err();
    assert_eq!(err.kind, "alias");
    let mut pair = AliasSystem::new();
    pair.update_alias(String::from("a"), String::from("b"));
    pair.update_alias(String::from("b"), String::from("a x"));
    assert!(handle_commands("a", &pair, &index()).is_err());
}

#[test]
fn update_alias_reports_overwrite() {
    let mut aliases = AliasSystem::new();
    assert!(!aliases.update_alias(String::from("k"), String::from("v1")));
    assert!(aliases.update_alias(String::from("k"), String::from("v2")));
    assert_eq!(aliases.get_alias(String::from("k")), Some(&String::from("v2")));
    assert_eq!(aliases.get_alias(String::from("nope")), None);
}

#[test]
fn canonical_name_for_relative_commands() {
    let cmds = handle_commands("./run.sh a", &AliasSystem::new(), &index()).unwrap();
    let cmd = cmds.into_iter().next().unwrap();
    assert_eq!(cmd.strategy, ExecStrategy::SlashCommand);
    let found = cmd.duplicate().with_canonical_name(Some(String::from("/home/u/run.sh")));
    assert_eq!(found.command_name, "/home/u/run.sh");
    assert_eq!(found.strategy, ExecStrategy::SlashCommand);
    let missing = cmd.with_canonical_name(None);
    assert_eq!(missing.command_name, "./run.sh");
    assert_eq!(missing.strategy, ExecStrategy::Undefined);
}
