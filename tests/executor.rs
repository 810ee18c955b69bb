use civa::alias::AliasSystem;
use civa::command::{BuiltinError, Command, ExecStrategy, PipeType};
use civa::env::EnvManager;
use civa::executor::{group_commands, Executor, GroupPlan, Outcome};
use civa::handler::handle_commands;

fn index() -> EnvManager {
    EnvManager::from_candidates(vec![
        (String::from("ls"), String::from("/bin/ls")),
        (String::from("echo"), String::from("/bin/echo")),
        (String::from("cat"), String::from("/bin/cat")),
    ])
}

fn command(name: &str, args: &[&str], strategy: ExecStrategy, pipe_type: PipeType) -> Command {
    Command {
        command_name: String::from(name),
        arguments: args.iter().map(|a| String::from(*a)).collect(),
        strategy,
        pipe_type,
    }
}

#[test]
fn pipe_consumer_test() {
    let cmds = vec![
        command("ls", &["-a", "."], ExecStrategy::PathCommand, PipeType::PassesOutput),
        command("cat", &[], ExecStrategy::PathCommand, PipeType::ReceivesInput),
    ];
    let executor = Executor::new(&cmds);
    match executor.next_plan() {
        Some(GroupPlan::Processes(stages)) => {
            assert_eq!(stages.len(), 2);
            assert_eq!(stages[0].program, "ls");
            assert_eq!(stages[0].arguments, vec!["-a", "."]);
            assert!(!stages[0].stdin_from_previous);
            assert!(stages[0].stdout_piped);
            assert_eq!(stages[1].program, "cat");
            assert!(stages[1].stdin_from_previous);
            assert!(!stages[1].stdout_piped);
        }
        _ => panic!("expected a process plan"),
    }
}

#[test]
fn pipe_ls() {
    let cmds = vec![
        command("ls", &["-a", "."], ExecStrategy::PathCommand, PipeType::PassesOutput),
        command("ls", &[], ExecStrategy::PathCommand, PipeType::ReceivesInput),
    ];
    let groups = group_commands(&cmds);
    assert_eq!(groups.len(), 1);
    assert_eq!(groups[0].len(), 2);
}

#[test]
fn pipeline_status_is_the_last_stage_code() {
    let cmds = handle_commands("ls -a . | cat", &AliasSystem::new(), &index()).unwrap();
    let mut executor = Executor::new(&cmds);
    assert_eq!(executor.status().code, -1);
    match executor.next_plan() {
        Some(GroupPlan::Processes(stages)) => {
            assert_eq!(stages.len(), 2);
            assert_eq!(stages[0].program, "/bin/ls");
            assert_eq!(stages[1].program, "/bin/cat");
        }
        _ => panic!("expected a process plan"),
    }
    assert!(executor.record(Outcome::Exited(3)).is_none());
    assert!(executor.is_done());
    assert_eq!(executor.status().code, 3);
    assert!(executor.next_plan().is_none());
}

#[test]
fn failing_group_does_not_stop_the_line() {
    let cmds = handle_commands("doesnotexist ; echo hi", &AliasSystem::new(), &index()).unwrap();
    let mut executor = Executor::new(&cmds);
    match executor.next_plan() {
        Some(GroupPlan::NotFound(e)) => assert_eq!(e.kind, "command_not_found"),
        _ => panic!("expected a not-found plan"),
    }
    let err = executor.record(Outcome::NotRun).unwrap();
    assert_eq!(err.kind, "command_not_found");
    assert_eq!(err.message, "Could not find command doesnotexist");
    assert_eq!(executor.status().code, -1);
    match executor.next_plan() {
        Some(GroupPlan::Processes(stages)) => {
            assert_eq!(stages.len(), 1);
            assert_eq!(stages[0].program, "/bin/echo");
            assert_eq!(stages[0].arguments, vec!["hi"]);
            assert!(!stages[0].stdin_from_previous);
            assert!(!stages[0].stdout_piped);
        }
        _ => panic!("expected a process plan"),
    }
    assert!(executor.record(Outcome::Exited(0)).is_none());
    assert_eq!(executor.status().code, 0);
    assert!(executor.is_done());
}

#[test]
fn builtin_group_runs_in_the_shell() {
    let cmds = handle_commands("cd /tmp", &AliasSystem::new(), &index()).unwrap();
    let mut executor = Executor::new(&cmds);
    match executor.next_plan() {
        Some(GroupPlan::Builtin(c)) => assert_eq!(c.command_name, "cd"),
        _ => panic!("expected a builtin plan"),
    }
    let err = executor
        .record(Outcome::BuiltinFailed(BuiltinError {
            kind: String::from("Builtin:cd"),
            message: String::from("Could not execute cd command"),
        }))
        .unwrap();
    assert_eq!(err.to_message(), "kind: Builtin:cd, msg: Could not execute cd command");
    assert_eq!(executor.status().code, -1);
}

#[test]
fn spawn_and_wait_failures_are_reported() {
    let cmds = handle_commands("ls | cat ; ls ; /bin/ls", &AliasSystem::new(), &index()).unwrap();
    let mut executor = Executor::new(&cmds);
    let err = executor.record(Outcome::SpawnFailed { stage: 1, missing: true }).unwrap();
    assert_eq!(err.kind, "command_not_found");
    assert_eq!(err.message, "Could not find command /bin/cat");
    let err = executor.record(Outcome::SpawnFailed { stage: 0, missing: false }).unwrap();
    assert_eq!(err.kind, "spawn_failed");
    assert_eq!(err.message, "Could not start command /bin/ls");
    let err = executor.record(Outcome::WaitFailed).unwrap();
    assert_eq!(err.kind, "wait_failed");
    assert_eq!(executor.status().code, -1);
}

#[test]
fn undefined_stage_spawns_nothing() {
    let cmds = handle_commands("ls | nothing | cat", &AliasSystem::new(), &index()).unwrap();
    let executor = Executor::new(&cmds);
    match executor.next_plan() {
        Some(GroupPlan::NotFound(e)) => assert_eq!(e.message, "Could not find command nothing"),
        _ => panic!("expected a not-found plan"),
    }
}

#[test]
fn empty_line_has_nothing_to_run() {
    let cmds = handle_commands("  ;  ", &AliasSystem::new(), &index()).unwrap();
    assert!(cmds.is_empty());
    let executor = Executor::new(&cmds);
    assert!(executor.is_done());
    assert_eq!(executor.status().code, -1);
}

#[test]
fn lone_first_stage_runs_alone() {
    let cmds = vec![command("ls", &[], ExecStrategy::PathCommand, PipeType::PassesOutput)];
    let executor = Executor::new(&cmds);
    match executor.next_plan() {
        Some(GroupPlan::Processes(stages)) => {
            assert_eq!(stages.len(), 1);
            assert!(!stages[0].stdin_from_previous);
            assert!(!stages[0].stdout_piped);
        }
        _ => panic!("expected a process plan"),
    }
}
