use shiftplan::errors::ShiftError;
use shiftplan::github::GitHubClone;
use shiftplan::plan::ShiftPlan;
use shiftplan::shift::{Cmd, CreateDir, CreateFile, Shift};
use shiftplan::world::{CmdOutcome, FsNode, World};

fn fresh_world() -> World {
    World::new(Vec::new())
}

#[test]
fn single_dir_plan_applies_and_reverts() {
    let mut w = fresh_world();
    let plan = ShiftPlan::new(
        "dirs".to_string(),
        "one directory".to_string(),
        vec![Shift::Dir(CreateDir::new("d".to_string()))],
    );
    assert!(plan.apply(&mut w).is_ok());
    let probe = CreateDir::new("d".to_string());
    assert_eq!(probe.is_applied(&w).unwrap(), true);
    assert!(plan.revert(&mut w).is_ok());
    assert_eq!(probe.is_applied(&w).unwrap(), false);
}

#[test]
fn duplicate_file_plan_rolls_back_everything() {
    let mut w = fresh_world();
    let plan = ShiftPlan::new(
        "files".to_string(),
        "directory with a file, then a duplicate".to_string(),
        vec![
            Shift::Dir(CreateDir::new("d".to_string())),
            Shift::File(CreateFile::new("d/x".to_string(), "A".to_string())),
            Shift::File(CreateFile::new("d/x".to_string(), "B".to_string())),
        ],
    );
    let err = plan.apply(&mut w).unwrap_err();
    match err {
        ShiftError::AlreadyExists(m) => assert_eq!(m, "File d/x already exists"),
        other => panic!("unexpected error kind: {:?}", message_of(&other)),
    }
    let dir_probe = CreateDir::new("d".to_string());
    let file_probe = CreateFile::new("d/x".to_string(), "A".to_string());
    assert_eq!(dir_probe.is_applied(&w).unwrap(), false);
    assert_eq!(file_probe.is_applied(&w).unwrap(), false);
}

fn message_of(e: &ShiftError) -> String {
    e.message().clone()
}

#[test]
fn clone_into_occupied_path_runs_no_command() {
    let mut w = World::new(vec![CmdOutcome::Finished(Some(0), String::new())]);
    let occupy = CreateFile::new("r".to_string(), "in the way".to_string());
    assert!(occupy.apply(&mut w).is_ok());
    let clone = GitHubClone::new(
        "https://github.com/example/tool.git".to_string(),
        "r".to_string(),
        None,
        None,
        None,
    );
    let err = clone.apply(&mut w).unwrap_err();
    match err {
        ShiftError::AlreadyExists(m) => {
            assert_eq!(m, "Path r exists but is not a directory");
        }
        other => panic!("unexpected error kind: {}", message_of(&other)),
    }
    assert_eq!(w.run_count(), 0);
    assert_eq!(w.pending_count(), 1);
    assert_eq!(occupy.is_applied(&w).unwrap(), true);
}

#[test]
fn failing_command_rolls_back_prefix_and_surfaces_its_error() {
    let mut w = World::new(vec![CmdOutcome::Finished(Some(1), "boom".to_string())]);
    let plan = ShiftPlan::new(
        "setup".to_string(),
        "directory then command".to_string(),
        vec![
            Shift::Dir(CreateDir::new("a".to_string())),
            Shift::Cmd(Cmd::new(
                "git".to_string(),
                vec!["status".to_string()],
                None,
                None,
            )),
        ],
    );
    let err = plan.apply(&mut w).unwrap_err();
    match err {
        ShiftError::CommandFailed(m) => {
            assert_eq!(m, "Command 'git' failed with exit code Some(1). Stderr: boom");
        }
        other => panic!("unexpected error kind: {}", message_of(&other)),
    }
    // the command ran once, and the already-applied directory was rolled back
    assert_eq!(w.run_count(), 1);
    let dir_probe = CreateDir::new("a".to_string());
    assert_eq!(dir_probe.is_applied(&w).unwrap(), false);
}

#[test]
fn successful_plan_then_revert_restores_tree() {
    let mut w = World::new(vec![CmdOutcome::Finished(Some(0), String::new())]);
    let plan = ShiftPlan::new(
        "web".to_string(),
        "project skeleton".to_string(),
        vec![
            Shift::Dir(CreateDir::new("project".to_string())),
            Shift::File(CreateFile::new(
                "project/index.html".to_string(),
                "<html></html>".to_string(),
            )),
            Shift::Cmd(Cmd::new(
                "npm".to_string(),
                vec!["init".to_string(), "-y".to_string()],
                Some("project".to_string()),
                None,
            )),
        ],
    );
    assert!(plan.apply(&mut w).is_ok());
    assert_eq!(w.run_count(), 1);
    match w.node_at(&"project/index.html".to_string()) {
        Some(FsNode::File(c)) => assert_eq!(c.as_str(), "<html></html>"),
        _ => panic!("file missing after apply"),
    }
    // revert: the command cannot be reverted, so an aggregate failure comes
    // back, but the file tree is fully restored
    let agg = plan.revert(&mut w).unwrap_err();
    assert_eq!(agg.failures.len(), 1);
    assert_eq!(
        agg.failures[0].description,
        "Execute command 'npm' with args [\"init\", \"-y\"] in directory project"
    );
    assert!(w.node_at(&"project".to_string()).is_none());
    assert!(w.node_at(&"project/index.html".to_string()).is_none());
}

#[test]
fn revert_attempts_every_shift_and_enumerates_all_failures() {
    let mut w = fresh_world();
    let plan = ShiftPlan::new(
        "cmds".to_string(),
        "two commands around a directory".to_string(),
        vec![
            Shift::Cmd(Cmd::new("first".to_string(), vec![], None, None)),
            Shift::Dir(CreateDir::new("mid".to_string())),
            Shift::Cmd(Cmd::new("second".to_string(), vec![], None, None)),
        ],
    );
    // build the directory so its revert has something to do
    let dir = CreateDir::new("mid".to_string());
    assert!(dir.apply(&mut w).is_ok());
    let agg = plan.revert(&mut w).unwrap_err();
    // both command reverts failed, in reverse plan order; the directory revert
    // in between succeeded and was still attempted
    assert_eq!(agg.failures.len(), 2);
    assert_eq!(
        agg.failures[0].description,
        "Execute command 'second' with args []"
    );
    assert_eq!(
        agg.failures[1].description,
        "Execute command 'first' with args []"
    );
    assert_eq!(
        message_of(&agg.failures[0].error),
        "Cannot automatically revert a command execution"
    );
    assert_eq!(dir.is_applied(&w).unwrap(), false);
}

#[test]
fn aggregate_collects_failures_of_different_kinds() {
    let mut w = World::new(Vec::new());
    // put a directory where the plan's file shift expects a file
    let blocker = CreateDir::new("p".to_string());
    assert!(blocker.apply(&mut w).is_ok());
    let plan = ShiftPlan::new(
        "mixed".to_string(),
        "a file shift and a command".to_string(),
        vec![
            Shift::File(CreateFile::new("p".to_string(), "x".to_string())),
            Shift::Cmd(Cmd::new("tool".to_string(), vec![], None, None)),
        ],
    );
    let agg = plan.revert(&mut w).unwrap_err();
    assert_eq!(agg.failures.len(), 2);
    assert_eq!(
        message_of(&agg.failures[0].error),
        "Cannot automatically revert a command execution"
    );
    assert_eq!(message_of(&agg.failures[1].error), "Path p is not a file");
    assert_eq!(
        agg.failures[1].description,
        "Create file at p with specific content"
    );
    // the blocking directory was not touched
    assert_eq!(blocker.is_applied(&w).unwrap(), true);
}

#[test]
fn empty_plan_applies_and_reverts_cleanly() {
    let mut w = fresh_world();
    let plan = ShiftPlan::new("empty".to_string(), "nothing".to_string(), vec![]);
    assert!(plan.apply(&mut w).is_ok());
    assert!(plan.revert(&mut w).is_ok());
}

#[test]
fn composite_clone_applies_and_reverts() {
    let mut w = World::new(vec![CmdOutcome::Finished(Some(0), String::new())]);
    let clone = GitHubClone::new(
        "https://github.com/example/tool.git".to_string(),
        "tool".to_string(),
        Some("main".to_string()),
        Some(1),
        None,
    );
    assert!(clone.apply(&mut w).is_ok());
    assert_eq!(clone.is_applied(&w).unwrap(), true);
    assert_eq!(w.run_count(), 1);
    // reverting folds the unrevertible inner command into one custom failure
    // that names it, and still removes the target directory
    let err = clone.revert(&mut w).unwrap_err();
    match err {
        ShiftError::Custom(m) => {
            assert!(m.starts_with("Failed to revert some shifts: Execute command 'git'"));
        }
        other => panic!("unexpected error kind: {}", message_of(&other)),
    }
    assert_eq!(clone.is_applied(&w).unwrap(), false);
}

#[test]
fn clone_command_failure_rolls_back_target_directory() {
    let mut w = World::new(vec![CmdOutcome::Finished(Some(128), "fatal: bad url".to_string())]);
    let clone = GitHubClone::new(
        "https://github.com/example/tool.git".to_string(),
        "tool".to_string(),
        None,
        None,
        None,
    );
    let err = clone.apply(&mut w).unwrap_err();
    match err {
        ShiftError::CommandFailed(m) => assert!(m.contains("Some(128)") && m.contains("fatal: bad url")),
        other => panic!("unexpected error kind: {}", message_of(&other)),
    }
    assert_eq!(clone.is_applied(&w).unwrap(), false);
    assert_eq!(w.run_count(), 1);
}
