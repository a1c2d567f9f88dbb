use shiftplan::errors::ShiftError;
use shiftplan::github::GitHubClone;
use shiftplan::shift::{Cmd, CreateDir, CreateFile};
use shiftplan::world::{CmdOutcome, FsNode, World};

#[test]
fn dir_apply_is_idempotent() {
    let mut w = World::new(Vec::new());
    let d = CreateDir::new("d".to_string());
    assert!(d.apply(&mut w).is_ok());
    assert!(d.apply(&mut w).is_ok());
    assert_eq!(d.is_applied(&w).unwrap(), true);
    match w.node_at(&"d".to_string()) {
        Some(FsNode::Dir) => {}
        _ => panic!("directory missing or wrong kind"),
    }
}

#[test]
fn dir_apply_fails_on_file_in_the_way() {
    let mut w = World::new(Vec::new());
    let f = CreateFile::new("p".to_string(), "x".to_string());
    assert!(f.apply(&mut w).is_ok());
    let d = CreateDir::new("p".to_string());
    match d.apply(&mut w).unwrap_err() {
        ShiftError::AlreadyExists(m) => {
            assert_eq!(m, "Path p exists but is not a directory");
        }
        _ => panic!("expected an already-exists failure"),
    }
}

#[test]
fn dir_revert_removes_whole_tree() {
    let mut w = World::new(Vec::new());
    let d = CreateDir::new("d".to_string());
    let inner = CreateFile::new("d/x".to_string(), "payload".to_string());
    assert!(d.apply(&mut w).is_ok());
    assert!(inner.apply(&mut w).is_ok());
    assert!(d.revert(&mut w).is_ok());
    assert!(w.node_at(&"d".to_string()).is_none());
    assert!(w.node_at(&"d/x".to_string()).is_none());
}

#[test]
fn dir_revert_is_noop_when_absent_and_fails_on_file() {
    let mut w = World::new(Vec::new());
    let d = CreateDir::new("p".to_string());
    assert!(d.revert(&mut w).is_ok());
    let f = CreateFile::new("p".to_string(), "x".to_string());
    assert!(f.apply(&mut w).is_ok());
    match d.revert(&mut w).unwrap_err() {
        ShiftError::ValidationFailed(m) => assert_eq!(m, "Path p is not a directory"),
        _ => panic!("expected a validation failure"),
    }
}

#[test]
fn file_apply_twice_fails_even_with_identical_content() {
    let mut w = World::new(Vec::new());
    let f = CreateFile::new("f".to_string(), "same".to_string());
    assert!(f.apply(&mut w).is_ok());
    match f.apply(&mut w).unwrap_err() {
        ShiftError::AlreadyExists(m) => assert_eq!(m, "File f already exists"),
        _ => panic!("expected an already-exists failure"),
    }
    match w.node_at(&"f".to_string()) {
        Some(FsNode::File(c)) => assert_eq!(c.as_str(), "same"),
        _ => panic!("file missing"),
    }
}

#[test]
fn file_revert_removes_file_and_fails_on_directory() {
    let mut w = World::new(Vec::new());
    let f = CreateFile::new("p".to_string(), "x".to_string());
    assert!(f.apply(&mut w).is_ok());
    assert!(f.revert(&mut w).is_ok());
    assert!(w.node_at(&"p".to_string()).is_none());
    assert!(f.revert(&mut w).is_ok());
    let d = CreateDir::new("p".to_string());
    assert!(d.apply(&mut w).is_ok());
    match f.revert(&mut w).unwrap_err() {
        ShiftError::ValidationFailed(m) => assert_eq!(m, "Path p is not a file"),
        _ => panic!("expected a validation failure"),
    }
}

#[test]
fn command_revert_always_fails() {
    let mut w = World::new(vec![CmdOutcome::Finished(Some(0), String::new())]);
    let c = Cmd::new("true".to_string(), vec![], None, None);
    // before any apply
    match c.revert(&mut w).unwrap_err() {
        ShiftError::Custom(m) => assert_eq!(m, "Cannot automatically revert a command execution"),
        _ => panic!("expected a custom failure"),
    }
    // after a successful apply, still
    assert!(c.apply(&mut w).is_ok());
    match c.revert(&mut w).unwrap_err() {
        ShiftError::Custom(m) => assert_eq!(m, "Cannot automatically revert a command execution"),
        _ => panic!("expected a custom failure"),
    }
}

#[test]
fn command_is_applied_has_no_checkable_state() {
    let w = World::new(Vec::new());
    let c = Cmd::new("true".to_string(), vec![], None, None);
    match c.is_applied(&w).unwrap_err() {
        ShiftError::Custom(m) => assert_eq!(m, "Cannot check if a command has been applied"),
        _ => panic!("expected a custom failure"),
    }
}

#[test]
fn command_accepts_configured_exit_codes() {
    let mut w = World::new(vec![
        CmdOutcome::Finished(Some(3), String::new()),
        CmdOutcome::Finished(Some(2), "bad".to_string()),
    ]);
    let c = Cmd::new("tool".to_string(), vec![], None, Some(vec![0, 3]));
    assert!(c.apply(&mut w).is_ok());
    match c.apply(&mut w).unwrap_err() {
        ShiftError::CommandFailed(m) => {
            assert_eq!(m, "Command 'tool' failed with exit code Some(2). Stderr: bad");
        }
        _ => panic!("expected a command failure"),
    }
    assert_eq!(w.run_count(), 2);
}

#[test]
fn command_killed_by_signal_reports_no_code() {
    let mut w = World::new(vec![CmdOutcome::Finished(None, "killed".to_string())]);
    let c = Cmd::new("tool".to_string(), vec![], None, None);
    match c.apply(&mut w).unwrap_err() {
        ShiftError::CommandFailed(m) => {
            assert_eq!(m, "Command 'tool' failed with exit code None. Stderr: killed");
        }
        _ => panic!("expected a command failure"),
    }
}

#[test]
fn command_missing_code_counts_as_minus_one() {
    let mut w = World::new(vec![CmdOutcome::Finished(None, String::new())]);
    let c = Cmd::new("tool".to_string(), vec![], None, Some(vec![-1]));
    assert!(c.apply(&mut w).is_ok());
}

#[test]
fn command_launch_failure_is_an_io_error() {
    let mut w = World::new(vec![CmdOutcome::LaunchFailure("no such program".to_string())]);
    let c = Cmd::new("ghost".to_string(), vec![], None, None);
    match c.apply(&mut w).unwrap_err() {
        ShiftError::IoError(m) => assert_eq!(m, "no such program"),
        _ => panic!("expected an io failure"),
    }
    // with the script exhausted, a further run cannot launch either
    match c.apply(&mut w).unwrap_err() {
        ShiftError::IoError(m) => assert_eq!(m, "process could not be launched"),
        _ => panic!("expected an io failure"),
    }
}

#[test]
fn describe_is_stable_and_names_the_action() {
    let d = CreateDir::new("some/dir".to_string());
    assert_eq!(d.describe(), "Create directory at some/dir");
    let f = CreateFile::new("a/b.txt".to_string(), "hi".to_string());
    assert_eq!(f.describe(), "Create file at a/b.txt with specific content");
    let c = Cmd::new(
        "git".to_string(),
        vec!["clone".to_string(), "url".to_string()],
        Some("work".to_string()),
        None,
    );
    assert_eq!(
        c.describe(),
        "Execute command 'git' with args [\"clone\", \"url\"] in directory work"
    );
    let bare = Cmd::new("ls".to_string(), vec![], None, None);
    assert_eq!(bare.describe(), "Execute command 'ls' with args []");
}

#[test]
fn repo_name_is_derived_from_url() {
    let name = |url: &str| {
        GitHubClone::new(url.to_string(), "t".to_string(), None, None, None).get_repo_name()
    };
    assert_eq!(name("git@github.com:GyrosOfWar/s3-proxy.git"), "s3-proxy");
    assert_eq!(name("https://github.com/a/b"), "b");
    assert_eq!(name("noslash.git"), "noslash");
    assert_eq!(name("plain"), "plain");
    assert_eq!(name(".git"), "");
    assert_eq!(name("ends/with/slash/"), "");
}

#[test]
fn clone_plan_carries_branch_depth_and_target() {
    let clone = GitHubClone::new(
        "https://github.com/example/tool.git".to_string(),
        "dest".to_string(),
        Some("main".to_string()),
        Some(12),
        None,
    );
    let plan = clone.build_plan();
    assert_eq!(plan.name, "Clone GitHub repository tool");
    assert_eq!(
        plan.description,
        "Clone GitHub repository tool into directory dest"
    );
    assert_eq!(plan.shifts.len(), 2);
    assert_eq!(plan.shifts[0].describe(), "Create directory at dest");
    assert_eq!(
        plan.shifts[1].describe(),
        "Execute command 'git' with args [\"clone\", \"https://github.com/example/tool.git\", \
         \"--branch\", \"main\", \"--depth\", \"12\", \"dest\"] in directory dest"
    );
    assert_eq!(
        clone.describe(),
        "Clone GitHub repository tool into directory dest"
    );
}

#[test]
fn clone_plan_without_options_has_minimal_args() {
    let clone = GitHubClone::new(
        "https://github.com/example/tool".to_string(),
        "dest".to_string(),
        None,
        None,
        None,
    );
    let plan = clone.build_plan();
    assert_eq!(
        plan.shifts[1].describe(),
        "Execute command 'git' with args [\"clone\", \"https://github.com/example/tool\", \"dest\"] \
         in directory dest"
    );
}

#[test]
fn depth_renders_in_decimal() {
    let clone = GitHubClone::new(
        "u/r".to_string(),
        "d".to_string(),
        None,
        Some(0),
        None,
    );
    let plan = clone.build_plan();
    assert!(plan.shifts[1].describe().contains("\"--depth\", \"0\""));
    let big = GitHubClone::new(
        "u/r".to_string(),
        "d".to_string(),
        None,
        Some(123456),
        None,
    );
    assert!(big.build_plan().shifts[1].describe().contains("\"--depth\", \"123456\""));
}
