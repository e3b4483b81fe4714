use raccoon::cli::{Cli, Command, DiffArgs, LaunchError, LaunchTarget, OptionalPathArgs, RevisionArgs};

fn diff(staged: bool, commit: Option<&str>, args: &[&str]) -> Cli {
    Cli {
        repo: None,
        command: Some(Command::Diff(DiffArgs {
            staged,
            commit: commit.map(|c| c.as_bytes().to_vec()),
            args: args.iter().map(|a| a.as_bytes().to_vec()).collect(),
        })),
    }
}

#[test]
fn parses_direct_worktree_diff() {
    let cli = diff(false, None, &["a file.rs"]);
    assert_eq!(cli.launch_target().unwrap(), LaunchTarget::WorkingTree { path: b"a file.rs".to_vec() });
}

#[test]
fn rejects_staged_without_path() {
    let cli = diff(true, None, &[]);
    assert!(cli.launch_target().unwrap_err().message().contains("exactly one"));
}

#[test]
fn diff_arguments_name_revisions_and_paths() {
    assert_eq!(
        diff(false, None, &["main", "feature"]).launch_target().unwrap(),
        LaunchTarget::Compare { left: b"main".to_vec(), right: b"feature".to_vec(), path: None }
    );
    assert_eq!(
        diff(false, None, &["main", "feature", "src/main.rs"]).launch_target().unwrap(),
        LaunchTarget::Compare { left: b"main".to_vec(), right: b"feature".to_vec(), path: Some(b"src/main.rs".to_vec()) }
    );
    assert_eq!(
        diff(true, Some("HEAD~1"), &["x"]).launch_target().unwrap(),
        LaunchTarget::Commit { revision: b"HEAD~1".to_vec(), path: Some(b"x".to_vec()) }
    );
    assert_eq!(diff(false, Some("HEAD"), &["a", "b"]).launch_target(), Err(LaunchError::CommitTakesOnePath));
    assert_eq!(diff(false, None, &[]).launch_target(), Err(LaunchError::NothingToDiff));
    assert_eq!(
        diff(true, None, &["x"]).launch_target().unwrap(),
        LaunchTarget::Staged { path: b"x".to_vec() }
    );
}

#[test]
fn subcommands_choose_their_targets() {
    assert_eq!(Cli { repo: None, command: None }.launch_target().unwrap(), LaunchTarget::Dashboard);
    let show = Cli {
        repo: None,
        command: Some(Command::Show(RevisionArgs { revision: b"HEAD".to_vec(), path: None })),
    };
    assert_eq!(show.launch_target().unwrap(), LaunchTarget::Show { revision: b"HEAD".to_vec(), path: None });
    let history = Cli { repo: None, command: Some(Command::History(OptionalPathArgs { path: Some(b"p".to_vec()) })) };
    assert_eq!(history.launch_target().unwrap(), LaunchTarget::History { path: Some(b"p".to_vec()) });
    assert_eq!(Cli { repo: None, command: Some(Command::Branches) }.launch_target().unwrap(), LaunchTarget::Branches);
    assert_eq!(Cli { repo: None, command: Some(Command::Changes) }.launch_target().unwrap(), LaunchTarget::Changes);
}

#[test]
fn targets_name_their_revisions_and_path() {
    let compare = LaunchTarget::Compare { left: b"main".to_vec(), right: b"dev".to_vec(), path: Some(b"a.rs".to_vec()) };
    assert_eq!(compare.revisions(), vec![b"main".to_vec(), b"dev".to_vec()]);
    assert_eq!(compare.path(), Some(b"a.rs".to_vec()));
    assert_eq!(
        compare.with_path(b"src/a.rs".to_vec()),
        LaunchTarget::Compare { left: b"main".to_vec(), right: b"dev".to_vec(), path: Some(b"src/a.rs".to_vec()) }
    );
    let staged = LaunchTarget::Staged { path: b"x".to_vec() };
    assert!(staged.revisions().is_empty());
    assert_eq!(staged.with_path(b"y".to_vec()), LaunchTarget::Staged { path: b"y".to_vec() });
    assert_eq!(LaunchTarget::Branches.path(), None);
}
