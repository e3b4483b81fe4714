use raccoon::dashboard::{
    load, load_branches, load_history, load_status, parse_status, status_kind, trim_ascii, ChangeKind,
};
use raccoon::repository::{GitOutput, GitStep};

fn ok(stdout: &[u8]) -> GitOutput {
    GitOutput { success: true, code: Some(0), stdout: stdout.to_vec(), stderr: Vec::new() }
}

fn failed(stderr: &[u8]) -> GitOutput {
    GitOutput { success: false, code: Some(128), stdout: Vec::new(), stderr: stderr.to_vec() }
}

#[test]
fn maps_status_codes() {
    assert_eq!(status_kind(b'A'), ChangeKind::Added);
    assert_eq!(status_kind(b'R'), ChangeKind::Renamed);
    assert_eq!(status_kind(b'?'), ChangeKind::Untracked);
}

#[test]
fn every_status_letter_has_its_kind() {
    assert_eq!(status_kind(b'M'), ChangeKind::Modified);
    assert_eq!(status_kind(b'D'), ChangeKind::Deleted);
    assert_eq!(status_kind(b'C'), ChangeKind::Copied);
    assert_eq!(status_kind(b'T'), ChangeKind::TypeChanged);
    assert_eq!(status_kind(b'U'), ChangeKind::Unmerged);
    assert_eq!(status_kind(b'x'), ChangeKind::Unknown);
}

#[test]
fn splits_status_into_staged_and_unstaged() {
    let (staged, unstaged) =
        parse_status(b"M  staged.txt\0 M tracked file.txt\0?? untracked.txt\0R  new.txt\0old.txt\0MM both\0x\0");
    let staged: Vec<_> = staged.into_iter().map(|c| (c.path, c.kind)).collect();
    let unstaged: Vec<_> = unstaged.into_iter().map(|c| (c.path, c.kind)).collect();
    assert_eq!(
        staged,
        vec![
            (b"staged.txt".to_vec(), ChangeKind::Modified),
            (b"new.txt".to_vec(), ChangeKind::Renamed),
            (b"both".to_vec(), ChangeKind::Modified),
        ]
    );
    assert_eq!(
        unstaged,
        vec![
            (b"tracked file.txt".to_vec(), ChangeKind::Modified),
            (b"untracked.txt".to_vec(), ChangeKind::Untracked),
            (b"both".to_vec(), ChangeKind::Modified),
        ]
    );
}

#[test]
fn trims_one_line_end() {
    assert_eq!(trim_ascii(b"main\r\n"), b"main".to_vec());
    assert_eq!(trim_ascii(b"main\n\n"), b"main\n".to_vec());
    assert_eq!(trim_ascii(b"main"), b"main".to_vec());
}

#[test]
fn reads_history_and_branches() {
    let history = ok(b"aaaa\0aa\0Ann\02024-01-02\0first\n\0\nbbbb\0bb\0Bob\02024-01-03\0second\0");
    let commits = load_history(&history).unwrap();
    assert_eq!(commits.len(), 2);
    assert_eq!(commits[1].id, b"bbbb".to_vec());
    assert_eq!(commits[0].subject, "first");
    assert_eq!(commits[1].author, "Bob");

    let branches = load_branches(&ok(b"main\n"), &ok(b"dev\0d1\0work\0\nmain\0m1\0init\0")).unwrap();
    assert_eq!(branches.len(), 2);
    assert!(!branches[0].current);
    assert!(branches[1].current);
    assert_eq!(branches[1].name, b"main".to_vec());
    let detached = load_branches(&failed(b"fatal"), &ok(b"main\0m1\0init\0")).unwrap();
    assert!(!detached[0].current);
}

#[test]
fn unborn_history_is_empty_and_other_failures_are_errors() {
    let unborn = failed(b"fatal: your current branch 'main' does not have any commits yet\n");
    assert_eq!(load_history(&unborn).unwrap().len(), 0);
    let broken = load_history(&failed(b"fatal: bad object")).unwrap_err();
    assert_eq!(broken.step, GitStep::LoadHistory);
    assert_eq!(broken.stderr, b"fatal: bad object".to_vec());
    assert_eq!(load_status(&failed(b"no")).unwrap_err().step, GitStep::LoadStatus);
    assert_eq!(load_branches(&ok(b""), &failed(b"no")).unwrap_err().step, GitStep::LoadBranches);
}

#[test]
fn dashboard_collects_every_list() {
    let data = load(
        &ok(b"aaaa\0aa\0Ann\02024-01-02\0first\0"),
        &ok(b"main\n"),
        &ok(b"main\0m1\0init\0"),
        &ok(b"A  added.txt\0?? new.txt\0"),
    )
    .unwrap();
    assert_eq!(data.commits.len(), 1);
    assert_eq!(data.branches.len(), 1);
    assert_eq!(data.staged.len(), 1);
    assert_eq!(data.unstaged.len(), 1);
    let failure = load(&ok(b""), &ok(b""), &failed(b"refs"), &failed(b"status")).unwrap_err();
    assert_eq!(failure.step, GitStep::LoadBranches);
    assert_eq!(GitStep::LoadBranches.action(), "load branches");
}

#[test]
fn reads_the_files_of_a_commit() {
    let files = raccoon::dashboard::parse_commit_files(b"M\0src/a.rs\0R100\0old.rs\0new.rs\0\0A\0b.txt\0D");
    let views: Vec<(Vec<u8>, ChangeKind)> = files.into_iter().map(|f| (f.path, f.kind)).collect();
    assert_eq!(
        views,
        vec![
            (b"src/a.rs".to_vec(), ChangeKind::Modified),
            (b"new.rs".to_vec(), ChangeKind::Renamed),
            (b"b.txt".to_vec(), ChangeKind::Added),
        ]
    );
    let failed = GitOutput { success: false, code: Some(128), stdout: Vec::new(), stderr: b"bad revision".to_vec() };
    let error = raccoon::dashboard::load_commit_files(&failed).unwrap_err();
    assert_eq!(error.step, GitStep::LoadCommitFiles);
    assert_eq!(error.step.action(), "load commit files");
}

#[test]
fn history_and_commit_file_commands_take_the_path() {
    let history = raccoon::dashboard::history_arguments(&Some(b"src".to_vec()));
    assert_eq!(history.len(), 8);
    assert_eq!(history[1], b"log".to_vec());
    assert_eq!(history[6], b"--".to_vec());
    assert_eq!(history[7], b"src".to_vec());
    let files = raccoon::dashboard::commit_files_arguments(&b"abc".to_vec(), &None);
    assert_eq!(files.len(), 7);
    assert_eq!(files[0], b"diff-tree".to_vec());
    assert_eq!(files[6], b"abc".to_vec());
}
