use raccoon::cli::LaunchTarget;
use raccoon::git_diff::{
    cached_revisions, commit_check_arguments, diff_arguments, diff_document, new_file_arguments, resolve_arguments,
    tracked_check_arguments, untracked_candidate,
};
use raccoon::repository::{GitOutput, GitStep, Repository};

fn args(list: &[&str]) -> Vec<Vec<u8>> {
    list.iter().map(|a| a.as_bytes().to_vec()).collect()
}

fn output(success: bool, code: i32, stdout: &[u8]) -> GitOutput {
    GitOutput { success, code: Some(code), stdout: stdout.to_vec(), stderr: b"boom".to_vec() }
}

#[test]
fn diff_commands_follow_the_target() {
    assert_eq!(
        diff_arguments(&LaunchTarget::WorkingTree { path: b"a b".to_vec() }),
        Some(args(&["--no-pager", "diff", "--no-color", "--no-ext-diff", "--", "a b"]))
    );
    assert_eq!(
        diff_arguments(&LaunchTarget::Staged { path: b"x".to_vec() }),
        Some(args(&["--no-pager", "diff", "--cached", "--no-color", "--no-ext-diff", "--", "x"]))
    );
    assert_eq!(
        diff_arguments(&LaunchTarget::Show { revision: b"HEAD".to_vec(), path: Some(b"p".to_vec()) }),
        Some(args(&["--no-pager", "show", "--format=fuller", "--no-color", "--no-ext-diff", "HEAD", "--", "p"]))
    );
    assert_eq!(
        diff_arguments(&LaunchTarget::Compare { left: b"a".to_vec(), right: b"b".to_vec(), path: None }),
        Some(args(&["--no-pager", "diff", "--no-color", "--no-ext-diff", "a", "b"]))
    );
    assert_eq!(diff_arguments(&LaunchTarget::Dashboard), None);
}

#[test]
fn untracked_files_become_new_file_diffs() {
    let target = LaunchTarget::WorkingTree { path: b"new file.txt".to_vec() };
    assert_eq!(untracked_candidate(&target, &output(true, 0, b"")), Some(b"new file.txt".to_vec()));
    assert_eq!(untracked_candidate(&target, &output(true, 0, b"+x\n")), None);
    assert_eq!(tracked_check_arguments(&b"f".to_vec()), args(&["ls-files", "--error-unmatch", "--", "f"]));
    assert_eq!(
        new_file_arguments("/dev/null", &b"f".to_vec()),
        args(&["--no-pager", "diff", "--no-index", "--no-color", "--no-ext-diff", "--", "/dev/null", "f"])
    );
    let document = diff_document(&target, output(false, 1, b"+new\n")).unwrap();
    assert_eq!(document.line_text(&document.lines[0]), "+new");
    let failure = diff_document(&LaunchTarget::Staged { path: b"f".to_vec() }, output(false, 1, b"")).unwrap_err();
    assert_eq!(failure.step, GitStep::Diff);
    assert_eq!(failure.stderr, b"boom".to_vec());
}

#[test]
fn git_dir_is_the_printed_path() {
    let repo = Repository { root: b"/r".to_vec() };
    assert_eq!(repo.git_dir(&output(true, 0, b"/r/.git\n")).unwrap(), b"/r/.git".to_vec());
    assert_eq!(repo.git_dir(&output(false, 128, b"")).unwrap_err().step, GitStep::ResolveGitDir);
}

#[test]
fn fixed_revisions_key_cached_diffs() {
    let compare = LaunchTarget::Compare { left: b"main".to_vec(), right: b"dev".to_vec(), path: None };
    assert_eq!(cached_revisions(&compare), Some(vec![b"main".to_vec(), b"dev".to_vec()]));
    assert_eq!(cached_revisions(&LaunchTarget::WorkingTree { path: b"a".to_vec() }), None);
    assert_eq!(resolve_arguments(&b"main".to_vec())[3], b"main".to_vec());
    assert_eq!(commit_check_arguments(&b"HEAD~1".to_vec())[4], b"HEAD~1^{commit}".to_vec());
}

#[test]
fn loading_a_diff_is_refused_for_targets_without_one() {
    assert_eq!(
        raccoon::git_diff::diff_request(&raccoon::cli::LaunchTarget::Dashboard),
        Err("launch target does not contain a diff".to_string())
    );
    assert!(raccoon::git_diff::diff_request(&raccoon::cli::LaunchTarget::WorkingTree { path: b"a.rs".to_vec() }).is_ok());
}
