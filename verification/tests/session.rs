use raccoon::cli::LaunchTarget;
use raccoon::config::{AppConfig, ConfigPaths};
use raccoon::dashboard::{BranchEntry, ChangeEntry, ChangeKind, CommitEntry, DashboardData};
use raccoon::diff::DiffDocument;
use raccoon::session::{decimal, Key, Session};
use raccoon::worker::{GitCommand, GitPayload};
use raccoon::state::Screen;
use raccoon::theme::{LoadedTheme, ThemeCatalog};
use raccoon::viewer::{DashboardPage, Focus};

fn loaded() -> LoadedTheme {
    LoadedTheme::load(ConfigPaths::from_root(b"/c"), ThemeCatalog::bundled(), Ok(AppConfig::default()))
}

fn change(path: &str, kind: ChangeKind) -> ChangeEntry {
    ChangeEntry { path: path.as_bytes().to_vec(), kind }
}

fn branch(name: &str, current: bool) -> BranchEntry {
    BranchEntry { name: name.as_bytes().to_vec(), short_id: "1234567".to_string(), subject: "s".to_string(), current }
}

fn data() -> DashboardData {
    DashboardData {
        commits: vec![CommitEntry {
            id: b"0123456789abcdef".to_vec(),
            short_id: "0123456".to_string(),
            author: "Ann".to_string(),
            date: "2024-01-01".to_string(),
            subject: "first".to_string(),
        }],
        branches: vec![branch("dev", false), branch("main", true)],
        staged: vec![change("s.rs", ChangeKind::Added)],
        unstaged: vec![change("u.rs", ChangeKind::Modified), change("n.rs", ChangeKind::Untracked)],
    }
}

fn request_id(r: &GitCommand) -> u64 {
    match r {
        GitCommand::Dashboard { request_id, .. }
        | GitCommand::Diff { request_id, .. }
        | GitCommand::CommitFiles { request_id, .. }
        | GitCommand::DiscardWorkingTree { request_id } => *request_id,
    }
}

fn started_dashboard() -> Session {
    let (mut session, first) = Session::start(&LaunchTarget::Dashboard, &loaded());
    assert!(matches!(first, GitCommand::Dashboard { request_id: 1, history_path: None }));
    let outcome = session.git_response(1, Ok(GitPayload::Dashboard(data())));
    assert!(outcome.handled);
    let request = outcome.request.expect("the selected change is previewed");
    match &request {
        GitCommand::Diff { target, .. } => assert_eq!(target, &LaunchTarget::WorkingTree { path: b"n.rs".to_vec() }),
        other => panic!("unexpected request {other:?}"),
    }
    session
}

#[test]
fn startup_asks_for_the_dashboard_or_the_diff() {
    let (session, first) = Session::start(&LaunchTarget::Staged { path: b"x".to_vec() }, &loaded());
    match first {
        GitCommand::Diff { request_id, target } => {
            assert_eq!(request_id, 1);
            assert_eq!(target, LaunchTarget::Staged { path: b"x".to_vec() });
        }
        other => panic!("unexpected request {other:?}"),
    }
    assert_eq!(session.requests.diff, Some(1));
    assert_eq!(session.themes[session.overlay.theme_index].name, "Night Owl");
    assert!(matches!(session.state.screen, Screen::Diff { direct: true, .. }));
}

#[test]
fn dashboard_data_selects_the_current_branch_and_previews_a_change() {
    let session = started_dashboard();
    assert_eq!(session.state.branch_selection, 1);
    assert_eq!(session.state.focus, Focus::Unstaged);
    assert!(session.requests.diff.is_some());
    assert_eq!(session.requests.dashboard, None);
}

#[test]
fn the_diff_answer_is_kept_and_highlighted() {
    let mut session = started_dashboard();
    let id = session.requests.diff.unwrap();
    let document = DiffDocument::parse(b"+n\n".to_vec());
    let outcome = session.git_response(id, Ok(GitPayload::Diff(document)));
    assert_eq!(outcome.highlight, Some(id));
    assert!(session.state.diff.is_some());
    assert!(session.highlight_response(id, Err("broken".to_string())));
    assert_eq!(session.preview.highlight_message.as_deref(), Some("Syntax highlighting unavailable: broken"));
    assert!(!session.git_response(999, Err("late".to_string())).handled);
}

#[test]
fn keys_move_the_selection_and_open_diffs() {
    let mut session = started_dashboard();
    let id = session.requests.diff.unwrap();
    session.git_response(id, Ok(GitPayload::Diff(DiffDocument::parse(b"+n\n".to_vec()))));
    let outcome = session.handle_key(Key::Char('j'));
    assert!(outcome.handled);
    assert_eq!(session.state.unstaged_selection, 1);
    assert!(outcome.request.is_some());
    let enter = session.handle_key(Key::Enter);
    assert!(matches!(enter.request, Some(GitCommand::Diff { .. })));
    assert!(matches!(session.state.screen, Screen::Diff { direct: false, .. }));
    assert!(!session.handle_key(Key::Char('z')).handled);
    assert!(session.handle_key(Key::Char('q')).quit);
}

#[test]
fn branch_picker_compares_two_branches() {
    let mut session = started_dashboard();
    assert!(session.handle_key(Key::Char('b')).handled);
    assert!(session.state.branch_picker);
    session.handle_key(Key::Up);
    assert_eq!(session.state.branch_selection, 0);
    session.handle_key(Key::Char('c'));
    assert_eq!(session.overlay.comparison_base, Some(b"dev".to_vec()));
    session.handle_key(Key::Down);
    let outcome = session.handle_key(Key::Char('c'));
    match outcome.request {
        Some(GitCommand::Diff { target, .. }) => assert_eq!(
            target,
            LaunchTarget::Compare { left: b"dev".to_vec(), right: b"main".to_vec(), path: None }
        ),
        other => panic!("unexpected request {other:?}"),
    }
    assert!(!session.state.branch_picker);
}

#[test]
fn discarding_needs_confirmation_and_reloads_the_dashboard() {
    let mut session = started_dashboard();
    let diff_id = session.requests.diff.unwrap();
    session.git_response(diff_id, Err("no diff".to_string()));
    assert_eq!(session.preview.diff_error.as_deref(), Some("no diff"));
    assert!(session.handle_key(Key::Char('D')).handled);
    assert!(session.overlay.discard_confirmation);
    let confirm = session.handle_key(Key::Char('y'));
    let discard = confirm.request.expect("discard is asked for");
    assert!(matches!(discard, GitCommand::DiscardWorkingTree { .. }));
    let reload = session.git_response(request_id(&discard), Ok(GitPayload::DiscardedWorkingTree));
    assert!(matches!(reload.request, Some(GitCommand::Dashboard { .. })));
}

#[test]
fn history_page_loads_commit_files_and_copies_ids() {
    let mut session = started_dashboard();
    let outcome = session.handle_key(Key::Char('h'));
    assert_eq!(session.state.dashboard_page, DashboardPage::History);
    let request = outcome.request.expect("commit files are asked for");
    match &request {
        GitCommand::CommitFiles { revision, .. } => assert_eq!(revision, &b"0123456789abcdef".to_vec()),
        other => panic!("unexpected request {other:?}"),
    }
    let files = vec![change("a.rs", ChangeKind::Modified)];
    session.git_response(
        request_id(&request),
        Ok(GitPayload::CommitFiles { revision: b"0123456789abcdef".to_vec(), files }),
    );
    assert_eq!(session.state.commit_files.len(), 1);
    assert!(!session.state.commit_files_loading);
    let copy = session.handle_key(Key::Char('y'));
    assert_eq!(copy.copy_commit, Some((b"0123456789abcdef".to_vec(), "0123456".to_string())));
}

#[test]
fn search_prompt_edits_the_query_and_reports_matches() {
    let (mut session, first) = Session::start(&LaunchTarget::WorkingTree { path: b"f".to_vec() }, &loaded());
    session.git_response(request_id(&first), Ok(GitPayload::Diff(DiffDocument::parse(b"@@ -1 +1 @@\n-Old\n+new\n".to_vec()))));
    session.handle_key(Key::Char('/'));
    assert!(session.overlay.search_input);
    for c in "nex".chars() {
        session.handle_key(Key::Char(c));
    }
    session.handle_key(Key::Backspace);
    session.handle_key(Key::Char('W'));
    assert_eq!(session.state.search_query, "neW");
    session.handle_key(Key::Enter);
    assert!(!session.overlay.search_input);
    assert_eq!(session.state.search_matches, vec![2]);
    assert_eq!(session.preview.highlight_message.as_deref(), Some("1 search match(es) for \u{201c}neW\u{201d}"));
}

#[test]
fn theme_picker_saves_the_chosen_theme() {
    let mut session = started_dashboard();
    session.handle_key(Key::Char('t'));
    assert!(session.overlay.theme_picker);
    session.handle_key(Key::Down);
    let enter = session.handle_key(Key::Enter);
    assert_eq!(enter.save_theme.as_deref(), Some("Night Owl"));
    session.theme_saved(Ok(()));
    assert!(!session.overlay.theme_picker);
    assert_eq!(session.overlay.theme_message.as_deref(), Some("Selected theme: Night Owl"));
}

#[test]
fn refresh_reloads_what_is_shown() {
    let mut session = started_dashboard();
    let id = session.requests.diff.unwrap();
    session.git_response(id, Ok(GitPayload::Diff(DiffDocument::parse(b"+n\n".to_vec()))));
    assert!(session.idle());
    let requests = session.realtime_refresh();
    assert_eq!(requests.len(), 1);
    assert!(matches!(requests[0], GitCommand::Dashboard { .. }));
    assert!(!session.idle());
    assert!(session.loading());
}

#[test]
fn numbers_print_in_decimal() {
    assert_eq!(decimal(0), "0");
    assert_eq!(decimal(7), "7");
    assert_eq!(decimal(1203), "1203");
    assert_eq!(decimal(usize::MAX), usize::MAX.to_string());
}

#[test]
fn history_path_limits_the_dashboard_and_commit_files() {
    let target = LaunchTarget::History { path: Some(b"src".to_vec()) };
    let (mut session, first) = Session::start(&target, &loaded());
    match &first {
        GitCommand::Dashboard { request_id, history_path } => {
            assert_eq!(*request_id, 1);
            assert_eq!(history_path, &Some(b"src".to_vec()));
        }
        other => panic!("unexpected request {other:?}"),
    }
    let outcome = session.git_response(1, Ok(GitPayload::Dashboard(data())));
    match outcome.request {
        Some(GitCommand::CommitFiles { revision, path, .. }) => {
            assert_eq!(revision, b"0123456789abcdef".to_vec());
            assert_eq!(path, Some(b"src".to_vec()));
        }
        other => panic!("unexpected request {other:?}"),
    }
}

#[test]
fn keys_and_answers_keep_the_session_ready() {
    let mut session = started_dashboard();
    assert!(session.is_ready());
    for key in [Key::Char('y'), Key::Enter, Key::Char('t'), Key::Down, Key::Esc, Key::Tab, Key::Char('b'), Key::Esc] {
        let outcome = session.handle_key(key);
        assert!(!matches!(outcome.request, Some(GitCommand::DiscardWorkingTree { .. })));
        assert!(session.is_ready());
    }
    let id = session.requests.next_id;
    session.git_response(id, Ok(GitPayload::DiscardedWorkingTree));
    assert!(session.is_ready());
}

#[test]
fn r_reloads_the_dashboard_and_arrows_move_the_focus() {
    let mut session = started_dashboard();
    let next = session.requests.next_id;
    let outcome = session.handle_key(Key::Char('r'));
    match outcome.request {
        Some(GitCommand::Dashboard { request_id, history_path }) => {
            assert_eq!(request_id, next);
            assert_eq!(history_path, None);
        }
        other => panic!("unexpected request {other:?}"),
    }
    assert_eq!(session.requests.dashboard, Some(next));
    assert_eq!(session.requests.next_id, next + 1);
    let before = session.state.focus;
    assert!(session.handle_key(Key::Right).handled);
    assert_ne!(session.state.focus, before);
    assert!(session.handle_key(Key::Left).handled);
}

#[test]
fn leaving_a_direct_diff_loads_the_dashboard() {
    let (mut session, first) = Session::start(&LaunchTarget::Staged { path: b"x".to_vec() }, &loaded());
    session.git_response(request_id(&first), Ok(GitPayload::Diff(DiffDocument::parse(b"+n\n".to_vec()))));
    let next = session.requests.next_id;
    let outcome = session.handle_key(Key::Esc);
    assert!(matches!(outcome.request, Some(GitCommand::Dashboard { request_id, .. }) if request_id == next));
    assert!(matches!(session.state.screen, Screen::Dashboard));
    assert_eq!(session.requests.dashboard, Some(next));
    session.commit_copied("0123456", Ok(()));
    assert_eq!(session.overlay.theme_message.as_deref(), Some("Copied commit SHA: 0123456"));
    session.commit_copied("0123456", Err("no terminal".to_string()));
    assert_eq!(session.overlay.theme_message.as_deref(), Some("Could not copy commit SHA: no terminal"));
}
