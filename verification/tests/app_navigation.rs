use raccoon::change_tree::{selected_tree_entry, selected_tree_entry_index, tree_selection_for_entry};
use raccoon::cli::LaunchTarget;
use raccoon::dashboard::{ChangeEntry, ChangeKind, CommitEntry, DashboardData};
use raccoon::diff::{DiffDocument, LineKind};
use raccoon::state::{AppState, Screen};
use raccoon::viewer::{
    line_numbers,
    diff_content_offset, diff_scroll_start, is_visible_diff_line, move_diff_scroll, next_changes_focus,
    next_file, next_hunk, previous_file, previous_hunk, DashboardPage, Focus,
};

fn change(path: &str) -> ChangeEntry {
    ChangeEntry { path: path.as_bytes().to_vec(), kind: ChangeKind::Modified }
}

#[test]
fn tree_selection_follows_visual_directory_order() {
    let entries = [change("README.md"), change("src/lib.rs"), change("src/app.rs"), change("assets/icon.svg")];

    let ordered = (0..entries.len())
        .map(|selection| selected_tree_entry(&entries, selection).unwrap().path.clone())
        .collect::<Vec<_>>();

    assert_eq!(
        ordered,
        ["assets/icon.svg", "src/app.rs", "src/lib.rs", "README.md"].map(|p| p.as_bytes().to_vec())
    );
    assert_eq!(tree_selection_for_entry(&entries, 0), Some(3));
    assert_eq!(tree_selection_for_entry(&entries, 2), Some(1));
}

#[test]
fn hides_redundant_raw_patch_headers() {
    assert!(!is_visible_diff_line(LineKind::FileHeader));
    assert!(!is_visible_diff_line(LineKind::HunkHeader));
    assert!(!is_visible_diff_line(LineKind::Metadata));
    assert!(!is_visible_diff_line(LineKind::NoNewline));
    assert!(is_visible_diff_line(LineKind::Addition));
    assert!(is_visible_diff_line(LineKind::Context));
}

#[test]
fn removes_patch_markers_from_rendered_code() {
    assert_eq!(diff_content_offset(LineKind::Addition, "+new"), 1);
    assert_eq!(diff_content_offset(LineKind::Deletion, "-old"), 1);
    assert_eq!(diff_content_offset(LineKind::Context, " same"), 1);
    assert_eq!(diff_content_offset(LineKind::Binary, "Binary files differ"), 0);
}

#[test]
fn tab_cycles_unstaged_staged_and_diff() {
    let (focus, source) = next_changes_focus(Focus::Unstaged, Focus::Unstaged, true, true);
    assert_eq!((focus, source), (Focus::Staged, Focus::Staged));

    let (focus, source) = next_changes_focus(focus, source, true, true);
    assert_eq!((focus, source), (Focus::Diff, Focus::Staged));

    let (focus, source) = next_changes_focus(focus, source, true, true);
    assert_eq!((focus, source), (Focus::Unstaged, Focus::Unstaged));
}

#[test]
fn tab_skips_empty_change_lists() {
    let (focus, source) = next_changes_focus(Focus::Staged, Focus::Staged, true, false);
    assert_eq!((focus, source), (Focus::Diff, Focus::Staged));
    let (focus, source) = next_changes_focus(focus, source, true, false);
    assert_eq!((focus, source), (Focus::Staged, Focus::Staged));

    let (focus, source) = next_changes_focus(Focus::Unstaged, Focus::Unstaged, false, true);
    assert_eq!((focus, source), (Focus::Diff, Focus::Unstaged));
    let (focus, source) = next_changes_focus(focus, source, false, true);
    assert_eq!((focus, source), (Focus::Unstaged, Focus::Unstaged));
}

#[test]
fn tab_returns_to_an_available_file_list_after_live_update() {
    assert_eq!(next_changes_focus(Focus::Diff, Focus::Staged, false, true), (Focus::Unstaged, Focus::Unstaged));
    assert_eq!(next_changes_focus(Focus::Diff, Focus::Unstaged, true, false), (Focus::Staged, Focus::Staged));
}

fn scroll_document() -> DiffDocument {
    DiffDocument::parse(
        b"diff --git a/a b/a\nindex 1..2 100644\n--- a/a\n+++ b/a\n@@ -1,2 +1,2 @@\n-old\n+new\n same\n".to_vec(),
    )
}

#[test]
fn diff_scrolling_counts_only_visible_lines() {
    let document = scroll_document();

    assert_eq!(move_diff_scroll(Some(&document), 0, 1), 6);
    assert_eq!(move_diff_scroll(Some(&document), 6, -1), 5);
    assert_eq!(move_diff_scroll(Some(&document), 0, 20), 7);
    assert_eq!(diff_scroll_start(&document, usize::MAX, 2), 6);
}

#[test]
fn scrolling_down_then_up_returns_to_the_same_drawn_line() {
    let document = scroll_document();
    let down = move_diff_scroll(Some(&document), 5, 2);
    assert_eq!(down, 7);
    assert_eq!(move_diff_scroll(Some(&document), down, -2), 5);
    assert_eq!(move_diff_scroll(None, 3, 2), 3);
}

#[test]
fn scrolling_lands_on_a_drawn_line() {
    let document = scroll_document();
    for start in 0..10 {
        for delta in [-3isize, -1, 0, 1, 3] {
            let line = move_diff_scroll(Some(&document), start, delta);
            assert!(is_visible_diff_line(document.lines[line].kind));
        }
    }
}

#[test]
fn jumps_between_hunks_and_files() {
    let document = DiffDocument::parse(
        b"diff --git a/a b/a\n--- a/a\n+++ b/a\n@@ -1 +1 @@\n-x\n+y\n@@ -5 +5 @@\n-p\n+q\ndiff --git a/b b/b\n--- a/b\n+++ b/b\n@@ -1 +1 @@\n-m\n+n\n"
            .to_vec(),
    );
    assert_eq!(next_hunk(Some(&document), 0), 3);
    assert_eq!(next_hunk(Some(&document), 3), 6);
    assert_eq!(previous_hunk(Some(&document), 6), 3);
    assert_eq!(previous_hunk(Some(&document), 3), 3);
    assert_eq!(next_file(Some(&document), 0), 9);
    assert_eq!(next_file(Some(&document), 9), 9);
    assert_eq!(previous_file(Some(&document), 9), 0);
    assert_eq!(next_hunk(None, 4), 4);
}

#[test]
fn tree_selection_and_entry_index_undo_each_other() {
    let entries = [change("b/z.rs"), change("a.rs"), change("b/a.rs"), change("c/d/e.rs")];
    for selection in 0..entries.len() {
        let index = selected_tree_entry_index(&entries, selection).unwrap();
        assert_eq!(tree_selection_for_entry(&entries, index), Some(selection));
    }
    assert_eq!(selected_tree_entry_index(&entries, entries.len()), None);
}

fn data(staged: &[&str], unstaged: &[&str]) -> DashboardData {
    DashboardData {
        commits: vec![CommitEntry {
            id: b"abc".to_vec(),
            short_id: "abc".to_string(),
            author: "A".to_string(),
            date: "2024-01-01".to_string(),
            subject: "first".to_string(),
        }],
        branches: Vec::new(),
        staged: staged.iter().map(|p| change(p)).collect(),
        unstaged: unstaged.iter().map(|p| change(p)).collect(),
    }
}

#[test]
fn selection_moves_across_staged_and_unstaged_lists() {
    let mut state = AppState::new(&LaunchTarget::Dashboard);
    assert_eq!(state.dashboard_page, DashboardPage::Changes);
    assert_eq!(state.focus, Focus::Unstaged);
    state.data = Some(data(&["s1", "s2"], &["u1"]));
    state.focus = Focus::Staged;
    assert!(state.move_selection(1));
    assert_eq!((state.focus, state.staged_selection), (Focus::Staged, 1));
    assert!(state.move_selection(1));
    assert_eq!((state.focus, state.unstaged_selection), (Focus::Unstaged, 0));
    assert!(!state.move_selection(5));
    assert!(state.move_selection(-10));
    assert_eq!((state.focus, state.staged_selection), (Focus::Staged, 0));
}

#[test]
fn selected_change_opens_its_diff() {
    let mut state = AppState::new(&LaunchTarget::Changes);
    state.data = Some(data(&["s.rs"], &["u.rs"]));
    assert_eq!(state.selected_target(), Some(LaunchTarget::WorkingTree { path: b"u.rs".to_vec() }));
    state.cycle_focus();
    assert_eq!(state.focus, Focus::Staged);
    assert_eq!(state.selected_target(), Some(LaunchTarget::Staged { path: b"s.rs".to_vec() }));
    state.cycle_focus();
    assert_eq!(state.focus, Focus::Diff);
    assert_eq!(state.selected_target(), Some(LaunchTarget::Staged { path: b"s.rs".to_vec() }));
}

#[test]
fn history_target_opens_history_page_and_commit() {
    let mut state = AppState::new(&LaunchTarget::History { path: None });
    assert_eq!(state.dashboard_page, DashboardPage::History);
    assert_eq!(state.focus, Focus::History);
    assert!(matches!(state.screen, Screen::Dashboard));
    state.data = Some(data(&[], &[]));
    assert_eq!(state.selected_target(), Some(LaunchTarget::Commit { revision: b"abc".to_vec(), path: None }));
    assert!(state.select_commit_preview(false));
    assert!(state.commit_files_loading);
    assert!(!state.select_commit_preview(false));
    state.cycle_focus();
    assert_eq!(state.focus, Focus::CommitFiles);
    state.cycle_focus();
    assert_eq!(state.focus, Focus::History);
}

#[test]
fn diff_targets_open_the_diff_screen() {
    let state = AppState::new(&LaunchTarget::Staged { path: b"x".to_vec() });
    assert!(matches!(state.screen, Screen::Diff { direct: true, .. }));
    let picker = AppState::new(&LaunchTarget::Branches);
    assert!(picker.branch_picker);
    assert!(matches!(picker.screen, Screen::Dashboard));
}

#[test]
fn search_finds_drawn_lines_ignoring_case() {
    let mut state = AppState::new(&LaunchTarget::Dashboard);
    state.diff = Some(scroll_document());
    state.search_query = "NEW".to_string();
    assert_eq!(state.update_search(), Some(1));
    assert_eq!(state.search_matches, vec![6]);
    assert_eq!(state.diff_scroll, 6);
    state.search_query = "A".to_string();
    assert_eq!(state.update_search(), Some(1));
    assert_eq!(state.search_matches, vec![7]);
    state.search_query = "e".to_string();
    assert_eq!(state.update_search(), Some(2));
    state.next_search_match(false);
    assert_eq!(state.diff_scroll, 7);
    state.next_search_match(false);
    assert_eq!(state.diff_scroll, 6);
    state.next_search_match(true);
    assert_eq!(state.diff_scroll, 7);
}

#[test]
fn reconciling_keeps_the_selected_path() {
    let mut state = AppState::new(&LaunchTarget::Changes);
    state.data = Some(data(&[], &["b.rs", "a.rs"]));
    state.unstaged_selection = 1;
    assert_eq!(state.selected_target(), Some(LaunchTarget::WorkingTree { path: b"b.rs".to_vec() }));
    let fresh = data(&[], &["c.rs", "b.rs", "a.rs"]);
    state.reconcile_change_selection(&fresh);
    assert_eq!(state.unstaged_selection, 1);
    state.data = Some(fresh);
    assert_eq!(state.selected_target(), Some(LaunchTarget::WorkingTree { path: b"b.rs".to_vec() }));
}

#[test]
fn gutter_shows_right_aligned_line_numbers() {
    assert_eq!(line_numbers(Some(7), Some(12)), "    7    12");
    assert_eq!(line_numbers(Some(3), None), "    3      ");
    assert_eq!(line_numbers(None, Some(123456)), "      123456");
    assert_eq!(line_numbers(None, None), "           ");
}
