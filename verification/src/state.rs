//! The viewer's navigation state: what is focused and selected, what a key
//! press changes, and what a selection opens.
use vstd::prelude::*;
use vstd::string::StringSliceAdditionalSpecFns;
use vstd::utf8::*;

use crate::bytes::contains_bytes;
use crate::bytes::contains_seq;
use crate::change_tree::{selected_tree_entry, tree_paths, tree_rows, tree_selection_for_entry};
use crate::cli::{LaunchTarget, TargetView};
use crate::dashboard::{ChangeEntry, DashboardData};
use crate::diff::{DiffDocument, DiffLine};
use crate::viewer::{changes_focus_after_tab, is_visible_diff_line, move_diff_scroll, next_changes_focus, scrolled_line, shows_kind, DashboardPage, Focus};

verus! {

/// What `str::to_lowercase` makes of a text.
pub uninterp spec fn unicode_lowercase(s: Seq<char>) -> Seq<char>;

/// The text in lower case.
///
/// Calls `str::to_lowercase`, whose result depends on the text alone; the
/// contract names it.
#[verifier::external_body]
fn lowercase(s: &str) -> (r: String)
    ensures
        r@ == unicode_lowercase(s@),
{
    s.to_lowercase()
}

/// The screen on show.
#[derive(Debug)]
pub enum Screen {
    Dashboard,
    /// A diff, opened directly from the command line or from the dashboard.
    Diff { target: LaunchTarget, direct: bool },
}

/// The navigation state of the viewer.
#[derive(Debug)]
pub struct AppState {
    pub screen: Screen,
    pub dashboard_page: DashboardPage,
    pub focus: Focus,
    /// The file list whose selection the diff preview follows.
    pub preview_focus: Focus,
    pub data: Option<DashboardData>,
    pub diff: Option<DiffDocument>,
    pub diff_scroll: usize,
    pub branch_selection: usize,
    pub history_selection: usize,
    pub commit_file_selection: usize,
    pub commit_files: Vec<ChangeEntry>,
    /// The commit whose files are shown or being loaded.
    pub commit_files_target: Option<Vec<u8>>,
    pub commit_files_loading: bool,
    pub commit_files_error: Option<String>,
    pub staged_selection: usize,
    pub unstaged_selection: usize,
    pub branch_picker: bool,
    pub search_query: String,
    pub search_matches: Vec<usize>,
    pub search_match_index: usize,
}

/// Whether a target opens straight into a diff.
pub open spec fn opens_diff(t: TargetView) -> bool {
    t is WorkingTree || t is Staged || t is Commit || t is Compare || t is Show
}

/// Whether a target opens straight into a diff.
pub fn needs_diff(target: &LaunchTarget) -> (r: bool)
    ensures
        r == opens_diff(target@),
{
    match target {
        LaunchTarget::WorkingTree { .. } | LaunchTarget::Staged { .. } | LaunchTarget::Commit { .. }
        | LaunchTarget::Compare { .. } | LaunchTarget::Show { .. } => true,
        _ => false,
    }
}

/// A selection moved by `delta` within a list of `len` entries: clamped to
/// the list, and zero for an empty list.
pub open spec fn stepped(current: int, delta: int, len: int) -> int {
    if len == 0 {
        0
    } else if current + delta < 0 {
        0
    } else if current + delta > len - 1 {
        len - 1
    } else {
        current + delta
    }
}

/// One less, but not below zero.
pub open spec fn sat_dec(n: int) -> int {
    if n > 0 {
        n - 1
    } else {
        0
    }
}

/// The smaller of two numbers.
pub open spec fn min(a: int, b: int) -> int {
    if a <= b {
        a
    } else {
        b
    }
}

/// The state after moving the selection by `delta`, and whether it moved.
/// On the changes page the staged and the unstaged list form one list, and
/// moving across their border moves the focus; on the history page the
/// focused list moves; without data, or with the diff focused there, nothing
/// moves.
pub open spec fn after_move(s: AppState, delta: int) -> (AppState, bool) {
    match s.data {
        None => (s, false),
        Some(data) => if s.dashboard_page == DashboardPage::Changes {
            let sl = data.staged@.len() as int;
            let ul = data.unstaged@.len() as int;
            let current = match s.focus {
                Focus::Staged => min(s.staged_selection as int, sat_dec(sl)),
                Focus::Unstaged => sl + min(s.unstaged_selection as int, sat_dec(ul)),
                _ => 0,
            };
            let next = stepped(current, delta, sl + ul);
            if next < sl {
                (AppState { focus: Focus::Staged, preview_focus: Focus::Staged, staged_selection: next as usize, ..s }, current != next)
            } else {
                (
                    AppState { focus: Focus::Unstaged, preview_focus: Focus::Unstaged, unstaged_selection: (next - sl) as usize, ..s },
                    current != next,
                )
            }
        } else {
            match s.focus {
                Focus::History => {
                    let n = stepped(s.history_selection as int, delta, data.commits@.len() as int);
                    (AppState { history_selection: n as usize, ..s }, n != s.history_selection)
                },
                Focus::CommitFiles => {
                    let n = stepped(s.commit_file_selection as int, delta, s.commit_files@.len() as int);
                    (AppState { commit_file_selection: n as usize, ..s }, n != s.commit_file_selection)
                },
                Focus::Staged => {
                    let n = stepped(s.staged_selection as int, delta, data.staged@.len() as int);
                    (AppState { staged_selection: n as usize, ..s }, n != s.staged_selection)
                },
                Focus::Unstaged => {
                    let n = stepped(s.unstaged_selection as int, delta, data.unstaged@.len() as int);
                    (AppState { unstaged_selection: n as usize, ..s }, n != s.unstaged_selection)
                },
                Focus::Diff => (s, false),
            }
        },
    }
}

/// A selection moved within a list of `len` entries.
fn step(current: usize, delta: isize, len: usize) -> (r: usize)
    ensures
        r as int == stepped(current as int, delta as int, len as int),
{
    if len == 0 {
        return 0;
    }
    let target: i128 = current as i128 + delta as i128;
    if target < 0 {
        0
    } else if target > (len - 1) as i128 {
        len - 1
    } else {
        target as usize
    }
}

/// The state after Tab: on the history page Tab moves between the commits
/// and their files; on the changes page it goes from unstaged to staged to
/// the diff, skipping empty lists.
pub open spec fn after_tab(s: AppState) -> AppState {
    match s.dashboard_page {
        DashboardPage::History => AppState {
            focus: match s.focus {
                Focus::History => Focus::CommitFiles,
                _ => Focus::History,
            },
            ..s
        },
        DashboardPage::Changes => {
            let (has_staged, has_unstaged) = match s.data {
                Some(d) => (d.staged@.len() > 0, d.unstaged@.len() > 0),
                None => (false, false),
            };
            let (f, p) = changes_focus_after_tab(s.focus, s.preview_focus, has_staged, has_unstaged);
            AppState { focus: f, preview_focus: p, ..s }
        },
    }
}

/// The entry at file row `selection` of the tree of a list of changes.
pub open spec fn entry_at(entries: Seq<ChangeEntry>, selection: int) -> Option<ChangeEntry> {
    let rows = tree_rows(tree_paths(entries));
    if 0 <= selection < rows.len() {
        Some(entries[rows[selection] as int])
    } else {
        None
    }
}

/// The staged diff of the selected staged change.
pub open spec fn staged_target(entries: Seq<ChangeEntry>, selection: int) -> Option<TargetView> {
    match entry_at(entries, selection) {
        Some(e) => Some(TargetView::Staged { path: e.path@ }),
        None => None,
    }
}

/// The working-tree diff of the selected unstaged change.
pub open spec fn working_target(entries: Seq<ChangeEntry>, selection: int) -> Option<TargetView> {
    match entry_at(entries, selection) {
        Some(e) => Some(TargetView::WorkingTree { path: e.path@ }),
        None => None,
    }
}

/// What the current selection opens: the selected commit, the selected file
/// of the selected commit, or the selected staged or unstaged change; with
/// the diff focused, the change of the list the preview follows.
pub open spec fn selection_target(s: AppState) -> Option<TargetView> {
    match s.data {
        None => None,
        Some(d) => match s.focus {
            Focus::History => if s.history_selection < d.commits@.len() {
                Some(TargetView::Commit { revision: d.commits@[s.history_selection as int].id@, path: None })
            } else {
                None
            },
            Focus::CommitFiles => if s.history_selection < d.commits@.len() {
                match entry_at(s.commit_files@, s.commit_file_selection as int) {
                    Some(e) => Some(
                        TargetView::Commit { revision: d.commits@[s.history_selection as int].id@, path: Some(e.path@) },
                    ),
                    None => None,
                }
            } else {
                None
            },
            Focus::Staged => staged_target(d.staged@, s.staged_selection as int),
            Focus::Unstaged => working_target(d.unstaged@, s.unstaged_selection as int),
            Focus::Diff => if s.preview_focus == Focus::Staged {
                staged_target(d.staged@, s.staged_selection as int)
            } else {
                working_target(d.unstaged@, s.unstaged_selection as int)
            },
        },
    }
}

/// The view of an optional target.
pub open spec fn target_view(t: Option<LaunchTarget>) -> Option<TargetView> {
    match t {
        Some(x) => Some(x@),
        None => None,
    }
}

/// Whether a line matches a search: it is drawn and its lower-case text
/// contains the lower-case query.
pub open spec fn line_matches(d: DiffDocument, i: int, query: Seq<char>) -> bool {
    let line = d.lines@[i];
    &&& shows_kind(line.kind)
    &&& contains_seq(
        encode_utf8(unicode_lowercase(decode_utf8(d.text_bytes().subrange(line.range.start as int, line.range.end as int)))),
        encode_utf8(unicode_lowercase(query)),
    )
}

/// The indices of the lines among the first `n` that match a search.
pub open spec fn matching_lines(d: DiffDocument, n: int, query: Seq<char>) -> Seq<usize>
    decreases n,
{
    if n <= 0 {
        Seq::empty()
    } else if line_matches(d, n - 1, query) {
        matching_lines(d, n - 1, query).push((n - 1) as usize)
    } else {
        matching_lines(d, n - 1, query)
    }
}


/// Whether a state is the one a launch target opens on: the history page for
/// a history target and the changes page otherwise, the branch picker for a
/// branches target, the diff screen for a target with a diff, and nothing
/// loaded, selected or searched yet.
pub open spec fn starts_at(s: AppState, target: TargetView) -> bool {
    &&& s.dashboard_page == (if target is History { DashboardPage::History } else { DashboardPage::Changes })
    &&& s.focus == (if target is History { Focus::History } else { Focus::Unstaged })
    &&& s.preview_focus == s.focus
    &&& s.branch_picker == target is Branches
    &&& match s.screen {
        Screen::Diff { target: t, direct } => opens_diff(target) && t@ == target && direct,
        Screen::Dashboard => !opens_diff(target),
    }
    &&& s.data is None
    &&& s.diff is None
    &&& s.diff_scroll == 0
    &&& s.branch_selection == 0
    &&& s.history_selection == 0
    &&& s.commit_file_selection == 0
    &&& s.commit_files@.len() == 0
    &&& s.commit_files_target is None
    &&& !s.commit_files_loading
    &&& s.commit_files_error is None
    &&& s.staged_selection == 0
    &&& s.unstaged_selection == 0
    &&& s.search_query@.len() == 0
    &&& s.search_matches@.len() == 0
    &&& s.search_match_index == 0
}

impl AppState {
    /// The state a launch target opens on: the history page for a history
    /// target and the changes page otherwise, the branch picker for a branches
    /// target, and the diff screen for a target with a diff.
    pub fn new(target: &LaunchTarget) -> (s: AppState)
        ensures
            starts_at(s, target@),
    {
        let history = match target {
            LaunchTarget::History { .. } => true,
            _ => false,
        };
        let dashboard_page = if history {
            DashboardPage::History
        } else {
            DashboardPage::Changes
        };
        let focus = if history {
            Focus::History
        } else {
            Focus::Unstaged
        };
        let branch_picker = match target {
            LaunchTarget::Branches => true,
            _ => false,
        };
        let screen = if needs_diff(target) {
            Screen::Diff { target: target.copy(), direct: true }
        } else {
            Screen::Dashboard
        };
        AppState {
            screen,
            dashboard_page,
            focus,
            preview_focus: focus,
            data: None,
            diff: None,
            diff_scroll: 0,
            branch_selection: 0,
            history_selection: 0,
            commit_file_selection: 0,
            commit_files: Vec::new(),
            commit_files_target: None,
            commit_files_loading: false,
            commit_files_error: None,
            staged_selection: 0,
            unstaged_selection: 0,
            branch_picker,
            search_query: String::new(),
            search_matches: Vec::new(),
            search_match_index: 0,
        }
    }

    /// Moves the selection by `delta` entries; tells whether it moved.
    pub fn move_selection(&mut self, delta: isize) -> (moved: bool)
        requires
            old(self).data matches Some(d) ==> d.staged@.len() + d.unstaged@.len() <= usize::MAX,
        ensures
            (*final(self), moved) == after_move(*old(self), delta as int),
    {
        let (staged_len, unstaged_len, commits_len) = match &self.data {
            None => return false,
            Some(data) => (data.staged.len(), data.unstaged.len(), data.commits.len()),
        };
        if self.dashboard_page == DashboardPage::Changes {
            let current: usize = match self.focus {
                Focus::Staged => {
                    let top = if staged_len > 0 { staged_len - 1 } else { 0 };
                    if self.staged_selection < top { self.staged_selection } else { top }
                },
                Focus::Unstaged => {
                    let top = if unstaged_len > 0 { unstaged_len - 1 } else { 0 };
                    let within = if self.unstaged_selection < top { self.unstaged_selection } else { top };
                    if unstaged_len > 0 {
                        staged_len + within
                    } else {
                        staged_len
                    }
                },
                _ => 0,
            };
            proof {
                if self.focus == Focus::Unstaged && unstaged_len > 0 {
                    assert(staged_len + unstaged_len - 1 <= usize::MAX);
                }
            }
            let next = if staged_len + unstaged_len > 0 {
                step(current, delta, staged_len + unstaged_len)
            } else {
                0
            };
            if next < staged_len {
                self.focus = Focus::Staged;
                self.preview_focus = Focus::Staged;
                self.staged_selection = next;
            } else {
                self.focus = Focus::Unstaged;
                self.preview_focus = Focus::Unstaged;
                self.unstaged_selection = next - staged_len;
            }
            return current != next;
        }
        match self.focus {
            Focus::History => {
                let previous = self.history_selection;
                self.history_selection = step(previous, delta, commits_len);
                previous != self.history_selection
            },
            Focus::CommitFiles => {
                let previous = self.commit_file_selection;
                let n = self.commit_files.len();
                self.commit_file_selection = step(previous, delta, n);
                previous != self.commit_file_selection
            },
            Focus::Staged => {
                let previous = self.staged_selection;
                self.staged_selection = step(previous, delta, staged_len);
                previous != self.staged_selection
            },
            Focus::Unstaged => {
                let previous = self.unstaged_selection;
                self.unstaged_selection = step(previous, delta, unstaged_len);
                previous != self.unstaged_selection
            },
            Focus::Diff => false,
        }
    }

    /// Moves the focus as Tab does.
    pub fn cycle_focus(&mut self)
        ensures
            *final(self) == after_tab(*old(self)),
    {
        match self.dashboard_page {
            DashboardPage::History => {
                self.focus = match self.focus {
                    Focus::History => Focus::CommitFiles,
                    _ => Focus::History,
                };
            },
            DashboardPage::Changes => {
                let (has_staged, has_unstaged) = match &self.data {
                    Some(d) => (d.staged.len() > 0, d.unstaged.len() > 0),
                    None => (false, false),
                };
                let (focus, preview_focus) = next_changes_focus(self.focus, self.preview_focus, has_staged, has_unstaged);
                self.focus = focus;
                self.preview_focus = preview_focus;
            },
        }
    }
}

/// The staged-diff target of the selected staged change.
fn staged_choice(entries: &Vec<ChangeEntry>, selection: usize) -> (r: Option<LaunchTarget>)
    ensures
        target_view(r) == staged_target(entries@, selection as int),
{
    match selected_tree_entry(entries.as_slice(), selection) {
        Some(e) => Some(LaunchTarget::Staged { path: e.path.clone() }),
        None => None,
    }
}

/// The working-tree target of the selected unstaged change.
fn working_choice(entries: &Vec<ChangeEntry>, selection: usize) -> (r: Option<LaunchTarget>)
    ensures
        target_view(r) == working_target(entries@, selection as int),
{
    match selected_tree_entry(entries.as_slice(), selection) {
        Some(e) => Some(LaunchTarget::WorkingTree { path: e.path.clone() }),
        None => None,
    }
}

/// The first index at which an entry has the given path.
fn position_of_path(entries: &Vec<ChangeEntry>, path: &Vec<u8>) -> (r: Option<usize>)
    ensures
        match r {
            Some(i) => i < entries@.len() && entries@[i as int].path@ == path@ && forall|k: int| 0 <= k < i ==> (#[trigger] entries@[k]).path@ != path@,
            None => forall|k: int| 0 <= k < entries@.len() ==> (#[trigger] entries@[k]).path@ != path@,
        },
{
    let mut i: usize = 0;
    while i < entries.len()
        invariant
            i <= entries@.len(),
            forall|k: int| 0 <= k < i ==> (#[trigger] entries@[k]).path@ != path@,
        decreases entries.len() - i,
    {
        if crate::bytes::bytes_eq(entries[i].path.as_slice(), path.as_slice()) {
            return Some(i);
        }
        i = i + 1;
    }
    None
}

/// The first index at which an entry has the given path, if any.
pub open spec fn first_with_path(entries: Seq<ChangeEntry>, path: Seq<u8>) -> Option<int> {
    if exists|i: int| 0 <= i < entries.len() && (#[trigger] entries[i]).path@ == path {
        Some(choose|i: int| 0 <= i < entries.len() && (#[trigger] entries[i]).path@ == path
            && forall|k: int| 0 <= k < i ==> (#[trigger] entries[k]).path@ != path)
    } else {
        None
    }
}

/// The first file row of an entry, or the first row when it has none.
pub open spec fn row_of(entries: Seq<ChangeEntry>, index: int) -> int {
    let rows = tree_rows(tree_paths(entries));
    if rows.contains(index as usize) {
        choose|k: int| 0 <= k < rows.len() && rows[k] == index as usize && forall|m: int| 0 <= m < k ==> rows[m] != index as usize
    } else {
        0
    }
}

/// The state after new dashboard data arrived: a selected staged or unstaged
/// change stays selected when the new lists still hold its path.
pub open spec fn reconciled(s: AppState, data: DashboardData) -> AppState {
    match selection_target(s) {
        Some(TargetView::Staged { path }) => match first_with_path(data.staged@, path) {
            Some(i) => AppState { staged_selection: row_of(data.staged@, i) as usize, ..s },
            None => s,
        },
        Some(TargetView::WorkingTree { path }) => match first_with_path(data.unstaged@, path) {
            Some(i) => AppState { unstaged_selection: row_of(data.unstaged@, i) as usize, ..s },
            None => s,
        },
        _ => s,
    }
}

/// The revision of the selected commit, if any.
pub open spec fn selected_revision(s: AppState) -> Option<Seq<u8>> {
    match s.data {
        Some(d) => if s.history_selection < d.commits@.len() {
            Some(d.commits@[s.history_selection as int].id@)
        } else {
            None
        },
        None => None,
    }
}

/// The row of an entry in the tree of a list, or the first row.
fn row_for(entries: &Vec<ChangeEntry>, index: usize) -> (r: usize)
    ensures
        r as int == row_of(entries@, index as int),
{
    match tree_selection_for_entry(entries.as_slice(), index) {
        Some(k) => {
            proof {
                let rows = tree_rows(tree_paths(entries@));
                assert(rows.contains(index));
                let c = choose|j: int| 0 <= j < rows.len() && rows[j] == index && forall|m: int| 0 <= m < j ==> rows[m] != index;
                assert(0 <= k && (k as int) < rows.len() && rows[k as int] == index && forall|m: int| 0 <= m < k ==> rows[m] != index);
                if c < k {
                    assert(rows[c] != index);
                } else if c > k {
                    assert(rows[k as int] != index);
                }
            }
            k
        },
        None => 0,
    }
}

/// The first index of a path among entries, as `first_with_path` states it.
fn first_index(entries: &Vec<ChangeEntry>, path: &Vec<u8>) -> (r: Option<usize>)
    ensures
        match r {
            Some(i) => first_with_path(entries@, path@) == Some(i as int),
            None => first_with_path(entries@, path@) is None,
        },
{
    let r = position_of_path(entries, path);
    proof {
        match r {
            Some(i) => {
                assert(entries@[i as int].path@ == path@);
                let c = choose|j: int| 0 <= j < entries@.len() && (#[trigger] entries@[j]).path@ == path@
                    && forall|k: int| 0 <= k < j ==> (#[trigger] entries@[k]).path@ != path@;
                if c < i {
                    assert(entries@[c].path@ != path@);
                } else if c > i {
                    assert(entries@[i as int].path@ != path@);
                }
            },
            None => {},
        }
    }
    r
}

/// The state after scrolling the diff by `delta` drawn lines.
pub open spec fn scrolled_by(s: AppState, delta: int) -> AppState {
    AppState {
        diff_scroll: match s.diff {
            Some(d) => scrolled_line(d.lines@, s.diff_scroll as int, delta) as usize,
            None => s.diff_scroll,
        },
        ..s
    }
}

/// The state after going to the next search match, or the previous one,
/// wrapping around: the match becomes current and is scrolled to. Without
/// matches nothing changes.
pub open spec fn after_next_match(s: AppState, backwards: bool) -> AppState {
    let n = s.search_matches@.len() as int;
    let i = s.search_match_index as int;
    if n == 0 {
        s
    } else {
        let next = if backwards {
            if i == 0 {
                n - 1
            } else {
                i - 1
            }
        } else {
            (i + 1) % n
        };
        AppState { search_match_index: next as usize, diff_scroll: s.search_matches@[next], ..s }
    }
}

impl AppState {
    /// What the current selection opens.
    pub fn selected_target(&self) -> (r: Option<LaunchTarget>)
        ensures
            target_view(r) == selection_target(*self),
    {
        let data = match &self.data {
            Some(d) => d,
            None => return None,
        };
        match self.focus {
            Focus::History => if self.history_selection < data.commits.len() {
                Some(LaunchTarget::Commit { revision: data.commits[self.history_selection].id.clone(), path: None })
            } else {
                None
            },
            Focus::CommitFiles => if self.history_selection < data.commits.len() {
                match selected_tree_entry(self.commit_files.as_slice(), self.commit_file_selection) {
                    Some(file) => Some(LaunchTarget::Commit {
                        revision: data.commits[self.history_selection].id.clone(),
                        path: Some(file.path.clone()),
                    }),
                    None => None,
                }
            } else {
                None
            },
            Focus::Staged => staged_choice(&data.staged, self.staged_selection),
            Focus::Unstaged => working_choice(&data.unstaged, self.unstaged_selection),
            Focus::Diff => if self.preview_focus == Focus::Staged {
                staged_choice(&data.staged, self.staged_selection)
            } else {
                working_choice(&data.unstaged, self.unstaged_selection)
            },
        }
    }

    /// Scrolls the diff by `delta` drawn lines.
    pub fn move_diff_scroll(&mut self, delta: isize)
        ensures
            *final(self) == scrolled_by(*old(self), delta as int),
    {
        let next = match &self.diff {
            Some(d) => move_diff_scroll(Some(d), self.diff_scroll, delta),
            None => self.diff_scroll,
        };
        self.diff_scroll = next;
    }

    /// Goes to the next search match, or the previous one, wrapping around,
    /// and scrolls to it.
    pub fn next_search_match(&mut self, backwards: bool)
        requires
            old(self).search_matches@.len() == 0 || old(self).search_match_index < old(self).search_matches@.len(),
        ensures
            *final(self) == after_next_match(*old(self), backwards),
    {
        let n = self.search_matches.len();
        if n == 0 {
            return;
        }
        let next = if backwards {
            if self.search_match_index == 0 {
                n - 1
            } else {
                self.search_match_index - 1
            }
        } else {
            (self.search_match_index + 1) % n
        };
        self.search_match_index = next;
        self.diff_scroll = self.search_matches[next];
    }

    /// Searches the document for the query: the matching lines are kept, the
    /// first is selected and scrolled to, and their number is returned. With
    /// no document or an empty query the matches are only cleared.
    pub fn update_search(&mut self) -> (found: Option<usize>)
        requires
            old(self).diff matches Some(d) ==> d.well_formed(),
        ensures
            match old(self).diff {
                Some(d) => if old(self).search_query@.len() > 0 {
                    let m = matching_lines(d, d.lines@.len() as int, old(self).search_query@);
                    &&& found == Some(m.len() as usize)
                    &&& *final(self) == (AppState {
                        search_matches: final(self).search_matches,
                        search_match_index: 0,
                        diff_scroll: if m.len() > 0 { m[0] } else { old(self).diff_scroll },
                        ..*old(self)
                    })
                    &&& final(self).search_matches@ == m
                } else {
                    &&& found is None
                    &&& *final(self) == (AppState { search_matches: final(self).search_matches, ..*old(self) })
                    &&& final(self).search_matches@.len() == 0
                },
                None => {
                    &&& found is None
                    &&& *final(self) == (AppState { search_matches: final(self).search_matches, ..*old(self) })
                    &&& final(self).search_matches@.len() == 0
                },
            },
    {
        self.search_matches = Vec::new();
        let d = match &self.diff {
            Some(d) => d,
            None => return None,
        };
        if self.search_query.as_str().as_bytes().len() == 0 {
            return None;
        }
        let query = lowercase(self.search_query.as_str());
        let q = query.as_str().as_bytes();
        let mut matches: Vec<usize> = Vec::new();
        let mut i: usize = 0;
        while i < d.lines.len()
            invariant
                d.well_formed(),
                i <= d.lines@.len(),
                q@ == encode_utf8(unicode_lowercase(self.search_query@)),
                matches@ == matching_lines(*d, i as int, self.search_query@),
            decreases d.lines.len() - i,
        {
            let line = &d.lines[i];
            if is_visible_diff_line(line.kind) {
                let text = d.line_text(line);
                let lower = lowercase(text);
                proof {
                    encode_utf8_decode_utf8(text@);
                }
                if contains_bytes(lower.as_str().as_bytes(), q) {
                    matches.push(i);
                }
            }
            i = i + 1;
        }
        let count = matches.len();
        if count > 0 {
            self.diff_scroll = matches[0];
        }
        self.search_matches = matches;
        self.search_match_index = 0;
        Some(count)
    }
}

impl AppState {
    /// Keeps the selected change selected when new dashboard data arrives
    /// and still lists its path.
    pub fn reconcile_change_selection(&mut self, data: &DashboardData)
        ensures
            *final(self) == reconciled(*old(self), *data),
    {
        match self.selected_target() {
            Some(LaunchTarget::Staged { path }) => match first_index(&data.staged, &path) {
                Some(i) => {
                    self.staged_selection = row_for(&data.staged, i);
                },
                None => {},
            },
            Some(LaunchTarget::WorkingTree { path }) => match first_index(&data.unstaged, &path) {
                Some(i) => {
                    self.unstaged_selection = row_for(&data.unstaged, i);
                },
                None => {},
            },
            _ => {},
        }
    }

    /// Follows the selected commit with the commit-file list: when another
    /// commit is selected, its files are cleared and marked loading. Tells
    /// whether to ask for the files now, which is when the commit changed, there
    /// is a commit, and no request is running.
    pub fn select_commit_preview(&mut self, request_running: bool) -> (request: bool)
        ensures
            if crate::cli::opt_view(old(self).commit_files_target) == selected_revision(*old(self)) {
                *final(self) == *old(self) && !request
            } else {
                &&& crate::cli::opt_view(final(self).commit_files_target) == selected_revision(*old(self))
                &&& final(self).commit_files@.len() == 0
                &&& final(self).commit_files_loading == selected_revision(*old(self)) is Some
                &&& *final(self) == (AppState {
                    commit_files_target: final(self).commit_files_target,
                    commit_files: final(self).commit_files,
                    commit_file_selection: 0,
                    commit_files_loading: final(self).commit_files_loading,
                    commit_files_error: None,
                    ..*old(self)
                })
                &&& request == (!request_running && selected_revision(*old(self)) is Some)
            },
    {
        let revision: Option<Vec<u8>> = match &self.data {
            Some(d) => if self.history_selection < d.commits.len() {
                Some(d.commits[self.history_selection].id.clone())
            } else {
                None
            },
            None => None,
        };
        let same = match (&self.commit_files_target, &revision) {
            (Some(a), Some(b)) => crate::bytes::bytes_eq(a.as_slice(), b.as_slice()),
            (None, None) => true,
            _ => false,
        };
        if same {
            return false;
        }
        let loading = revision.is_some();
        self.commit_files_target = revision;
        self.commit_files = Vec::new();
        self.commit_file_selection = 0;
        self.commit_files_loading = loading;
        self.commit_files_error = None;
        !request_running && loading
    }
}

} // verus!

