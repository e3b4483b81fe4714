//! The viewer's event handling: key presses and Git responses change the
//! state and say which Git commands to run next.
use vstd::prelude::*;
use vstd::string::StringExecFns;

use crate::cli::{copy_opt, opt_view, LaunchTarget, TargetView};
use crate::dashboard::{ChangeEntry, ChangeKind, DashboardData};
use crate::diff::DiffDocument;
use crate::highlight::HighlightedDiff;
use crate::state::{selection_target, target_view, AppState, Screen};
use crate::theme::Theme;
use crate::viewer::{DashboardPage, Focus};
use crate::worker::{command_view, CommandView, GitCommand, GitPayload};

verus! {

/// The path a launch target limits the history to.
pub open spec fn history_path_of(t: TargetView) -> Option<Seq<u8>> {
    match t {
        TargetView::History { path } => path,
        _ => None,
    }
}

/// The Git commands that are running, by the ids of their requests, and the
/// id the next request gets.
#[derive(Debug, Clone, PartialEq, Eq)]
pub struct Requests {
    pub next_id: u64,
    pub dashboard: Option<u64>,
    pub diff: Option<u64>,
    /// The commit-files request and the revision it asked about.
    pub commit_files: Option<(u64, Vec<u8>)>,
    pub discard: Option<u64>,
    pub highlight: Option<u64>,
    /// The path the history and the files of its commits are limited to.
    pub history_path: Option<Vec<u8>>,
}

/// What is shown besides the navigation state: pickers, prompts and
/// messages.
#[derive(Debug, Clone, PartialEq, Eq)]
pub struct Overlays {
    pub comparison_base: Option<Vec<u8>>,
    pub discard_confirmation: bool,
    pub search_input: bool,
    pub theme_picker: bool,
    pub theme_index: usize,
    pub confirmed_theme_index: usize,
    pub theme_message: Option<String>,
}

/// The state of the diff preview and the errors of the last loads.
#[derive(Debug)]
pub struct Preview {
    /// A change was selected while a diff was loading; its diff is due.
    pub pending_change_preview: bool,
    /// The target the preview shows or waits for.
    pub preview_target: Option<LaunchTarget>,
    pub diff_error: Option<String>,
    pub dashboard_error: Option<String>,
    pub highlighted: Option<HighlightedDiff>,
    pub highlight_message: Option<String>,
}

/// The whole state of the viewer's event loop.
#[derive(Debug)]
pub struct Session {
    pub state: AppState,
    pub overlay: Overlays,
    pub preview: Preview,
    pub requests: Requests,
    pub themes: Vec<Theme>,
}

/// The view of an optional launch target is equal to another's.
fn same_target(a: &Option<LaunchTarget>, b: &LaunchTarget) -> (r: bool)
    ensures
        r == (target_view(*a) == Some(b@)),
{
    match a {
        None => false,
        Some(t) => target_eq(t, b),
    }
}

/// Whether two byte strings are equal.
fn vec_eq(a: &Vec<u8>, b: &Vec<u8>) -> (r: bool)
    ensures
        r == (a@ == b@),
{
    crate::bytes::bytes_eq(a.as_slice(), b.as_slice())
}

/// Whether two optional byte strings are equal.
fn opt_eq(a: &Option<Vec<u8>>, b: &Option<Vec<u8>>) -> (r: bool)
    ensures
        r == (crate::cli::opt_view(*a) == crate::cli::opt_view(*b)),
{
    match (a, b) {
        (Some(x), Some(y)) => vec_eq(x, y),
        (None, None) => true,
        _ => false,
    }
}

/// Whether two launch targets are equal.
pub fn target_eq(a: &LaunchTarget, b: &LaunchTarget) -> (r: bool)
    ensures
        r == (a@ == b@),
{
    match (a, b) {
        (LaunchTarget::Dashboard, LaunchTarget::Dashboard) => true,
        (LaunchTarget::WorkingTree { path: p }, LaunchTarget::WorkingTree { path: q }) => vec_eq(p, q),
        (LaunchTarget::Staged { path: p }, LaunchTarget::Staged { path: q }) => vec_eq(p, q),
        (LaunchTarget::Commit { revision: r1, path: p }, LaunchTarget::Commit { revision: r2, path: q }) => vec_eq(r1, r2)
            && opt_eq(p, q),
        (LaunchTarget::Compare { left: l1, right: r1, path: p }, LaunchTarget::Compare { left: l2, right: r2, path: q }) => vec_eq(
            l1,
            l2,
        ) && vec_eq(r1, r2) && opt_eq(p, q),
        (LaunchTarget::Show { revision: r1, path: p }, LaunchTarget::Show { revision: r2, path: q }) => vec_eq(r1, r2)
            && opt_eq(p, q),
        (LaunchTarget::History { path: p }, LaunchTarget::History { path: q }) => opt_eq(p, q),
        (LaunchTarget::Branches, LaunchTarget::Branches) => true,
        (LaunchTarget::Changes, LaunchTarget::Changes) => true,
        _ => false,
    }
}

impl Requests {
    /// Whether no Git command is running.
    pub open spec fn idle(&self) -> bool {
        self.dashboard is None && self.diff is None && self.commit_files is None && self.discard is None
    }

    /// Hands out the next request id.
    fn take_id(&mut self) -> (id: u64)
        requires
            old(self).next_id < u64::MAX,
        ensures
            id == old(self).next_id,
            *final(self) == (Requests { next_id: (old(self).next_id + 1) as u64, ..*old(self) }),
    {
        let id = self.next_id;
        self.next_id = self.next_id + 1;
        id
    }
}

/// Whether a focus is one of the change lists or the diff next to them.
pub open spec fn previews_changes(f: Focus) -> bool {
    f == Focus::Staged || f == Focus::Unstaged || f == Focus::Diff
}

/// How the diff preview follows the selected change; see
/// `Session::request_change_preview`.
pub open spec fn change_preview_step(s: Session, t: Session, r: Option<CommandView>) -> bool {
    let target = selection_target(s.state);
    if !previews_changes(s.state.focus) {
        t == s && r is None
    } else if target is None {
        &&& r is None
        &&& !t.preview.pending_change_preview
        &&& t.preview.preview_target is None
        &&& t.preview.diff_error is None
        &&& t.preview.highlighted is None
        &&& t.preview.highlight_message is None
        &&& t.preview.dashboard_error == s.preview.dashboard_error
        &&& t.state == (AppState { diff: None, ..s.state })
        &&& t.requests == s.requests
        &&& t.overlay == s.overlay
        &&& t.themes == s.themes
    } else {
        let changed = target_view(s.preview.preview_target) != target;
        &&& target_view(t.preview.preview_target) == target
        &&& t.preview.dashboard_error == s.preview.dashboard_error
        &&& t.overlay == s.overlay
        &&& t.themes == s.themes
        &&& if s.requests.diff is Some {
            &&& r is None
            &&& t.preview.pending_change_preview
            &&& t.requests == s.requests
            &&& (changed ==> t.preview.diff_error is None && t.preview.highlighted is None)
            &&& (!changed ==> t.preview.diff_error == s.preview.diff_error
                && t.preview.highlighted == s.preview.highlighted)
            &&& t.preview.highlight_message == s.preview.highlight_message
            &&& t.state == (if changed {
                AppState { diff: None, diff_scroll: 0, ..s.state }
            } else {
                s.state
            })
        } else {
            &&& r == Some(CommandView::Diff(s.requests.next_id, target.unwrap()))
            &&& !t.preview.pending_change_preview
            &&& t.preview.diff_error is None
            &&& t.preview.highlight_message is None
            &&& t.requests == (Requests {
                next_id: (s.requests.next_id + 1) as u64,
                diff: Some(s.requests.next_id),
                ..s.requests
            })
            &&& t.state.search_matches@.len() == 0
            &&& (changed ==> t.preview.highlighted is None)
            &&& (!changed ==> t.preview.highlighted == s.preview.highlighted)
            &&& t.state == (if changed {
                AppState { diff: None, diff_scroll: 0, search_matches: t.state.search_matches, ..s.state }
            } else {
                AppState { search_matches: t.state.search_matches, ..s.state }
            })
        }
    }
}

/// How the commit-file list follows the selected commit; see
/// `Session::select_commit_preview`.
pub open spec fn commit_preview_step(s: Session, t: Session, r: Option<CommandView>) -> bool {
    let rev = crate::state::selected_revision(s.state);
    &&& t.overlay == s.overlay
    &&& t.preview == s.preview
    &&& t.themes == s.themes
    &&& if crate::cli::opt_view(s.state.commit_files_target) == rev {
        t == s && r is None
    } else {
        &&& crate::cli::opt_view(t.state.commit_files_target) == rev
        &&& t.state.commit_files@.len() == 0
        &&& t.state.commit_files_loading == rev is Some
        &&& t.state == (AppState {
            commit_files_target: t.state.commit_files_target,
            commit_files: t.state.commit_files,
            commit_file_selection: 0,
            commit_files_loading: t.state.commit_files_loading,
            commit_files_error: None,
            ..s.state
        })
        &&& if s.requests.commit_files is None && rev is Some {
            &&& r == Some(CommandView::CommitFiles(s.requests.next_id, rev.unwrap(), opt_view(s.requests.history_path)))
            &&& t.requests.next_id == s.requests.next_id + 1
            &&& t.requests.commit_files matches Some(p) && p.0 == s.requests.next_id && p.1@
                == rev.unwrap()
            &&& t.requests == (Requests {
                next_id: t.requests.next_id,
                commit_files: t.requests.commit_files,
                ..s.requests
            })
        } else {
            r is None && t.requests == s.requests
        }
    }
}

/// How the preview follows the selection on the current page.
pub open spec fn refresh_step(s: Session, t: Session, r: Option<CommandView>) -> bool {
    match s.state.dashboard_page {
        DashboardPage::History => commit_preview_step(s, t, r),
        DashboardPage::Changes => change_preview_step(s, t, r),
    }
}

impl Session {
    /// Asks for the diff of a target, which the diff screen or preview shows
    /// next.
    fn request_diff(&mut self, target: LaunchTarget) -> (r: GitCommand)
        requires
            old(self).requests.next_id < u64::MAX,
        ensures
            r@ == CommandView::Diff(old(self).requests.next_id, target@),
            final(self).requests == (Requests {
                next_id: (old(self).requests.next_id + 1) as u64,
                diff: Some(old(self).requests.next_id),
                ..old(self).requests
            }),
            final(self).state == old(self).state,
            final(self).overlay == old(self).overlay,
            final(self).preview == old(self).preview,
            final(self).themes == old(self).themes,
    {
        let request_id = self.requests.take_id();
        self.requests.diff = Some(request_id);
        GitCommand::Diff { request_id, target }
    }

    /// Follows the selected change with the diff preview. With a change list
    /// or the diff focused: when nothing is selected the preview is cleared;
    /// while a diff is loading the selection is remembered for later; otherwise
    /// the diff of the selection is asked for. A preview of another target
    /// than before starts empty and at the top.
    pub fn request_change_preview(&mut self) -> (r: Option<GitCommand>)
        requires
            old(self).requests.next_id < u64::MAX,
        ensures
            change_preview_step(*old(self), *final(self), command_view(r)),
    {
        let focus = self.state.focus;
        if !(focus == Focus::Staged || focus == Focus::Unstaged || focus == Focus::Diff) {
            return None;
        }
        let target = match self.state.selected_target() {
            Some(t) => t,
            None => {
                self.preview.pending_change_preview = false;
                self.preview.preview_target = None;
                self.state.diff = None;
                self.preview.diff_error = None;
                self.preview.highlighted = None;
                self.preview.highlight_message = None;
                return None;
            },
        };
        let changed = !same_target(&self.preview.preview_target, &target);
        self.preview.preview_target = Some(target.copy());
        if self.requests.diff.is_some() {
            self.preview.pending_change_preview = true;
            if changed {
                self.state.diff = None;
                self.preview.diff_error = None;
                self.preview.highlighted = None;
                self.state.diff_scroll = 0;
            }
            return None;
        }
        self.preview.pending_change_preview = false;
        self.preview.diff_error = None;
        self.preview.highlight_message = None;
        self.state.search_matches = Vec::new();
        if changed {
            self.state.diff = None;
            self.preview.highlighted = None;
            self.state.diff_scroll = 0;
        }
        Some(self.request_diff(target))
    }

    /// Follows the selected commit with its file list, asking for the files
    /// when the selection changed and no such request is running.
    pub fn select_commit_preview(&mut self) -> (r: Option<GitCommand>)
        requires
            old(self).requests.next_id < u64::MAX,
        ensures
            commit_preview_step(*old(self), *final(self), command_view(r)),
    {
        let running = self.requests.commit_files.is_some();
        if !self.state.select_commit_preview(running) {
            return None;
        }
        let revision = match &self.state.commit_files_target {
            Some(r) => r.clone(),
            None => return None,
        };
        let request_id = self.requests.take_id();
        self.requests.commit_files = Some((request_id, revision.clone()));
        Some(GitCommand::CommitFiles { request_id, revision, path: copy_opt(&self.requests.history_path) })
    }
}


/// A key the viewer reacts to.
#[derive(Debug, Clone, Copy, PartialEq, Eq, Structural)]
pub enum Key {
    Char(char),
    Enter,
    Esc,
    Tab,
    BackTab,
    Backspace,
    Up,
    Down,
    Left,
    Right,
    PageUp,
    PageDown,
    Home,
    End,
    Other,
}

/// What a key press asks of the event loop besides the new state.
#[derive(Debug)]
pub struct KeyOutcome {
    /// Whether the key did anything; the screen is drawn again when it did.
    pub handled: bool,
    pub quit: bool,
    /// A Git command to run.
    pub request: Option<GitCommand>,
    /// A theme name to save as the configured theme.
    pub save_theme: Option<String>,
    /// A commit id to copy to the clipboard, with its short form.
    pub copy_commit: Option<(Vec<u8>, String)>,
}

/// The text of a number in decimal.
pub open spec fn decimal_text(n: nat) -> Seq<char>
    decreases n,
{
    if n < 10 {
        seq![crate::theme::hex_char(n as int)]
    } else {
        decimal_text(n / 10).push(crate::theme::hex_char((n % 10) as int))
    }
}

/// A number in decimal.
pub fn decimal(n: usize) -> (s: String)
    ensures
        s@ == decimal_text(n as nat),
    decreases n,
{
    if n < 10 {
        String::from_str(crate::theme::digit_text(n as u8))
    } else {
        let mut s = decimal(n / 10);
        s.append(crate::theme::digit_text((n % 10) as u8));
        s
    }
}

/// Appends a character to a string.
///
/// Calls `String::push`, which appends the character.
#[verifier::external_body]
fn push_char(s: &mut String, c: char)
    ensures
        final(s)@ == old(s)@.push(c),
{
    s.push(c)
}

/// Removes the last character of a string, if any.
///
/// Calls `String::pop`, which removes the last character of a non-empty
/// string and leaves an empty one as it is.
#[verifier::external_body]
fn pop_char(s: &mut String)
    ensures
        final(s)@ == if old(s)@.len() > 0 {
            old(s)@.drop_last()
        } else {
            old(s)@
        },
{
    s.pop();
}

/// The message after a search.
pub open spec fn search_message(count: nat, query: Seq<char>) -> Seq<char> {
    decimal_text(count) + " search match(es) for \u{201c}"@ + query + "\u{201d}"@
}

/// An outcome that changes nothing outside the state.
fn outcome(handled: bool) -> (o: KeyOutcome)
    ensures
        o.handled == handled,
        !o.quit,
        o.request is None,
        o.save_theme is None,
        o.copy_commit is None,
{
    KeyOutcome { handled, quit: false, request: None, save_theme: None, copy_commit: None }
}

/// An outcome that runs a Git command.
fn requesting(request: Option<GitCommand>) -> (o: KeyOutcome)
    ensures
        o.handled,
        !o.quit,
        command_view(o.request) == command_view(request),
        o.save_theme is None,
        o.copy_commit is None,
{
    KeyOutcome { handled: true, quit: false, request, save_theme: None, copy_commit: None }
}


/// Whether an outcome only says whether the key was handled.
pub open spec fn plain(o: KeyOutcome, handled: bool) -> bool {
    o.handled == handled && !o.quit && o.request is None && o.save_theme is None && o.copy_commit is None
}

/// Whether an outcome runs exactly the given Git command.
pub open spec fn runs(o: KeyOutcome, r: CommandView) -> bool {
    o.handled && !o.quit && command_view(o.request) == Some(r) && o.save_theme is None && o.copy_commit is None
}

/// The requests after one more Git command of the diff kind was sent.
pub open spec fn diff_sent(q: Requests) -> Requests {
    Requests { next_id: (q.next_id + 1) as u64, diff: Some(q.next_id), ..q }
}

/// A key in the discard prompt: Esc or `n` cancels, Enter or `y` asks Git to
/// restore the working tree, anything else is ignored.
pub open spec fn discard_step(s: Session, t: Session, key: Key, o: KeyOutcome) -> bool {
    if key == Key::Esc || key == Key::Char('n') {
        &&& plain(o, true)
        &&& t == (Session { overlay: Overlays { discard_confirmation: false, ..s.overlay }, ..s })
    } else if key == Key::Enter || key == Key::Char('y') {
        &&& runs(o, CommandView::DiscardWorkingTree(s.requests.next_id))
        &&& t == (Session {
            overlay: Overlays { discard_confirmation: false, ..s.overlay },
            requests: Requests { next_id: (s.requests.next_id + 1) as u64, discard: Some(s.requests.next_id), ..s.requests },
            ..s
        })
    } else {
        plain(o, false) && t == s
    }
}

/// A key in the search prompt: Esc leaves it; Enter leaves it and searches,
/// reporting the number of matches; Backspace removes the last character of
/// the query and a character is added to it; anything else is ignored.
pub open spec fn search_step(s: Session, t: Session, key: Key, o: KeyOutcome) -> bool {
    let searched = s.state.diff is Some && s.state.search_query@.len() > 0;
    match key {
        Key::Esc => plain(o, true) && t == (Session { overlay: Overlays { search_input: false, ..s.overlay }, ..s }),
        Key::Enter => {
            &&& plain(o, true)
            &&& t.overlay == (Overlays { search_input: false, ..s.overlay })
            &&& t.requests == s.requests
            &&& t.themes == s.themes
            &&& t.preview == (Preview { highlight_message: t.preview.highlight_message, ..s.preview })
            &&& t.state == (AppState {
                search_matches: t.state.search_matches,
                search_match_index: t.state.search_match_index,
                diff_scroll: t.state.diff_scroll,
                ..s.state
            })
            &&& match s.state.diff {
                Some(d) => if searched {
                    let m = crate::state::matching_lines(d, d.lines@.len() as int, s.state.search_query@);
                    &&& t.state.search_matches@ == m
                    &&& t.state.search_match_index == 0
                    &&& t.state.diff_scroll == (if m.len() > 0 { m[0] } else { s.state.diff_scroll })
                    &&& t.preview.highlight_message matches Some(msg) && msg@ == search_message(m.len(), s.state.search_query@)
                } else {
                    &&& t.state.search_matches@.len() == 0
                    &&& t.state.search_match_index == s.state.search_match_index
                    &&& t.state.diff_scroll == s.state.diff_scroll
                    &&& t.preview.highlight_message == s.preview.highlight_message
                },
                None => {
                    &&& t.state.search_matches@.len() == 0
                    &&& t.state.search_match_index == s.state.search_match_index
                    &&& t.state.diff_scroll == s.state.diff_scroll
                    &&& t.preview.highlight_message == s.preview.highlight_message
                },
            }
        },
        Key::Backspace => {
            &&& plain(o, true)
            &&& t == (Session { state: AppState { search_query: t.state.search_query, ..s.state }, ..s })
            &&& t.state.search_query@ == (if s.state.search_query@.len() > 0 {
                s.state.search_query@.drop_last()
            } else {
                s.state.search_query@
            })
        },
        Key::Char(c) => {
            &&& plain(o, true)
            &&& t == (Session { state: AppState { search_query: t.state.search_query, ..s.state }, ..s })
            &&& t.state.search_query@ == s.state.search_query@.push(c)
        },
        _ => plain(o, false) && t == s,
    }
}

impl Session {
    /// The discard prompt: Esc or `n` cancels, Enter or `y` asks Git to
    /// restore the working tree.
    fn discard_key(&mut self, key: Key) -> (o: KeyOutcome)
        requires
            old(self).requests.next_id < u64::MAX,
        ensures
            discard_step(*old(self), *final(self), key, o),
    {
        if key == Key::Esc || key == Key::Char('n') {
            self.overlay.discard_confirmation = false;
            outcome(true)
        } else if key == Key::Enter || key == Key::Char('y') {
            self.overlay.discard_confirmation = false;
            let request_id = self.requests.take_id();
            self.requests.discard = Some(request_id);
            requesting(Some(GitCommand::DiscardWorkingTree { request_id }))
        } else {
            outcome(false)
        }
    }

    /// The search prompt: Esc leaves it, Enter leaves it and searches,
    /// Backspace and characters edit the query.
    fn search_key(&mut self, key: Key) -> (o: KeyOutcome)
        requires
            old(self).state.diff matches Some(d) ==> d.well_formed(),
        ensures
            search_step(*old(self), *final(self), key, o),
    {
        match key {
            Key::Esc => {
                self.overlay.search_input = false;
                outcome(true)
            },
            Key::Enter => {
                self.overlay.search_input = false;
                match self.state.update_search() {
                    Some(_) => {
                        let count = self.state.search_matches.len();
                        let mut m = decimal(count);
                        m.append(" search match(es) for \u{201c}");
                        m.append(self.state.search_query.as_str());
                        m.append("\u{201d}");
                        self.preview.highlight_message = Some(m);
                    },
                    None => {},
                }
                outcome(true)
            },
            Key::Backspace => {
                pop_char(&mut self.state.search_query);
                outcome(true)
            },
            Key::Char(c) => {
                push_char(&mut self.state.search_query, c);
                outcome(true)
            },
            _ => outcome(false),
        }
    }
}


/// The state after opening the diff of a target from the dashboard or the
/// branch picker: the diff screen, empty until the diff arrives, at the top,
/// and the diff asked for.
pub open spec fn diff_opened(s: Session, t: Session, target: TargetView, r: Option<CommandView>) -> bool {
    &&& r == Some(CommandView::Diff(s.requests.next_id, target))
    &&& t.requests == diff_sent(s.requests)
    &&& t.overlay == s.overlay
    &&& t.themes == s.themes
    &&& t.preview == (Preview { diff_error: None, highlighted: None, highlight_message: None, ..s.preview })
    &&& t.state.screen matches Screen::Diff { target: x, direct } && x@ == target && !direct
    &&& t.state.search_matches@.len() == 0
    &&& t.state == (AppState {
        screen: t.state.screen,
        diff: None,
        search_matches: t.state.search_matches,
        diff_scroll: 0,
        ..s.state
    })
}

/// The last index of a list of `n` entries, or zero.
pub open spec fn last_index(n: int) -> int {
    if n > 0 {
        n - 1
    } else {
        0
    }
}

/// The number of branches, or zero without data.
pub open spec fn branch_count(s: AppState) -> int {
    match s.data {
        Some(d) => d.branches@.len() as int,
        None => 0,
    }
}

/// The name of the selected branch, if any.
pub open spec fn selected_branch(s: AppState) -> Option<Seq<u8>> {
    match s.data {
        Some(d) => if s.branch_selection < d.branches@.len() {
            Some(d.branches@[s.branch_selection as int].name@)
        } else {
            None
        },
        None => None,
    }
}

/// A session whose branch selection is `n`.
pub open spec fn with_branch_selection(s: Session, n: int) -> Session {
    Session { state: AppState { branch_selection: n as usize, ..s.state }, ..s }
}

/// A key in the theme picker: Esc or `t` restores the confirmed theme and
/// closes it, `j`/Down and `k`/Up move through the themes, Enter asks to save
/// the highlighted theme, anything else is ignored.
pub open spec fn theme_step(s: Session, t: Session, key: Key, o: KeyOutcome) -> bool {
    let i = s.overlay.theme_index as int;
    if key == Key::Esc || key == Key::Char('t') {
        plain(o, true) && t == (Session {
            overlay: Overlays { theme_index: s.overlay.confirmed_theme_index, theme_picker: false, ..s.overlay },
            ..s
        })
    } else if key == Key::Char('j') || key == Key::Down {
        plain(o, true) && t == (Session {
            overlay: Overlays {
                theme_index: (if i + 1 < s.themes@.len() { i + 1 } else { s.themes@.len() - 1 }) as usize,
                ..s.overlay
            },
            ..s
        })
    } else if key == Key::Char('k') || key == Key::Up {
        plain(o, true) && t == (Session { overlay: Overlays { theme_index: last_index(i) as usize, ..s.overlay }, ..s })
    } else if key == Key::Enter {
        &&& o.handled && !o.quit && o.request is None && o.copy_commit is None
        &&& o.save_theme matches Some(n) && n@ == s.themes@[i].name@
        &&& t == s
    } else {
        plain(o, false) && t == s
    }
}

/// A key in the branch picker: Esc or `b` closes it; `j`/Down, `k`/Up,
/// PageDown and PageUp move through the branches; Enter shows the selected
/// branch's head commit; `c` marks the selected branch as the base of a
/// comparison, or, with a different base marked, compares the two; anything
/// else is ignored.
pub open spec fn branch_step(s: Session, t: Session, key: Key, o: KeyOutcome) -> bool {
    let sel = s.state.branch_selection as int;
    let last = last_index(branch_count(s.state));
    let up_one = if sel + 1 <= usize::MAX { sel + 1 } else { usize::MAX as int };
    let up_page = if sel + 10 <= usize::MAX { sel + 10 } else { usize::MAX as int };
    if key == Key::Esc || key == Key::Char('b') {
        plain(o, true) && t == (Session {
            state: AppState { branch_picker: false, ..s.state },
            overlay: Overlays { comparison_base: None, ..s.overlay },
            ..s
        })
    } else if key == Key::Char('j') || key == Key::Down {
        plain(o, true) && t == with_branch_selection(s, if up_one < last { up_one } else { last })
    } else if key == Key::Char('k') || key == Key::Up {
        plain(o, true) && t == with_branch_selection(s, last_index(sel))
    } else if key == Key::PageDown {
        plain(o, true) && t == with_branch_selection(s, if up_page < last { up_page } else { last })
    } else if key == Key::PageUp {
        plain(o, true) && t == with_branch_selection(s, if sel >= 10 { sel - 10 } else { 0 })
    } else if key == Key::Enter {
        match selected_branch(s.state) {
            Some(name) => {
                let u = Session { state: AppState { branch_picker: false, ..s.state }, ..s };
                &&& o.handled && !o.quit && o.save_theme is None && o.copy_commit is None
                &&& diff_opened(u, t, TargetView::Show { revision: name, path: None }, command_view(o.request))
            },
            None => plain(o, true) && t == s,
        }
    } else if key == Key::Char('c') {
        match selected_branch(s.state) {
            Some(name) => match crate::cli::opt_view(s.overlay.comparison_base) {
                Some(left) => if left != name {
                    let u = Session {
                        state: AppState { branch_picker: false, ..s.state },
                        overlay: Overlays { comparison_base: None, ..s.overlay },
                        ..s
                    };
                    &&& o.handled && !o.quit && o.save_theme is None && o.copy_commit is None
                    &&& diff_opened(u, t, TargetView::Compare { left, right: name, path: None }, command_view(o.request))
                } else {
                    plain(o, true) && t == s
                },
                None => {
                    &&& plain(o, true)
                    &&& crate::cli::opt_view(t.overlay.comparison_base) == Some(name)
                    &&& t == (Session { overlay: Overlays { comparison_base: t.overlay.comparison_base, ..s.overlay }, ..s })
                },
            },
            None => plain(o, true) && t == s,
        }
    } else {
        plain(o, false) && t == s
    }
}

impl Session {
    /// Opens the diff of a target and asks for it.
    fn show_diff(&mut self, target: LaunchTarget) -> (r: GitCommand)
        requires
            old(self).requests.next_id < u64::MAX,
        ensures
            diff_opened(*old(self), *final(self), target@, Some(r@)),
    {
        self.state.screen = Screen::Diff { target: target.copy(), direct: false };
        self.state.diff = None;
        self.preview.diff_error = None;
        self.preview.highlighted = None;
        self.preview.highlight_message = None;
        self.state.search_matches = Vec::new();
        self.state.diff_scroll = 0;
        self.request_diff(target)
    }

    /// A key in the theme picker.
    fn theme_key(&mut self, key: Key) -> (o: KeyOutcome)
        requires
            old(self).overlay.theme_index < old(self).themes@.len(),
        ensures
            theme_step(*old(self), *final(self), key, o),
    {
        if key == Key::Esc || key == Key::Char('t') {
            self.overlay.theme_index = self.overlay.confirmed_theme_index;
            self.overlay.theme_picker = false;
            outcome(true)
        } else if key == Key::Char('j') || key == Key::Down {
            let n = self.themes.len();
            let next = self.overlay.theme_index + 1;
            self.overlay.theme_index = if next < n {
                next
            } else {
                n - 1
            };
            outcome(true)
        } else if key == Key::Char('k') || key == Key::Up {
            if self.overlay.theme_index > 0 {
                self.overlay.theme_index = self.overlay.theme_index - 1;
            }
            outcome(true)
        } else if key == Key::Enter {
            let name = self.themes[self.overlay.theme_index].name.clone();
            KeyOutcome { handled: true, quit: false, request: None, save_theme: Some(name), copy_commit: None }
        } else {
            outcome(false)
        }
    }

    /// Records whether copying a commit id worked: the message names the
    /// commit's short id, or says why the copy failed. Nothing else changes.
    pub fn commit_copied(&mut self, short_id: &str, result: Result<(), String>)
        ensures
            final(self).state == old(self).state,
            final(self).preview == old(self).preview,
            final(self).requests == old(self).requests,
            final(self).themes == old(self).themes,
            final(self).overlay == (Overlays { theme_message: final(self).overlay.theme_message, ..old(self).overlay }),
            final(self).overlay.theme_message matches Some(m) && m@ == match result {
                Ok(_) => "Copied commit SHA: "@ + short_id@,
                Err(e) => "Could not copy commit SHA: "@ + e@,
            },
    {
        let m = match result {
            Ok(()) => {
                let mut m = String::from_str("Copied commit SHA: ");
                m.append(short_id);
                m
            },
            Err(e) => {
                let mut m = String::from_str("Could not copy commit SHA: ");
                m.append(e.as_str());
                m
            },
        };
        self.overlay.theme_message = Some(m);
    }

    /// Records whether saving the chosen theme worked: on success the theme
    /// is confirmed, announced, and the picker closes; on failure the error
    /// is shown.
    pub fn theme_saved(&mut self, result: Result<(), String>)
        requires
            old(self).overlay.theme_index < old(self).themes@.len(),
        ensures
            saved_step(*old(self), *final(self), result),
    {
        match result {
            Ok(()) => {
                self.overlay.confirmed_theme_index = self.overlay.theme_index;
                let mut m = String::from_str("Selected theme: ");
                m.append(self.themes[self.overlay.theme_index].name.as_str());
                self.overlay.theme_message = Some(m);
                self.overlay.theme_picker = false;
            },
            Err(e) => {
                self.overlay.theme_message = Some(e);
            },
        }
    }

    /// The name of the selected branch.
    fn branch_name(&self) -> (r: Option<Vec<u8>>)
        ensures
            crate::cli::opt_view(r) == selected_branch(self.state),
    {
        match &self.state.data {
            Some(d) => if self.state.branch_selection < d.branches.len() {
                Some(d.branches[self.state.branch_selection].name.clone())
            } else {
                None
            },
            None => None,
        }
    }

    /// A key in the branch picker.
    fn branch_key(&mut self, key: Key) -> (o: KeyOutcome)
        requires
            old(self).requests.next_id < u64::MAX,
        ensures
            branch_step(*old(self), *final(self), key, o),
    {
        let count = match &self.state.data {
            Some(d) => d.branches.len(),
            None => 0,
        };
        let last = if count > 0 {
            count - 1
        } else {
            0
        };
        let sel = self.state.branch_selection;
        if key == Key::Esc || key == Key::Char('b') {
            self.state.branch_picker = false;
            self.overlay.comparison_base = None;
            outcome(true)
        } else if key == Key::Char('j') || key == Key::Down {
            let up = sel.saturating_add(1);
            self.state.branch_selection = if up < last { up } else { last };
            outcome(true)
        } else if key == Key::Char('k') || key == Key::Up {
            self.state.branch_selection = sel.saturating_sub(1);
            outcome(true)
        } else if key == Key::PageDown {
            let up = sel.saturating_add(10);
            self.state.branch_selection = if up < last { up } else { last };
            outcome(true)
        } else if key == Key::PageUp {
            self.state.branch_selection = sel.saturating_sub(10);
            outcome(true)
        } else if key == Key::Enter {
            match self.branch_name() {
                Some(name) => {
                    self.state.branch_picker = false;
                    let r = self.show_diff(LaunchTarget::Show { revision: name, path: None });
                    requesting(Some(r))
                },
                None => outcome(true),
            }
        } else if key == Key::Char('c') {
            match self.branch_name() {
                Some(name) => match &self.overlay.comparison_base {
                    Some(left) => if !vec_eq(left, &name) {
                        let left = left.clone();
                        self.state.branch_picker = false;
                        self.overlay.comparison_base = None;
                        let r = self.show_diff(LaunchTarget::Compare { left, right: name, path: None });
                        requesting(Some(r))
                    } else {
                        outcome(true)
                    },
                    None => {
                        self.overlay.comparison_base = Some(name);
                        outcome(true)
                    },
                },
                None => outcome(true),
            }
        } else {
            outcome(false)
        }
    }
}


/// What a key does besides the state change: nothing but a redraw.
pub open spec fn only_handled(o: KeyOutcome) -> bool {
    o.handled && !o.quit && o.save_theme is None && o.copy_commit is None
}

/// A session with a new navigation state.
pub open spec fn with_state(s: Session, st: AppState) -> Session {
    Session { state: st, ..s }
}

/// The lines and entries that a key moves the diff and a selection by, for
/// the keys that move.
pub open spec fn move_amounts(key: Key) -> Option<(int, int)> {
    if key == Key::Char('j') || key == Key::Down {
        Some((1, 1))
    } else if key == Key::Char('k') || key == Key::Up {
        Some((-1, -1))
    } else if key == Key::PageDown {
        Some((20, 10))
    } else if key == Key::PageUp {
        Some((-20, -10))
    } else if key == Key::End || key == Key::Char('G') {
        Some((isize::MAX as int, isize::MAX as int))
    } else {
        None
    }
}

/// Whether a key moves to the top.
pub open spec fn is_home(key: Key) -> bool {
    key == Key::Home || key == Key::Char('g')
}

/// The selection moved by `delta` on the dashboard, and the preview following
/// it when it moved.
pub open spec fn selection_step(s: Session, t: Session, delta: int, o: KeyOutcome) -> bool {
    let (st, moved) = crate::state::after_move(s.state, delta);
    &&& only_handled(o)
    &&& if moved {
        refresh_step(with_state(s, st), t, command_view(o.request))
    } else {
        t == with_state(s, st) && o.request is None
    }
}

/// Whether the unstaged list has a change other than an untracked file.
pub open spec fn has_tracked_changes(s: AppState) -> bool {
    match s.data {
        Some(d) => exists|i: int| 0 <= i < d.unstaged@.len() && (#[trigger] d.unstaged@[i]).kind != ChangeKind::Untracked,
        None => false,
    }
}

/// The focus the changes page opens with: the staged list when only it has
/// changes, the unstaged list otherwise.
pub open spec fn changes_focus(s: AppState) -> Focus {
    match s.data {
        Some(d) => if d.unstaged@.len() == 0 && d.staged@.len() > 0 {
            Focus::Staged
        } else {
            Focus::Unstaged
        },
        None => Focus::Unstaged,
    }
}

/// A key on the dashboard.
///
/// `q` or Esc quits; Tab, Left and Right move the focus and, on the changes
/// page, preview the newly selected change; `r` reloads the dashboard with a
/// fresh request, clearing its last error; the movement keys scroll the diff when it is focused and move the selection
/// otherwise, the preview following; Enter opens the selection's diff; `b`
/// opens the branch picker and `c` opens it with the selected branch as the
/// comparison base; `y` on the history page copies the selected commit's id;
/// `h` and `u` go to the history and changes pages; `D` on the changes page
/// asks before discarding tracked working-tree changes, or says there are none.
pub open spec fn dashboard_step(s: Session, t: Session, key: Key, o: KeyOutcome) -> bool {
    let st = s.state;
    if key == Key::Char('q') || key == Key::Esc {
        o.handled && o.quit && o.request is None && o.save_theme is None && o.copy_commit is None && t == s
    } else if key == Key::Tab || key == Key::BackTab || key == Key::Right || key == Key::Left {
        let after = crate::state::after_tab(st);
        &&& only_handled(o)
        &&& if st.dashboard_page == DashboardPage::Changes && selection_target(after) != selection_target(st) {
            change_preview_step(with_state(s, after), t, command_view(o.request))
        } else {
            t == with_state(s, after) && o.request is None
        }
    } else if key == Key::Char('r') {
        &&& runs(o, CommandView::Dashboard(s.requests.next_id, opt_view(s.requests.history_path)))
        &&& t == (Session {
            preview: Preview { dashboard_error: None, ..s.preview },
            requests: Requests {
                next_id: (s.requests.next_id + 1) as u64,
                dashboard: Some(s.requests.next_id),
                ..s.requests
            },
            ..s
        })
    } else if move_amounts(key) is Some {
        let (lines, entries) = move_amounts(key).unwrap();
        if st.focus == Focus::Diff {
            plain(o, true) && t == with_state(s, crate::state::scrolled_by(st, lines))
        } else {
            selection_step(s, t, entries, o)
        }
    } else if is_home(key) {
        if st.focus == Focus::Diff {
            plain(o, true) && t == with_state(s, AppState { diff_scroll: 0, ..st })
        } else {
            selection_step(s, t, isize::MIN as int, o)
        }
    } else if key == Key::Enter {
        match selection_target(st) {
            Some(target) => {
                let u = Session { preview: Preview { pending_change_preview: false, ..s.preview }, ..s };
                only_handled(o) && diff_opened(u, t, target, command_view(o.request))
            },
            None => plain(o, true) && t == s,
        }
    } else if key == Key::Char('b') {
        plain(o, true) && t == (Session {
            state: AppState { branch_picker: true, ..st },
            overlay: Overlays { comparison_base: None, ..s.overlay },
            ..s
        })
    } else if key == Key::Char('c') {
        &&& plain(o, true)
        &&& crate::cli::opt_view(t.overlay.comparison_base) == selected_branch(st)
        &&& t == (Session {
            state: AppState { branch_picker: true, ..st },
            overlay: Overlays { comparison_base: t.overlay.comparison_base, ..s.overlay },
            ..s
        })
    } else if key == Key::Char('y') && st.dashboard_page == DashboardPage::History {
        &&& o.handled && !o.quit && o.request is None && o.save_theme is None
        &&& t == s
        &&& match st.data {
            Some(d) => if st.history_selection < d.commits@.len() {
                let c = d.commits@[st.history_selection as int];
                o.copy_commit matches Some(p) && p.0@ == c.id@ && p.1@ == c.short_id@
            } else {
                o.copy_commit is None
            },
            None => o.copy_commit is None,
        }
    } else if key == Key::Char('h') {
        only_handled(o) && commit_preview_step(
            with_state(s, AppState { dashboard_page: DashboardPage::History, focus: Focus::History, ..st }),
            t,
            command_view(o.request),
        )
    } else if key == Key::Char('u') {
        let f = changes_focus(st);
        only_handled(o) && change_preview_step(
            with_state(s, AppState { dashboard_page: DashboardPage::Changes, focus: f, preview_focus: f, ..st }),
            t,
            command_view(o.request),
        )
    } else if key == Key::Char('D') && st.dashboard_page == DashboardPage::Changes {
        &&& plain(o, true)
        &&& if has_tracked_changes(st) {
            t == (Session { overlay: Overlays { discard_confirmation: true, ..s.overlay }, ..s })
        } else {
            &&& t.overlay.theme_message matches Some(m) && m@ == "No tracked working-tree changes to discard"@
            &&& t == (Session { overlay: Overlays { theme_message: t.overlay.theme_message, ..s.overlay }, ..s })
        }
    } else {
        plain(o, false) && t == s
    }
}

/// The state after jumping with the diff's line index `to`.
pub open spec fn jumped(st: AppState, to: int) -> AppState {
    AppState { diff_scroll: to as usize, ..st }
}

/// A key on the diff screen.
///
/// `q` quits; `B` opens the branch picker when there is dashboard data; Esc
/// or `b` goes back to the dashboard: without dashboard data yet (as after
/// opening a diff from the command line) it asks for the dashboard with a
/// fresh request, otherwise it previews the selected change again on the
/// changes page; the movement
/// keys scroll; `n`/`N` and `]`/`[` jump to the next or previous hunk and
/// file; `s`/`S` go to the next or previous search match.
pub open spec fn diff_step(s: Session, t: Session, key: Key, direct: bool, o: KeyOutcome) -> bool {
    let st = s.state;
    let scroll = st.diff_scroll as int;
    if key == Key::Char('q') {
        o.handled && o.quit && o.request is None && o.save_theme is None && o.copy_commit is None && t == s
    } else if key == Key::Char('B') && st.data is Some {
        plain(o, true) && t == (Session {
            state: AppState { branch_picker: true, ..st },
            overlay: Overlays { comparison_base: None, ..s.overlay },
            preview: Preview { pending_change_preview: false, ..s.preview },
            ..s
        })
    } else if (key == Key::Esc || key == Key::Char('b')) && st.data is None {
        &&& runs(o, CommandView::Dashboard(s.requests.next_id, opt_view(s.requests.history_path)))
        &&& t == (Session {
            state: AppState { screen: Screen::Dashboard, ..st },
            preview: Preview { dashboard_error: None, ..s.preview },
            requests: Requests {
                next_id: (s.requests.next_id + 1) as u64,
                dashboard: Some(s.requests.next_id),
                ..s.requests
            },
            ..s
        })
    } else if key == Key::Esc || key == Key::Char('b') {
        let back = with_state(s, AppState { screen: Screen::Dashboard, ..st });
        if st.dashboard_page == DashboardPage::Changes {
            only_handled(o) && change_preview_step(
                Session { preview: Preview { preview_target: None, ..back.preview }, ..back },
                t,
                command_view(o.request),
            )
        } else {
            plain(o, true) && t == back
        }
    } else if move_amounts(key) is Some {
        plain(o, true) && t == with_state(s, crate::state::scrolled_by(st, move_amounts(key).unwrap().0))
    } else if is_home(key) {
        plain(o, true) && t == with_state(s, AppState { diff_scroll: 0, ..st })
    } else if key == Key::Char('n') || key == Key::Char('N') || key == Key::Char(']') || key == Key::Char('[') {
        plain(o, true) && t == with_state(
            s,
            jumped(
                st,
                match st.diff {
                    Some(d) => crate::viewer::jump_target(
                        if key == Key::Char('n') {
                            crate::viewer::hunk_after(d.lines@, scroll)
                        } else if key == Key::Char('N') {
                            crate::viewer::hunk_before(d.lines@, scroll)
                        } else if key == Key::Char(']') {
                            crate::viewer::file_after(d, scroll)
                        } else {
                            crate::viewer::file_before(d, scroll)
                        },
                        scroll,
                    ),
                    None => scroll,
                },
            ),
        )
    } else if key == Key::Char('s') || key == Key::Char('S') {
        plain(o, true) && t == with_state(s, crate::state::after_next_match(st, key == Key::Char('S')))
    } else {
        plain(o, false) && t == s
    }
}

/// What the event loop needs of a session to handle any key: a request id to
/// hand out, a theme chosen from the list, a well-formed document, a current
/// search match, and change lists whose total length fits.
pub open spec fn ready(s: Session) -> bool {
    &&& s.requests.next_id < u64::MAX
    &&& s.overlay.theme_index < s.themes@.len()
    &&& s.overlay.confirmed_theme_index < s.themes@.len()
    &&& s.state.diff matches Some(d) ==> d.well_formed()
    &&& (s.state.search_matches@.len() == 0 || s.state.search_match_index < s.state.search_matches@.len())
    &&& s.state.data matches Some(d) ==> d.staged@.len() + d.unstaged@.len() <= usize::MAX
}

impl Session {
    /// Whether the session can take a key press.
    pub fn is_ready(&self) -> (r: bool)
        ensures
            r == ready(*self),
    {
        let diff_ok = match &self.state.diff {
            Some(d) => d.ranges_well_formed(),
            None => true,
        };
        let data_ok = match &self.state.data {
            Some(d) => d.staged.len() <= usize::MAX - d.unstaged.len(),
            None => true,
        };
        self.requests.next_id < u64::MAX && self.overlay.theme_index < self.themes.len()
            && self.overlay.confirmed_theme_index < self.themes.len() && diff_ok
            && (self.state.search_matches.len() == 0 || self.state.search_match_index
            < self.state.search_matches.len()) && data_ok
    }
}

/// A key press. Every press clears the message unless the theme picker is
/// open; then the discard prompt, the search prompt, the theme picker and the
/// branch picker take keys in that order; otherwise `t` opens the theme
/// picker, `/` on the diff screen starts a search, and the screen takes the
/// key.
pub open spec fn key_step(s: Session, t: Session, key: Key, o: KeyOutcome) -> bool {
    let s0 = if s.overlay.theme_picker {
        s
    } else {
        Session { overlay: Overlays { theme_message: None, ..s.overlay }, ..s }
    };
    if s0.overlay.discard_confirmation {
        discard_step(s0, t, key, o)
    } else if s0.overlay.search_input {
        search_step(s0, t, key, o)
    } else if s0.overlay.theme_picker {
        theme_step(s0, t, key, o)
    } else if s0.state.branch_picker {
        branch_step(s0, t, key, o)
    } else if key == Key::Char('t') {
        plain(o, true) && t == (Session { overlay: Overlays { theme_picker: true, ..s0.overlay }, ..s0 })
    } else if key == Key::Char('/') && s0.state.screen is Diff {
        &&& plain(o, true)
        &&& t.state.search_query@.len() == 0
        &&& t == (Session {
            state: AppState { search_query: t.state.search_query, ..s0.state },
            overlay: Overlays { search_input: true, theme_message: None, ..s0.overlay },
            ..s0
        })
    } else {
        match s0.state.screen {
            Screen::Dashboard => dashboard_step(s0, t, key, o),
            Screen::Diff { direct, .. } => diff_step(s0, t, key, direct, o),
        }
    }
}

/// What saving the chosen theme leads to: on success the theme is
/// confirmed, announced, and the picker closes; on failure the error is
/// shown. Nothing else changes.
pub open spec fn saved_step(s: Session, t: Session, result: Result<(), String>) -> bool {
    &&& t.state == s.state
    &&& t.preview == s.preview
    &&& t.requests == s.requests
    &&& t.themes == s.themes
    &&& match result {
        Ok(_) => {
            &&& t.overlay == (Overlays {
                confirmed_theme_index: s.overlay.theme_index,
                theme_picker: false,
                theme_message: t.overlay.theme_message,
                ..s.overlay
            })
            &&& t.overlay.theme_message matches Some(m) && m@ == "Selected theme: "@
                + s.themes@[s.overlay.theme_index as int].name@
        },
        Err(e) => t.overlay == (Overlays { theme_message: Some(e), ..s.overlay }),
    }
}

/// The id of a command.
pub open spec fn command_id(c: CommandView) -> u64 {
    match c {
        CommandView::Dashboard(id, _) => id,
        CommandView::Diff(id, _) => id,
        CommandView::CommitFiles(id, _, _) => id,
        CommandView::DiscardWorkingTree(id) => id,
    }
}

/// Whether a key press hands out request ids in order: the next id never
/// goes back, and a command sent gets an id from those handed out by it.
pub open spec fn ids_advance(s: Session, t: Session, o: KeyOutcome) -> bool {
    &&& s.requests.next_id <= t.requests.next_id
    &&& (command_view(o.request) matches Some(c) ==> s.requests.next_id <= command_id(c) < t.requests.next_id)
}

/// The working tree is restored only from the discard prompt, and only when
/// the key confirms it; the prompt is then closed.
pub proof fn lemma_discard_needs_confirmation(s: Session, t: Session, key: Key, o: KeyOutcome)
    requires
        key_step(s, t, key, o),
        command_view(o.request) matches Some(CommandView::DiscardWorkingTree(_)),
    ensures
        s.overlay.discard_confirmation,
        key == Key::Enter || key == Key::Char('y'),
        !t.overlay.discard_confirmation,
{
}

/// Choosing a theme with Enter in the picker asks to save exactly the
/// highlighted theme; once saving succeeds, that theme is the confirmed one
/// and the picker is closed.
pub proof fn lemma_theme_choice_confirms(s: Session, t: Session, o: KeyOutcome, u: Session)
    requires
        ready(s),
        s.overlay.theme_picker,
        !s.overlay.discard_confirmation,
        !s.overlay.search_input,
        key_step(s, t, Key::Enter, o),
        saved_step(t, u, Ok(())),
    ensures
        o.save_theme matches Some(n) && n@ == s.themes@[s.overlay.theme_index as int].name@,
        u.overlay.confirmed_theme_index == s.overlay.theme_index,
        !u.overlay.theme_picker,
        u.state == s.state,
        u.themes == s.themes,
        u.requests == s.requests,
{
}

/// In the discard prompt, `n` or Esc closes it and sends nothing.
pub proof fn lemma_discard_prompt_cancels(s: Session, t: Session, key: Key, o: KeyOutcome)
    requires
        s.overlay.discard_confirmation,
        key == Key::Esc || key == Key::Char('n'),
        key_step(s, t, key, o),
    ensures
        o.request is None,
        !t.overlay.discard_confirmation,
        t.state == s.state,
        t.requests == s.requests,
{
}

/// The branch picker asks Git for nothing but diffs: it never changes the
/// repository.
pub proof fn lemma_branch_picker_only_reads(s: Session, t: Session, key: Key, o: KeyOutcome)
    requires
        s.state.branch_picker,
        !s.overlay.discard_confirmation,
        !s.overlay.search_input,
        !s.overlay.theme_picker,
        key_step(s, t, key, o),
    ensures
        command_view(o.request) matches Some(c) ==> c is Diff,
{
}

/// A key press hands out request ids in increasing order.
pub proof fn lemma_keys_advance_ids(s: Session, t: Session, key: Key, o: KeyOutcome)
    requires
        ready(s),
        s.requests.next_id < u64::MAX - 1,
        key_step(s, t, key, o),
    ensures
        ids_advance(s, t, o),
{
}

/// The discard prompt keeps a session ready.
proof fn lemma_discard_keeps_ready(s: Session, t: Session, key: Key, o: KeyOutcome)
    requires
        ready(s),
        s.requests.next_id < u64::MAX - 1,
        discard_step(s, t, key, o),
    ensures
        ready(t),
{
}

/// The search prompt keeps a session ready.
proof fn lemma_search_keeps_ready(s: Session, t: Session, key: Key, o: KeyOutcome)
    requires
        ready(s),
        search_step(s, t, key, o),
    ensures
        ready(t),
{
}

/// The theme picker keeps a session ready.
proof fn lemma_theme_keeps_ready(s: Session, t: Session, key: Key, o: KeyOutcome)
    requires
        ready(s),
        theme_step(s, t, key, o),
    ensures
        ready(t),
{
}

/// The branch picker keeps a session ready.
proof fn lemma_branch_keeps_ready(s: Session, t: Session, key: Key, o: KeyOutcome)
    requires
        ready(s),
        s.requests.next_id < u64::MAX - 1,
        branch_step(s, t, key, o),
    ensures
        ready(t),
{
}

/// Keys on the dashboard keep a session ready.
#[verifier::rlimit(40)]
proof fn lemma_dashboard_keeps_ready(s: Session, t: Session, key: Key, o: KeyOutcome)
    requires
        ready(s),
        s.requests.next_id < u64::MAX - 1,
        dashboard_step(s, t, key, o),
    ensures
        ready(t),
{
}

/// Keys on the diff screen keep a session ready.
proof fn lemma_diff_keeps_ready(s: Session, t: Session, key: Key, direct: bool, o: KeyOutcome)
    requires
        ready(s),
        s.requests.next_id < u64::MAX - 1,
        diff_step(s, t, key, direct, o),
    ensures
        ready(t),
{
}

/// A key press leaves a ready session ready, while request ids remain.
pub proof fn lemma_keys_keep_ready(s: Session, t: Session, key: Key, o: KeyOutcome)
    requires
        ready(s),
        s.requests.next_id < u64::MAX - 1,
        key_step(s, t, key, o),
    ensures
        ready(t),
{
    let s0 = if s.overlay.theme_picker {
        s
    } else {
        Session { overlay: Overlays { theme_message: None, ..s.overlay }, ..s }
    };
    assert(ready(s0));
    if s0.overlay.discard_confirmation {
        lemma_discard_keeps_ready(s0, t, key, o);
    } else if s0.overlay.search_input {
        lemma_search_keeps_ready(s0, t, key, o);
    } else if s0.overlay.theme_picker {
        lemma_theme_keeps_ready(s0, t, key, o);
    } else if s0.state.branch_picker {
        lemma_branch_keeps_ready(s0, t, key, o);
    } else if key == Key::Char('t') || (key == Key::Char('/') && s0.state.screen is Diff) {
    } else {
        match s0.state.screen {
            Screen::Dashboard => lemma_dashboard_keeps_ready(s0, t, key, o),
            Screen::Diff { direct, .. } => lemma_diff_keeps_ready(s0, t, key, direct, o),
        }
    }
}

impl Session {
    /// The selection moved by `delta`, and the preview following it.
    fn move_and_refresh(&mut self, delta: isize) -> (o: KeyOutcome)
        requires
            ready(*old(self)),
        ensures
            selection_step(*old(self), *final(self), delta as int, o),
    {
        if self.state.move_selection(delta) {
            let r = match self.state.dashboard_page {
                DashboardPage::History => self.select_commit_preview(),
                DashboardPage::Changes => self.request_change_preview(),
            };
            requesting(r)
        } else {
            outcome(true)
        }
    }

    /// Whether the unstaged list has a change other than an untracked file.
    fn tracked_changes(&self) -> (r: bool)
        ensures
            r == has_tracked_changes(self.state),
    {
        match &self.state.data {
            Some(d) => {
                let mut i: usize = 0;
                while i < d.unstaged.len()
                    invariant
                        self.state.data == Some(*d),
                        i <= d.unstaged@.len(),
                        forall|k: int| 0 <= k < i ==> (#[trigger] d.unstaged@[k]).kind == ChangeKind::Untracked,
                    decreases d.unstaged.len() - i,
                {
                    if d.unstaged[i].kind != ChangeKind::Untracked {
                        return true;
                    }
                    i = i + 1;
                }
                false
            },
            None => false,
        }
    }

    /// A key on the dashboard.
    fn dashboard_key(&mut self, key: Key) -> (o: KeyOutcome)
        requires
            ready(*old(self)),
        ensures
            dashboard_step(*old(self), *final(self), key, o),
    {
        let focus_diff = self.state.focus == Focus::Diff;
        if key == Key::Char('q') || key == Key::Esc {
            KeyOutcome { handled: true, quit: true, request: None, save_theme: None, copy_commit: None }
        } else if key == Key::Tab || key == Key::BackTab || key == Key::Right || key == Key::Left {
            let previous = self.state.selected_target();
            self.state.cycle_focus();
            let now = self.state.selected_target();
            let same = match (&previous, &now) {
                (Some(a), Some(b)) => target_eq(a, b),
                (None, None) => true,
                _ => false,
            };
            if self.state.dashboard_page == DashboardPage::Changes && !same {
                let r = self.request_change_preview();
                requesting(r)
            } else {
                outcome(true)
            }
        } else if key == Key::Char('r') {
            self.preview.dashboard_error = None;
            let request_id = self.requests.take_id();
            self.requests.dashboard = Some(request_id);
            requesting(Some(GitCommand::Dashboard { request_id, history_path: copy_opt(&self.requests.history_path) }))
        } else if key == Key::Char('j') || key == Key::Down {
            if focus_diff {
                self.state.move_diff_scroll(1);
                outcome(true)
            } else {
                self.move_and_refresh(1)
            }
        } else if key == Key::Char('k') || key == Key::Up {
            if focus_diff {
                self.state.move_diff_scroll(-1);
                outcome(true)
            } else {
                self.move_and_refresh(-1)
            }
        } else if key == Key::PageDown {
            if focus_diff {
                self.state.move_diff_scroll(20);
                outcome(true)
            } else {
                self.move_and_refresh(10)
            }
        } else if key == Key::PageUp {
            if focus_diff {
                self.state.move_diff_scroll(-20);
                outcome(true)
            } else {
                self.move_and_refresh(-10)
            }
        } else if key == Key::End || key == Key::Char('G') {
            if focus_diff {
                self.state.move_diff_scroll(isize::MAX);
                outcome(true)
            } else {
                self.move_and_refresh(isize::MAX)
            }
        } else if key == Key::Home || key == Key::Char('g') {
            if focus_diff {
                self.state.diff_scroll = 0;
                outcome(true)
            } else {
                self.move_and_refresh(isize::MIN)
            }
        } else if key == Key::Enter {
            match self.state.selected_target() {
                Some(target) => {
                    self.preview.pending_change_preview = false;
                    let r = self.show_diff(target);
                    requesting(Some(r))
                },
                None => outcome(true),
            }
        } else if key == Key::Char('b') {
            self.state.branch_picker = true;
            self.overlay.comparison_base = None;
            outcome(true)
        } else if key == Key::Char('c') {
            self.state.branch_picker = true;
            self.overlay.comparison_base = self.branch_name();
            outcome(true)
        } else if key == Key::Char('y') && self.state.dashboard_page == DashboardPage::History {
            let copy = match &self.state.data {
                Some(d) => if self.state.history_selection < d.commits.len() {
                    let c = &d.commits[self.state.history_selection];
                    Some((c.id.clone(), c.short_id.clone()))
                } else {
                    None
                },
                None => None,
            };
            KeyOutcome { handled: true, quit: false, request: None, save_theme: None, copy_commit: copy }
        } else if key == Key::Char('h') {
            self.state.dashboard_page = DashboardPage::History;
            self.state.focus = Focus::History;
            let r = self.select_commit_preview();
            requesting(r)
        } else if key == Key::Char('u') {
            let f = match &self.state.data {
                Some(d) => if d.unstaged.len() == 0 && d.staged.len() > 0 {
                    Focus::Staged
                } else {
                    Focus::Unstaged
                },
                None => Focus::Unstaged,
            };
            self.state.dashboard_page = DashboardPage::Changes;
            self.state.focus = f;
            self.state.preview_focus = f;
            let r = self.request_change_preview();
            requesting(r)
        } else if key == Key::Char('D') && self.state.dashboard_page == DashboardPage::Changes {
            if self.tracked_changes() {
                self.overlay.discard_confirmation = true;
            } else {
                self.overlay.theme_message = Some(String::from_str("No tracked working-tree changes to discard"));
            }
            outcome(true)
        } else {
            outcome(false)
        }
    }

    /// A key on the diff screen.
    fn diff_key(&mut self, key: Key, direct: bool) -> (o: KeyOutcome)
        requires
            ready(*old(self)),
        ensures
            diff_step(*old(self), *final(self), key, direct, o),
    {
        if key == Key::Char('q') {
            KeyOutcome { handled: true, quit: true, request: None, save_theme: None, copy_commit: None }
        } else if key == Key::Char('B') && self.state.data.is_some() {
            self.preview.pending_change_preview = false;
            self.state.branch_picker = true;
            self.overlay.comparison_base = None;
            outcome(true)
        } else if (key == Key::Esc || key == Key::Char('b')) && self.state.data.is_none() {
            self.state.screen = Screen::Dashboard;
            self.preview.dashboard_error = None;
            let request_id = self.requests.take_id();
            self.requests.dashboard = Some(request_id);
            requesting(Some(GitCommand::Dashboard { request_id, history_path: copy_opt(&self.requests.history_path) }))
        } else if key == Key::Esc || key == Key::Char('b') {
            self.state.screen = Screen::Dashboard;
            if self.state.dashboard_page == DashboardPage::Changes {
                self.preview.preview_target = None;
                let r = self.request_change_preview();
                requesting(r)
            } else {
                outcome(true)
            }
        } else if key == Key::Char('j') || key == Key::Down {
            self.state.move_diff_scroll(1);
            outcome(true)
        } else if key == Key::Char('k') || key == Key::Up {
            self.state.move_diff_scroll(-1);
            outcome(true)
        } else if key == Key::PageDown {
            self.state.move_diff_scroll(20);
            outcome(true)
        } else if key == Key::PageUp {
            self.state.move_diff_scroll(-20);
            outcome(true)
        } else if key == Key::End || key == Key::Char('G') {
            self.state.move_diff_scroll(isize::MAX);
            outcome(true)
        } else if key == Key::Home || key == Key::Char('g') {
            self.state.diff_scroll = 0;
            outcome(true)
        } else if key == Key::Char('n') {
            self.state.diff_scroll = crate::viewer::next_hunk(self.state.diff.as_ref(), self.state.diff_scroll);
            outcome(true)
        } else if key == Key::Char('N') {
            self.state.diff_scroll = crate::viewer::previous_hunk(self.state.diff.as_ref(), self.state.diff_scroll);
            outcome(true)
        } else if key == Key::Char(']') {
            self.state.diff_scroll = crate::viewer::next_file(self.state.diff.as_ref(), self.state.diff_scroll);
            outcome(true)
        } else if key == Key::Char('[') {
            self.state.diff_scroll = crate::viewer::previous_file(self.state.diff.as_ref(), self.state.diff_scroll);
            outcome(true)
        } else if key == Key::Char('s') {
            self.state.next_search_match(false);
            outcome(true)
        } else if key == Key::Char('S') {
            self.state.next_search_match(true);
            outcome(true)
        } else {
            outcome(false)
        }
    }

    /// Handles a key press.
    pub fn handle_key(&mut self, key: Key) -> (o: KeyOutcome)
        requires
            ready(*old(self)),
        ensures
            key_step(*old(self), *final(self), key, o),
    {
        if !self.overlay.theme_picker {
            self.overlay.theme_message = None;
        }
        if self.overlay.discard_confirmation {
            self.discard_key(key)
        } else if self.overlay.search_input {
            self.search_key(key)
        } else if self.overlay.theme_picker {
            self.theme_key(key)
        } else if self.state.branch_picker {
            self.branch_key(key)
        } else if key == Key::Char('t') {
            self.overlay.theme_picker = true;
            outcome(true)
        } else if key == Key::Char('/') && matches!(self.state.screen, Screen::Diff { .. }) {
            self.overlay.search_input = true;
            self.state.search_query = String::new();
            self.overlay.theme_message = None;
            outcome(true)
        } else {
            let direct = match &self.state.screen {
                Screen::Dashboard => None,
                Screen::Diff { direct, .. } => Some(*direct),
            };
            match direct {
                None => self.dashboard_key(key),
                Some(d) => self.diff_key(key, d),
            }
        }
    }
}


/// What the event loop does after a response.
#[derive(Debug)]
pub struct ResponseOutcome {
    /// Whether the response was for a running request; the screen is drawn
    /// again when it was.
    pub handled: bool,
    /// A Git command to run next.
    pub request: Option<GitCommand>,
    /// When set, the session's diff is to be highlighted under this id.
    pub highlight: Option<u64>,
}

/// The index of the first current branch, or zero.
pub open spec fn current_branch_index(bs: Seq<crate::dashboard::BranchEntry>) -> int {
    if exists|i: int| 0 <= i < bs.len() && (#[trigger] bs[i]).current {
        choose|i: int| 0 <= i < bs.len() && (#[trigger] bs[i]).current && forall|k: int| 0 <= k < i ==> !(#[trigger] bs[k]).current
    } else {
        0
    }
}

/// The change list the changes page previews: the preview's list when the
/// diff is focused, the focused list otherwise.
pub open spec fn active_list(st: AppState) -> Focus {
    if st.focus == Focus::Diff {
        st.preview_focus
    } else {
        st.focus
    }
}

/// The navigation state after new dashboard data arrived: the selected change
/// stays selected; on the changes page a list that became empty hands the
/// preview to the other list when that has changes; selections stay within
/// their lists; the current branch is selected.
pub open spec fn with_dashboard(st: AppState, data: DashboardData) -> AppState {
    let a = crate::state::reconciled(st, data);
    let active = active_list(a);
    let b = if a.dashboard_page == DashboardPage::Changes && active == Focus::Unstaged && data.unstaged@.len() == 0
        && data.staged@.len() > 0 {
        AppState { preview_focus: Focus::Staged, focus: if a.focus != Focus::Diff { Focus::Staged } else { a.focus }, ..a }
    } else if a.dashboard_page == DashboardPage::Changes && active == Focus::Staged && data.staged@.len() == 0
        && data.unstaged@.len() > 0 {
        AppState { preview_focus: Focus::Unstaged, focus: if a.focus != Focus::Diff { Focus::Unstaged } else { a.focus }, ..a }
    } else {
        a
    };
    AppState {
        history_selection: crate::state::min(b.history_selection as int, last_index(data.commits@.len() as int)) as usize,
        staged_selection: crate::state::min(b.staged_selection as int, last_index(data.staged@.len() as int)) as usize,
        unstaged_selection: crate::state::min(b.unstaged_selection as int, last_index(data.unstaged@.len() as int)) as usize,
        branch_selection: current_branch_index(data.branches@) as usize,
        data: Some(data),
        ..b
    }
}

/// Whether an outcome is only a redraw.
pub open spec fn redraw_only(o: ResponseOutcome) -> bool {
    o.handled && o.request is None && o.highlight is None
}

/// How the session takes the answer of the dashboard request: the new data,
/// then the preview following the selection on the dashboard; or the error.
pub open spec fn dashboard_answer(s: Session, t: Session, result: Result<GitPayload, String>, o: ResponseOutcome) -> bool {
    let s0 = Session { requests: Requests { dashboard: None, ..s.requests }, ..s };
    &&& o.handled && o.highlight is None
    &&& match result {
        Ok(GitPayload::Dashboard(data)) => {
            let s1 = with_state(s0, with_dashboard(s0.state, data));
            if s1.state.screen is Dashboard && s1.state.dashboard_page == DashboardPage::History {
                commit_preview_step(s1, t, command_view(o.request))
            } else if s1.state.screen is Dashboard {
                change_preview_step(s1, t, command_view(o.request))
            } else {
                t == s1 && o.request is None
            }
        },
        Ok(_) => t == s0 && o.request is None,
        Err(e) => t == (Session { preview: Preview { dashboard_error: Some(e), ..s0.preview }, ..s0 }) && o.request is None,
    }
}

/// How the session takes the answer of the diff request: the document, to be
/// highlighted, with the search matches cleared; or the error; then a
/// remembered change preview is asked for.
pub open spec fn diff_answer(s: Session, t: Session, id: u64, result: Result<GitPayload, String>, o: ResponseOutcome) -> bool {
    let s0 = Session { requests: Requests { diff: None, ..s.requests }, ..s };
    let s1 = match result {
        Ok(GitPayload::Diff(d)) => Session {
            state: AppState { diff: Some(d), search_matches: t.state.search_matches, ..s0.state },
            preview: Preview { highlighted: None, ..s0.preview },
            requests: Requests { highlight: Some(id), ..s0.requests },
            ..s0
        },
        Ok(_) => s0,
        Err(e) => Session { preview: Preview { diff_error: Some(e), ..s0.preview }, ..s0 },
    };
    &&& o.handled
    &&& o.highlight == (if result matches Ok(GitPayload::Diff(_)) { Some(id) } else { None::<u64> })
    &&& (result matches Ok(GitPayload::Diff(_)) ==> t.state.search_matches@.len() == 0)
    &&& if s1.preview.pending_change_preview && s1.state.screen is Dashboard && s1.state.dashboard_page
        == DashboardPage::Changes {
        change_preview_step(s1, t, command_view(o.request))
    } else {
        t == s1 && o.request is None
    }
}

impl Session {
    /// The index of the first current branch, or zero.
    fn current_branch(bs: &Vec<crate::dashboard::BranchEntry>) -> (r: usize)
        ensures
            r as int == current_branch_index(bs@),
    {
        let mut i: usize = 0;
        while i < bs.len()
            invariant
                i <= bs@.len(),
                forall|k: int| 0 <= k < i ==> !(#[trigger] bs@[k]).current,
            decreases bs.len() - i,
        {
            if bs[i].current {
                proof {
                    let c = choose|j: int| 0 <= j < bs@.len() && (#[trigger] bs@[j]).current && forall|k: int|
                        0 <= k < j ==> !(#[trigger] bs@[k]).current;
                    assert(bs@[i as int].current);
                    if c < i {
                        assert(!bs@[c].current);
                    } else if c > i {
                        assert(!bs@[i as int].current);
                    }
                }
                return i;
            }
            i = i + 1;
        }
        0
    }

    /// Takes new dashboard data into the navigation state.
    fn take_dashboard(&mut self, data: DashboardData)
        ensures
            *final(self) == with_state(*old(self), with_dashboard(old(self).state, data)),
    {
        self.state.reconcile_change_selection(&data);
        if self.state.dashboard_page == DashboardPage::Changes {
            let active = if self.state.focus == Focus::Diff {
                self.state.preview_focus
            } else {
                self.state.focus
            };
            if active == Focus::Unstaged && data.unstaged.len() == 0 && data.staged.len() > 0 {
                self.state.preview_focus = Focus::Staged;
                if self.state.focus != Focus::Diff {
                    self.state.focus = Focus::Staged;
                }
            } else if active == Focus::Staged && data.staged.len() == 0 && data.unstaged.len() > 0 {
                self.state.preview_focus = Focus::Unstaged;
                if self.state.focus != Focus::Diff {
                    self.state.focus = Focus::Unstaged;
                }
            }
        }
        let hl = if data.commits.len() > 0 { data.commits.len() - 1 } else { 0 };
        let sl = if data.staged.len() > 0 { data.staged.len() - 1 } else { 0 };
        let ul = if data.unstaged.len() > 0 { data.unstaged.len() - 1 } else { 0 };
        if self.state.history_selection > hl {
            self.state.history_selection = hl;
        }
        if self.state.staged_selection > sl {
            self.state.staged_selection = sl;
        }
        if self.state.unstaged_selection > ul {
            self.state.unstaged_selection = ul;
        }
        self.state.branch_selection = Session::current_branch(&data.branches);
        self.state.data = Some(data);
    }

    /// Handles the answer to the dashboard request.
    fn dashboard_response(&mut self, result: Result<GitPayload, String>) -> (o: ResponseOutcome)
        requires
            old(self).requests.next_id < u64::MAX,
        ensures
            dashboard_answer(*old(self), *final(self), result, o),
    {
        self.requests.dashboard = None;
        match result {
            Ok(GitPayload::Dashboard(data)) => {
                self.take_dashboard(data);
                let on_dashboard = match self.state.screen {
                    Screen::Dashboard => true,
                    _ => false,
                };
                let r = if on_dashboard && self.state.dashboard_page == DashboardPage::History {
                    self.select_commit_preview()
                } else if on_dashboard {
                    self.request_change_preview()
                } else {
                    None
                };
                ResponseOutcome { handled: true, request: r, highlight: None }
            },
            Ok(_) => ResponseOutcome { handled: true, request: None, highlight: None },
            Err(e) => {
                self.preview.dashboard_error = Some(e);
                ResponseOutcome { handled: true, request: None, highlight: None }
            },
        }
    }

    /// Handles the answer to the diff request.
    fn diff_response(&mut self, id: u64, result: Result<GitPayload, String>) -> (o: ResponseOutcome)
        requires
            old(self).requests.next_id < u64::MAX,
        ensures
            diff_answer(*old(self), *final(self), id, result, o),
    {
        self.requests.diff = None;
        let mut highlight: Option<u64> = None;
        match result {
            Ok(GitPayload::Diff(d)) => {
                self.requests.highlight = Some(id);
                self.preview.highlighted = None;
                self.state.search_matches = Vec::new();
                self.state.diff = Some(d);
                highlight = Some(id);
            },
            Ok(_) => {},
            Err(e) => {
                self.preview.diff_error = Some(e);
            },
        }
        let on_changes = match self.state.screen {
            Screen::Dashboard => self.state.dashboard_page == DashboardPage::Changes,
            _ => false,
        };
        let r = if self.preview.pending_change_preview && on_changes {
            self.request_change_preview()
        } else {
            None
        };
        ResponseOutcome { handled: true, request: r, highlight }
    }
}


/// How the session takes the answer of the discard request: after a discard
/// the dashboard is loaded again; an error is shown.
pub open spec fn discard_answer(s: Session, t: Session, result: Result<GitPayload, String>, o: ResponseOutcome) -> bool {
    let s0 = Session { requests: Requests { discard: None, ..s.requests }, ..s };
    &&& o.handled && o.highlight is None
    &&& match result {
        Ok(GitPayload::DiscardedWorkingTree) => {
            &&& command_view(o.request) == Some(CommandView::Dashboard(s.requests.next_id, opt_view(s.requests.history_path)))
            &&& t == (Session {
                requests: Requests {
                    next_id: (s.requests.next_id + 1) as u64,
                    dashboard: Some(s.requests.next_id),
                    ..s0.requests
                },
                ..s0
            })
        },
        Ok(_) => t == s0 && o.request is None,
        Err(e) => t == (Session { preview: Preview { dashboard_error: Some(e), ..s0.preview }, ..s0 }) && o.request is None,
    }
}

/// How the session takes the answer of the commit-files request for
/// `requested`: the files, when they are still wanted; an error, when its
/// revision is still wanted; and then the files of a commit selected since
/// are asked for.
pub open spec fn commit_files_answer(
    s: Session,
    t: Session,
    requested: Seq<u8>,
    result: Result<GitPayload, String>,
    o: ResponseOutcome,
) -> bool {
    let target = crate::cli::opt_view(s.state.commit_files_target);
    let s0 = Session { requests: Requests { commit_files: None, ..s.requests }, ..s };
    let s1 = match result {
        Ok(GitPayload::CommitFiles { revision, files }) => if target == Some(revision@) {
            Session {
                state: AppState {
                    commit_files: files,
                    commit_file_selection: 0,
                    commit_files_loading: false,
                    commit_files_error: None,
                    ..s0.state
                },
                ..s0
            }
        } else {
            s0
        },
        Ok(_) => s0,
        Err(e) => if target == Some(requested) {
            Session { state: AppState { commit_files_loading: false, commit_files_error: Some(e), ..s0.state }, ..s0 }
        } else {
            s0
        },
    };
    &&& o.handled && o.highlight is None
    &&& if target != Some(requested) && target is Some {
        &&& command_view(o.request) == Some(CommandView::CommitFiles(s.requests.next_id, target.unwrap(), opt_view(s.requests.history_path)))
        &&& t.requests.commit_files matches Some(p) && p.0 == s.requests.next_id && p.1@ == target.unwrap()
        &&& t == (Session {
            requests: Requests {
                next_id: (s.requests.next_id + 1) as u64,
                commit_files: t.requests.commit_files,
                ..s1.requests
            },
            ..s1
        })
    } else {
        t == s1 && o.request is None
    }
}

/// How the session takes a Git response: by the request it answers; a
/// response to no running request is dropped.
pub open spec fn response_step(s: Session, t: Session, id: u64, result: Result<GitPayload, String>, o: ResponseOutcome) -> bool {
    if s.requests.dashboard == Some(id) {
        dashboard_answer(s, t, result, o)
    } else if s.requests.diff == Some(id) {
        diff_answer(s, t, id, result, o)
    } else if s.requests.discard == Some(id) {
        discard_answer(s, t, result, o)
    } else if s.requests.commit_files matches Some(p) && p.0 == id {
        commit_files_answer(s, t, s.requests.commit_files.unwrap().1@, result, o)
    } else {
        !o.handled && o.request is None && o.highlight is None && t == s
    }
}

/// An answer to a request that is no longer running is ignored: the session
/// stays as it was and nothing is sent.
pub proof fn lemma_stale_responses_ignored(
    s: Session,
    t: Session,
    id: u64,
    result: Result<GitPayload, String>,
    o: ResponseOutcome,
)
    requires
        s.requests.dashboard != Some(id),
        s.requests.diff != Some(id),
        s.requests.discard != Some(id),
        !(s.requests.commit_files matches Some(p) && p.0 == id),
        response_step(s, t, id, result, o),
    ensures
        t == s,
        !o.handled,
        o.request is None,
        o.highlight is None,
{
}

/// A Git answer hands out request ids in increasing order too: the next id
/// never goes back, and a command sent gets an id from those handed out by
/// it.
pub proof fn lemma_responses_advance_ids(
    s: Session,
    t: Session,
    id: u64,
    result: Result<GitPayload, String>,
    o: ResponseOutcome,
)
    requires
        s.requests.next_id < u64::MAX - 1,
        response_step(s, t, id, result, o),
    ensures
        s.requests.next_id <= t.requests.next_id,
        command_view(o.request) matches Some(c) ==> s.requests.next_id <= command_id(c) < t.requests.next_id,
{
}

/// What a Git answer must hold for the session to stay ready: a diff whose
/// lines fit its text, and change lists whose lengths add up within `usize`.
pub open spec fn sound_payload(result: Result<GitPayload, String>) -> bool {
    match result {
        Ok(GitPayload::Diff(d)) => d.well_formed(),
        Ok(GitPayload::Dashboard(d)) => d.staged@.len() + d.unstaged@.len() <= usize::MAX,
        _ => true,
    }
}

/// A Git answer that is sound leaves a ready session ready, while request
/// ids remain.
pub proof fn lemma_responses_keep_ready(
    s: Session,
    t: Session,
    id: u64,
    result: Result<GitPayload, String>,
    o: ResponseOutcome,
)
    requires
        ready(s),
        s.requests.next_id < u64::MAX - 1,
        sound_payload(result),
        response_step(s, t, id, result, o),
    ensures
        ready(t),
{
}

/// The message after highlighting skipped large files.
pub open spec fn skipped_message(n: nat) -> Seq<char> {
    "Syntax highlighting skipped for "@ + decimal_text(n) + " large file(s)"@
}

/// The requests of a real-time refresh: the dashboard, when it has data or is
/// shown, and the diff on the diff screen.
pub open spec fn refresh_requests(s: Session) -> Seq<CommandView> {
    let dash = s.state.data is Some || s.state.screen is Dashboard;
    let first = if dash {
        seq![CommandView::Dashboard(s.requests.next_id, opt_view(s.requests.history_path))]
    } else {
        Seq::empty()
    };
    match s.state.screen {
        Screen::Diff { target, .. } => first.push(CommandView::Diff((s.requests.next_id + first.len()) as u64, target@)),
        Screen::Dashboard => first,
    }
}

/// The views of a list of requests.
pub open spec fn command_views(r: Seq<GitCommand>) -> Seq<CommandView> {
    r.map_values(|x: GitCommand| x@)
}

impl Session {
    /// Handles the answer to the discard request.
    fn discard_response(&mut self, result: Result<GitPayload, String>) -> (o: ResponseOutcome)
        requires
            old(self).requests.next_id < u64::MAX,
        ensures
            discard_answer(*old(self), *final(self), result, o),
    {
        self.requests.discard = None;
        match result {
            Ok(GitPayload::DiscardedWorkingTree) => {
                let request_id = self.requests.take_id();
                self.requests.dashboard = Some(request_id);
                ResponseOutcome { handled: true, request: Some(GitCommand::Dashboard { request_id, history_path: copy_opt(&self.requests.history_path) }), highlight: None }
            },
            Ok(_) => ResponseOutcome { handled: true, request: None, highlight: None },
            Err(e) => {
                self.preview.dashboard_error = Some(e);
                ResponseOutcome { handled: true, request: None, highlight: None }
            },
        }
    }

    /// Handles the answer to the commit-files request for `requested`.
    fn commit_files_response(&mut self, requested: Vec<u8>, result: Result<GitPayload, String>) -> (o: ResponseOutcome)
        requires
            old(self).requests.next_id < u64::MAX,
        ensures
            commit_files_answer(*old(self), *final(self), requested@, result, o),
    {
        self.requests.commit_files = None;
        let wanted_requested = match &self.state.commit_files_target {
            Some(t) => vec_eq(t, &requested),
            None => false,
        };
        match result {
            Ok(GitPayload::CommitFiles { revision, files }) => {
                let wanted = match &self.state.commit_files_target {
                    Some(t) => vec_eq(t, &revision),
                    None => false,
                };
                if wanted {
                    self.state.commit_files = files;
                    self.state.commit_file_selection = 0;
                    self.state.commit_files_loading = false;
                    self.state.commit_files_error = None;
                }
            },
            Ok(_) => {},
            Err(e) => {
                if wanted_requested {
                    self.state.commit_files_loading = false;
                    self.state.commit_files_error = Some(e);
                }
            },
        }
        if !wanted_requested {
            match &self.state.commit_files_target {
                Some(t) => {
                    let revision = t.clone();
                    let request_id = self.requests.take_id();
                    self.requests.commit_files = Some((request_id, revision.clone()));
                    return ResponseOutcome {
                        handled: true,
                        request: Some(GitCommand::CommitFiles { request_id, revision, path: copy_opt(&self.requests.history_path) }),
                        highlight: None,
                    };
                },
                None => {},
            }
        }
        ResponseOutcome { handled: true, request: None, highlight: None }
    }

    /// Handles a Git response: it answers the dashboard, diff, discard or
    /// commit-files request with this id, or nothing running.
    pub fn git_response(&mut self, request_id: u64, result: Result<GitPayload, String>) -> (o: ResponseOutcome)
        requires
            old(self).requests.next_id < u64::MAX,
        ensures
            response_step(*old(self), *final(self), request_id, result, o),
    {
        if self.requests.dashboard == Some(request_id) {
            self.dashboard_response(result)
        } else if self.requests.diff == Some(request_id) {
            self.diff_response(request_id, result)
        } else if self.requests.discard == Some(request_id) {
            self.discard_response(result)
        } else {
            let requested = match &self.requests.commit_files {
                Some(p) => if p.0 == request_id {
                    Some(p.1.clone())
                } else {
                    None
                },
                None => None,
            };
            match requested {
                Some(rev) => self.commit_files_response(rev, result),
                None => ResponseOutcome { handled: false, request: None, highlight: None },
            }
        }
    }

    /// Handles the answer of the highlighter: the highlighting of the current
    /// diff, with a note about skipped files, or why there is none. Answers to
    /// older requests are dropped; tells whether this one was taken.
    pub fn highlight_response(&mut self, request_id: u64, result: Result<HighlightedDiff, String>) -> (taken: bool)
        ensures
            taken == (old(self).requests.highlight == Some(request_id)),
            !taken ==> *final(self) == *old(self),
            taken ==> {
                &&& final(self).state == old(self).state
                &&& final(self).overlay == old(self).overlay
                &&& final(self).themes == old(self).themes
                &&& final(self).requests == (Requests { highlight: None, ..old(self).requests })
                &&& final(self).preview.pending_change_preview == old(self).preview.pending_change_preview
                &&& final(self).preview.preview_target == old(self).preview.preview_target
                &&& final(self).preview.diff_error == old(self).preview.diff_error
                &&& final(self).preview.dashboard_error == old(self).preview.dashboard_error
                &&& match result {
                    Ok(h) => {
                        &&& final(self).preview.highlighted == Some(h)
                        &&& if h.skipped_files > 0 {
                            final(self).preview.highlight_message matches Some(m) && m@ == skipped_message(
                                h.skipped_files as nat,
                            )
                        } else {
                            final(self).preview.highlight_message == old(self).preview.highlight_message
                        }
                    },
                    Err(e) => {
                        &&& final(self).preview.highlighted == old(self).preview.highlighted
                        &&& final(self).preview.highlight_message matches Some(m) && m@ == "Syntax highlighting unavailable: "@
                            + e@
                    },
                }
            },
    {
        if self.requests.highlight != Some(request_id) {
            return false;
        }
        self.requests.highlight = None;
        match result {
            Ok(h) => {
                if h.skipped_files > 0 {
                    let mut m = String::from_str("Syntax highlighting skipped for ");
                    let n = decimal(h.skipped_files);
                    m.append(n.as_str());
                    m.append(" large file(s)");
                    self.preview.highlight_message = Some(m);
                }
                self.preview.highlighted = Some(h);
            },
            Err(e) => {
                let mut m = String::from_str("Syntax highlighting unavailable: ");
                m.append(e.as_str());
                self.preview.highlight_message = Some(m);
            },
        }
        true
    }

    /// Whether no Git command is running, so a real-time refresh may start.
    pub fn idle(&self) -> (r: bool)
        ensures
            r == self.requests.idle(),
    {
        self.requests.dashboard.is_none() && self.requests.diff.is_none() && self.requests.commit_files.is_none()
            && self.requests.discard.is_none()
    }

    /// Whether anything is loading, the highlighting included.
    pub fn loading(&self) -> (r: bool)
        ensures
            r == (!self.requests.idle() || self.requests.highlight is Some),
    {
        !self.idle() || self.requests.highlight.is_some()
    }

    /// Reloads what is shown after the repository changed: the errors are
    /// cleared, the dashboard is asked for when it has data or is shown, and
    /// the diff on the diff screen.
    pub fn realtime_refresh(&mut self) -> (r: Vec<GitCommand>)
        requires
            old(self).requests.next_id < u64::MAX - 1,
        ensures
            command_views(r@) == refresh_requests(*old(self)),
            final(self).state == old(self).state,
            final(self).overlay == old(self).overlay,
            final(self).themes == old(self).themes,
            final(self).preview == (Preview { dashboard_error: None, diff_error: None, ..old(self).preview }),
            final(self).requests.next_id == old(self).requests.next_id + r@.len(),
            final(self).requests.dashboard == (if old(self).state.data is Some || old(self).state.screen is Dashboard {
                Some(old(self).requests.next_id)
            } else {
                old(self).requests.dashboard
            }),
            final(self).requests.diff == (match old(self).state.screen {
                Screen::Diff { .. } => Some((final(self).requests.next_id - 1) as u64),
                Screen::Dashboard => old(self).requests.diff,
            }),
            final(self).requests.commit_files == old(self).requests.commit_files,
            final(self).requests.discard == old(self).requests.discard,
            final(self).requests.highlight == old(self).requests.highlight,
            final(self).requests.history_path == old(self).requests.history_path,
    {
        self.preview.dashboard_error = None;
        self.preview.diff_error = None;
        let mut r: Vec<GitCommand> = Vec::new();
        let on_dashboard = match self.state.screen {
            Screen::Dashboard => true,
            _ => false,
        };
        if self.state.data.is_some() || on_dashboard {
            let request_id = self.requests.take_id();
            self.requests.dashboard = Some(request_id);
            r.push(GitCommand::Dashboard { request_id, history_path: copy_opt(&self.requests.history_path) });
        }
        let target = match &self.state.screen {
            Screen::Diff { target, .. } => Some(target.copy()),
            Screen::Dashboard => None,
        };
        match target {
            Some(t) => {
                let q = self.request_diff(t);
                r.push(q);
            },
            None => {},
        }
        proof {
            assert(command_views(r@) =~= refresh_requests(*old(self)));
        }
        r
    }
}


/// Whether two themes have the same name and colors.
pub open spec fn same_theme(a: Theme, b: Theme) -> bool {
    a.name@ == b.name@ && a.appearance == b.appearance && a.ui == b.ui && a.diff == b.diff && a.syntax == b.syntax
}

/// The index of the first theme from index `i` on with the given name, or
/// zero when there is none.
pub open spec fn name_index_from(ts: Seq<Theme>, name: Seq<char>, i: int) -> int
    decreases ts.len() - i,
{
    if i < 0 || i >= ts.len() {
        0
    } else if ts[i].name@ == name {
        i
    } else {
        name_index_from(ts, name, i + 1)
    }
}

/// The index of the first theme with the given name, or zero.
pub open spec fn theme_position(ts: Seq<Theme>, name: Seq<char>) -> int {
    name_index_from(ts, name, 0)
}

/// Lists of themes with the same names give a name the same position, which
/// lies within them when they are not empty.
proof fn lemma_position_by_names(ts: Seq<Theme>, us: Seq<Theme>, name: Seq<char>, i: int)
    requires
        ts.len() == us.len(),
        0 <= i,
        forall|k: int| 0 <= k < ts.len() ==> (#[trigger] ts[k]).name@ == us[k].name@,
    ensures
        name_index_from(ts, name, i) == name_index_from(us, name, i),
        ts.len() > 0 ==> 0 <= name_index_from(ts, name, i) < ts.len(),
    decreases ts.len() - i,
{
    if i < ts.len() {
        assert(ts[i].name@ == us[i].name@);
        lemma_position_by_names(ts, us, name, i + 1);
    }
}

/// Copies of the themes of a list.
fn copy_themes(list: &[Theme]) -> (v: Vec<Theme>)
    ensures
        v@.len() == list@.len(),
        forall|k: int| 0 <= k < v@.len() ==> same_theme(#[trigger] v@[k], list@[k]),
        forall|k: int| 0 <= k < v@.len() ==> (#[trigger] v@[k]).name@ == list@[k].name@,
{
    let mut themes: Vec<Theme> = Vec::new();
    let mut i: usize = 0;
    while i < list.len()
        invariant
            i <= list@.len(),
            themes@.len() == i,
            forall|k: int| 0 <= k < i ==> same_theme(#[trigger] themes@[k], list@[k]),
        decreases list.len() - i,
    {
        themes.push(list[i].clone());
        i = i + 1;
    }
    themes
}

impl Session {
    /// The index of the first theme with the given name, or zero.
    fn theme_index_of(themes: &Vec<Theme>, name: &str) -> (r: usize)
        ensures
            r as int == theme_position(themes@, name@),
    {
        let mut i: usize = 0;
        while i < themes.len()
            invariant
                i <= themes@.len(),
                theme_position(themes@, name@) == name_index_from(themes@, name@, i as int),
            decreases themes.len() - i,
        {
            if crate::bytes::str_eq(themes[i].name.as_str(), name) {
                return i;
            }
            i = i + 1;
        }
        0
    }

    /// The session a launch target starts with, and its first Git command:
    /// the target's diff when it has one, the dashboard otherwise. The themes
    /// are the catalog's; the selected one is highlighted and confirmed; the
    /// first diagnostic, if any, is shown.
    pub fn start(target: &LaunchTarget, loaded: &crate::theme::LoadedTheme) -> (r: (Session, GitCommand))
        requires
            loaded.catalog.well_formed(),
        ensures
            ready(r.0),
            crate::state::starts_at(r.0.state, target@),
            r.0.themes@.len() == loaded.catalog.themes_view().len(),
            forall|i: int| 0 <= i < r.0.themes@.len() ==> same_theme(#[trigger] r.0.themes@[i], loaded.catalog.themes_view()[i]),
            r.0.overlay.theme_index as int == theme_position(loaded.catalog.themes_view(), loaded.selected.name@),
            r.0.overlay.confirmed_theme_index == r.0.overlay.theme_index,
            !r.0.overlay.theme_picker && !r.0.overlay.search_input && !r.0.overlay.discard_confirmation,
            r.0.overlay.comparison_base is None,
            match r.0.overlay.theme_message {
                Some(m) => loaded.diagnostics@.len() > 0 && m@ == loaded.diagnostics@[0].message@,
                None => loaded.diagnostics@.len() == 0,
            },
            !r.0.preview.pending_change_preview,
            r.0.preview.preview_target is None,
            r.0.preview.diff_error is None && r.0.preview.dashboard_error is None,
            r.0.preview.highlighted is None && r.0.preview.highlight_message is None,
            r.0.requests.next_id == 2,
            opt_view(r.0.requests.history_path) == history_path_of(target@),
            r.0.requests.commit_files is None && r.0.requests.discard is None && r.0.requests.highlight is None,
            if crate::state::opens_diff(target@) {
                &&& r.1@ == CommandView::Diff(1, target@)
                &&& r.0.requests.diff == Some(1u64) && r.0.requests.dashboard is None
            } else {
                &&& r.1@ == CommandView::Dashboard(1, history_path_of(target@))
                &&& r.0.requests.dashboard == Some(1u64) && r.0.requests.diff is None
            },
    {
        let state = AppState::new(target);
        let list = loaded.catalog.iter();
        let themes = copy_themes(list);
        proof {
            let w = choose|j: int| 0 <= j < list@.len() && (#[trigger] list@[j]).name@ == crate::config::DEFAULT_THEME_NAME@;
            assert(list@.len() > w);
        }
        let theme_index = Session::theme_index_of(&themes, loaded.selected.name.as_str());
        proof {
            lemma_position_by_names(themes@, list@, loaded.selected.name@, 0);
        }
        let theme_message = if loaded.diagnostics.len() > 0 {
            Some(loaded.diagnostics[0].message.clone())
        } else {
            None
        };
        let overlay = Overlays {
            comparison_base: None,
            discard_confirmation: false,
            search_input: false,
            theme_picker: false,
            theme_index,
            confirmed_theme_index: theme_index,
            theme_message,
        };
        let preview = Preview {
            pending_change_preview: false,
            preview_target: None,
            diff_error: None,
            dashboard_error: None,
            highlighted: None,
            highlight_message: None,
        };
        let diff = crate::state::needs_diff(target);
        let requests = Requests {
            next_id: 2,
            dashboard: if diff { None } else { Some(1) },
            diff: if diff { Some(1) } else { None },
            commit_files: None,
            discard: None,
            highlight: None,
            history_path: match target {
                LaunchTarget::History { path } => copy_opt(path),
                _ => None,
            },
        };
        let first = if diff {
            GitCommand::Diff { request_id: 1, target: target.copy() }
        } else {
            GitCommand::Dashboard { request_id: 1, history_path: copy_opt(&requests.history_path) }
        };
        (Session { state, overlay, preview, requests, themes }, first)
    }
}

} // verus!
