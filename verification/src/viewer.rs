//! Navigation in the dashboard and the diff viewer: focus cycling, scrolling
//! over the lines that are shown, and jumps between hunks and files.
use vstd::prelude::*;
use vstd::string::{StrSliceExecFns, StringExecFns, StringSliceAdditionalSpecFns};

use crate::bytes::{has_prefix, starts_with};
use crate::dashboard::ChangeKind;
use crate::diff::{DiffDocument, DiffLine, LineKind};
use crate::highlight::{HighlightSpan, SyntaxToken};

verus! {

/// Which panel receives keys.
#[derive(Debug, Clone, Copy, PartialEq, Eq, Structural)]
pub enum Focus {
    History,
    CommitFiles,
    Staged,
    Unstaged,
    Diff,
}

/// Which page of the dashboard is shown.
#[derive(Debug, Clone, Copy, PartialEq, Eq, Structural)]
pub enum DashboardPage {
    History,
    Changes,
}

/// Where Tab moves on the changes page, and which file list the preview then
/// follows. Tab goes from unstaged to staged to the diff and back, skipping an
/// empty list.
pub open spec fn changes_focus_after_tab(focus: Focus, preview: Focus, has_staged: bool, has_unstaged: bool) -> (Focus, Focus) {
    match focus {
        Focus::Staged => (Focus::Diff, Focus::Staged),
        Focus::Unstaged => if has_staged {
            (Focus::Staged, Focus::Staged)
        } else {
            (Focus::Diff, Focus::Unstaged)
        },
        Focus::Diff => if has_unstaged {
            (Focus::Unstaged, Focus::Unstaged)
        } else if has_staged {
            (Focus::Staged, Focus::Staged)
        } else {
            (Focus::Diff, preview)
        },
        _ => if has_staged {
            (Focus::Staged, Focus::Staged)
        } else if has_unstaged {
            (Focus::Unstaged, Focus::Unstaged)
        } else {
            (Focus::Diff, preview)
        },
    }
}

/// The focus and preview source after Tab on the changes page.
pub fn next_changes_focus(focus: Focus, preview_focus: Focus, has_staged: bool, has_unstaged: bool) -> (r: (Focus, Focus))
    ensures
        r == changes_focus_after_tab(focus, preview_focus, has_staged, has_unstaged),
{
    match focus {
        Focus::Staged => (Focus::Diff, Focus::Staged),
        Focus::Unstaged => if has_staged {
            (Focus::Staged, Focus::Staged)
        } else {
            (Focus::Diff, Focus::Unstaged)
        },
        Focus::Diff => if has_unstaged {
            (Focus::Unstaged, Focus::Unstaged)
        } else if has_staged {
            (Focus::Staged, Focus::Staged)
        } else {
            (Focus::Diff, preview_focus)
        },
        _ => if has_staged {
            (Focus::Staged, Focus::Staged)
        } else if has_unstaged {
            (Focus::Unstaged, Focus::Unstaged)
        } else {
            (Focus::Diff, preview_focus)
        },
    }
}

/// Tab never lands on an empty file list, and when it lands on a list the
/// preview follows that list.
pub proof fn lemma_tab_skips_empty_lists(focus: Focus, preview: Focus, has_staged: bool, has_unstaged: bool)
    ensures
        ({
            let r = changes_focus_after_tab(focus, preview, has_staged, has_unstaged);
            &&& r.0 == Focus::Staged ==> has_staged && r.1 == Focus::Staged
            &&& r.0 == Focus::Unstaged ==> has_unstaged && r.1 == Focus::Unstaged
            &&& r.0 == Focus::Staged || r.0 == Focus::Unstaged || r.0 == Focus::Diff
        }),
{
}

/// With both lists non-empty, three presses of Tab from the unstaged list go
/// through the staged list and the diff and come back.
pub proof fn lemma_tab_cycles(preview: Focus)
    ensures
        ({
            let a = changes_focus_after_tab(Focus::Unstaged, preview, true, true);
            let b = changes_focus_after_tab(a.0, a.1, true, true);
            let c = changes_focus_after_tab(b.0, b.1, true, true);
            &&& a == (Focus::Staged, Focus::Staged)
            &&& b == (Focus::Diff, Focus::Staged)
            &&& c == (Focus::Unstaged, Focus::Unstaged)
        }),
{
}

/// The kinds of line the diff view shows: changes, context, and file state
/// notes. Headers, hunk coordinates, metadata and "no newline" markers stay in
/// the document for navigation but are not drawn.
pub open spec fn shows_kind(kind: LineKind) -> bool {
    kind == LineKind::Addition || kind == LineKind::Deletion || kind == LineKind::Context || kind
        == LineKind::Binary || kind == LineKind::Rename || kind == LineKind::NewFile || kind
        == LineKind::DeletedFile
}

/// Whether the diff view draws lines of this kind.
pub fn is_visible_diff_line(kind: LineKind) -> (r: bool)
    ensures
        r == shows_kind(kind),
{
    match kind {
        LineKind::Addition | LineKind::Deletion | LineKind::Context | LineKind::Binary
        | LineKind::Rename | LineKind::NewFile | LineKind::DeletedFile => true,
        _ => false,
    }
}

/// The indices of the drawn lines, in order.
pub open spec fn visible_lines(lines: Seq<DiffLine>) -> Seq<int>
    decreases lines.len(),
{
    if lines.len() == 0 {
        Seq::empty()
    } else {
        let rest = visible_lines(lines.drop_last());
        if shows_kind(lines.last().kind) {
            rest.push(lines.len() - 1)
        } else {
            rest
        }
    }
}

/// The number of leading entries of `v` below `bound`; for an increasing `v`
/// this is where `bound` would be inserted.
pub open spec fn count_below(v: Seq<int>, bound: int) -> int
    decreases v.len(),
{
    if v.len() == 0 || v[0] >= bound {
        0
    } else {
        1 + count_below(v.drop_first(), bound)
    }
}

/// The position among the drawn lines at which line `current` sits, or the
/// last one when `current` is past them all.
pub open spec fn position_of(v: Seq<int>, current: int) -> int {
    let p = count_below(v, current);
    if p < v.len() - 1 {
        p
    } else {
        v.len() - 1
    }
}

/// The line that scrolling by `delta` drawn lines from line `current` reaches:
/// the move stops at the first and the last drawn line, and `isize::MAX` goes
/// to the last. With no drawn lines the result is line 0.
pub open spec fn scrolled_line(lines: Seq<DiffLine>, current: int, delta: int) -> int {
    let v = visible_lines(lines);
    if v.len() == 0 {
        0
    } else {
        let p = position_of(v, current);
        let q = if delta == isize::MAX {
            v.len() - 1
        } else if p + delta < 0 {
            0
        } else if p + delta > v.len() - 1 {
            v.len() - 1
        } else {
            p + delta
        };
        v[q]
    }
}

proof fn lemma_visible_lines(lines: Seq<DiffLine>)
    ensures
        forall|k: int| 0 <= k < visible_lines(lines).len() ==> 0 <= #[trigger] visible_lines(lines)[k] < lines.len()
            && shows_kind(lines[visible_lines(lines)[k]].kind),
        forall|a: int, b: int|
            0 <= a < b < visible_lines(lines).len() ==> #[trigger] visible_lines(lines)[a] < #[trigger] visible_lines(lines)[b],
    decreases lines.len(),
{
    if lines.len() > 0 {
        lemma_visible_lines(lines.drop_last());
        let rest = visible_lines(lines.drop_last());
        assert forall|k: int| 0 <= k < rest.len() implies shows_kind(lines[rest[k]].kind) by {
            assert(lines.drop_last()[rest[k]] == lines[rest[k]]);
        }
    }
}

/// The indices of the drawn lines of a document.
fn visible_line_indices(lines: &Vec<DiffLine>) -> (v: Vec<usize>)
    ensures
        v@.len() == visible_lines(lines@).len(),
        forall|k: int| 0 <= k < v@.len() ==> v@[k] as int == #[trigger] visible_lines(lines@)[k],
{
    let mut v: Vec<usize> = Vec::new();
    let mut i: usize = 0;
    while i < lines.len()
        invariant
            i <= lines@.len(),
            v@.len() == visible_lines(lines@.subrange(0, i as int)).len(),
            forall|k: int| 0 <= k < v@.len() ==> v@[k] as int == #[trigger] visible_lines(lines@.subrange(0, i as int))[k],
        decreases lines.len() - i,
    {
        proof {
            assert(lines@.subrange(0, i + 1).drop_last() =~= lines@.subrange(0, i as int));
        }
        if is_visible_diff_line(lines[i].kind) {
            v.push(i);
        }
        i = i + 1;
    }
    proof {
        assert(lines@.subrange(0, lines@.len() as int) =~= lines@);
    }
    v
}

/// The number of leading entries of `v` below `bound`.
fn count_below_of(v: &Vec<usize>, bound: usize) -> (r: usize)
    ensures
        r as int == count_below(v@.map_values(|x: usize| x as int), bound as int),
        r <= v@.len(),
{
    let ghost w = v@.map_values(|x: usize| x as int);
    let mut k: usize = 0;
    proof {
        assert(w.skip(0) =~= w);
    }
    while k < v.len() && v[k] < bound
        invariant
            k <= v@.len(),
            w == v@.map_values(|x: usize| x as int),
            count_below(w, bound as int) == k + count_below(w.skip(k as int), bound as int),
        decreases v.len() - k,
    {
        proof {
            assert(w.skip(k as int)[0] == v@[k as int] as int);
            assert(w.skip(k as int).drop_first() =~= w.skip(k + 1));
        }
        k = k + 1;
    }
    proof {
        if k < v@.len() {
            assert(w.skip(k as int)[0] == v@[k as int] as int);
        } else {
            assert(w.skip(k as int).len() == 0);
        }
    }
    k
}

proof fn lemma_as_int_view(v: Seq<usize>, lines: Seq<DiffLine>)
    requires
        v.len() == visible_lines(lines).len(),
        forall|k: int| 0 <= k < v.len() ==> v[k] as int == #[trigger] visible_lines(lines)[k],
    ensures
        v.map_values(|x: usize| x as int) == visible_lines(lines),
{
    assert(v.map_values(|x: usize| x as int) =~= visible_lines(lines));
}

/// The line reached by scrolling `delta` drawn lines from line `current_line`.
pub fn move_diff_scroll(document: Option<&DiffDocument>, current_line: usize, delta: isize) -> (r: usize)
    ensures
        match document {
            None => r == current_line,
            Some(d) => r as int == scrolled_line(d.lines@, current_line as int, delta as int),
        },
{
    let document = match document {
        Some(d) => d,
        None => return current_line,
    };
    let visible = visible_line_indices(&document.lines);
    if visible.len() == 0 {
        return 0;
    }
    proof {
        lemma_as_int_view(visible@, document.lines@);
    }
    let below = count_below_of(&visible, current_line);
    let last = visible.len() - 1;
    let position = if below < last { below } else { last };
    let next = if delta == isize::MAX {
        last
    } else {
        let target: i128 = position as i128 + delta as i128;
        if target < 0 {
            0
        } else if target > last as i128 {
            last
        } else {
            target as usize
        }
    };
    visible[next]
}

/// The first line to draw when line `requested` should be at the top, with
/// `available` rows: the view never starts so late that the last page is not
/// full.
pub open spec fn scroll_start(lines: Seq<DiffLine>, requested: int, available: int) -> int {
    let v = visible_lines(lines);
    if v.len() == 0 {
        0
    } else {
        let p = position_of(v, requested);
        let rows = if available > 1 {
            available
        } else {
            1
        };
        let last_page = if v.len() > rows {
            v.len() - rows
        } else {
            0
        };
        v[if p < last_page {
            p
        } else {
            last_page
        }]
    }
}

/// The first line to draw for a requested top line and a viewport height.
pub fn diff_scroll_start(document: &DiffDocument, requested_line: usize, available: usize) -> (r: usize)
    ensures
        r as int == scroll_start(document.lines@, requested_line as int, available as int),
{
    let visible = visible_line_indices(&document.lines);
    if visible.len() == 0 {
        return 0;
    }
    proof {
        lemma_as_int_view(visible@, document.lines@);
    }
    let below = count_below_of(&visible, requested_line);
    let last = visible.len() - 1;
    let position = if below < last { below } else { last };
    let rows = if available > 1 { available } else { 1 };
    let last_page = if visible.len() > rows { visible.len() - rows } else { 0 };
    visible[if position < last_page { position } else { last_page }]
}

/// Scrolling always lands on a drawn line, when there is one.
pub proof fn lemma_scroll_lands_on_drawn_line(lines: Seq<DiffLine>, current: int, delta: int)
    requires
        visible_lines(lines).len() > 0,
    ensures
        0 <= scrolled_line(lines, current, delta) < lines.len(),
        shows_kind(lines[scrolled_line(lines, current, delta)].kind),
{
    lemma_visible_lines(lines);
    lemma_count_below_bound(visible_lines(lines), current);
}

proof fn lemma_count_below_bound(v: Seq<int>, bound: int)
    ensures
        0 <= count_below(v, bound) <= v.len(),
    decreases v.len(),
{
    if v.len() > 0 && v[0] < bound {
        lemma_count_below_bound(v.drop_first(), bound);
    }
}

proof fn lemma_count_below_at(v: Seq<int>, k: int)
    requires
        0 <= k < v.len(),
        forall|a: int, b: int| 0 <= a < b < v.len() ==> #[trigger] v[a] < #[trigger] v[b],
    ensures
        count_below(v, v[k]) == k,
    decreases k,
{
    if k > 0 {
        assert(v[0] < v[k]);
        let w = v.drop_first();
        assert(w[k - 1] == v[k]);
        assert forall|a: int, b: int| 0 <= a < b < w.len() implies #[trigger] w[a] < #[trigger] w[b] by {
            assert(w[a] == v[a + 1] && w[b] == v[b + 1]);
        }
        lemma_count_below_at(w, k - 1);
    }
}

/// Scrolling down one drawn line and back up returns to the same drawn line,
/// unless the first move stopped at the last drawn line.
pub proof fn lemma_scroll_down_up(lines: Seq<DiffLine>, k: int)
    requires
        0 <= k < visible_lines(lines).len() - 1,
    ensures
        scrolled_line(lines, scrolled_line(lines, visible_lines(lines)[k], 1), -1) == visible_lines(lines)[k],
{
    let v = visible_lines(lines);
    lemma_visible_lines(lines);
    lemma_count_below_at(v, k);
    lemma_count_below_at(v, k + 1);
}

/// Whether line `i` is a hunk header.
pub open spec fn is_hunk(lines: Seq<DiffLine>, i: int) -> bool {
    lines[i].kind == LineKind::HunkHeader
}

/// Whether line `i` starts a file section: a `diff --git` header.
pub open spec fn is_file_start(d: DiffDocument, i: int) -> bool {
    &&& d.lines@[i].kind == LineKind::FileHeader
    &&& has_prefix(
        d.text_bytes().subrange(d.lines@[i].range.start as int, d.lines@[i].range.end as int),
        "diff --git ".spec_bytes(),
    )
}

/// The first hunk header after line `from`, if any.
pub open spec fn hunk_after(lines: Seq<DiffLine>, from: int) -> Option<int>
    decreases lines.len() - from,
{
    if from + 1 >= lines.len() || from + 1 < 0 {
        None
    } else if is_hunk(lines, from + 1) {
        Some(from + 1)
    } else {
        hunk_after(lines, from + 1)
    }
}

/// The last hunk header before line `to`, if any.
pub open spec fn hunk_before(lines: Seq<DiffLine>, to: int) -> Option<int>
    decreases to,
{
    if to <= 0 {
        None
    } else if to - 1 < lines.len() && is_hunk(lines, to - 1) {
        Some(to - 1)
    } else {
        hunk_before(lines, to - 1)
    }
}

/// The first file header after line `from`, if any.
pub open spec fn file_after(d: DiffDocument, from: int) -> Option<int>
    decreases d.lines@.len() - from,
{
    if from + 1 >= d.lines@.len() || from + 1 < 0 {
        None
    } else if is_file_start(d, from + 1) {
        Some(from + 1)
    } else {
        file_after(d, from + 1)
    }
}

/// The last file header before line `to`, if any.
pub open spec fn file_before(d: DiffDocument, to: int) -> Option<int>
    decreases to,
{
    if to <= 0 {
        None
    } else if to - 1 < d.lines@.len() && is_file_start(d, to - 1) {
        Some(to - 1)
    } else {
        file_before(d, to - 1)
    }
}

/// Where a jump from line `scroll` lands: the found line, or `scroll` itself
/// when there is no document or nothing was found.
pub open spec fn jump_target(found: Option<int>, scroll: int) -> int {
    match found {
        Some(i) => i,
        None => scroll,
    }
}

/// The next hunk header after the top line, or the top line itself.
pub fn next_hunk(document: Option<&DiffDocument>, scroll: usize) -> (r: usize)
    ensures
        r as int == match document {
            Some(d) => jump_target(hunk_after(d.lines@, scroll as int), scroll as int),
            None => scroll as int,
        },
{
    let d = match document {
        Some(d) => d,
        None => return scroll,
    };
    if scroll >= d.lines.len() {
        proof {
            assert(hunk_after(d.lines@, scroll as int) is None);
        }
        return scroll;
    }
    let mut i = scroll + 1;
    while i < d.lines.len()
        invariant
            document == Some(d),
            scroll < i <= d.lines@.len(),
            hunk_after(d.lines@, scroll as int) == hunk_after(d.lines@, i - 1),
        decreases d.lines.len() - i,
    {
        if d.lines[i].kind == LineKind::HunkHeader {
            proof {
                assert(hunk_after(d.lines@, i - 1) == Some(i as int));
            }
            return i;
        }
        i = i + 1;
    }
    scroll
}

/// The previous hunk header above the top line, or the top line itself.
pub fn previous_hunk(document: Option<&DiffDocument>, scroll: usize) -> (r: usize)
    ensures
        r as int == match document {
            Some(d) => jump_target(hunk_before(d.lines@, scroll as int), scroll as int),
            None => scroll as int,
        },
{
    let d = match document {
        Some(d) => d,
        None => return scroll,
    };
    let mut i = scroll;
    if i > d.lines.len() {
        proof {
            lemma_hunk_before_past_end(d.lines@, scroll as int);
        }
        i = d.lines.len();
    }
    while i > 0
        invariant
            document == Some(d),
            i <= d.lines@.len(),
            i <= scroll,
            hunk_before(d.lines@, scroll as int) == hunk_before(d.lines@, i as int),
        decreases i,
    {
        if d.lines[i - 1].kind == LineKind::HunkHeader {
            proof {
                assert(hunk_before(d.lines@, i as int) == Some(i - 1));
            }
            return i - 1;
        }
        i = i - 1;
    }
    scroll
}

proof fn lemma_hunk_before_past_end(lines: Seq<DiffLine>, to: int)
    requires
        to >= lines.len(),
    ensures
        hunk_before(lines, to) == hunk_before(lines, lines.len() as int),
    decreases to,
{
    if to > lines.len() {
        lemma_hunk_before_past_end(lines, to - 1);
    }
}

proof fn lemma_file_before_past_end(d: DiffDocument, to: int)
    requires
        to >= d.lines@.len(),
    ensures
        file_before(d, to) == file_before(d, d.lines@.len() as int),
    decreases to,
{
    if to > d.lines@.len() {
        lemma_file_before_past_end(d, to - 1);
    }
}

/// Whether line `i` starts a file section.
fn starts_file(d: &DiffDocument, i: usize) -> (r: bool)
    requires
        d.well_formed(),
        i < d.lines@.len(),
    ensures
        r == is_file_start(*d, i as int),
{
    if d.lines[i].kind != LineKind::FileHeader {
        return false;
    }
    let text = d.line_text(&d.lines[i]);
    starts_with(text.as_bytes(), "diff --git ".as_bytes())
}

/// The next file header after the top line, or the top line itself.
pub fn next_file(document: Option<&DiffDocument>, scroll: usize) -> (r: usize)
    requires
        match document {
            Some(d) => d.well_formed(),
            None => true,
        },
    ensures
        r as int == match document {
            Some(d) => jump_target(file_after(*d, scroll as int), scroll as int),
            None => scroll as int,
        },
{
    let d = match document {
        Some(d) => d,
        None => return scroll,
    };
    if scroll >= d.lines.len() {
        proof {
            assert(file_after(*d, scroll as int) is None);
        }
        return scroll;
    }
    let mut i = scroll + 1;
    while i < d.lines.len()
        invariant
            document == Some(d),
            d.well_formed(),
            scroll < i <= d.lines@.len(),
            file_after(*d, scroll as int) == file_after(*d, i - 1),
        decreases d.lines.len() - i,
    {
        if starts_file(d, i) {
            proof {
                assert(file_after(*d, i - 1) == Some(i as int));
            }
            return i;
        }
        i = i + 1;
    }
    scroll
}

/// The previous file header above the top line, or the top line itself.
pub fn previous_file(document: Option<&DiffDocument>, scroll: usize) -> (r: usize)
    requires
        match document {
            Some(d) => d.well_formed(),
            None => true,
        },
    ensures
        r as int == match document {
            Some(d) => jump_target(file_before(*d, scroll as int), scroll as int),
            None => scroll as int,
        },
{
    let d = match document {
        Some(d) => d,
        None => return scroll,
    };
    let mut i = scroll;
    if i > d.lines.len() {
        proof {
            lemma_file_before_past_end(*d, scroll as int);
        }
        i = d.lines.len();
    }
    while i > 0
        invariant
            document == Some(d),
            d.well_formed(),
            i <= d.lines@.len(),
            i <= scroll,
            file_before(*d, scroll as int) == file_before(*d, i as int),
        decreases i,
    {
        if starts_file(d, i - 1) {
            proof {
                assert(file_before(*d, i as int) == Some(i - 1));
            }
            return i - 1;
        }
        i = i - 1;
    }
    scroll
}

/// Whether lines of this kind carry a one-byte patch marker before their
/// code.
pub open spec fn has_patch_marker(kind: LineKind) -> bool {
    kind == LineKind::Addition || kind == LineKind::Deletion || kind == LineKind::Context
}

/// Where the code of a drawn line starts: after the `+`, `-` or space of a
/// change or context line, at the start otherwise.
pub fn diff_content_offset(kind: LineKind, text: &str) -> (r: usize)
    ensures
        r == (if has_patch_marker(kind) && text@.len() > 0 {
            1usize
        } else {
            0usize
        }),
{
    if (kind == LineKind::Addition || kind == LineKind::Deletion || kind == LineKind::Context)
        && !text.is_empty() {
        1
    } else {
        0
    }
}

/// The letter shown beside a changed file.
pub open spec fn marker_of(kind: ChangeKind) -> &'static str {
    match kind {
        ChangeKind::Added => "A",
        ChangeKind::Modified => "M",
        ChangeKind::Deleted => "D",
        ChangeKind::Renamed => "R",
        ChangeKind::Copied => "C",
        ChangeKind::Untracked => "?",
        ChangeKind::TypeChanged => "T",
        ChangeKind::Unmerged => "U",
        ChangeKind::Unknown => "\u{b7}",
    }
}

/// The letter shown beside a changed file.
pub fn change_marker(kind: ChangeKind) -> (r: &'static str)
    ensures
        r == marker_of(kind),
{
    match kind {
        ChangeKind::Added => "A",
        ChangeKind::Modified => "M",
        ChangeKind::Deleted => "D",
        ChangeKind::Renamed => "R",
        ChangeKind::Copied => "C",
        ChangeKind::Untracked => "?",
        ChangeKind::TypeChanged => "T",
        ChangeKind::Unmerged => "U",
        ChangeKind::Unknown => "\u{b7}",
    }
}

/// How a list of rows is marked: whether its panel has focus, and whether its
/// selected row is highlighted.
#[derive(Debug, Clone, Copy, PartialEq, Eq)]
pub struct RowFocus {
    pub focused: bool,
    pub selection_visible: bool,
}

impl RowFocus {
    /// A panel whose selection is highlighted exactly when it has focus.
    pub fn focused(focused: bool) -> (r: Self)
        ensures
            r.focused == focused,
            r.selection_visible == focused,
    {
        RowFocus { focused, selection_visible: focused }
    }
}

/// The first row shown of `len` rows in a window of `visible` rows so that
/// row `selection` is in view: the selection sits on the last row of the
/// window when it is below the first window, and the window never runs past
/// the end.
pub open spec fn window_start_of(selection: int, visible: int, len: int) -> int {
    let reach = if visible > 1 {
        visible - 1
    } else {
        0
    };
    let by_selection = if selection > reach {
        selection - reach
    } else {
        0
    };
    let last_start = if len > visible {
        len - visible
    } else {
        0
    };
    if by_selection < last_start {
        by_selection
    } else {
        last_start
    }
}

/// The first row of a scrolled list.
pub fn window_start(selection: usize, visible: usize, len: usize) -> (r: usize)
    ensures
        r as int == window_start_of(selection as int, visible as int, len as int),
{
    let by_selection = selection.saturating_sub(visible.saturating_sub(1));
    let last_start = len.saturating_sub(visible);
    if by_selection < last_start {
        by_selection
    } else {
        last_start
    }
}

/// A stretch of a drawn line: plain text when it has no token.
#[derive(Debug, Clone, Copy, PartialEq, Eq)]
pub struct Segment {
    pub start: usize,
    pub end: usize,
    pub token: Option<SyntaxToken>,
}

/// The stretches a line of `len` bytes is drawn in, from byte `offset` on,
/// given its highlighted spans from span `k` on: plain text up to each span
/// that starts later, the span with its token, and plain text after the last
/// span up to the end of the line.
pub open spec fn segments_from(spans: Seq<HighlightSpan>, k: int, offset: int, len: int) -> Seq<Segment>
    decreases spans.len() - k,
{
    if k < 0 || k >= spans.len() {
        if offset < len {
            seq![Segment { start: offset as usize, end: len as usize, token: None }]
        } else {
            Seq::empty()
        }
    } else {
        let sp = spans[k];
        let before = if sp.range.start > offset {
            seq![Segment { start: offset as usize, end: sp.range.start, token: None }]
        } else {
            Seq::empty()
        };
        before + seq![Segment { start: sp.range.start, end: sp.range.end, token: Some(sp.token) }] + segments_from(
            spans,
            k + 1,
            sp.range.end as int,
            len,
        )
    }
}

/// The stretches a line of `len` bytes is drawn in, its code starting at
/// `content_offset`.
pub fn line_segments(len: usize, content_offset: usize, spans: &[HighlightSpan]) -> (r: Vec<Segment>)
    ensures
        r@ == segments_from(spans@, 0, content_offset as int, len as int),
{
    let mut out: Vec<Segment> = Vec::new();
    let mut offset = content_offset;
    let mut k: usize = 0;
    while k < spans.len()
        invariant
            k <= spans@.len(),
            out@ + segments_from(spans@, k as int, offset as int, len as int) == segments_from(
                spans@,
                0,
                content_offset as int,
                len as int,
            ),
        decreases spans.len() - k,
    {
        let sp = &spans[k];
        let ghost before_out = out@;
        if sp.range.start > offset {
            out.push(Segment { start: offset, end: sp.range.start, token: None });
        }
        out.push(Segment { start: sp.range.start, end: sp.range.end, token: Some(sp.token) });
        proof {
            let rest = segments_from(spans@, k + 1, sp.range.end as int, len as int);
            if sp.range.start > offset {
                assert(out@ + rest =~= before_out + segments_from(spans@, k as int, offset as int, len as int));
            } else {
                assert(out@ + rest =~= before_out + segments_from(spans@, k as int, offset as int, len as int));
            }
        }
        offset = sp.range.end;
        k = k + 1;
    }
    if offset < len {
        let ghost before_out = out@;
        out.push(Segment { start: offset, end: len, token: None });
        proof {
            assert(out@ =~= before_out + segments_from(spans@, k as int, offset as int, len as int));
        }
    } else {
        assert(out@ =~= out@ + segments_from(spans@, k as int, offset as int, len as int));
    }
    out
}

/// `k` spaces.
pub open spec fn spaces(k: nat) -> Seq<char> {
    Seq::new(k, |_i: int| ' ')
}

/// A line number right-aligned in five columns, or five blanks without one.
pub open spec fn number_column(n: Option<u32>) -> Seq<char> {
    match n {
        Some(x) => {
            let d = crate::session::decimal_text(x as nat);
            if d.len() >= 5 {
                d
            } else {
                spaces((5 - d.len()) as nat) + d
            }
        },
        None => spaces(5),
    }
}

/// The gutter text of a drawn line: the old and the new line number, each in
/// five columns, a blank between them.
pub open spec fn line_numbers_text(old_line: Option<u32>, new_line: Option<u32>) -> Seq<char> {
    number_column(old_line) + spaces(1) + number_column(new_line)
}

/// Appends `k` spaces.
fn push_spaces(s: &mut String, k: usize)
    ensures
        final(s)@ == old(s)@ + spaces(k as nat),
{
    let ghost start = s@;
    let mut i: usize = 0;
    proof {
        reveal_strlit(" ");
    }
    while i < k
        invariant
            i <= k,
            s@ == start + spaces(i as nat),
            " "@ == seq![' '],
        decreases k - i,
    {
        s.append(" ");
        i = i + 1;
        proof {
            assert(s@ =~= start + spaces(i as nat));
        }
    }
}

/// Appends a number column.
fn push_number_column(s: &mut String, n: Option<u32>)
    ensures
        final(s)@ == old(s)@ + number_column(n),
{
    match n {
        Some(x) => {
            let d = crate::session::decimal(x as usize);
            let l = d.as_str().unicode_len();
            if l < 5 {
                push_spaces(s, 5 - l);
            }
            let ghost mid = s@;
            s.append(d.as_str());
            proof {
                if l < 5 {
                    assert(s@ =~= old(s)@ + number_column(n));
                } else {
                    assert(s@ =~= old(s)@ + number_column(n));
                }
            }
        },
        None => push_spaces(s, 5),
    }
}

/// The gutter text of a drawn line.
pub fn line_numbers(old_line: Option<u32>, new_line: Option<u32>) -> (r: String)
    ensures
        r@ == line_numbers_text(old_line, new_line),
{
    let mut s = String::new();
    push_number_column(&mut s, old_line);
    push_spaces(&mut s, 1);
    push_number_column(&mut s, new_line);
    proof {
        assert(s@ =~= line_numbers_text(old_line, new_line));
    }
    s
}

} // verus!
