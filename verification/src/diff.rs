//! Parsing of Git patch text into classified, numbered lines.
use std::hash::{Hash, Hasher};
use std::ops::Range;

use vstd::prelude::*;
use vstd::slice::slice_subrange;
use vstd::string::StringSliceAdditionalSpecFns;
use vstd::utf8::*;

use crate::bytes::{has_prefix, starts_with, bytes_eq, decode_lossy, utf8_lossy, string_from_utf8};

verus! {

broadcast use group_utf8_lib;

pub const NEWLINE: u8 = 0x0a;

pub const CARRIAGE_RETURN: u8 = 0x0d;

pub const PLUS: u8 = 0x2b;

pub const MINUS: u8 = 0x2d;

pub const SPACE: u8 = 0x20;

pub const COMMA: u8 = 0x2c;

/// What a line of patch text is.
#[derive(Debug, Clone, Copy, PartialEq, Eq, Structural)]
pub enum LineKind {
    FileHeader,
    HunkHeader,
    Addition,
    Deletion,
    Context,
    Metadata,
    Binary,
    Rename,
    NewFile,
    DeletedFile,
    NoNewline,
}

/// One line of a diff: the byte range of its text without the line
/// terminator, its kind, its numbers in the old and new file, and the file
/// section it belongs to.
#[derive(Debug, PartialEq, Eq)]
pub struct DiffLine {
    pub range: Range<usize>,
    pub kind: LineKind,
    pub old_line: Option<u32>,
    pub new_line: Option<u32>,
    pub file_index: Option<usize>,
}

impl Clone for DiffLine {
    fn clone(&self) -> (r: Self)
        ensures
            r == *self,
    {
        DiffLine {
            range: Range { start: self.range.start, end: self.range.end },
            kind: self.kind,
            old_line: self.old_line,
            new_line: self.new_line,
            file_index: self.file_index,
        }
    }
}

/// A parsed diff: its text, its lines, and the display path of each file
/// section (`None` when neither side names a path).
#[derive(Debug, Clone)]
pub struct DiffDocument {
    pub text: String,
    pub lines: Vec<DiffLine>,
    pub files: Vec<Option<String>>,
}

/// The state carried from line to line while parsing.
pub struct ScanState {
    pub lines: Seq<DiffLine>,
    pub files: Seq<Option<Seq<u8>>>,
    pub old: Option<u32>,
    pub new: Option<u32>,
    pub file_index: Option<usize>,
}

/// The state before the first line.
pub open spec fn initial_state() -> ScanState {
    ScanState {
        lines: Seq::empty(),
        files: Seq::empty(),
        old: None,
        new: None,
        file_index: None,
    }
}

/// The next line number after `n`; the count wraps at the top of the range.
pub open spec fn next_number(n: Option<u32>) -> Option<u32> {
    match n {
        Some(x) => Some(if x == u32::MAX { 0u32 } else { (x + 1) as u32 }),
        None => None,
    }
}

/// The position just past the first newline at or after `i`, or the end of
/// the text when no newline follows.
pub open spec fn piece_end(t: Seq<u8>, i: int) -> int
    decreases t.len() - i,
{
    if i >= t.len() {
        t.len() as int
    } else if t[i] == NEWLINE {
        i + 1
    } else {
        piece_end(t, i + 1)
    }
}

pub proof fn lemma_piece_end(t: Seq<u8>, i: int)
    requires
        0 <= i < t.len(),
    ensures
        i < piece_end(t, i) <= t.len(),
        piece_end(t, i) < t.len() ==> t[piece_end(t, i) - 1] == NEWLINE,
        piece_end(t, i) == t.len() && t[t.len() - 1] != NEWLINE ==> forall|k: int|
            i <= k < t.len() ==> t[k] != NEWLINE,
        forall|k: int| i <= k < piece_end(t, i) - 1 ==> t[k] != NEWLINE,
    decreases t.len() - i,
{
    if t[i] != NEWLINE {
        if i + 1 < t.len() {
            lemma_piece_end(t, i + 1);
        } else {
            assert(piece_end(t, i + 1) == t.len());
        }
    }
}

/// The end of the visible text of the piece `t[i..j]`: a final newline and
/// then a final carriage return are left out.
pub open spec fn visible_end(t: Seq<u8>, i: int, j: int) -> int {
    let a = if j > i && t[j - 1] == NEWLINE {
        j - 1
    } else {
        j
    };
    if a > i && t[a - 1] == CARRIAGE_RETURN {
        a - 1
    } else {
        a
    }
}

/// Whether `c` is ASCII whitespace as Rust defines it.
pub open spec fn ascii_whitespace(c: u8) -> bool {
    c == 0x20 || c == 0x09 || c == 0x0a || c == 0x0c || c == 0x0d
}

/// The maximal runs of non-whitespace bytes of `s`, in order.
pub open spec fn tokens(s: Seq<u8>) -> Seq<Seq<u8>>
    decreases s.len(),
{
    if s.len() == 0 {
        Seq::empty()
    } else {
        let t = tokens(s.drop_last());
        if ascii_whitespace(s.last()) {
            t
        } else if s.len() >= 2 && !ascii_whitespace(s[s.len() - 2]) && t.len() > 0 {
            t.update(t.len() - 1, t.last().push(s.last()))
        } else {
            t.push(seq![s.last()])
        }
    }
}

/// The value of a string of decimal digits.
pub open spec fn decimal_value(d: Seq<u8>) -> int
    decreases d.len(),
{
    if d.len() == 0 {
        0
    } else {
        decimal_value(d.drop_last()) * 10 + (d.last() - 0x30)
    }
}

/// Whether every byte is an ASCII digit.
pub open spec fn all_digits(d: Seq<u8>) -> bool {
    forall|i: int| 0 <= i < d.len() ==> 0x30 <= #[trigger] d[i] <= 0x39
}

/// How Rust reads a `u32` from text: an optional `+`, then at least one
/// decimal digit and nothing else, with a value that fits.
pub open spec fn parse_u32(s: Seq<u8>) -> Option<u32> {
    let digits = if s.len() > 0 && s[0] == PLUS {
        s.drop_first()
    } else {
        s
    };
    if digits.len() > 0 && all_digits(digits) && decimal_value(digits) <= u32::MAX {
        Some(decimal_value(digits) as u32)
    } else {
        None
    }
}

/// The index of the first `c` in `s`, or its length when there is none.
pub open spec fn index_of(s: Seq<u8>, c: u8) -> int
    decreases s.len(),
{
    if s.len() == 0 {
        0
    } else if s[0] == c {
        0
    } else {
        1 + index_of(s.drop_first(), c)
    }
}

/// The part of `s` before its first `c`.
pub open spec fn before_byte(s: Seq<u8>, c: u8) -> Seq<u8> {
    s.subrange(0, index_of(s, c))
}

/// The start lines that a hunk header `@@ -a[,b] +c[,d] @@` gives to the old
/// and the new file.
pub open spec fn hunk_starts(v: Seq<u8>) -> Option<(u32, u32)> {
    let t = tokens(v);
    if t.len() >= 3 && t[0] == "@@".spec_bytes() && t[1].len() > 0 && t[1][0] == MINUS
        && t[2].len() > 0 && t[2][0] == PLUS {
        match (
            parse_u32(before_byte(t[1].drop_first(), COMMA)),
            parse_u32(before_byte(t[2].drop_first(), COMMA)),
        ) {
            (Some(old), Some(new)) => Some((old, new)),
            _ => None,
        }
    } else {
        None
    }
}

/// The path a `---`/`+++` header names: the text after the marker, without
/// the `a/` or `b/` prefix; `/dev/null` names none.
pub open spec fn header_path(v: Seq<u8>, marker: Seq<u8>, prefix: Seq<u8>) -> Option<Seq<u8>> {
    let value = v.subrange(marker.len() as int, v.len() as int);
    if value == "/dev/null".spec_bytes() {
        None
    } else if has_prefix(value, prefix) {
        Some(value.subrange(prefix.len() as int, value.len() as int))
    } else {
        Some(value)
    }
}

/// How one visible line is classified, what numbers it gets, and how it moves
/// the parse state (apart from recording the line itself).
pub open spec fn parse_line(st: ScanState, v: Seq<u8>) -> (ScanState, LineKind, Option<u32>, Option<u32>) {
    if has_prefix(v, "diff --git ".spec_bytes()) {
        let files = st.files.push(None);
        (
            ScanState { files, file_index: Some((files.len() - 1) as usize), ..st },
            LineKind::FileHeader,
            None,
            None,
        )
    } else if has_prefix(v, "+++ ".spec_bytes()) {
        let files = match (st.file_index, header_path(v, "+++ ".spec_bytes(), "b/".spec_bytes())) {
            (Some(k), Some(p)) => if k < st.files.len() {
                st.files.update(k as int, Some(p))
            } else {
                st.files
            },
            _ => st.files,
        };
        (ScanState { files, ..st }, LineKind::FileHeader, None, None)
    } else if has_prefix(v, "--- ".spec_bytes()) {
        let files = match (st.file_index, header_path(v, "--- ".spec_bytes(), "a/".spec_bytes())) {
            (Some(k), Some(p)) => if k < st.files.len() && st.files[k as int] is None {
                st.files.update(k as int, Some(p))
            } else {
                st.files
            },
            _ => st.files,
        };
        (ScanState { files, ..st }, LineKind::FileHeader, None, None)
    } else if has_prefix(v, "index ".spec_bytes()) {
        (st, LineKind::FileHeader, None, None)
    } else if has_prefix(v, "Binary files ".spec_bytes()) || has_prefix(
        v,
        "GIT binary patch".spec_bytes(),
    ) {
        (st, LineKind::Binary, None, None)
    } else if has_prefix(v, "rename from ".spec_bytes()) || has_prefix(
        v,
        "rename to ".spec_bytes(),
    ) || has_prefix(v, "similarity index ".spec_bytes()) {
        (st, LineKind::Rename, None, None)
    } else if has_prefix(v, "new file mode ".spec_bytes()) {
        (st, LineKind::NewFile, None, None)
    } else if has_prefix(v, "deleted file mode ".spec_bytes()) {
        (st, LineKind::DeletedFile, None, None)
    } else if has_prefix(v, "\\ No newline at end of file".spec_bytes()) {
        (st, LineKind::NoNewline, None, None)
    } else if has_prefix(v, "@@".spec_bytes()) {
        match hunk_starts(v) {
            Some((o, n)) => (
                ScanState { old: Some(o), new: Some(n), ..st },
                LineKind::HunkHeader,
                None,
                None,
            ),
            None => (st, LineKind::HunkHeader, None, None),
        }
    } else if v.len() > 0 && v[0] == PLUS {
        (ScanState { new: next_number(st.new), ..st }, LineKind::Addition, None, st.new)
    } else if v.len() > 0 && v[0] == MINUS {
        (ScanState { old: next_number(st.old), ..st }, LineKind::Deletion, st.old, None)
    } else if v.len() > 0 && v[0] == SPACE {
        (
            ScanState { old: next_number(st.old), new: next_number(st.new), ..st },
            LineKind::Context,
            st.old,
            st.new,
        )
    } else {
        (st, LineKind::Metadata, None, None)
    }
}

/// The state after the line of text `t[i..j]` (a piece ending after its
/// newline, or at the end of the text), with the line recorded.
pub open spec fn parse_piece(st: ScanState, t: Seq<u8>, i: int, j: int) -> ScanState {
    let e = visible_end(t, i, j);
    let r = parse_line(st, t.subrange(i, e));
    let line = DiffLine {
        range: Range { start: i as usize, end: e as usize },
        kind: r.1,
        old_line: r.2,
        new_line: r.3,
        file_index: r.0.file_index,
    };
    ScanState { lines: r.0.lines.push(line), ..r.0 }
}

/// The state after parsing the text from position `i` on.
pub open spec fn parse_from(t: Seq<u8>, i: int, st: ScanState) -> ScanState
    decreases t.len() - i,
{
    if i < 0 || i >= t.len() {
        st
    } else {
        let j = piece_end(t, i);
        proof {
            lemma_piece_end(t, i);
        }
        parse_from(t, j, parse_piece(st, t, i, j))
    }
}

/// The result of parsing the whole text.
pub open spec fn parsed(t: Seq<u8>) -> ScanState {
    parse_from(t, 0, initial_state())
}

/// The kind a line of text gets when it is read on its own.
pub open spec fn line_kind(v: Seq<u8>) -> LineKind {
    parse_line(initial_state(), v).1
}

/// The kind of a line depends on its text alone, and reading a line never
/// changes the lines read before it.
proof fn lemma_kind_independent(st: ScanState, v: Seq<u8>)
    ensures
        parse_line(st, v).1 == line_kind(v),
        parse_line(st, v).0.lines == st.lines,
{
}

/// The bytes a parsed line covers.
pub open spec fn covered(t: Seq<u8>, l: DiffLine) -> Seq<u8> {
    t.subrange(l.range.start as int, l.range.end as int)
}

/// Parsing on from position `i` keeps every line's kind the kind of its own
/// text.
proof fn lemma_kinds_from(t: Seq<u8>, i: int, st: ScanState)
    requires
        t.len() <= usize::MAX,
        0 <= i,
        forall|k: int| 0 <= k < st.lines.len() ==> (#[trigger] st.lines[k]).kind == line_kind(covered(t, st.lines[k])),
    ensures
        forall|k: int|
            0 <= k < parse_from(t, i, st).lines.len() ==> (#[trigger] parse_from(t, i, st).lines[k]).kind == line_kind(
                covered(t, parse_from(t, i, st).lines[k]),
            ),
    decreases t.len() - i,
{
    if i < t.len() {
        let j = piece_end(t, i);
        lemma_piece_end(t, i);
        let e = visible_end(t, i, j);
        lemma_kind_independent(st, t.subrange(i, e));
        let st2 = parse_piece(st, t, i, j);
        assert forall|k: int| 0 <= k < st2.lines.len() implies (#[trigger] st2.lines[k]).kind == line_kind(covered(t, st2.lines[k])) by {
            if k < st.lines.len() {
                assert(st2.lines[k] == st.lines[k]);
            } else {
                assert(st2.lines[k].range.start as int == i);
                assert(st2.lines[k].range.end as int == e);
            }
        }
        lemma_kinds_from(t, j, st2);
    }
}

/// Whether every line right after a hunk header whose header reads as
/// `@@ -a[,b] +c[,d] @@` numbers its old side from `a` (a deletion or context
/// line) and its new side from `c` (an addition or context line).
pub open spec fn numbers_restart_at_headers(t: Seq<u8>, lines: Seq<DiffLine>) -> bool {
    forall|k: int|
        0 <= k && k + 1 < lines.len() && (#[trigger] lines[k]).kind == LineKind::HunkHeader && hunk_starts(
            covered(t, lines[k]),
        ) is Some ==> {
            let (a, c) = hunk_starts(covered(t, lines[k]))->Some_0;
            &&& (lines[k + 1].kind == LineKind::Deletion || lines[k + 1].kind == LineKind::Context) ==> lines[k
                + 1].old_line == Some(a)
            &&& (lines[k + 1].kind == LineKind::Addition || lines[k + 1].kind == LineKind::Context) ==> lines[k
                + 1].new_line == Some(c)
        }
}

/// After a hunk header whose header reads, the state numbers from its starts.
spec fn numbers_set_by_last_header(t: Seq<u8>, st: ScanState) -> bool {
    st.lines.len() > 0 && st.lines.last().kind == LineKind::HunkHeader && hunk_starts(covered(t, st.lines.last()))
        is Some ==> st.old == Some(hunk_starts(covered(t, st.lines.last()))->Some_0.0) && st.new == Some(
        hunk_starts(covered(t, st.lines.last()))->Some_0.1,
    )
}

/// How reading one line uses and sets the line numbers: deletion and
/// context lines take the old number, addition and context lines the new
/// one, and a header that reads sets both from its starts.
proof fn lemma_line_numbers(st: ScanState, v: Seq<u8>)
    ensures
        (parse_line(st, v).1 == LineKind::Deletion || parse_line(st, v).1 == LineKind::Context) ==> parse_line(st, v).2
            == st.old,
        (parse_line(st, v).1 == LineKind::Addition || parse_line(st, v).1 == LineKind::Context) ==> parse_line(st, v).3
            == st.new,
        parse_line(st, v).1 == LineKind::HunkHeader && hunk_starts(v) is Some ==> parse_line(st, v).0.old == Some(
            hunk_starts(v)->Some_0.0,
        ) && parse_line(st, v).0.new == Some(hunk_starts(v)->Some_0.1),
        parse_line(st, v).0.lines == st.lines,
{
}

/// Parsing on from position `i` keeps each hunk header restarting the
/// numbers of the line after it.
#[verifier::rlimit(40)]
proof fn lemma_numbers_from(t: Seq<u8>, i: int, st: ScanState)
    requires
        t.len() <= usize::MAX,
        0 <= i,
        numbers_restart_at_headers(t, st.lines),
        numbers_set_by_last_header(t, st),
    ensures
        numbers_restart_at_headers(t, parse_from(t, i, st).lines),
    decreases t.len() - i,
{
    if i < t.len() {
        let j = piece_end(t, i);
        lemma_piece_end(t, i);
        let e = visible_end(t, i, j);
        let v = t.subrange(i, e);
        lemma_line_numbers(st, v);
        let st2 = parse_piece(st, t, i, j);
        let n = st.lines.len() as int;
        assert(st2.lines.len() == n + 1);
        assert(st2.lines[n].range.start as int == i && st2.lines[n].range.end as int == e);
        assert(covered(t, st2.lines[n]) == v);
        assert forall|k: int|
            0 <= k && k + 1 < st2.lines.len() && (#[trigger] st2.lines[k]).kind == LineKind::HunkHeader && hunk_starts(
                covered(t, st2.lines[k]),
            ) is Some implies {
            let (a, c) = hunk_starts(covered(t, st2.lines[k]))->Some_0;
            &&& (st2.lines[k + 1].kind == LineKind::Deletion || st2.lines[k + 1].kind == LineKind::Context)
                ==> st2.lines[k + 1].old_line == Some(a)
            &&& (st2.lines[k + 1].kind == LineKind::Addition || st2.lines[k + 1].kind == LineKind::Context)
                ==> st2.lines[k + 1].new_line == Some(c)
        } by {
            assert(st2.lines[k] == st.lines[k]);
            if k + 1 < n {
                assert(st2.lines[k + 1] == st.lines[k + 1]);
            } else {
                assert(st.lines.last() == st.lines[k]);
            }
        }
        lemma_numbers_from(t, j, st2);
    }
}

/// Each hunk header restarts the line numbers: the line right after a header
/// that reads as `@@ -a[,b] +c[,d] @@` is numbered `a` on the old side when it
/// is a deletion or context line and `c` on the new side when it is an
/// addition or context line, whatever lines came before the header.
pub proof fn lemma_hunk_headers_restart_numbers(t: Seq<u8>)
    requires
        t.len() <= usize::MAX,
    ensures
        numbers_restart_at_headers(t, parsed(t).lines),
{
    lemma_numbers_from(t, 0, initial_state());
}

/// Every parsed line has the kind its own text has when read alone: no line
/// before or after it, and no hunk or file state, changes its kind.
pub proof fn lemma_kind_from_own_text(t: Seq<u8>)
    requires
        t.len() <= usize::MAX,
    ensures
        forall|k: int|
            0 <= k < parsed(t).lines.len() ==> (#[trigger] parsed(t).lines[k]).kind == line_kind(covered(t, parsed(t).lines[k])),
{
    lemma_kinds_from(t, 0, initial_state());
}

/// The text a line keeps when it is followed by a newline: a final carriage
/// return goes with the newline.
pub open spec fn without_final_cr(v: Seq<u8>) -> Seq<u8> {
    if v.len() > 0 && v.last() == CARRIAGE_RETURN {
        v.drop_last()
    } else {
        v
    }
}

/// ASCII text without a carriage return encodes to bytes without one.
proof fn lemma_ascii_without_cr(chars: Seq<char>)
    requires
        is_ascii_chars(chars),
        forall|i: int| 0 <= i < chars.len() ==> chars[i] != '\r',
    ensures
        forall|i: int| 0 <= i < encode_utf8(chars).len() ==> encode_utf8(chars)[i] != CARRIAGE_RETURN,
{
    is_ascii_chars_encode_utf8(chars);
    assert forall|i: int| 0 <= i < encode_utf8(chars).len() implies encode_utf8(chars)[i] != CARRIAGE_RETURN by {
        assert(chars[i] as u8 == encode_utf8(chars)[i]);
        assert((chars[i] as nat) < 128) by {
            is_ascii_chars_nat_bound(chars);
        }
    }
}

/// A final carriage return does not decide whether a text begins with a
/// prefix that holds none.
proof fn lemma_prefix_ignores_final_cr(v: Seq<u8>, p: Seq<u8>)
    requires
        v.len() > 0,
        v.last() == CARRIAGE_RETURN,
        forall|i: int| 0 <= i < p.len() ==> p[i] != CARRIAGE_RETURN,
    ensures
        has_prefix(v, p) == has_prefix(v.drop_last(), p),
{
    let w = v.drop_last();
    if has_prefix(w, p) {
        assert(v.subrange(0, p.len() as int) =~= w.subrange(0, p.len() as int));
    }
    if has_prefix(v, p) {
        if p.len() == v.len() {
            assert(p[p.len() - 1] == v.subrange(0, p.len() as int)[p.len() - 1]);
        }
        assert(v.subrange(0, p.len() as int) =~= w.subrange(0, p.len() as int));
    }
}

/// A final carriage return does not change the kind of a line of text.
proof fn lemma_kind_ignores_final_cr(v: Seq<u8>)
    ensures
        line_kind(without_final_cr(v)) == line_kind(v),
{
    if v.len() > 0 && v.last() == CARRIAGE_RETURN {
        reveal_strlit("diff --git ");
        lemma_ascii_without_cr("diff --git "@);
        lemma_prefix_ignores_final_cr(v, "diff --git ".spec_bytes());
        reveal_strlit("+++ ");
        lemma_ascii_without_cr("+++ "@);
        lemma_prefix_ignores_final_cr(v, "+++ ".spec_bytes());
        reveal_strlit("--- ");
        lemma_ascii_without_cr("--- "@);
        lemma_prefix_ignores_final_cr(v, "--- ".spec_bytes());
        reveal_strlit("index ");
        lemma_ascii_without_cr("index "@);
        lemma_prefix_ignores_final_cr(v, "index ".spec_bytes());
        reveal_strlit("Binary files ");
        lemma_ascii_without_cr("Binary files "@);
        lemma_prefix_ignores_final_cr(v, "Binary files ".spec_bytes());
        reveal_strlit("GIT binary patch");
        lemma_ascii_without_cr("GIT binary patch"@);
        lemma_prefix_ignores_final_cr(v, "GIT binary patch".spec_bytes());
        reveal_strlit("rename from ");
        lemma_ascii_without_cr("rename from "@);
        lemma_prefix_ignores_final_cr(v, "rename from ".spec_bytes());
        reveal_strlit("rename to ");
        lemma_ascii_without_cr("rename to "@);
        lemma_prefix_ignores_final_cr(v, "rename to ".spec_bytes());
        reveal_strlit("similarity index ");
        lemma_ascii_without_cr("similarity index "@);
        lemma_prefix_ignores_final_cr(v, "similarity index ".spec_bytes());
        reveal_strlit("new file mode ");
        lemma_ascii_without_cr("new file mode "@);
        lemma_prefix_ignores_final_cr(v, "new file mode ".spec_bytes());
        reveal_strlit("deleted file mode ");
        lemma_ascii_without_cr("deleted file mode "@);
        lemma_prefix_ignores_final_cr(v, "deleted file mode ".spec_bytes());
        reveal_strlit("\\ No newline at end of file");
        lemma_ascii_without_cr("\\ No newline at end of file"@);
        lemma_prefix_ignores_final_cr(v, "\\ No newline at end of file".spec_bytes());
        reveal_strlit("@@");
        lemma_ascii_without_cr("@@"@);
        lemma_prefix_ignores_final_cr(v, "@@".spec_bytes());
        if v.len() > 1 {
            assert(v.drop_last()[0] == v[0]);
        }
    }
}

/// A line of text without a newline, read as the only line of a document
/// (followed by a newline), gets the kind its text without a final carriage
/// return has when read alone.
proof fn lemma_alone_kind(v: Seq<u8>)
    requires
        forall|m: int| 0 <= m < v.len() ==> v[m] != NEWLINE,
    ensures
        parsed(v.push(NEWLINE)).lines.len() == 1,
        parsed(v.push(NEWLINE)).lines[0].kind == line_kind(without_final_cr(v)),
{
    let w = v.push(NEWLINE);
    lemma_piece_end(w, 0);
    let j = piece_end(w, 0);
    if j < w.len() {
        assert(w[j - 1] == NEWLINE);
        assert(w[j - 1] == v[j - 1]);
    }
    assert(j == w.len());
    assert(w.subrange(0, visible_end(w, 0, j)) =~= without_final_cr(v));
    lemma_kind_independent(initial_state(), without_final_cr(v));
    let first = parse_piece(initial_state(), w, 0, j);
    assert(parse_from(w, j, first) == first);
    assert(parsed(w) == parse_from(w, j, first));
}

/// A line's kind is the kind its own text gets when parsed afresh as the
/// only line of a document, followed by a newline: the kind depends on the
/// line's text alone, never on the lines around it.
pub proof fn lemma_kind_when_parsed_alone(t: Seq<u8>, k: int)
    requires
        t.len() <= usize::MAX,
        0 <= k < parsed(t).lines.len(),
    ensures
        parsed(covered(t, parsed(t).lines[k]).push(NEWLINE)).lines.len() == 1,
        parsed(covered(t, parsed(t).lines[k]).push(NEWLINE)).lines[0].kind == parsed(t).lines[k].kind,
{
    let lines = parsed(t).lines;
    lemma_kind_from_own_text(t);
    lemma_parse_from_tiles(t, 0, initial_state());
    assert(lines.subrange(0, lines.len() as int) =~= lines);
    let l = lines[k];
    assert(line_fits(t, l));
    let s = l.range.start as int;
    lemma_piece_end(t, s);
    let v = covered(t, l);
    assert forall|m: int| 0 <= m < v.len() implies v[m] != NEWLINE by {
        assert(v[m] == t[s + m]);
    }
    lemma_alone_kind(v);
    lemma_kind_ignores_final_cr(v);
}

/// Whether a line of text opens a file of the diff.
pub open spec fn opens_file(v: Seq<u8>) -> bool {
    has_prefix(v, "diff --git ".spec_bytes())
}

/// How many of the first `n` lines open a file.
pub open spec fn files_opened(t: Seq<u8>, lines: Seq<DiffLine>, n: int) -> int
    decreases n,
{
    if n <= 0 {
        0
    } else {
        files_opened(t, lines, n - 1) + if opens_file(covered(t, lines[n - 1])) {
            1int
        } else {
            0int
        }
    }
}

/// The file that lines belong to once `c` files were opened: the last one,
/// or none before the first.
pub open spec fn file_after(c: int) -> Option<usize> {
    if c <= 0 {
        None
    } else {
        Some((c - 1) as usize)
    }
}

/// The files of a parse state follow the lines that opened them.
pub open spec fn files_follow_lines(t: Seq<u8>, st: ScanState) -> bool {
    &&& st.files.len() == files_opened(t, st.lines, st.lines.len() as int)
    &&& st.file_index == file_after(st.files.len() as int)
    &&& forall|k: int|
        0 <= k < st.lines.len() ==> (#[trigger] st.lines[k]).file_index == file_after(files_opened(t, st.lines, k + 1))
}

/// Counting over a longer list agrees on its first lines.
proof fn lemma_files_opened_prefix(t: Seq<u8>, lines: Seq<DiffLine>, l: DiffLine, n: int)
    requires
        n <= lines.len(),
    ensures
        files_opened(t, lines.push(l), n) == files_opened(t, lines, n),
    decreases n,
{
    if n > 0 {
        lemma_files_opened_prefix(t, lines, l, n - 1);
        assert(lines.push(l)[n - 1] == lines[n - 1]);
    }
}

/// The count of opened files grows with the number of lines and stays
/// below it.
proof fn lemma_files_opened_monotone(t: Seq<u8>, lines: Seq<DiffLine>, a: int, b: int)
    requires
        0 <= a <= b,
    ensures
        files_opened(t, lines, a) <= files_opened(t, lines, b),
        files_opened(t, lines, b) <= b,
    decreases b,
{
    if b > 0 {
        if a < b {
            lemma_files_opened_monotone(t, lines, a, b - 1);
        } else {
            lemma_files_opened_monotone(t, lines, 0, b - 1);
        }
    }
}

/// Parsing on from position `i` keeps the files following the lines.
#[verifier::rlimit(40)]
proof fn lemma_files_step(t: Seq<u8>, i: int, st: ScanState)
    requires
        t.len() <= usize::MAX,
        0 <= i < t.len(),
        st.lines.len() <= i,
        files_follow_lines(t, st),
    ensures
        files_follow_lines(t, parse_piece(st, t, i, piece_end(t, i))),
        parse_piece(st, t, i, piece_end(t, i)).lines =~= st.lines.push(
            parse_piece(st, t, i, piece_end(t, i)).lines[st.lines.len() as int],
        ),
        covered(t, parse_piece(st, t, i, piece_end(t, i)).lines[st.lines.len() as int]) == t.subrange(
            i,
            visible_end(t, i, piece_end(t, i)),
        ),
        parse_piece(st, t, i, piece_end(t, i)).lines[st.lines.len() as int].file_index == parse_line(
            st,
            t.subrange(i, visible_end(t, i, piece_end(t, i))),
        ).0.file_index,
        parse_piece(st, t, i, piece_end(t, i)).files == parse_line(
            st,
            t.subrange(i, visible_end(t, i, piece_end(t, i))),
        ).0.files,
{
    let j = piece_end(t, i);
    lemma_piece_end(t, i);
    let e = visible_end(t, i, j);
    let v = t.subrange(i, e);
    lemma_kind_independent(st, v);
    let st2 = parse_piece(st, t, i, j);
    let n = st.lines.len() as int;
    assert(covered(t, st2.lines[n]) == v);
    lemma_files_opened_prefix(t, st.lines, st2.lines[n], n);
    lemma_files_opened_monotone(t, st.lines, n, n);
    assert(st2.lines =~= st.lines.push(st2.lines[n]));
    assert forall|k: int| 0 <= k < st2.lines.len() implies (#[trigger] st2.lines[k]).file_index == file_after(
        files_opened(t, st2.lines, k + 1),
    ) by {
        if k < n {
            assert(st2.lines[k] == st.lines[k]);
            lemma_files_opened_prefix(t, st.lines, st2.lines[n], k + 1);
        }
    }
}

/// Parsing on from position `i` keeps the files following the lines.
proof fn lemma_files_from(t: Seq<u8>, i: int, st: ScanState)
    requires
        t.len() <= usize::MAX,
        0 <= i,
        st.lines.len() <= i,
        files_follow_lines(t, st),
    ensures
        files_follow_lines(t, parse_from(t, i, st)),
    decreases t.len() - i,
{
    if i < t.len() {
        let j = piece_end(t, i);
        lemma_piece_end(t, i);
        lemma_files_step(t, i, st);
        lemma_files_from(t, j, parse_piece(st, t, i, j));
    }
}

/// How a line of a file moves the file's path: a `+++ ` line with a path sets
/// it, a `--- ` line with a path sets it only while it has none, and other
/// lines leave it.
pub open spec fn header_step(p: Option<Seq<u8>>, v: Seq<u8>) -> Option<Seq<u8>> {
    if has_prefix(v, "diff --git ".spec_bytes()) {
        p
    } else if has_prefix(v, "+++ ".spec_bytes()) {
        match header_path(v, "+++ ".spec_bytes(), "b/".spec_bytes()) {
            Some(x) => Some(x),
            None => p,
        }
    } else if has_prefix(v, "--- ".spec_bytes()) {
        match (p, header_path(v, "--- ".spec_bytes(), "a/".spec_bytes())) {
            (None, Some(x)) => Some(x),
            _ => p,
        }
    } else {
        p
    }
}

/// The path of file `k` after the first `n` lines: the lines of that file,
/// in order, moving it from none by `header_step`.
pub open spec fn file_path_from(t: Seq<u8>, lines: Seq<DiffLine>, k: int, n: int) -> Option<Seq<u8>>
    decreases n,
{
    if n <= 0 {
        None
    } else {
        let p = file_path_from(t, lines, k, n - 1);
        if lines[n - 1].file_index == Some(k as usize) {
            header_step(p, covered(t, lines[n - 1]))
        } else {
            p
        }
    }
}

/// Each file's path in a parse state follows the lines of that file.
pub open spec fn paths_follow_lines(t: Seq<u8>, st: ScanState) -> bool {
    forall|k: int| 0 <= k < st.files.len() ==> #[trigger] st.files[k] == file_path_from(t, st.lines, k, st.lines.len() as int)
}

/// The path of a file over a longer list agrees on its first lines.
proof fn lemma_path_prefix(t: Seq<u8>, lines: Seq<DiffLine>, l: DiffLine, k: int, n: int)
    requires
        n <= lines.len(),
    ensures
        file_path_from(t, lines.push(l), k, n) == file_path_from(t, lines, k, n),
    decreases n,
{
    if n > 0 {
        lemma_path_prefix(t, lines, l, k, n - 1);
        assert(lines.push(l)[n - 1] == lines[n - 1]);
    }
}

/// A file that no line belongs to yet has no path.
proof fn lemma_path_of_new_file(t: Seq<u8>, lines: Seq<DiffLine>, k: int, n: int)
    requires
        n <= lines.len(),
        forall|j: int| 0 <= j < n ==> (#[trigger] lines[j]).file_index != Some(k as usize),
    ensures
        file_path_from(t, lines, k, n) is None,
    decreases n,
{
    if n > 0 {
        lemma_path_of_new_file(t, lines, k, n - 1);
    }
}

/// Parsing on from position `i` keeps every file's path following its lines.
proof fn lemma_paths_from(t: Seq<u8>, i: int, st: ScanState)
    requires
        t.len() <= usize::MAX,
        0 <= i,
        st.lines.len() <= i,
        files_follow_lines(t, st),
        paths_follow_lines(t, st),
    ensures
        paths_follow_lines(t, parse_from(t, i, st)),
    decreases t.len() - i,
{
    if i < t.len() {
        let j = piece_end(t, i);
        lemma_piece_end(t, i);
        lemma_files_step(t, i, st);
        let e = visible_end(t, i, j);
        let v = t.subrange(i, e);
        let st2 = parse_piece(st, t, i, j);
        let n = st.lines.len() as int;
        let l = st2.lines[n];
        let nf = st.files.len() as int;
        assert forall|k: int| 0 <= k < st2.files.len() implies #[trigger] st2.files[k] == file_path_from(
            t,
            st2.lines,
            k,
            n + 1,
        ) by {
            lemma_path_prefix(t, st.lines, l, k, n);
            let r = parse_line(st, v);
            let pk = file_path_from(t, st.lines, k, n);
            assert(st2.files == r.0.files);
            assert(l.file_index == r.0.file_index);
            assert(covered(t, l) == v);
            assert(st2.lines[n] == l);
            assert(file_path_from(t, st2.lines, k, n + 1) == (if l.file_index == Some(k as usize) {
                header_step(pk, v)
            } else {
                pk
            }));
            assert(st.file_index == file_after(nf));
            lemma_files_opened_monotone(t, st.lines, 0, n);
            assert(nf <= n);
            let goal = file_path_from(t, st2.lines, k, n + 1);
            if k < nf {
                assert(st.files[k] == pk);
                if has_prefix(v, "diff --git ".spec_bytes()) {
                    assert(r.0.file_index == Some(nf as usize));
                    assert(st2.files[k] == st.files[k]);
                    assert(st2.files[k] == goal);
                } else if has_prefix(v, "+++ ".spec_bytes()) {
                    assert(nf > 0);
                    assert(st.file_index == Some((nf - 1) as usize));
                    if k == nf - 1 {
                        assert(st2.files[k] == goal);
                    } else {
                        assert(st2.files[k] == goal);
                    }
                } else if has_prefix(v, "--- ".spec_bytes()) {
                    assert(nf > 0);
                    assert(st.file_index == Some((nf - 1) as usize));
                    if k == nf - 1 {
                        assert(st2.files[k] == goal);
                    } else {
                        assert(st2.files[k] == goal);
                    }
                } else {
                    assert(r.0.files == st.files);
                    assert(r.0.file_index == st.file_index);
                    assert(st2.files[k] == goal);
                }
            } else {
                assert forall|q: int| 0 <= q < n implies (#[trigger] st.lines[q]).file_index != Some(k as usize) by {
                    lemma_files_opened_monotone(t, st.lines, q + 1, n);
                }
                lemma_path_of_new_file(t, st.lines, k, n);
                assert(has_prefix(v, "diff --git ".spec_bytes()));
                assert(st2.files[k] == goal);
            }
        }
        lemma_paths_from(t, j, st2);
    }
}

/// A parsed diff has one file for each line that opens one with
/// `diff --git `, and each line belongs to the file opened last at or before
/// it, so the file indices of successive lines never go down.
pub proof fn lemma_files_follow_headers(t: Seq<u8>)
    requires
        t.len() <= usize::MAX,
    ensures
        parsed(t).files.len() == files_opened(t, parsed(t).lines, parsed(t).lines.len() as int),
        forall|k: int|
            0 <= k < parsed(t).lines.len() ==> (#[trigger] parsed(t).lines[k]).file_index == file_after(
                files_opened(t, parsed(t).lines, k + 1),
            ),
        forall|a: int, b: int|
            #![trigger parsed(t).lines[a], parsed(t).lines[b]]
            0 <= a <= b < parsed(t).lines.len() ==> files_opened(t, parsed(t).lines, a + 1) <= files_opened(
                t,
                parsed(t).lines,
                b + 1,
            ),
{
    lemma_files_from(t, 0, initial_state());
    assert forall|a: int, b: int|
        #![trigger parsed(t).lines[a], parsed(t).lines[b]]
        0 <= a <= b < parsed(t).lines.len() implies files_opened(t, parsed(t).lines, a + 1)
        <= files_opened(t, parsed(t).lines, b + 1) by {
        lemma_files_opened_monotone(t, parsed(t).lines, a + 1, b + 1);
    }
}

/// The path of each file of a parsed diff follows the lines of that file in
/// order: the path of its last `+++ ` line (without `b/`), else that of its
/// first `--- ` line (without `a/`), `/dev/null` naming none; a file without
/// such lines has no path.
pub proof fn lemma_file_paths_follow_headers(t: Seq<u8>)
    requires
        t.len() <= usize::MAX,
    ensures
        forall|k: int|
            0 <= k < parsed(t).files.len() ==> #[trigger] parsed(t).files[k] == file_path_from(
                t,
                parsed(t).lines,
                k,
                parsed(t).lines.len() as int,
            ),
{
    lemma_paths_from(t, 0, initial_state());
}

/// The byte views of the file paths.
pub open spec fn file_views(files: Seq<Option<String>>) -> Seq<Option<Seq<u8>>> {
    files.map_values(
        |f: Option<String>|
            match f {
                Some(s) => Some(encode_utf8(s@)),
                None => None,
            },
    )
}

/// Whether `t[start..end]` is delimited by ASCII bytes (or the ends of `t`),
/// so that both ends fall on character boundaries.
pub open spec fn ascii_delimited(t: Seq<u8>, start: int, end: int) -> bool {
    &&& 0 <= start <= end <= t.len()
    &&& (start == 0 || t[start - 1] < 0x80)
    &&& (end == t.len() || t[end] < 0x80)
}

/// A position just after an ASCII byte of valid UTF-8 is a character
/// boundary.
pub proof fn lemma_boundary_after_ascii(t: Seq<u8>, k: int)
    requires
        valid_utf8(t),
        0 < k <= t.len(),
        t[k - 1] < 0x80,
    ensures
        is_char_boundary(t, k),
{
    is_char_boundary_iff_not_is_continuation_byte(t, k - 1);
    valid_utf8_split(t, k - 1);
    let s2 = t.subrange(k - 1, t.len() as int);
    assert(valid_first_scalar(s2));
    assert(pop_first_scalar(s2) =~= t.subrange(k, t.len() as int));
    let rest = t.subrange(k, t.len() as int);
    assert(valid_utf8(rest));
    if k < t.len() {
        is_char_boundary_start_end_of_seq(rest);
        is_char_boundary_iff_not_is_continuation_byte(rest, 0);
        assert(rest[0] == t[k]);
        is_char_boundary_iff_not_is_continuation_byte(t, k);
    } else {
        is_char_boundary_start_end_of_seq(t);
    }
}

/// A slice of valid UTF-8 delimited by ASCII bytes is valid UTF-8.
pub proof fn lemma_ascii_delimited_valid(t: Seq<u8>, start: int, end: int)
    requires
        valid_utf8(t),
        ascii_delimited(t, start, end),
    ensures
        valid_utf8(t.subrange(start, end)),
        is_char_boundary(t, start),
        is_char_boundary(t, end),
        is_char_boundary(t.subrange(0, end), start),
{
    is_char_boundary_start_end_of_seq(t);
    if start > 0 {
        lemma_boundary_after_ascii(t, start);
    }
    if end < t.len() {
        is_char_boundary_iff_not_is_continuation_byte(t, end);
    }
    valid_utf8_split(t, end);
    let head = t.subrange(0, end);
    is_char_boundary_start_end_of_seq(head);
    if start > 0 {
        assert(head[start - 1] == t[start - 1]);
        lemma_boundary_after_ascii(head, start);
    }
    valid_utf8_split(head, start);
    assert(head.subrange(start, head.len() as int) =~= t.subrange(start, end));
}


/// Whether `v` begins with the bytes of `lit`.
fn has_lit(v: &[u8], lit: &str) -> (r: bool)
    ensures
        r == has_prefix(v@, lit.spec_bytes()),
{
    starts_with(v, lit.as_bytes())
}

/// The bytes of the literals that the header parsing relies on.
proof fn lemma_literal_bytes()
    ensures
        "+++ ".spec_bytes() == seq![0x2bu8, 0x2bu8, 0x2bu8, 0x20u8],
        "--- ".spec_bytes() == seq![0x2du8, 0x2du8, 0x2du8, 0x20u8],
        "a/".spec_bytes() == seq![0x61u8, 0x2fu8],
        "b/".spec_bytes() == seq![0x62u8, 0x2fu8],
{
    reveal_strlit("+++ ");
    reveal_strlit("--- ");
    reveal_strlit("a/");
    reveal_strlit("b/");
    assert(is_ascii_chars("+++ "@));
    assert(is_ascii_chars("--- "@));
    assert(is_ascii_chars("a/"@));
    assert(is_ascii_chars("b/"@));
    assert("+++ ".spec_bytes() =~= seq![0x2bu8, 0x2bu8, 0x2bu8, 0x20u8]);
    assert("--- ".spec_bytes() =~= seq![0x2du8, 0x2du8, 0x2du8, 0x20u8]);
    assert("a/".spec_bytes() =~= seq![0x61u8, 0x2fu8]);
    assert("b/".spec_bytes() =~= seq![0x62u8, 0x2fu8]);
}

/// The runs of non-whitespace bytes of `s`.
fn tokens_of(s: &[u8]) -> (r: Vec<Vec<u8>>)
    ensures
        crate::path::byte_views(r@) == tokens(s@),
{
    let mut toks: Vec<Vec<u8>> = Vec::new();
    let mut i: usize = 0;
    while i < s.len()
        invariant
            i <= s@.len(),
            crate::path::byte_views(toks@) == tokens(s@.subrange(0, i as int)),
        decreases s.len() - i,
    {
        let ghost before = toks@;
        proof {
            assert(s@.subrange(0, i + 1).drop_last() =~= s@.subrange(0, i as int));
            assert(s@.subrange(0, i + 1).last() == s@[i as int]);
        }
        let b = s[i];
        let ws = b == 0x20 || b == 0x09 || b == 0x0a || b == 0x0c || b == 0x0d;
        if ws {
        } else if i >= 1 && !(s[i - 1] == 0x20 || s[i - 1] == 0x09 || s[i - 1] == 0x0a
            || s[i - 1] == 0x0c || s[i - 1] == 0x0d) && toks.len() > 0 {
            let mut last = toks.pop().unwrap();
            last.push(b);
            toks.push(last);
            proof {
                assert(s@.subrange(0, i + 1)[i - 1] == s@[i - 1]);
                assert(crate::path::byte_views(toks@) =~= crate::path::byte_views(before).update(
                    before.len() - 1,
                    crate::path::byte_views(before).last().push(b),
                ));
            }
        } else {
            let mut fresh: Vec<u8> = Vec::new();
            fresh.push(b);
            toks.push(fresh);
            proof {
                if i >= 1 {
                    assert(s@.subrange(0, i + 1)[i - 1] == s@[i - 1]);
                }
                assert(fresh@ =~= seq![b]);
                assert(crate::path::byte_views(toks@) =~= crate::path::byte_views(before).push(seq![b]));
            }
        }
        i = i + 1;
    }
    proof {
        assert(s@.subrange(0, s@.len() as int) =~= s@);
    }
    toks
}

proof fn lemma_index_of(s: Seq<u8>, c: u8, k: int)
    requires
        0 <= k <= s.len(),
        forall|m: int| 0 <= m < k ==> s[m] != c,
        k == s.len() || s[k] == c,
    ensures
        index_of(s, c) == k,
    decreases k,
{
    if k > 0 {
        lemma_index_of(s.drop_first(), c, k - 1);
    }
}

/// The part of `s` before its first `c`.
fn before_byte_of(s: &[u8], c: u8) -> (r: &[u8])
    ensures
        r@ == before_byte(s@, c),
{
    let mut k: usize = 0;
    while k < s.len() && s[k] != c
        invariant
            k <= s@.len(),
            forall|m: int| 0 <= m < k ==> s@[m] != c,
        decreases s.len() - k,
    {
        k = k + 1;
    }
    proof {
        lemma_index_of(s@, c, k as int);
    }
    slice_subrange(s, 0, k)
}

proof fn lemma_decimal_prefix(d: Seq<u8>, k: int)
    requires
        all_digits(d),
        0 <= k <= d.len(),
    ensures
        decimal_value(d) >= decimal_value(d.subrange(0, k)),
        decimal_value(d) >= 0,
    decreases d.len(),
{
    if d.len() > 0 {
        assert(all_digits(d.drop_last())) by {
            assert forall|i: int| 0 <= i < d.drop_last().len() implies 0x30 <= #[trigger] d.drop_last()[i] <= 0x39 by {
                assert(d.drop_last()[i] == d[i]);
            }
        }
        if k == d.len() {
            assert(d.subrange(0, k) =~= d);
            lemma_decimal_prefix(d.drop_last(), 0);
        } else {
            lemma_decimal_prefix(d.drop_last(), k);
            assert(d.drop_last().subrange(0, k) =~= d.subrange(0, k));
        }
        assert(0x30 <= d[d.len() - 1] <= 0x39);
    } else {
        assert(d.subrange(0, k) =~= d);
    }
}

/// Reads a `u32` the way Rust's `str::parse` does.
fn parse_u32_of(s: &[u8]) -> (r: Option<u32>)
    ensures
        r == parse_u32(s@),
{
    let mut start: usize = 0;
    if s.len() > 0 && s[0] == PLUS {
        start = 1;
    }
    let ghost digits = s@.subrange(start as int, s@.len() as int);
    proof {
        if start == 1 {
            assert(digits =~= s@.drop_first());
        } else {
            assert(digits =~= s@);
        }
    }
    if start >= s.len() {
        return None;
    }
    let mut acc: u64 = 0;
    let mut k: usize = start;
    while k < s.len()
        invariant
            start <= k <= s@.len(),
            digits == s@.subrange(start as int, s@.len() as int),
            digits == (if s@.len() > 0 && s@[0] == PLUS { s@.drop_first() } else { s@ }),
            acc == decimal_value(digits.subrange(0, k - start)),
            acc <= u32::MAX,
            all_digits(digits.subrange(0, k - start)),
        decreases s.len() - k,
    {
        let b = s[k];
        proof {
            assert(digits.subrange(0, k + 1 - start).drop_last() =~= digits.subrange(0, k - start));
            assert(digits.subrange(0, k + 1 - start).last() == b);
        }
        if b < 0x30 || b > 0x39 {
            proof {
                assert(!(0x30 <= digits[k - start] <= 0x39));
            }
            return None;
        }
        acc = acc * 10 + (b - 0x30) as u64;
        k = k + 1;
        proof {
            assert(all_digits(digits.subrange(0, k - start))) by {
                assert forall|i: int| 0 <= i < k - start implies 0x30 <= #[trigger] digits.subrange(0, k - start)[i] <= 0x39 by {
                    if i < k - 1 - start {
                        assert(digits.subrange(0, k - start)[i] == digits.subrange(0, k - 1 - start)[i]);
                    }
                }
            }
        }
        if acc > 0xffff_ffff {
            proof {
                if all_digits(digits) {
                    lemma_decimal_prefix(digits, k - start);
                }
            }
            return None;
        }
    }
    proof {
        assert(digits.subrange(0, k - start) =~= digits);
    }
    Some(acc as u32)
}

/// The old and new start lines of a hunk header.
fn parse_hunk_header(v: &[u8]) -> (r: Option<(u32, u32)>)
    ensures
        r == hunk_starts(v@),
{
    let toks = tokens_of(v);
    if toks.len() < 3 {
        return None;
    }
    proof {
        assert(toks@[0]@ == tokens(v@)[0]);
        assert(toks@[1]@ == tokens(v@)[1]);
        assert(toks@[2]@ == tokens(v@)[2]);
    }
    if !bytes_eq(toks[0].as_slice(), "@@".as_bytes()) {
        return None;
    }
    if toks[1].len() == 0 || toks[1][0] != MINUS || toks[2].len() == 0 || toks[2][0] != PLUS {
        return None;
    }
    let old_text = slice_subrange(toks[1].as_slice(), 1, toks[1].len());
    let new_text = slice_subrange(toks[2].as_slice(), 1, toks[2].len());
    proof {
        assert(old_text@ =~= tokens(v@)[1].drop_first());
        assert(new_text@ =~= tokens(v@)[2].drop_first());
    }
    let old = parse_u32_of(before_byte_of(old_text, COMMA));
    let new = parse_u32_of(before_byte_of(new_text, COMMA));
    match (old, new) {
        (Some(o), Some(n)) => Some((o, n)),
        _ => None,
    }
}

/// The path that the header line `t[start..end]` names after `marker`.
fn parse_file_path(t: &[u8], start: usize, end: usize, marker: &str, prefix: &str) -> (r: Option<String>)
    requires
        valid_utf8(t@),
        ascii_delimited(t@, start as int, end as int),
        has_prefix(t@.subrange(start as int, end as int), marker.spec_bytes()),
        marker.spec_bytes().len() > 0,
        marker.spec_bytes().last() < 0x80,
        prefix.spec_bytes().len() > 0,
        prefix.spec_bytes().last() < 0x80,
    ensures
        match r {
            Some(p) => header_path(t@.subrange(start as int, end as int), marker.spec_bytes(), prefix.spec_bytes())
                == Some(encode_utf8(p@)),
            None => header_path(t@.subrange(start as int, end as int), marker.spec_bytes(), prefix.spec_bytes())
                is None,
        },
{
    let ghost v = t@.subrange(start as int, end as int);
    let m = marker.as_bytes();
    let vs = start + m.len();
    let value = slice_subrange(t, vs, end);
    proof {
        assert(value@ =~= v.subrange(m@.len() as int, v.len() as int));
        assert(t@[vs - 1] == v[m@.len() - 1]);
    }
    if bytes_eq(value, "/dev/null".as_bytes()) {
        return None;
    }
    let pre = prefix.as_bytes();
    let ps = if starts_with(value, pre) {
        proof {
            assert(t@[vs + pre@.len() - 1] == value@[pre@.len() - 1]);
            assert(value@.subrange(0, pre@.len() as int)[pre@.len() - 1] == pre@[pre@.len() - 1]);
        }
        vs + pre.len()
    } else {
        vs
    };
    proof {
        lemma_ascii_delimited_valid(t@, ps as int, end as int);
        if ps > vs {
            assert(t@.subrange(ps as int, end as int) =~= value@.subrange(pre@.len() as int, value@.len() as int));
        } else {
            assert(t@.subrange(ps as int, end as int) =~= value@);
        }
    }
    let bytes = crate::bytes::to_vec(slice_subrange(t, ps, end));
    Some(string_from_utf8(bytes))
}

/// The line after `n`, wrapping at the top of the range.
fn next_line_number(n: Option<u32>) -> (r: Option<u32>)
    ensures
        r == next_number(n),
{
    match n {
        Some(x) => Some(if x == u32::MAX { 0 } else { x + 1 }),
        None => None,
    }
}

/// The parse state while the lines are read.
struct Parser {
    lines: Vec<DiffLine>,
    files: Vec<Option<String>>,
    old: Option<u32>,
    new: Option<u32>,
    file_index: Option<usize>,
}

impl Parser {
    spec fn state(&self) -> ScanState {
        ScanState {
            lines: self.lines@,
            files: file_views(self.files@),
            old: self.old,
            new: self.new,
            file_index: self.file_index,
        }
    }

    spec fn wf(&self) -> bool {
        &&& match self.file_index {
            Some(k) => k < self.files@.len(),
            None => true,
        }
        &&& forall|i: int|
            0 <= i < self.lines@.len() ==> ((#[trigger] self.lines@[i]).file_index matches Some(f) ==> f
                < self.files@.len())
    }

    /// Reads the line of text `t[i..j]`.
    #[verifier::rlimit(40)]
    fn step(&mut self, t: &[u8], i: usize, j: usize)
        requires
            valid_utf8(t@),
            old(self).wf(),
            0 <= i < t@.len(),
            i == 0 || t@[i - 1] == NEWLINE,
            j == piece_end(t@, i as int),
        ensures
            final(self).wf(),
            final(self).state() == parse_piece(old(self).state(), t@, i as int, j as int),
    {
        proof {
            lemma_piece_end(t@, i as int);
            lemma_literal_bytes();
        }
        let mut e = j;
        if e > i && t[e - 1] == NEWLINE {
            e = e - 1;
        }
        if e > i && t[e - 1] == CARRIAGE_RETURN {
            e = e - 1;
        }
        proof {
            assert(e == visible_end(t@, i as int, j as int));
            assert(ascii_delimited(t@, i as int, e as int));
        }
        let v = slice_subrange(t, i, e);
        let ghost st = self.state();
        let ghost before_files = self.files@;
        let (kind, old_line, new_line) = if has_lit(v, "diff --git ") {
            self.files.push(None);
            self.file_index = Some(self.files.len() - 1);
            proof {
                assert(file_views(self.files@) =~= file_views(before_files).push(None));
            }
            (LineKind::FileHeader, None, None)
        } else if has_lit(v, "+++ ") {
            let path = parse_file_path(t, i, e, "+++ ", "b/");
            match (self.file_index, path) {
                (Some(k), Some(p)) => {
                    let ghost pv = encode_utf8(p@);
                    self.files.set(k, Some(p));
                    proof {
                        assert(file_views(self.files@) =~= file_views(before_files).update(k as int, Some(pv)));
                    }
                },
                _ => {},
            }
            (LineKind::FileHeader, None, None)
        } else if has_lit(v, "--- ") {
            let path = parse_file_path(t, i, e, "--- ", "a/");
            match (self.file_index, path) {
                (Some(k), Some(p)) => {
                    if self.files[k].is_none() {
                        let ghost pv = encode_utf8(p@);
                        self.files.set(k, Some(p));
                        proof {
                            assert(file_views(self.files@) =~= file_views(before_files).update(k as int, Some(pv)));
                        }
                    }
                },
                _ => {},
            }
            (LineKind::FileHeader, None, None)
        } else if has_lit(v, "index ") {
            (LineKind::FileHeader, None, None)
        } else if has_lit(v, "Binary files ") || has_lit(v, "GIT binary patch") {
            (LineKind::Binary, None, None)
        } else if has_lit(v, "rename from ") || has_lit(v, "rename to ") || has_lit(
            v,
            "similarity index ",
        ) {
            (LineKind::Rename, None, None)
        } else if has_lit(v, "new file mode ") {
            (LineKind::NewFile, None, None)
        } else if has_lit(v, "deleted file mode ") {
            (LineKind::DeletedFile, None, None)
        } else if has_lit(v, "\\ No newline at end of file") {
            (LineKind::NoNewline, None, None)
        } else if has_lit(v, "@@") {
            match parse_hunk_header(v) {
                Some((o, n)) => {
                    self.old = Some(o);
                    self.new = Some(n);
                },
                None => {},
            }
            (LineKind::HunkHeader, None, None)
        } else if v.len() > 0 && v[0] == PLUS {
            let current = self.new;
            self.new = next_line_number(current);
            (LineKind::Addition, None, current)
        } else if v.len() > 0 && v[0] == MINUS {
            let current = self.old;
            self.old = next_line_number(current);
            (LineKind::Deletion, current, None)
        } else if v.len() > 0 && v[0] == SPACE {
            let old_current = self.old;
            let new_current = self.new;
            self.old = next_line_number(old_current);
            self.new = next_line_number(new_current);
            (LineKind::Context, old_current, new_current)
        } else {
            (LineKind::Metadata, None, None)
        };
        let ghost mid = self.state();
        proof {
            assert(self.files@.len() >= before_files.len());
            let r = parse_line(st, v@);
            assert(r.0 == mid);
            assert(r.1 == kind && r.2 == old_line && r.3 == new_line);
        }
        self.lines.push(
            DiffLine { range: Range { start: i, end: e }, kind, old_line, new_line, file_index: self.file_index },
        );
    }
}

/// A line whose range starts inside the text and ends where its piece's
/// visible text ends.
pub open spec fn line_fits(t: Seq<u8>, line: DiffLine) -> bool {
    let s = line.range.start as int;
    &&& 0 <= s < t.len()
    &&& line.range.end as int == visible_end(t, s, piece_end(t, s))
    &&& ascii_delimited(t, s, line.range.end as int)
}

/// The lines cover `t` from position `i` to its end, piece after piece: each
/// line starts where the previous piece ended, just past a newline, and the
/// last piece reaches the end of the text.
pub open spec fn tiles_from(t: Seq<u8>, lines: Seq<DiffLine>, i: int) -> bool {
    &&& (lines.len() == 0 <==> i >= t.len())
    &&& (lines.len() > 0 ==> lines[0].range.start == i)
    &&& forall|k: int| 0 <= k < lines.len() ==> line_fits(t, #[trigger] lines[k])
    &&& forall|k: int|
        0 <= k < lines.len() - 1 ==> #[trigger] lines[k + 1].range.start == piece_end(
            t,
            lines[k].range.start as int,
        )
    &&& (lines.len() > 0 ==> piece_end(t, lines.last().range.start as int) == t.len())
}

#[verifier::rlimit(40)]
proof fn lemma_parse_from_tiles(t: Seq<u8>, i: int, st: ScanState)
    requires
        t.len() <= usize::MAX,
        0 <= i <= t.len(),
        i == 0 || i == t.len() || t[i - 1] == NEWLINE,
    ensures
        ({
            let r = parse_from(t, i, st).lines;
            &&& r.len() >= st.lines.len()
            &&& r.subrange(0, st.lines.len() as int) == st.lines
            &&& tiles_from(t, r.subrange(st.lines.len() as int, r.len() as int), i)
        }),
    decreases t.len() - i,
{
    let r = parse_from(t, i, st).lines;
    if i >= t.len() {
        assert(r.subrange(0, st.lines.len() as int) =~= st.lines);
        assert(r.subrange(st.lines.len() as int, r.len() as int) =~= Seq::<DiffLine>::empty());
    } else {
        lemma_piece_end(t, i);
        let j = piece_end(t, i);
        let st2 = parse_piece(st, t, i, j);
        lemma_parse_from_tiles(t, j, st2);
        let n = st.lines.len() as int;
        let line = st2.lines[n];
        assert(st2.lines.subrange(0, n) =~= st.lines);
        assert(r.subrange(0, n + 1) =~= st2.lines) by {
            assert(r.subrange(0, n + 1) =~= r.subrange(0, st2.lines.len() as int));
        }
        assert(r.subrange(0, n) =~= st.lines) by {
            assert(r.subrange(0, n) =~= r.subrange(0, n + 1).subrange(0, n));
        }
        let rest = r.subrange(n + 1, r.len() as int);
        let mine = r.subrange(n, r.len() as int);
        assert(mine =~= seq![line] + rest);
        let e = visible_end(t, i, j);
        assert(line.range.start == i && line.range.end == e);
        assert(ascii_delimited(t, i, e));
        assert(line_fits(t, line));
        assert forall|k: int| 0 <= k < mine.len() implies line_fits(t, #[trigger] mine[k]) by {
            if k > 0 {
                assert(mine[k] == rest[k - 1]);
            }
        }
        assert forall|k: int| 0 <= k < mine.len() - 1 implies #[trigger] mine[k + 1].range.start
            == piece_end(t, mine[k].range.start as int) by {
            if k > 0 {
                assert(mine[k] == rest[k - 1]);
                assert(mine[k + 1] == rest[k]);
                assert(rest[(k - 1) + 1].range.start == piece_end(t, rest[k - 1].range.start as int));
            } else {
                assert(mine[1] == rest[0]);
                assert(rest[0].range.start == j);
            }
        }
        if rest.len() > 0 {
            assert(mine.last() == rest.last());
        }
    }
}

/// The lines of a parsed text tile it: the first starts at 0, each next one
/// starts just past the newline that ends the previous one, the last piece
/// reaches the end of the text, and each line's range is the piece without
/// its final newline and carriage return.
pub proof fn lemma_lines_tile_text(t: Seq<u8>)
    requires
        t.len() <= usize::MAX,
    ensures
        tiles_from(t, parsed(t).lines, 0),
{
    lemma_parse_from_tiles(t, 0, initial_state());
    let r = parsed(t).lines;
    assert(r.subrange(0, 0) =~= Seq::<DiffLine>::empty());
    assert(r.subrange(0, r.len() as int) =~= r);
}

/// What hashing a string with `std::hash::DefaultHasher::new()` gives.
pub uninterp spec fn default_hash_of_str(text: Seq<char>) -> u64;

/// Hashes a string with a freshly made `DefaultHasher`.
///
/// Calls `Hash::hash` on the `str` and `Hasher::finish`; a `DefaultHasher`
/// made by `new` always starts from the same keys, so the result is named as a
/// function of the text.
#[verifier::external_body]
fn hash_str(text: &str) -> (h: u64)
    ensures
        h == default_hash_of_str(text@),
{
    let mut hasher = std::hash::DefaultHasher::new();
    text.hash(&mut hasher);
    hasher.finish()
}

impl DiffDocument {
    /// Parses the output of `git diff` or `git show`; bytes that are not UTF-8
    /// are replaced as `String::from_utf8_lossy` replaces them.
    pub fn parse(output: Vec<u8>) -> (doc: DiffDocument)
        ensures
            doc.text@ == utf8_lossy(output@),
            valid_utf8(output@) ==> doc.text_bytes() == output@,
            doc.lines@ == parsed(doc.text_bytes()).lines,
            file_views(doc.files@) == parsed(doc.text_bytes()).files,
            tiles_from(doc.text_bytes(), doc.lines@, 0),
            doc.well_formed(),
            doc.files_indexed(),
    {
        let text = decode_lossy(output.as_slice());
        proof {
            if valid_utf8(output@) {
                decode_utf8_encode_utf8(output@);
            }
        }
        Self::from_text(text)
    }

    /// The text of one line, without its line terminator.
    pub fn line_text(&self, line: &DiffLine) -> (r: &str)
        requires
            ascii_delimited(self.text_bytes(), line.range.start as int, line.range.end as int),
        ensures
            r.spec_bytes() == self.text_bytes().subrange(line.range.start as int, line.range.end as int),
    {
        let ghost t = self.text_bytes();
        proof {
            encode_utf8_valid_utf8(self.text@);
            lemma_ascii_delimited_valid(t, line.range.start as int, line.range.end as int);
        }
        let s = self.text.as_str();
        let (head, _) = s.split_at(line.range.end);
        let (_, body) = head.split_at(line.range.start);
        proof {
            assert(head.spec_bytes().subrange(line.range.start as int, head.spec_bytes().len() as int)
                =~= t.subrange(line.range.start as int, line.range.end as int));
        }
        body
    }

    /// The length of the text in bytes.
    pub fn text_len(&self) -> (n: usize)
        ensures
            n == self.text_bytes().len(),
    {
        self.text.as_str().as_bytes().len()
    }

    /// A hash of the text, equal for equal texts.
    pub fn fingerprint(&self) -> (h: u64)
        ensures
            h == default_hash_of_str(self.text@),
    {
        hash_str(self.text.as_str())
    }

    /// The bytes of the document's text.
    pub open spec fn text_bytes(&self) -> Seq<u8> {
        encode_utf8(self.text@)
    }

    /// Every line's range lies in the text between ASCII bytes (or its ends),
    /// so its text can be taken out.
    pub open spec fn well_formed(&self) -> bool {
        forall|k: int|
            0 <= k < self.lines@.len() ==> ascii_delimited(
                self.text_bytes(),
                #[trigger] self.lines@[k].range.start as int,
                self.lines@[k].range.end as int,
            )
    }

    /// Whether every line's file, if any, is one of the document's files.
    pub open spec fn files_indexed(&self) -> bool {
        forall|i: int|
            0 <= i < self.lines@.len() ==> ((#[trigger] self.lines@[i]).file_index matches Some(f) ==> f
                < self.files@.len())
    }

    /// Whether every line's range lies in the text between ASCII bytes.
    pub fn ranges_well_formed(&self) -> (r: bool)
        ensures
            r == self.well_formed(),
    {
        let t: &[u8] = self.text.as_str().as_bytes();
        let n = self.lines.len();
        let mut k: usize = 0;
        while k < n
            invariant
                n == self.lines@.len(),
                t@ == self.text_bytes(),
                k <= n,
                forall|j: int|
                    0 <= j < k ==> ascii_delimited(
                        self.text_bytes(),
                        #[trigger] self.lines@[j].range.start as int,
                        self.lines@[j].range.end as int,
                    ),
            decreases n - k,
        {
            let start = self.lines[k].range.start;
            let end = self.lines[k].range.end;
            if start > end || end > t.len() {
                return false;
            }
            if start > 0 && t[start - 1] >= 0x80 {
                return false;
            }
            if end < t.len() && t[end] >= 0x80 {
                return false;
            }
            k = k + 1;
        }
        true
    }

    /// Parses patch text that is already a string.
    pub fn from_text(text: String) -> (doc: DiffDocument)
        ensures
            doc.text@ == text@,
            doc.lines@ == parsed(encode_utf8(text@)).lines,
            file_views(doc.files@) == parsed(encode_utf8(text@)).files,
            tiles_from(doc.text_bytes(), doc.lines@, 0),
            doc.well_formed(),
            doc.files_indexed(),
    {
        let mut parser = Parser { lines: Vec::new(), files: Vec::new(), old: None, new: None, file_index: None };
        proof {
            assert(file_views(parser.files@) =~= Seq::<Option<Seq<u8>>>::empty());
            assert(parser.state() == initial_state());
        }
        {
            let t: &[u8] = text.as_str().as_bytes();
            proof {
                encode_utf8_valid_utf8(text@);
            }
            let mut offset: usize = 0;
            while offset < t.len()
                invariant
                    offset <= t@.len(),
                    valid_utf8(t@),
                    offset == 0 || offset == t@.len() || t@[offset - 1] == NEWLINE,
                    parser.wf(),
                    parse_from(t@, offset as int, parser.state()) == parse_from(t@, 0, initial_state()),
                decreases t.len() - offset,
            {
                let mut j = offset;
                while j < t.len() && t[j] != NEWLINE
                    invariant
                        offset <= j <= t@.len(),
                        piece_end(t@, j as int) == piece_end(t@, offset as int),
                    decreases t.len() - j,
                {
                    j = j + 1;
                }
                if j < t.len() {
                    j = j + 1;
                }
                proof {
                    lemma_piece_end(t@, offset as int);
                }
                parser.step(t, offset, j);
                offset = j;
            }
        }
        proof {
            lemma_lines_tile_text(encode_utf8(text@));
        }
        let doc = DiffDocument { text, lines: parser.lines, files: parser.files };
        proof {
            assert forall|k: int| 0 <= k < doc.lines@.len() implies ascii_delimited(
                doc.text_bytes(),
                #[trigger] doc.lines@[k].range.start as int,
                doc.lines@[k].range.end as int,
            ) by {
                assert(line_fits(doc.text_bytes(), doc.lines@[k]));
            }
        }
        doc
    }
}

} // verus!
