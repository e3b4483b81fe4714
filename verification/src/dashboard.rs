//! The dashboard's data, read from the output of Git's plumbing commands.
use vstd::prelude::*;
use vstd::slice::slice_subrange;
use vstd::utf8::*;

use crate::bytes::{decode_lossy, to_vec, utf8_lossy, bytes_eq, contains_bytes, contains_seq};
use vstd::string::StringSliceAdditionalSpecFns;
use crate::path::{split_on, split_bytes, byte_views, lemma_split_on_nonempty};
use crate::repository::{GitOutput, GitStep, CommandFailure, failure, reports};
use crate::cli::{arg_views, opt_view};
use crate::git_diff::{path_suffix, push_bytes, push_path, push_text};

verus! {

broadcast use group_utf8_lib;

pub const NUL: u8 = 0;

pub const NEWLINE: u8 = 0x0a;

pub const CARRIAGE_RETURN: u8 = 0x0d;

/// One commit of the history.
#[derive(Debug, Clone, PartialEq, Eq)]
pub struct CommitEntry {
    pub id: Vec<u8>,
    pub short_id: String,
    pub author: String,
    pub date: String,
    pub subject: String,
}

/// One local branch.
#[derive(Debug, Clone, PartialEq, Eq)]
pub struct BranchEntry {
    pub name: Vec<u8>,
    pub short_id: String,
    pub subject: String,
    pub current: bool,
}

/// The kind of change Git reports for a path.
#[derive(Debug, Clone, Copy, PartialEq, Eq, Structural)]
pub enum ChangeKind {
    Added,
    Modified,
    Deleted,
    Renamed,
    Copied,
    Untracked,
    TypeChanged,
    Unmerged,
    Unknown,
}

/// A changed path and how it changed.
#[derive(Debug, PartialEq, Eq)]
pub struct ChangeEntry {
    pub path: Vec<u8>,
    pub kind: ChangeKind,
}

impl Clone for ChangeEntry {
    fn clone(&self) -> (r: Self)
        ensures
            r@ == self@,
    {
        ChangeEntry { path: self.path.clone(), kind: self.kind }
    }
}

impl View for ChangeEntry {
    type V = (Seq<u8>, ChangeKind);

    open spec fn view(&self) -> (Seq<u8>, ChangeKind) {
        (self.path@, self.kind)
    }
}

/// Everything the dashboard shows.
#[derive(Debug, Clone)]
pub struct DashboardData {
    pub commits: Vec<CommitEntry>,
    pub branches: Vec<BranchEntry>,
    pub staged: Vec<ChangeEntry>,
    pub unstaged: Vec<ChangeEntry>,
}

impl Default for DashboardData {
    fn default() -> (r: Self)
        ensures
            r.commits@.len() == 0,
            r.branches@.len() == 0,
            r.staged@.len() == 0,
            r.unstaged@.len() == 0,
    {
        DashboardData { commits: Vec::new(), branches: Vec::new(), staged: Vec::new(), unstaged: Vec::new() }
    }
}

/// The views of a list of changes.
pub open spec fn change_views(v: Seq<ChangeEntry>) -> Seq<(Seq<u8>, ChangeKind)> {
    v.map_values(|c: ChangeEntry| c@)
}

/// The change kind that a status letter of `git status --porcelain` stands
/// for.
pub open spec fn kind_of_code(code: u8) -> ChangeKind {
    if code == 0x41 {
        ChangeKind::Added
    } else if code == 0x4d {
        ChangeKind::Modified
    } else if code == 0x44 {
        ChangeKind::Deleted
    } else if code == 0x52 {
        ChangeKind::Renamed
    } else if code == 0x43 {
        ChangeKind::Copied
    } else if code == 0x54 {
        ChangeKind::TypeChanged
    } else if code == 0x55 {
        ChangeKind::Unmerged
    } else if code == 0x3f {
        ChangeKind::Untracked
    } else {
        ChangeKind::Unknown
    }
}

/// Maps a status letter (`A`, `M`, `D`, `R`, `C`, `T`, `U`, `?`) to its kind;
/// any other byte is unknown.
pub fn status_kind(code: u8) -> (k: ChangeKind)
    ensures
        k == kind_of_code(code),
{
    match code {
        0x41 => ChangeKind::Added,
        0x4d => ChangeKind::Modified,
        0x44 => ChangeKind::Deleted,
        0x52 => ChangeKind::Renamed,
        0x43 => ChangeKind::Copied,
        0x54 => ChangeKind::TypeChanged,
        0x55 => ChangeKind::Unmerged,
        0x3f => ChangeKind::Untracked,
        _ => ChangeKind::Unknown,
    }
}

/// `s` without one final newline, and then without one final carriage
/// return.
pub open spec fn trimmed_line_end(s: Seq<u8>) -> Seq<u8> {
    let a = if s.len() > 0 && s.last() == NEWLINE {
        s.drop_last()
    } else {
        s
    };
    if a.len() > 0 && a.last() == CARRIAGE_RETURN {
        a.drop_last()
    } else {
        a
    }
}

/// Removes one trailing `\n` and then one trailing `\r`.
pub fn trim_ascii(bytes: &[u8]) -> (out: Vec<u8>)
    ensures
        out@ == trimmed_line_end(bytes@),
{
    let mut end = bytes.len();
    if end > 0 && bytes[end - 1] == NEWLINE {
        end = end - 1;
    }
    if end > 0 && bytes[end - 1] == CARRIAGE_RETURN {
        end = end - 1;
    }
    let out = to_vec(slice_subrange(bytes, 0, end));
    proof {
        let s = bytes@;
        let a = if s.len() > 0 && s.last() == NEWLINE { s.drop_last() } else { s };
        assert(a =~= s.subrange(0, if s.len() > 0 && s.last() == NEWLINE { s.len() - 1 } else { s.len() as int }));
        assert(out@ =~= trimmed_line_end(s));
    }
    out
}

/// How the records of `git status --porcelain=v1 -z` from index `i` on add
/// to the staged and unstaged lists. Records shorter than four bytes are
/// skipped; a rename or copy is followed by a record with its source path,
/// which is skipped too; an untracked path is only unstaged; otherwise the
/// first letter, unless a space, gives a staged change and the second, unless
/// a space, an unstaged one, both for the path after the letters and a space.
pub open spec fn status_from(
    records: Seq<Seq<u8>>,
    i: int,
    staged: Seq<(Seq<u8>, ChangeKind)>,
    unstaged: Seq<(Seq<u8>, ChangeKind)>,
) -> (Seq<(Seq<u8>, ChangeKind)>, Seq<(Seq<u8>, ChangeKind)>)
    decreases records.len() + 1 - i,
{
    if i < 0 || i >= records.len() {
        (staged, unstaged)
    } else {
        let r = records[i];
        if r.len() < 4 {
            status_from(records, i + 1, staged, unstaged)
        } else {
            let x = r[0];
            let y = r[1];
            let path = r.subrange(3, r.len() as int);
            let next = if x == 0x52 || x == 0x43 {
                i + 2
            } else {
                i + 1
            };
            if x == 0x3f && y == 0x3f {
                status_from(records, next, staged, unstaged.push((path, ChangeKind::Untracked)))
            } else {
                let s2 = if x != 0x20 {
                    staged.push((path, kind_of_code(x)))
                } else {
                    staged
                };
                let u2 = if y != 0x20 {
                    unstaged.push((path, kind_of_code(y)))
                } else {
                    unstaged
                };
                status_from(records, next, s2, u2)
            }
        }
    }
}

/// The staged and unstaged changes that a porcelain status output lists.
pub open spec fn status_changes(stdout: Seq<u8>) -> (Seq<(Seq<u8>, ChangeKind)>, Seq<(Seq<u8>, ChangeKind)>) {
    status_from(split_on(stdout, NUL), 0, Seq::empty(), Seq::empty())
}

/// Reads the output of `git status --porcelain=v1 -z --untracked-files=all`
/// into the staged and the unstaged changes.
pub fn parse_status(stdout: &[u8]) -> (r: (Vec<ChangeEntry>, Vec<ChangeEntry>))
    ensures
        (change_views(r.0@), change_views(r.1@)) == status_changes(stdout@),
{
    let records = split_bytes(stdout, NUL);
    let ghost rs = byte_views(records@);
    let mut staged: Vec<ChangeEntry> = Vec::new();
    let mut unstaged: Vec<ChangeEntry> = Vec::new();
    let mut index: usize = 0;
    proof {
        assert(change_views(staged@) =~= Seq::<(Seq<u8>, ChangeKind)>::empty());
        assert(change_views(unstaged@) =~= Seq::<(Seq<u8>, ChangeKind)>::empty());
    }
    while index < records.len()
        invariant
            rs == byte_views(records@),
            rs == split_on(stdout@, NUL),
            index <= records@.len(),
            status_from(rs, index as int, change_views(staged@), change_views(unstaged@))
                == status_changes(stdout@),
        decreases records.len() - index,
    {
        let ghost s0 = change_views(staged@);
        let ghost u0 = change_views(unstaged@);
        let ghost i0 = index as int;
        let record = &records[index];
        assert(record@ == rs[i0]);
        index = index + 1;
        if record.len() < 4 {
            continue;
        }
        let x = record[0];
        let y = record[1];
        let path = to_vec(slice_subrange(record.as_slice(), 3, record.len()));
        let ghost p = rs[i0].subrange(3, rs[i0].len() as int);
        let ghost next: int = if x == 0x52 || x == 0x43 { i0 + 2 } else { i0 + 1 };
        if (x == 0x52 || x == 0x43) && index < records.len() {
            index = index + 1;
        }
        if x == 0x3f && y == 0x3f {
            unstaged.push(ChangeEntry { path, kind: ChangeKind::Untracked });
            proof {
                assert(change_views(unstaged@) =~= u0.push((p, ChangeKind::Untracked)));
                assert(change_views(staged@) == s0);
                assert(status_from(rs, i0, s0, u0) == status_from(rs, next, s0, u0.push((p, ChangeKind::Untracked))));
                assert(status_from(rs, next, s0, u0.push((p, ChangeKind::Untracked)))
                    == status_from(rs, index as int, s0, u0.push((p, ChangeKind::Untracked))));
            }
            continue;
        }
        if x != 0x20 {
            let pc = path.clone();
            staged.push(ChangeEntry { path: pc, kind: status_kind(x) });
            proof {
                assert(change_views(staged@) =~= s0.push((p, kind_of_code(x))));
            }
        }
        if y != 0x20 {
            unstaged.push(ChangeEntry { path, kind: status_kind(y) });
            proof {
                assert(change_views(unstaged@) =~= u0.push((p, kind_of_code(y))));
            }
        }
        proof {
            let s2 = if x != 0x20 { s0.push((p, kind_of_code(x))) } else { s0 };
            let u2 = if y != 0x20 { u0.push((p, kind_of_code(y))) } else { u0 };
            assert(change_views(staged@) == s2);
            assert(change_views(unstaged@) == u2);
            assert(status_from(rs, i0, s0, u0) == status_from(rs, next, s2, u2));
            assert(status_from(rs, next, s2, u2) == status_from(rs, index as int, s2, u2));
        }
    }
    (staged, unstaged)
}

/// `s` without a leading newline.
pub open spec fn without_leading_newline(s: Seq<u8>) -> Seq<u8> {
    if s.len() > 0 && s[0] == NEWLINE {
        s.drop_first()
    } else {
        s
    }
}

/// `s` without all of its trailing newlines.
pub open spec fn without_trailing_newlines(s: Seq<u8>) -> Seq<u8>
    decreases s.len(),
{
    if s.len() > 0 && s.last() == NEWLINE {
        without_trailing_newlines(s.drop_last())
    } else {
        s
    }
}

/// How a commit reads from its five fields of
/// `git log --pretty=format:%H%x00%h%x00%an%x00%ad%x00%s%x00`: the full id
/// (without the newline Git puts between records), the short id, author and
/// date decoded lossily, and the subject decoded lossily without trailing
/// newlines.
pub open spec fn commit_from_fields(c: CommitEntry, f: Seq<Seq<u8>>) -> bool {
    &&& c.id@ == without_leading_newline(f[0])
    &&& c.short_id@ == utf8_lossy(f[1])
    &&& c.author@ == utf8_lossy(f[2])
    &&& c.date@ == utf8_lossy(f[3])
    &&& encode_utf8(c.subject@) == without_trailing_newlines(encode_utf8(utf8_lossy(f[4])))
}

/// How a branch reads from its three fields of
/// `git for-each-ref --format=%(refname:short)%00%(objectname:short)%00%(subject)%00`,
/// given the name of the current branch, if any.
pub open spec fn branch_from_fields(b: BranchEntry, f: Seq<Seq<u8>>, current: Option<Seq<u8>>) -> bool {
    &&& b.name@ == without_leading_newline(f[0])
    &&& b.short_id@ == utf8_lossy(f[1])
    &&& b.subject@ == utf8_lossy(f[2])
    &&& b.current == (current == Some(without_leading_newline(f[0])))
}

/// The group of `n` fields at `k`.
pub open spec fn chunk(fields: Seq<Seq<u8>>, n: int, k: int) -> Seq<Seq<u8>> {
    fields.subrange(n * k, n * k + n)
}

/// A field without a leading newline.
fn strip_leading_newline(f: &[u8]) -> (r: Vec<u8>)
    ensures
        r@ == without_leading_newline(f@),
{
    if f.len() > 0 && f[0] == NEWLINE {
        let r = to_vec(slice_subrange(f, 1, f.len()));
        proof {
            assert(r@ =~= f@.drop_first());
        }
        r
    } else {
        to_vec(f)
    }
}

proof fn lemma_trailing_newlines(s: Seq<u8>, e: int)
    requires
        0 <= e <= s.len(),
        forall|k: int| e <= k < s.len() ==> s[k] == NEWLINE,
        e == 0 || s[e - 1] != NEWLINE,
    ensures
        without_trailing_newlines(s) == s.subrange(0, e),
    decreases s.len(),
{
    if s.len() > e {
        assert(s.drop_last().subrange(0, e) =~= s.subrange(0, e));
        lemma_trailing_newlines(s.drop_last(), e);
    } else {
        assert(s.subrange(0, e) =~= s);
    }
}

/// The subject field: decoded lossily, without trailing newlines.
fn subject_of(f: &[u8]) -> (r: String)
    ensures
        encode_utf8(r@) == without_trailing_newlines(encode_utf8(utf8_lossy(f@))),
{
    let decoded = decode_lossy(f);
    let text = decoded.as_str();
    let bytes = text.as_bytes();
    let mut e = bytes.len();
    while e > 0 && bytes[e - 1] == NEWLINE
        invariant
            e <= bytes@.len(),
            forall|k: int| e <= k < bytes@.len() ==> bytes@[k] == NEWLINE,
        decreases e,
    {
        e = e - 1;
    }
    proof {
        lemma_trailing_newlines(bytes@, e as int);
        encode_utf8_valid_utf8(text@);
        is_char_boundary_start_end_of_seq(bytes@);
        if e < bytes@.len() {
            is_char_boundary_iff_not_is_continuation_byte(bytes@, e as int);
        }
    }
    let (head, _) = text.split_at(e);
    head.to_owned()
}

/// Reads the commits of `git log` output; fields come in fives and an
/// incomplete final group is ignored.
pub fn parse_history(stdout: &[u8]) -> (r: Vec<CommitEntry>)
    ensures
        r@.len() == split_on(stdout@, NUL).len() / 5,
        forall|k: int| 0 <= k < r@.len() ==> #[trigger] commit_from_fields(r@[k], chunk(split_on(stdout@, NUL), 5, k)),
{
    let fields = split_bytes(stdout, NUL);
    let ghost fs = byte_views(fields@);
    let flen = fields.len();
    let count = flen / 5;
    let mut commits: Vec<CommitEntry> = Vec::new();
    let mut k: usize = 0;
    while k < count
        invariant
            fs == byte_views(fields@),
            fs == split_on(stdout@, NUL),
            flen == fields@.len(),
            count == flen / 5,
            k <= count,
            commits@.len() == k,
            forall|m: int| 0 <= m < k ==> #[trigger] commit_from_fields(commits@[m], chunk(fs, 5, m)),
        decreases count - k,
    {
        proof {
            assert(5 * (k as int) + 5 <= flen as int) by (nonlinear_arith)
                requires
                    (k as int) < (count as int),
                    count as int == (flen as int) / 5,
                    flen >= 0;
        }
        let base = 5 * k;
        let ghost c = chunk(fs, 5, k as int);
        assert(c[0] == fields@[base as int]@);
        assert(c[1] == fields@[base + 1]@);
        assert(c[2] == fields@[base + 2]@);
        assert(c[3] == fields@[base + 3]@);
        assert(c[4] == fields@[base + 4]@);
        let entry = CommitEntry {
            id: strip_leading_newline(fields[base].as_slice()),
            short_id: decode_lossy(fields[base + 1].as_slice()),
            author: decode_lossy(fields[base + 2].as_slice()),
            date: decode_lossy(fields[base + 3].as_slice()),
            subject: subject_of(fields[base + 4].as_slice()),
        };
        commits.push(entry);
        k = k + 1;
    }
    commits
}

/// The name of the current branch, from the output of
/// `git symbolic-ref --quiet --short HEAD` when that command succeeded.
pub open spec fn current_branch(succeeded: bool, stdout: Seq<u8>) -> Option<Seq<u8>> {
    if succeeded {
        Some(trimmed_line_end(stdout))
    } else {
        None
    }
}

/// Reads the branches of `git for-each-ref` output; fields come in threes and
/// an incomplete final group is ignored. A branch is current when its name is
/// the one `git symbolic-ref` printed.
pub fn parse_branches(current_succeeded: bool, current_stdout: &[u8], stdout: &[u8]) -> (r: Vec<BranchEntry>)
    ensures
        r@.len() == split_on(stdout@, NUL).len() / 3,
        forall|k: int|
            0 <= k < r@.len() ==> #[trigger] branch_from_fields(
                r@[k],
                chunk(split_on(stdout@, NUL), 3, k),
                current_branch(current_succeeded, current_stdout@),
            ),
{
    let current: Option<Vec<u8>> = if current_succeeded {
        Some(trim_ascii(current_stdout))
    } else {
        None
    };
    let ghost cur = current_branch(current_succeeded, current_stdout@);
    let fields = split_bytes(stdout, NUL);
    let ghost fs = byte_views(fields@);
    let flen = fields.len();
    let count = flen / 3;
    let mut branches: Vec<BranchEntry> = Vec::new();
    let mut k: usize = 0;
    while k < count
        invariant
            fs == byte_views(fields@),
            fs == split_on(stdout@, NUL),
            flen == fields@.len(),
            count == flen / 3,
            k <= count,
            branches@.len() == k,
            match current {
                Some(c) => cur == Some(c@),
                None => cur is None,
            },
            forall|m: int| 0 <= m < k ==> #[trigger] branch_from_fields(branches@[m], chunk(fs, 3, m), cur),
        decreases count - k,
    {
        proof {
            assert(3 * (k as int) + 3 <= flen as int) by (nonlinear_arith)
                requires
                    (k as int) < (count as int),
                    count as int == (flen as int) / 3,
                    flen >= 0;
        }
        let base = 3 * k;
        let ghost c = chunk(fs, 3, k as int);
        assert(c[0] == fields@[base as int]@);
        assert(c[1] == fields@[base + 1]@);
        assert(c[2] == fields@[base + 2]@);
        let name = strip_leading_newline(fields[base].as_slice());
        let is_current = match &current {
            Some(c) => bytes_eq(c.as_slice(), name.as_slice()),
            None => false,
        };
        let entry = BranchEntry {
            name,
            short_id: decode_lossy(fields[base + 1].as_slice()),
            subject: decode_lossy(fields[base + 2].as_slice()),
            current: is_current,
        };
        branches.push(entry);
        k = k + 1;
    }
    branches
}

/// Whether a failed `git log` only means that there is no history yet: its
/// error output says that the branch has no commits.
pub open spec fn is_unborn_history(stderr: Seq<u8>) -> bool {
    let text = encode_utf8(utf8_lossy(stderr));
    contains_seq(text, "does not have any commits yet".spec_bytes()) || contains_seq(
        text,
        "your current branch".spec_bytes(),
    )
}

/// Decides whether a failed `git log` is an empty history rather than an
/// error.
pub fn history_failure_is_empty(stderr: &[u8]) -> (r: bool)
    ensures
        r == is_unborn_history(stderr@),
{
    let text = decode_lossy(stderr);
    let bytes = text.as_str().as_bytes();
    contains_bytes(bytes, "does not have any commits yet".as_bytes()) || contains_bytes(
        bytes,
        "your current branch".as_bytes(),
    )
}

/// The changes of `git status --porcelain=v1 -z --untracked-files=all`:
/// the staged and unstaged lists when it succeeded, its failure otherwise.
pub fn load_status(output: &GitOutput) -> (r: Result<(Vec<ChangeEntry>, Vec<ChangeEntry>), CommandFailure>)
    ensures
        match r {
            Ok(lists) => output.success && (change_views(lists.0@), change_views(lists.1@))
                == status_changes(output.stdout@),
            Err(e) => !output.success && reports(e, GitStep::LoadStatus, *output),
        },
{
    if !output.success {
        return Err(failure(GitStep::LoadStatus, output));
    }
    Ok(parse_status(output.stdout.as_slice()))
}

/// The arguments of the `git log` that lists the history, of one path when
/// there is one: full and short id, author, date and subject of at most 500
/// commits, each field ended by a NUL byte.
pub open spec fn history_command(path: Option<Seq<u8>>) -> Seq<Seq<u8>> {
    seq![
        "--no-pager".spec_bytes(),
        "log".spec_bytes(),
        "--date=short".spec_bytes(),
        "--pretty=format:%H%x00%h%x00%an%x00%ad%x00%s%x00".spec_bytes(),
        "-n".spec_bytes(),
        "500".spec_bytes(),
    ] + path_suffix(path)
}

/// The arguments of the history command.
pub fn history_arguments(path: &Option<Vec<u8>>) -> (args: Vec<Vec<u8>>)
    ensures
        arg_views(args@) == history_command(opt_view(*path)),
{
    let mut args: Vec<Vec<u8>> = Vec::new();
    push_text(&mut args, "--no-pager");
    push_text(&mut args, "log");
    push_text(&mut args, "--date=short");
    push_text(&mut args, "--pretty=format:%H%x00%h%x00%an%x00%ad%x00%s%x00");
    push_text(&mut args, "-n");
    push_text(&mut args, "500");
    push_path(&mut args, path);
    proof {
        assert(arg_views(args@) =~= history_command(opt_view(*path)));
    }
    args
}

/// The arguments of the `git diff-tree` that lists the files a commit
/// changed, under one path when there is one.
pub open spec fn commit_files_command(revision: Seq<u8>, path: Option<Seq<u8>>) -> Seq<Seq<u8>> {
    seq![
        "diff-tree".spec_bytes(),
        "--no-commit-id".spec_bytes(),
        "--root".spec_bytes(),
        "-r".spec_bytes(),
        "-z".spec_bytes(),
        "--name-status".spec_bytes(),
        revision,
    ] + path_suffix(path)
}

/// The arguments of the commit-files command.
pub fn commit_files_arguments(revision: &Vec<u8>, path: &Option<Vec<u8>>) -> (args: Vec<Vec<u8>>)
    ensures
        arg_views(args@) == commit_files_command(revision@, opt_view(*path)),
{
    let mut args: Vec<Vec<u8>> = Vec::new();
    push_text(&mut args, "diff-tree");
    push_text(&mut args, "--no-commit-id");
    push_text(&mut args, "--root");
    push_text(&mut args, "-r");
    push_text(&mut args, "-z");
    push_text(&mut args, "--name-status");
    push_bytes(&mut args, revision);
    push_path(&mut args, path);
    proof {
        assert(arg_views(args@) =~= commit_files_command(revision@, opt_view(*path)));
    }
    args
}

/// The changed files that `git diff-tree -r -z --name-status` lists, read
/// from field `i` on: a status field is followed by the path, or by the old
/// and the new path of a rename or copy, of which the new one is kept; empty
/// status fields are skipped, and a status without its path ends the list.
pub open spec fn name_status_from(
    fields: Seq<Seq<u8>>,
    i: int,
    acc: Seq<(Seq<u8>, ChangeKind)>,
) -> Seq<(Seq<u8>, ChangeKind)>
    decreases fields.len() + 1 - i,
{
    if i < 0 || i >= fields.len() {
        acc
    } else if fields[i].len() == 0 {
        name_status_from(fields, i + 1, acc)
    } else {
        let letter = fields[i][0];
        let p = if letter == 0x52 || letter == 0x43 {
            i + 2
        } else {
            i + 1
        };
        if p < fields.len() {
            name_status_from(fields, p + 1, acc.push((fields[p], kind_of_code(letter))))
        } else {
            acc
        }
    }
}

/// The changed files of a commit that `git diff-tree` printed.
pub open spec fn commit_file_changes(stdout: Seq<u8>) -> Seq<(Seq<u8>, ChangeKind)> {
    name_status_from(split_on(stdout, NUL), 0, Seq::empty())
}

/// Reads the output of `git diff-tree -r -z --name-status`.
pub fn parse_commit_files(stdout: &[u8]) -> (r: Vec<ChangeEntry>)
    ensures
        change_views(r@) == commit_file_changes(stdout@),
{
    let fields = split_bytes(stdout, NUL);
    let ghost fs = byte_views(fields@);
    let mut files: Vec<ChangeEntry> = Vec::new();
    let mut index: usize = 0;
    proof {
        assert(change_views(files@) =~= Seq::<(Seq<u8>, ChangeKind)>::empty());
    }
    while index < fields.len()
        invariant
            fs == byte_views(fields@),
            fs == split_on(stdout@, NUL),
            index <= fields@.len(),
            name_status_from(fs, index as int, change_views(files@)) == commit_file_changes(stdout@),
        decreases fields.len() - index,
    {
        let ghost f0 = change_views(files@);
        let ghost i0 = index as int;
        let status = &fields[index];
        assert(status@ == fs[i0]);
        index = index + 1;
        if status.len() == 0 {
            continue;
        }
        let letter = status[0];
        if letter == 0x52 || letter == 0x43 {
            if index < fields.len() {
                index = index + 1;
            } else {
                return files;
            }
        }
        if index < fields.len() {
            let path = to_vec(fields[index].as_slice());
            assert(path@ == fs[index as int]);
            files.push(ChangeEntry { path, kind: status_kind(letter) });
            index = index + 1;
            proof {
                assert(change_views(files@) =~= f0.push((fs[index - 1], kind_of_code(letter))));
            }
        } else {
            return files;
        }
    }
    files
}

/// The changed files of a commit when `git diff-tree` succeeded, its failure
/// otherwise.
pub fn load_commit_files(output: &GitOutput) -> (r: Result<Vec<ChangeEntry>, CommandFailure>)
    ensures
        match r {
            Ok(files) => output.success && change_views(files@) == commit_file_changes(output.stdout@),
            Err(e) => !output.success && reports(e, GitStep::LoadCommitFiles, *output),
        },
{
    if !output.success {
        return Err(failure(GitStep::LoadCommitFiles, output));
    }
    Ok(parse_commit_files(output.stdout.as_slice()))
}

/// The commits of `git log`: none when it failed only because the branch
/// has no commits yet, its failure when it failed otherwise.
pub fn load_history(output: &GitOutput) -> (r: Result<Vec<CommitEntry>, CommandFailure>)
    ensures
        match r {
            Ok(commits) => if output.success {
                &&& commits@.len() == split_on(output.stdout@, NUL).len() / 5
                &&& forall|k: int| 0 <= k < commits@.len() ==> #[trigger] commit_from_fields(
                    commits@[k],
                    chunk(split_on(output.stdout@, NUL), 5, k),
                )
            } else {
                is_unborn_history(output.stderr@) && commits@.len() == 0
            },
            Err(e) => !output.success && !is_unborn_history(output.stderr@) && reports(
                e,
                GitStep::LoadHistory,
                *output,
            ),
        },
{
    if !output.success {
        if history_failure_is_empty(output.stderr.as_slice()) {
            return Ok(Vec::new());
        }
        return Err(failure(GitStep::LoadHistory, output));
    }
    Ok(parse_history(output.stdout.as_slice()))
}

/// The local branches of `git for-each-ref`, marking the one that
/// `git symbolic-ref` named; the failure of `git for-each-ref` when it failed.
pub fn load_branches(current: &GitOutput, refs: &GitOutput) -> (r: Result<Vec<BranchEntry>, CommandFailure>)
    ensures
        match r {
            Ok(branches) => {
                &&& refs.success
                &&& branches@.len() == split_on(refs.stdout@, NUL).len() / 3
                &&& forall|k: int| 0 <= k < branches@.len() ==> #[trigger] branch_from_fields(
                    branches@[k],
                    chunk(split_on(refs.stdout@, NUL), 3, k),
                    current_branch(current.success, current.stdout@),
                )
            },
            Err(e) => !refs.success && reports(e, GitStep::LoadBranches, *refs),
        },
{
    if !refs.success {
        return Err(failure(GitStep::LoadBranches, refs));
    }
    Ok(parse_branches(current.success, current.stdout.as_slice(), refs.stdout.as_slice()))
}

/// The dashboard from the outputs of `git log`, `git symbolic-ref`,
/// `git for-each-ref` and `git status`, in that order: the first failure
/// among them, or everything they list.
pub fn load(history: &GitOutput, current: &GitOutput, refs: &GitOutput, status: &GitOutput) -> (r: Result<DashboardData, CommandFailure>)
    ensures
        match r {
            Ok(d) => {
                &&& (history.success || is_unborn_history(history.stderr@))
                &&& refs.success
                &&& status.success
                &&& (change_views(d.staged@), change_views(d.unstaged@)) == status_changes(status.stdout@)
                &&& d.branches@.len() == split_on(refs.stdout@, NUL).len() / 3
                &&& forall|k: int| 0 <= k < d.branches@.len() ==> #[trigger] branch_from_fields(
                    d.branches@[k],
                    chunk(split_on(refs.stdout@, NUL), 3, k),
                    current_branch(current.success, current.stdout@),
                )
                &&& (history.success ==> d.commits@.len() == split_on(history.stdout@, NUL).len() / 5)
                &&& (history.success ==> forall|k: int| 0 <= k < d.commits@.len() ==> #[trigger] commit_from_fields(
                    d.commits@[k],
                    chunk(split_on(history.stdout@, NUL), 5, k),
                ))
                &&& (!history.success ==> d.commits@.len() == 0)
            },
            Err(e) => if !history.success && !is_unborn_history(history.stderr@) {
                reports(e, GitStep::LoadHistory, *history)
            } else if !refs.success {
                reports(e, GitStep::LoadBranches, *refs)
            } else {
                !status.success && reports(e, GitStep::LoadStatus, *status)
            },
        },
{
    let commits = match load_history(history) {
        Ok(c) => c,
        Err(e) => return Err(e),
    };
    let branches = match load_branches(current, refs) {
        Ok(b) => b,
        Err(e) => return Err(e),
    };
    let (staged, unstaged) = match load_status(status) {
        Ok(lists) => lists,
        Err(e) => return Err(e),
    };
    Ok(DashboardData { commits, branches, staged, unstaged })
}

} // verus!
