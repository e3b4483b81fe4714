//! The Git commands behind a diff, and what their outputs become.
use vstd::prelude::*;
use vstd::string::StringExecFns;
use vstd::string::StringSliceAdditionalSpecFns;

use crate::bytes::{to_vec, utf8_lossy};
use crate::cli::{arg_views, LaunchTarget, TargetView};
use crate::diff::{parsed, tiles_from, DiffDocument};
use crate::repository::{failure, reports, CommandFailure, GitOutput, GitStep};

verus! {

/// The arguments `a` with the text of `s` appended.
pub(crate) fn push_text(args: &mut Vec<Vec<u8>>, s: &str)
    ensures
        arg_views(final(args)@) == arg_views(old(args)@).push(s.spec_bytes()),
{
    args.push(to_vec(s.as_bytes()));
    proof {
        assert(arg_views(args@) =~= arg_views(old(args)@).push(s.spec_bytes()));
    }
}

/// The arguments `a` with the bytes `b` appended.
pub(crate) fn push_bytes(args: &mut Vec<Vec<u8>>, b: &Vec<u8>)
    ensures
        arg_views(final(args)@) == arg_views(old(args)@).push(b@),
{
    args.push(b.clone());
    proof {
        assert(arg_views(args@) =~= arg_views(old(args)@).push(b@));
    }
}

/// `-- path` when there is a path, nothing otherwise.
pub open spec fn path_suffix(path: Option<Seq<u8>>) -> Seq<Seq<u8>> {
    match path {
        Some(p) => seq!["--".spec_bytes(), p],
        None => Seq::empty(),
    }
}

/// The arguments of the Git command that shows the diff of a target, or
/// nothing for a target that has no diff.
pub open spec fn diff_command(t: TargetView) -> Option<Seq<Seq<u8>>> {
    let pager = seq!["--no-pager".spec_bytes()];
    match t {
        TargetView::WorkingTree { path } => Some(pager + seq![
            "diff".spec_bytes(),
            "--no-color".spec_bytes(),
            "--no-ext-diff".spec_bytes(),
            "--".spec_bytes(),
            path,
        ]),
        TargetView::Staged { path } => Some(pager + seq![
            "diff".spec_bytes(),
            "--cached".spec_bytes(),
            "--no-color".spec_bytes(),
            "--no-ext-diff".spec_bytes(),
            "--".spec_bytes(),
            path,
        ]),
        TargetView::Commit { revision, path } => Some(pager + seq![
            "show".spec_bytes(),
            "--format=fuller".spec_bytes(),
            "--no-color".spec_bytes(),
            "--no-ext-diff".spec_bytes(),
            revision,
        ] + path_suffix(path)),
        TargetView::Show { revision, path } => Some(pager + seq![
            "show".spec_bytes(),
            "--format=fuller".spec_bytes(),
            "--no-color".spec_bytes(),
            "--no-ext-diff".spec_bytes(),
            revision,
        ] + path_suffix(path)),
        TargetView::Compare { left, right, path } => Some(pager + seq![
            "diff".spec_bytes(),
            "--no-color".spec_bytes(),
            "--no-ext-diff".spec_bytes(),
            left,
            right,
        ] + path_suffix(path)),
        _ => None,
    }
}

/// A target has a diff command exactly when the viewer opens it as a diff;
/// the dashboard, history, branches and changes targets have none, so
/// loading a diff for them is refused before any Git command would run.
pub proof fn lemma_diff_only_for_diff_targets(t: TargetView)
    ensures
        diff_command(t) is Some <==> crate::state::opens_diff(t),
{
}

/// Why the diff of a target that shows none cannot be loaded.
pub open spec fn no_diff_message() -> Seq<char> {
    "launch target does not contain a diff"@
}

/// Appends `-- path` when there is a path.
pub(crate) fn push_path(args: &mut Vec<Vec<u8>>, path: &Option<Vec<u8>>)
    ensures
        arg_views(final(args)@) == arg_views(old(args)@) + path_suffix(crate::cli::opt_view(*path)),
{
    match path {
        Some(p) => {
            push_text(args, "--");
            push_bytes(args, p);
        },
        None => {
            assert(arg_views(args@) =~= arg_views(args@) + Seq::<Seq<u8>>::empty());
        },
    }
}

/// The first step of loading the diff of a target: the arguments of the Git
/// command that shows it, or, for a target the viewer does not open as a
/// diff, why there is none, and then no Git command is to run.
pub fn diff_request(target: &LaunchTarget) -> (r: Result<Vec<Vec<u8>>, String>)
    ensures
        match r {
            Ok(a) => diff_command(target@) == Some(arg_views(a@)) && crate::state::opens_diff(target@),
            Err(m) => diff_command(target@) is None && !crate::state::opens_diff(target@) && m@ == no_diff_message(),
        },
{
    proof {
        lemma_diff_only_for_diff_targets(target@);
    }
    match diff_arguments(target) {
        Some(a) => Ok(a),
        None => Err(String::from_str("launch target does not contain a diff")),
    }
}

/// The arguments of the Git command that shows the diff of `target`, or
/// `None` when the target has no diff.
pub fn diff_arguments(target: &LaunchTarget) -> (r: Option<Vec<Vec<u8>>>)
    ensures
        match r {
            Some(a) => diff_command(target@) == Some(arg_views(a@)),
            None => diff_command(target@) is None,
        },
{
    let mut args: Vec<Vec<u8>> = Vec::new();
    push_text(&mut args, "--no-pager");
    match target {
        LaunchTarget::WorkingTree { path } => {
            push_text(&mut args, "diff");
            push_text(&mut args, "--no-color");
            push_text(&mut args, "--no-ext-diff");
            push_text(&mut args, "--");
            push_bytes(&mut args, path);
        },
        LaunchTarget::Staged { path } => {
            push_text(&mut args, "diff");
            push_text(&mut args, "--cached");
            push_text(&mut args, "--no-color");
            push_text(&mut args, "--no-ext-diff");
            push_text(&mut args, "--");
            push_bytes(&mut args, path);
        },
        LaunchTarget::Commit { revision, path } | LaunchTarget::Show { revision, path } => {
            push_text(&mut args, "show");
            push_text(&mut args, "--format=fuller");
            push_text(&mut args, "--no-color");
            push_text(&mut args, "--no-ext-diff");
            push_bytes(&mut args, revision);
            push_path(&mut args, path);
        },
        LaunchTarget::Compare { left, right, path } => {
            push_text(&mut args, "diff");
            push_text(&mut args, "--no-color");
            push_text(&mut args, "--no-ext-diff");
            push_bytes(&mut args, left);
            push_bytes(&mut args, right);
            push_path(&mut args, path);
        },
        _ => {
            return None;
        },
    }
    proof {
        assert(diff_command(target@) == Some(arg_views(args@)));
    }
    Some(args)
}

/// The path of a working-tree diff that succeeded with no output at all:
/// such a path may be an untracked file, which a plain diff does not show.
pub open spec fn maybe_untracked(t: TargetView, success: bool, stdout: Seq<u8>) -> Option<Seq<u8>> {
    match t {
        TargetView::WorkingTree { path } => if success && stdout.len() == 0 {
            Some(path)
        } else {
            None
        },
        _ => None,
    }
}

/// The path to check for being untracked after the first diff command, if
/// any.
pub fn untracked_candidate(target: &LaunchTarget, output: &GitOutput) -> (r: Option<Vec<u8>>)
    ensures
        crate::cli::opt_view(r) == maybe_untracked(target@, output.success, output.stdout@),
{
    match target {
        LaunchTarget::WorkingTree { path } => if output.success && output.stdout.len() == 0 {
            Some(path.clone())
        } else {
            None
        },
        _ => None,
    }
}

/// The arguments of `git ls-files --error-unmatch -- path`, which succeeds
/// exactly when the path is tracked.
pub fn tracked_check_arguments(path: &Vec<u8>) -> (r: Vec<Vec<u8>>)
    ensures
        arg_views(r@) == seq![
            "ls-files".spec_bytes(),
            "--error-unmatch".spec_bytes(),
            "--".spec_bytes(),
            path@,
        ],
{
    let mut args: Vec<Vec<u8>> = Vec::new();
    push_text(&mut args, "ls-files");
    push_text(&mut args, "--error-unmatch");
    push_text(&mut args, "--");
    push_bytes(&mut args, path);
    args
}

/// The arguments of the diff that shows an untracked file as new: a diff
/// between `null_device` and the file outside the index.
pub fn new_file_arguments(null_device: &str, path: &Vec<u8>) -> (r: Vec<Vec<u8>>)
    ensures
        arg_views(r@) == seq![
            "--no-pager".spec_bytes(),
            "diff".spec_bytes(),
            "--no-index".spec_bytes(),
            "--no-color".spec_bytes(),
            "--no-ext-diff".spec_bytes(),
            "--".spec_bytes(),
            null_device.spec_bytes(),
            path@,
        ],
{
    let mut args: Vec<Vec<u8>> = Vec::new();
    push_text(&mut args, "--no-pager");
    push_text(&mut args, "diff");
    push_text(&mut args, "--no-index");
    push_text(&mut args, "--no-color");
    push_text(&mut args, "--no-ext-diff");
    push_text(&mut args, "--");
    push_text(&mut args, null_device);
    push_bytes(&mut args, path);
    args
}

/// Whether the last diff command's output is a diff: it succeeded, or it is
/// the no-index diff of a working-tree target, which exits with code 1 when
/// the files differ.
pub open spec fn diff_accepted(t: TargetView, success: bool, code: Option<i32>) -> bool {
    success || (t is WorkingTree && code == Some(1i32))
}

/// The document of the last diff command's output, or its failure.
pub fn diff_document(target: &LaunchTarget, output: GitOutput) -> (r: Result<DiffDocument, CommandFailure>)
    ensures
        match r {
            Ok(d) => {
                &&& diff_accepted(target@, output.success, output.code)
                &&& d.text@ == utf8_lossy(output.stdout@)
                &&& d.lines@ == parsed(d.text_bytes()).lines
                &&& crate::diff::file_views(d.files@) == parsed(d.text_bytes()).files
                &&& tiles_from(d.text_bytes(), d.lines@, 0)
                &&& d.well_formed()
                &&& d.files_indexed()
            },
            Err(e) => !diff_accepted(target@, output.success, output.code) && reports(
                e,
                GitStep::Diff,
                output,
            ),
        },
{
    let allowed = match target {
        LaunchTarget::WorkingTree { .. } => match output.code {
            Some(c) => c == 1,
            None => false,
        },
        _ => false,
    };
    if !output.success && !allowed {
        return Err(failure(GitStep::Diff, &output));
    }
    Ok(DiffDocument::parse(output.stdout))
}

/// The revisions whose resolved commits identify the diff of a target, so
/// that it can be cached: those of a commit, a `show` or a comparison; none
/// for other targets, whose diffs change with the working tree.
pub open spec fn cache_revisions(t: TargetView) -> Option<Seq<Seq<u8>>> {
    match t {
        TargetView::Commit { revision, .. } => Some(seq![revision]),
        TargetView::Show { revision, .. } => Some(seq![revision]),
        TargetView::Compare { left, right, .. } => Some(seq![left, right]),
        _ => None,
    }
}

/// The revisions that key the cached diff of a target.
pub fn cached_revisions(target: &LaunchTarget) -> (r: Option<Vec<Vec<u8>>>)
    ensures
        match r {
            Some(v) => cache_revisions(target@) == Some(arg_views(v@)),
            None => cache_revisions(target@) is None,
        },
{
    let mut v: Vec<Vec<u8>> = Vec::new();
    match target {
        LaunchTarget::Commit { revision, .. } | LaunchTarget::Show { revision, .. } => {
            push_bytes(&mut v, revision);
        },
        LaunchTarget::Compare { left, right, .. } => {
            push_bytes(&mut v, left);
            push_bytes(&mut v, right);
        },
        _ => return None,
    }
    proof {
        assert(arg_views(v@) =~= cache_revisions(target@).unwrap());
    }
    Some(v)
}

/// The arguments of the `git rev-parse` that resolves a revision.
pub open spec fn resolve_command(revision: Seq<u8>) -> Seq<Seq<u8>> {
    seq!["rev-parse".spec_bytes(), "--verify".spec_bytes(), "--end-of-options".spec_bytes(), revision]
}

/// The arguments that resolve a revision.
pub fn resolve_arguments(revision: &Vec<u8>) -> (r: Vec<Vec<u8>>)
    ensures
        arg_views(r@) == resolve_command(revision@),
{
    let mut args: Vec<Vec<u8>> = Vec::new();
    push_text(&mut args, "rev-parse");
    push_text(&mut args, "--verify");
    push_text(&mut args, "--end-of-options");
    push_bytes(&mut args, revision);
    proof {
        assert(arg_views(args@) =~= resolve_command(revision@));
    }
    args
}

/// The arguments of the `git rev-parse` that checks that a revision names a
/// commit.
pub open spec fn commit_check_command(revision: Seq<u8>) -> Seq<Seq<u8>> {
    seq![
        "rev-parse".spec_bytes(),
        "--verify".spec_bytes(),
        "--quiet".spec_bytes(),
        "--end-of-options".spec_bytes(),
        revision + "^{commit}".spec_bytes(),
    ]
}

/// The arguments that check that a revision names a commit.
pub fn commit_check_arguments(revision: &Vec<u8>) -> (r: Vec<Vec<u8>>)
    ensures
        arg_views(r@) == commit_check_command(revision@),
{
    let mut args: Vec<Vec<u8>> = Vec::new();
    push_text(&mut args, "rev-parse");
    push_text(&mut args, "--verify");
    push_text(&mut args, "--quiet");
    push_text(&mut args, "--end-of-options");
    let mut commit = to_vec(revision.as_slice());
    crate::path::extend_from(&mut commit, "^{commit}".as_bytes());
    assert(commit@ == revision@ + "^{commit}".spec_bytes());
    let ghost before = args@;
    args.push(commit);
    proof {
        assert(arg_views(args@) =~= arg_views(before).push(revision@ + "^{commit}".spec_bytes()));
        assert(arg_views(args@) =~= commit_check_command(revision@));
    }
    args
}

} // verus!
