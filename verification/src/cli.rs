//! What the command line asks to open.
use vstd::prelude::*;

verus! {

/// The arguments of `raccoon diff`.
#[derive(Debug)]
pub struct DiffArgs {
    /// Compare the index with HEAD.
    pub staged: bool,
    /// Show the change introduced by this revision.
    pub commit: Option<Vec<u8>>,
    /// A path, two revisions, or two revisions and a path.
    pub args: Vec<Vec<u8>>,
}

/// A revision and an optional path.
#[derive(Debug)]
pub struct RevisionArgs {
    pub revision: Vec<u8>,
    pub path: Option<Vec<u8>>,
}

/// An optional path.
#[derive(Debug)]
pub struct OptionalPathArgs {
    pub path: Option<Vec<u8>>,
}

/// The subcommands.
#[derive(Debug)]
pub enum Command {
    /// A working-tree, staged, commit, or revision-comparison diff.
    Diff(DiffArgs),
    /// A revision and its diff.
    Show(RevisionArgs),
    /// The commit history, optionally of one path.
    History(OptionalPathArgs),
    /// The dashboard with the branch panel focused.
    Branches,
    /// The dashboard with the uncommitted changes focused.
    Changes,
}

/// The whole command line.
#[derive(Debug)]
pub struct Cli {
    /// The repository or a path inside it.
    pub repo: Option<Vec<u8>>,
    pub command: Option<Command>,
}

/// What the viewer opens on.
#[derive(Debug, Clone, PartialEq, Eq, Hash)]
pub enum LaunchTarget {
    Dashboard,
    WorkingTree { path: Vec<u8> },
    Staged { path: Vec<u8> },
    Commit { revision: Vec<u8>, path: Option<Vec<u8>> },
    Compare { left: Vec<u8>, right: Vec<u8>, path: Option<Vec<u8>> },
    Show { revision: Vec<u8>, path: Option<Vec<u8>> },
    History { path: Option<Vec<u8>> },
    Branches,
    Changes,
}

/// A launch target with its paths and revisions as byte sequences.
pub enum TargetView {
    Dashboard,
    WorkingTree { path: Seq<u8> },
    Staged { path: Seq<u8> },
    Commit { revision: Seq<u8>, path: Option<Seq<u8>> },
    Compare { left: Seq<u8>, right: Seq<u8>, path: Option<Seq<u8>> },
    Show { revision: Seq<u8>, path: Option<Seq<u8>> },
    History { path: Option<Seq<u8>> },
    Branches,
    Changes,
}

/// The view of an optional byte string.
pub open spec fn opt_view(o: Option<Vec<u8>>) -> Option<Seq<u8>> {
    match o {
        Some(v) => Some(v@),
        None => None,
    }
}

impl View for LaunchTarget {
    type V = TargetView;

    open spec fn view(&self) -> TargetView {
        match self {
            LaunchTarget::Dashboard => TargetView::Dashboard,
            LaunchTarget::WorkingTree { path } => TargetView::WorkingTree { path: path@ },
            LaunchTarget::Staged { path } => TargetView::Staged { path: path@ },
            LaunchTarget::Commit { revision, path } => TargetView::Commit {
                revision: revision@,
                path: opt_view(*path),
            },
            LaunchTarget::Compare { left, right, path } => TargetView::Compare {
                left: left@,
                right: right@,
                path: opt_view(*path),
            },
            LaunchTarget::Show { revision, path } => TargetView::Show {
                revision: revision@,
                path: opt_view(*path),
            },
            LaunchTarget::History { path } => TargetView::History { path: opt_view(*path) },
            LaunchTarget::Branches => TargetView::Branches,
            LaunchTarget::Changes => TargetView::Changes,
        }
    }
}

/// Why `raccoon diff` arguments name nothing to open.
#[derive(Debug, Clone, Copy, PartialEq, Eq, Structural)]
pub enum LaunchError {
    /// `--commit` was given with more than one path.
    CommitTakesOnePath,
    /// `--staged` was given without exactly one path.
    StagedNeedsOnePath,
    /// Neither a path, `--commit`, nor two revisions were given.
    NothingToDiff,
}

impl LaunchError {
    /// The message shown for the error.
    pub fn message(&self) -> (m: &'static str)
        ensures
            m@ == match self {
                LaunchError::CommitTakesOnePath => "--commit accepts at most one path"@,
                LaunchError::StagedNeedsOnePath => "--staged requires exactly one path"@,
                LaunchError::NothingToDiff => "diff requires a path, --commit REV, or two revisions"@,
            },
    {
        match self {
            LaunchError::CommitTakesOnePath => "--commit accepts at most one path",
            LaunchError::StagedNeedsOnePath => "--staged requires exactly one path",
            LaunchError::NothingToDiff => "diff requires a path, --commit REV, or two revisions",
        }
    }
}

/// The byte views of a list of arguments.
pub open spec fn arg_views(args: Seq<Vec<u8>>) -> Seq<Seq<u8>> {
    args.map_values(|a: Vec<u8>| a@)
}

/// Whether diff arguments stay within what the command line accepts: at most
/// three positional arguments.
pub open spec fn diff_args_in_range(staged: bool, commit: Option<Seq<u8>>, args: Seq<Seq<u8>>) -> bool {
    commit is Some || staged || args.len() <= 3
}

/// What `raccoon diff` opens. `--commit` takes at most one path and wins over
/// `--staged`; `--staged` takes exactly one path; otherwise one argument is a
/// working-tree path, two are revisions to compare, and three are two
/// revisions and a path.
pub open spec fn diff_target(staged: bool, commit: Option<Seq<u8>>, args: Seq<Seq<u8>>) -> Result<TargetView, LaunchError> {
    match commit {
        Some(revision) => if args.len() > 1 {
            Err(LaunchError::CommitTakesOnePath)
        } else {
            Ok(TargetView::Commit {
                revision,
                path: if args.len() == 1 { Some(args[0]) } else { None },
            })
        },
        None => if staged {
            if args.len() != 1 {
                Err(LaunchError::StagedNeedsOnePath)
            } else {
                Ok(TargetView::Staged { path: args[0] })
            }
        } else if args.len() == 0 {
            Err(LaunchError::NothingToDiff)
        } else if args.len() == 1 {
            Ok(TargetView::WorkingTree { path: args[0] })
        } else if args.len() == 2 {
            Ok(TargetView::Compare { left: args[0], right: args[1], path: None })
        } else {
            Ok(TargetView::Compare { left: args[0], right: args[1], path: Some(args[2]) })
        },
    }
}

/// The view of a launch result.
pub open spec fn result_view(r: Result<LaunchTarget, LaunchError>) -> Result<TargetView, LaunchError> {
    match r {
        Ok(t) => Ok(t@),
        Err(e) => Err(e),
    }
}

/// A copy of a byte string.
fn copy_bytes(v: &Vec<u8>) -> (r: Vec<u8>)
    ensures
        r@ == v@,
{
    v.clone()
}

impl DiffArgs {
    /// Whether the arguments are within what the command line accepts.
    pub open spec fn in_range(&self) -> bool {
        diff_args_in_range(self.staged, opt_view(self.commit), arg_views(self.args@))
    }

    /// What these diff arguments open.
    pub fn launch_target(self) -> (r: Result<LaunchTarget, LaunchError>)
        requires
            self.in_range(),
        ensures
            result_view(r) == diff_target(self.staged, opt_view(self.commit), arg_views(self.args@)),
            // `--commit REV` opens that commit, with the one path if given;
            // only two or more paths are refused.
            self.commit is Some ==> ((r is Ok) <==> self.args@.len() <= 1),
            self.commit is Some && self.args@.len() >= 2 ==> r == Err::<LaunchTarget, LaunchError>(
                LaunchError::CommitTakesOnePath,
            ),
            self.commit is Some && self.args@.len() <= 1 ==> (r matches Ok(LaunchTarget::Commit { revision, path })
                && revision@ == self.commit->Some_0@ && opt_view(path) == (if self.args@.len() == 1 {
                Some(self.args@[0]@)
            } else {
                None
            })),
            // `--staged` alone needs exactly one path, the staged file.
            self.commit is None && self.staged ==> ((r is Ok) <==> self.args@.len() == 1),
            self.commit is None && self.staged && self.args@.len() == 1 ==> (r matches Ok(LaunchTarget::Staged { path })
                && path@ == self.args@[0]@),
            // Otherwise one path is a working-tree file, two revisions are
            // compared, and nothing at all is refused.
            self.commit is None && !self.staged && self.args@.len() == 0 ==> r == Err::<LaunchTarget, LaunchError>(
                LaunchError::NothingToDiff,
            ),
            self.commit is None && !self.staged && self.args@.len() == 1 ==> (r matches Ok(
                LaunchTarget::WorkingTree { path },
            ) && path@ == self.args@[0]@),
            self.commit is None && !self.staged && self.args@.len() == 2 ==> (r matches Ok(
                LaunchTarget::Compare { left, right, path },
            ) && left@ == self.args@[0]@ && right@ == self.args@[1]@ && path is None),
    {
        let ghost args = arg_views(self.args@);
        let n = self.args.len();
        if let Some(revision) = self.commit {
            if n > 1 {
                return Err(LaunchError::CommitTakesOnePath);
            }
            let path = if n == 1 {
                Some(copy_bytes(&self.args[0]))
            } else {
                None
            };
            return Ok(LaunchTarget::Commit { revision, path });
        }
        if self.staged {
            if n != 1 {
                return Err(LaunchError::StagedNeedsOnePath);
            }
            return Ok(LaunchTarget::Staged { path: copy_bytes(&self.args[0]) });
        }
        if n == 0 {
            Err(LaunchError::NothingToDiff)
        } else if n == 1 {
            Ok(LaunchTarget::WorkingTree { path: copy_bytes(&self.args[0]) })
        } else if n == 2 {
            Ok(LaunchTarget::Compare {
                left: copy_bytes(&self.args[0]),
                right: copy_bytes(&self.args[1]),
                path: None,
            })
        } else {
            Ok(LaunchTarget::Compare {
                left: copy_bytes(&self.args[0]),
                right: copy_bytes(&self.args[1]),
                path: Some(copy_bytes(&self.args[2])),
            })
        }
    }
}

/// What a command line without `--repo` details opens.
pub open spec fn cli_target(command: Option<Command>) -> Result<TargetView, LaunchError> {
    match command {
        None => Ok(TargetView::Dashboard),
        Some(Command::Diff(a)) => diff_target(a.staged, opt_view(a.commit), arg_views(a.args@)),
        Some(Command::Show(a)) => Ok(TargetView::Show { revision: a.revision@, path: opt_view(a.path) }),
        Some(Command::History(a)) => Ok(TargetView::History { path: opt_view(a.path) }),
        Some(Command::Branches) => Ok(TargetView::Branches),
        Some(Command::Changes) => Ok(TargetView::Changes),
    }
}

impl Cli {
    /// Whether the diff arguments, if any, are within what the command line
    /// accepts.
    pub open spec fn in_range(&self) -> bool {
        match self.command {
            Some(Command::Diff(a)) => a.in_range(),
            _ => true,
        }
    }

    /// What the command line opens: the dashboard without a subcommand.
    pub fn launch_target(self) -> (r: Result<LaunchTarget, LaunchError>)
        requires
            self.in_range(),
        ensures
            result_view(r) == cli_target(self.command),
    {
        match self.command {
            None => Ok(LaunchTarget::Dashboard),
            Some(Command::Diff(args)) => args.launch_target(),
            Some(Command::Show(args)) => Ok(LaunchTarget::Show { revision: args.revision, path: args.path }),
            Some(Command::History(args)) => Ok(LaunchTarget::History { path: args.path }),
            Some(Command::Branches) => Ok(LaunchTarget::Branches),
            Some(Command::Changes) => Ok(LaunchTarget::Changes),
        }
    }
}

/// A copy of an optional byte string.
pub(crate) fn copy_opt(o: &Option<Vec<u8>>) -> (r: Option<Vec<u8>>)
    ensures
        opt_view(r) == opt_view(*o),
{
    match o {
        Some(v) => Some(v.clone()),
        None => None,
    }
}

/// The revisions a target names, in order, which must name commits.
pub open spec fn target_revisions(t: TargetView) -> Seq<Seq<u8>> {
    match t {
        TargetView::Commit { revision, .. } => seq![revision],
        TargetView::Show { revision, .. } => seq![revision],
        TargetView::Compare { left, right, .. } => seq![left, right],
        _ => Seq::empty(),
    }
}

/// The file path a target names, if any.
pub open spec fn target_path(t: TargetView) -> Option<Seq<u8>> {
    match t {
        TargetView::WorkingTree { path } => Some(path),
        TargetView::Staged { path } => Some(path),
        TargetView::Commit { path, .. } => path,
        TargetView::Compare { path, .. } => path,
        TargetView::Show { path, .. } => path,
        TargetView::History { path } => path,
        _ => None,
    }
}

/// A target with its file path replaced.
pub open spec fn target_with_path(t: TargetView, p: Seq<u8>) -> TargetView {
    match t {
        TargetView::WorkingTree { .. } => TargetView::WorkingTree { path: p },
        TargetView::Staged { .. } => TargetView::Staged { path: p },
        TargetView::Commit { revision, .. } => TargetView::Commit { revision, path: Some(p) },
        TargetView::Compare { left, right, .. } => TargetView::Compare { left, right, path: Some(p) },
        TargetView::Show { revision, .. } => TargetView::Show { revision, path: Some(p) },
        TargetView::History { .. } => TargetView::History { path: Some(p) },
        _ => t,
    }
}

impl LaunchTarget {
    /// The revisions the target names, which must name commits.
    pub fn revisions(&self) -> (r: Vec<Vec<u8>>)
        ensures
            arg_views(r@) == target_revisions(self@),
    {
        let mut r: Vec<Vec<u8>> = Vec::new();
        match self {
            LaunchTarget::Commit { revision, .. } | LaunchTarget::Show { revision, .. } => {
                r.push(copy_bytes(revision));
            },
            LaunchTarget::Compare { left, right, .. } => {
                r.push(copy_bytes(left));
                r.push(copy_bytes(right));
            },
            _ => {},
        }
        proof {
            assert(arg_views(r@) =~= target_revisions(self@));
        }
        r
    }

    /// The file path the target names, if any.
    pub fn path(&self) -> (r: Option<Vec<u8>>)
        ensures
            opt_view(r) == target_path(self@),
    {
        match self {
            LaunchTarget::WorkingTree { path } | LaunchTarget::Staged { path } => Some(copy_bytes(path)),
            LaunchTarget::Commit { path, .. } | LaunchTarget::Compare { path, .. } | LaunchTarget::Show { path, .. }
            | LaunchTarget::History { path } => copy_opt(path),
            _ => None,
        }
    }

    /// The target with its file path replaced.
    pub fn with_path(self, path: Vec<u8>) -> (r: LaunchTarget)
        ensures
            r@ == target_with_path(self@, path@),
    {
        match self {
            LaunchTarget::WorkingTree { .. } => LaunchTarget::WorkingTree { path },
            LaunchTarget::Staged { .. } => LaunchTarget::Staged { path },
            LaunchTarget::Commit { revision, .. } => LaunchTarget::Commit { revision, path: Some(path) },
            LaunchTarget::Compare { left, right, .. } => LaunchTarget::Compare { left, right, path: Some(path) },
            LaunchTarget::Show { revision, .. } => LaunchTarget::Show { revision, path: Some(path) },
            LaunchTarget::History { .. } => LaunchTarget::History { path: Some(path) },
            other => other,
        }
    }

    /// A copy of the target.
    pub fn copy(&self) -> (r: LaunchTarget)
        ensures
            r@ == self@,
    {
        match self {
            LaunchTarget::Dashboard => LaunchTarget::Dashboard,
            LaunchTarget::WorkingTree { path } => LaunchTarget::WorkingTree { path: path.clone() },
            LaunchTarget::Staged { path } => LaunchTarget::Staged { path: path.clone() },
            LaunchTarget::Commit { revision, path } => LaunchTarget::Commit { revision: revision.clone(), path: copy_opt(path) },
            LaunchTarget::Compare { left, right, path } => LaunchTarget::Compare {
                left: left.clone(),
                right: right.clone(),
                path: copy_opt(path),
            },
            LaunchTarget::Show { revision, path } => LaunchTarget::Show { revision: revision.clone(), path: copy_opt(path) },
            LaunchTarget::History { path } => LaunchTarget::History { path: copy_opt(path) },
            LaunchTarget::Branches => LaunchTarget::Branches,
            LaunchTarget::Changes => LaunchTarget::Changes,
        }
    }
}

} // verus!
