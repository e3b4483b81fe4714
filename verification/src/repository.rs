//! A working tree, and what its Git commands report.
use vstd::prelude::*;

use crate::dashboard::{trim_ascii, trimmed_line_end};
use crate::path::{
    append_joined, byte_views, component_views, components, components_of, inside, is_inside, join, joined, join_names,
    normalize, normalized, Component, SpecComponent, DOT,
};

verus! {

/// What a finished Git process left behind.
#[derive(Debug, Clone)]
pub struct GitOutput {
    /// Whether it exited successfully.
    pub success: bool,
    /// Its exit code, when it exited with one.
    pub code: Option<i32>,
    pub stdout: Vec<u8>,
    pub stderr: Vec<u8>,
}

/// The step of the work that a Git command served.
#[derive(Debug, Clone, Copy, PartialEq, Eq, Structural)]
pub enum GitStep {
    LoadHistory,
    LoadBranches,
    LoadStatus,
    LoadCommitFiles,
    ResolveGitDir,
    Diff,
    DiscardWorkingTree,
}

impl GitStep {
    /// How the step is named in an error message.
    pub fn action(&self) -> (m: &'static str)
        ensures
            m@ == match self {
                GitStep::LoadHistory => "load commit history"@,
                GitStep::LoadBranches => "load branches"@,
                GitStep::LoadStatus => "load working tree status"@,
                GitStep::LoadCommitFiles => "load commit files"@,
                GitStep::ResolveGitDir => "resolve Git directory"@,
                GitStep::Diff => "git diff failed"@,
                GitStep::DiscardWorkingTree => "discard working-tree changes"@,
            },
    {
        match self {
            GitStep::LoadHistory => "load commit history",
            GitStep::LoadBranches => "load branches",
            GitStep::LoadStatus => "load working tree status",
            GitStep::LoadCommitFiles => "load commit files",
            GitStep::ResolveGitDir => "resolve Git directory",
            GitStep::Diff => "git diff failed",
            GitStep::DiscardWorkingTree => "discard working-tree changes",
        }
    }
}

/// A Git command that failed: the step it served and its error output.
#[derive(Debug, Clone)]
pub struct CommandFailure {
    pub step: GitStep,
    pub stderr: Vec<u8>,
}

/// Whether `e` reports the failure of `output` during `step`.
pub open spec fn reports(e: CommandFailure, step: GitStep, output: GitOutput) -> bool {
    e.step == step && e.stderr@ == output.stderr@
}

/// The failure of a command's output during a step.
pub fn failure(step: GitStep, output: &GitOutput) -> (e: CommandFailure)
    ensures
        reports(e, step, *output),
{
    CommandFailure { step, stderr: output.stderr.clone() }
}

/// A Git working tree, by the path of its root.
/// Why a path given on the command line is no file path of the working tree.
#[derive(Debug, Clone, Copy, PartialEq, Eq, Structural)]
pub enum PathError {
    /// The path lies outside the working tree.
    OutsideRepository,
    /// The path is the working tree itself.
    RepositoryRoot,
}

impl PathError {
    /// What went wrong, in words.
    pub fn message(&self) -> (m: &'static str)
        ensures
            m@.len() > 0,
    {
        match self {
            PathError::OutsideRepository => {
                proof {
                    reveal_strlit("the path is outside the repository");
                }
                "the path is outside the repository"
            },
            PathError::RepositoryRoot => {
                proof {
                    reveal_strlit("a file path is required; the repository root is not a file");
                }
                "a file path is required; the repository root is not a file"
            },
        }
    }
}

/// The bytes a component stands for when a path is written out again.
pub open spec fn component_text(c: SpecComponent) -> Seq<u8> {
    match c {
        SpecComponent::RootDir => Seq::empty(),
        SpecComponent::CurDir => seq![DOT],
        SpecComponent::ParentDir => seq![DOT, DOT],
        SpecComponent::Normal(name) => name,
    }
}

/// The texts of a run of components.
pub open spec fn component_texts(cs: Seq<SpecComponent>) -> Seq<Seq<u8>> {
    cs.map_values(|c: SpecComponent| component_text(c))
}

/// `path` relative to `root`, compared component by component: the
/// components of `path` after those of `root`, joined by separators. It is
/// an error when `path` does not lie under `root` or is `root` itself.
pub open spec fn relative_to(path: Seq<u8>, root: Seq<u8>) -> Result<Seq<u8>, PathError> {
    let rest = components(path).skip(components(root).len() as int);
    if !inside(path, root) {
        Err(PathError::OutsideRepository)
    } else if rest.len() == 0 {
        Err(PathError::RepositoryRoot)
    } else {
        Ok(join_names(component_texts(rest)))
    }
}

/// The text of a component.
fn text_of(c: &Component) -> (r: Vec<u8>)
    ensures
        r@ == component_text(c@),
{
    match c {
        Component::RootDir => Vec::new(),
        Component::CurDir => vec![DOT],
        Component::ParentDir => vec![DOT, DOT],
        Component::Normal(name) => name.clone(),
    }
}

/// A working tree, by its root directory.
#[derive(Debug, Clone)]
pub struct Repository {
    pub root: Vec<u8>,
}

impl Repository {
    /// A path given on the command line as a path of the working tree: it
    /// is taken relative to `base` unless it is absolute, normalized
    /// lexically, and written relative to the root.
    pub fn relative_path(&self, path: &[u8], base: &[u8]) -> (r: Result<Vec<u8>, PathError>)
        ensures
            match r {
                Ok(p) => relative_to(normalized(joined(base@, path@)), self.root@) == Ok::<Seq<u8>, PathError>(p@),
                Err(e) => relative_to(normalized(joined(base@, path@)), self.root@) == Err::<Seq<u8>, PathError>(e),
            },
    {
        let absolute = normalize(&join(base, path));
        if !is_inside(&absolute, &self.root) {
            return Err(PathError::OutsideRepository);
        }
        let cp = components_of(&absolute);
        let cq = components_of(&self.root);
        let ghost rest = components(absolute@).skip(components(self.root@).len() as int);
        if cp.len() == cq.len() {
            proof {
                assert(rest.len() == 0);
            }
            return Err(PathError::RepositoryRoot);
        }
        let start = cq.len();
        let mut names: Vec<Vec<u8>> = Vec::new();
        let mut i = start;
        while i < cp.len()
            invariant
                start <= i <= cp@.len(),
                start == components(self.root@).len(),
                component_views(cp@) == components(absolute@),
                byte_views(names@) == component_texts(component_views(cp@).subrange(start as int, i as int)),
            decreases cp.len() - i,
        {
            let t = text_of(&cp[i]);
            let ghost before = names@;
            names.push(t);
            i = i + 1;
            proof {
                assert(byte_views(names@) =~= byte_views(before).push(t@));
                assert(component_views(cp@).subrange(start as int, i as int) =~= component_views(cp@).subrange(
                    start as int,
                    i - 1,
                ).push(cp@[i - 1]@));
                assert(component_texts(component_views(cp@).subrange(start as int, i as int)) =~= component_texts(
                    component_views(cp@).subrange(start as int, i - 1),
                ).push(t@));
            }
        }
        proof {
            assert(component_views(cp@).subrange(start as int, cp@.len() as int) =~= rest);
        }
        let mut out: Vec<u8> = Vec::new();
        append_joined(&mut out, &names);
        proof {
            assert(out@ =~= join_names(byte_views(names@)));
        }
        Ok(out)
    }
    /// The Git directory that `git rev-parse --absolute-git-dir` printed: its
    /// output without the line end, or the failure when it did not succeed.
    pub fn git_dir(&self, output: &GitOutput) -> (r: Result<Vec<u8>, CommandFailure>)
        ensures
            match r {
                Ok(p) => output.success && p@ == trimmed_line_end(output.stdout@),
                Err(e) => !output.success && reports(e, GitStep::ResolveGitDir, *output),
            },
    {
        if !output.success {
            return Err(failure(GitStep::ResolveGitDir, output));
        }
        Ok(trim_ascii(output.stdout.as_slice()))
    }
}

} // verus!
