//! The messages exchanged with the threads that run Git and the highlighter.
use vstd::prelude::*;

use crate::cli::{opt_view, LaunchTarget, TargetView};
use crate::dashboard::{ChangeEntry, DashboardData};
use crate::diff::DiffDocument;
use crate::highlight::HighlightedDiff;

verus! {

/// A Git command for the worker, with the id its response will carry. The
/// dashboard and the files of a commit are limited to the history path, if
/// any.
#[derive(Debug)]
pub enum GitCommand {
    Dashboard { request_id: u64, history_path: Option<Vec<u8>> },
    Diff { request_id: u64, target: LaunchTarget },
    CommitFiles { request_id: u64, revision: Vec<u8>, path: Option<Vec<u8>> },
    DiscardWorkingTree { request_id: u64 },
}

/// A Git command with its paths and revisions as byte sequences.
pub enum CommandView {
    Dashboard(u64, Option<Seq<u8>>),
    Diff(u64, TargetView),
    CommitFiles(u64, Seq<u8>, Option<Seq<u8>>),
    DiscardWorkingTree(u64),
}

impl View for GitCommand {
    type V = CommandView;

    open spec fn view(&self) -> CommandView {
        match self {
            GitCommand::Dashboard { request_id, history_path } => CommandView::Dashboard(*request_id, opt_view(*history_path)),
            GitCommand::Diff { request_id, target } => CommandView::Diff(*request_id, target@),
            GitCommand::CommitFiles { request_id, revision, path } => CommandView::CommitFiles(
                *request_id,
                revision@,
                opt_view(*path),
            ),
            GitCommand::DiscardWorkingTree { request_id } => CommandView::DiscardWorkingTree(*request_id),
        }
    }
}

/// The view of an optional command.
pub open spec fn command_view(r: Option<GitCommand>) -> Option<CommandView> {
    match r {
        Some(x) => Some(x@),
        None => None,
    }
}

/// What a Git command answered.
#[derive(Debug)]
pub enum GitPayload {
    Dashboard(DashboardData),
    Diff(DiffDocument),
    CommitFiles { revision: Vec<u8>, files: Vec<ChangeEntry> },
    DiscardedWorkingTree,
}

/// The answer to a Git command, or why it failed.
#[derive(Debug)]
pub struct GitResponse {
    pub request_id: u64,
    pub result: Result<GitPayload, String>,
}

/// A document to highlight.
#[derive(Debug)]
pub struct HighlightCommand {
    pub request_id: u64,
    pub document: DiffDocument,
}

/// The highlighting of a document, or why there is none.
#[derive(Debug)]
pub struct HighlightResponse {
    pub request_id: u64,
    pub result: Result<HighlightedDiff, String>,
}

} // verus!
