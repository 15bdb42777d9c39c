//! What the library asks of Git, and what it is told in return.
//!
//! The library never touches a repository. A decision that needs Git hands
//! back commands, which are to be carried out in their order, and one query,
//! whose answer is handed in with the next call.

use vstd::prelude::*;
use crate::copier::{op_views, Delta, DeltaView, delta_views, FileOp, FileOpView};
use crate::location::Location;
use crate::oid::Oid;
use crate::text::string_views;

verus! {

/// Something to be done to a repository or to the data directory. Nothing
/// is answered.
#[derive(Clone, Debug, PartialEq, Eq)]
pub enum GitCommand {
    /// Check out `head`, detached and forced, in the working clone of `side`.
    Checkout { side: Location, head: Oid },
    /// Carry out the file operations in the working clone of `side`; the
    /// blobs are read from the bare repository of the other side.
    Apply { side: Location, ops: Vec<FileOp> },
    /// Reset the working clone of `side` hard to `sha`.
    Reset { side: Location, sha: Oid },
    /// Create the empty marker file at `path`.
    CreateMarker { path: String },
    /// Remove the marker file at `path`.
    RemoveMarker { path: String },
    /// Fetch from all remotes into the working clone of `side`.
    FetchAll { side: Location },
}

/// A `GitCommand` as plain values.
pub enum GitCommandView {
    Checkout { side: Location, head: Oid },
    Apply { side: Location, ops: Seq<FileOpView> },
    Reset { side: Location, sha: Oid },
    CreateMarker { path: Seq<char> },
    RemoveMarker { path: Seq<char> },
    FetchAll { side: Location },
}

impl View for GitCommand {
    type V = GitCommandView;

    open spec fn view(&self) -> GitCommandView {
        match self {
            GitCommand::Checkout { side, head } => GitCommandView::Checkout { side: *side, head: *head },
            GitCommand::Apply { side, ops } => GitCommandView::Apply { side: *side, ops: op_views(ops@) },
            GitCommand::Reset { side, sha } => GitCommandView::Reset { side: *side, sha: *sha },
            GitCommand::CreateMarker { path } => GitCommandView::CreateMarker { path: path@ },
            GitCommand::RemoveMarker { path } => GitCommandView::RemoveMarker { path: path@ },
            GitCommand::FetchAll { side } => GitCommandView::FetchAll { side: *side },
        }
    }
}

/// Something to be found out from a repository, or done to it with an
/// outcome that matters.
#[derive(Clone, Debug, PartialEq, Eq)]
pub enum GitQuery {
    /// The parents of the commit, read from the bare repository of `side`.
    /// Answer: `Parents`.
    FindCommit { side: Location, sha: Oid },
    /// Whether `commit` descends from `ancestor`, by the working clone of
    /// `side`. Answer: `Flag`.
    DescendantOf { side: Location, commit: Oid, ancestor: Oid },
    /// The difference from the tree of `base` (the empty tree where there is
    /// none) to the tree of `target`, by the bare repository of `side`.
    /// Answer: `Deltas`.
    Diff { side: Location, base: Option<Oid>, target: Oid },
    /// Stage all files of the working clone of `side` and commit them on
    /// `parents`, with the author, the committer and the message of `like`,
    /// a commit of the other side. Answer: `Created`.
    Commit { side: Location, parents: Vec<Oid>, like: Oid },
    /// The commits of the bare repository of `side` that `tip` reaches and
    /// none of `hide` does, parents before children. Answer: `Commits`.
    RevList { side: Location, hide: Vec<Oid>, tip: Oid },
    /// The heads of the `count` branches of the bare repository of `side`
    /// that were written to last, and the commit that its working clone has
    /// checked out. Answer: `Commits`.
    RecentHeads { side: Location, count: usize },
    /// The commit that the ref names, in the working clone of `side` or in
    /// its bare repository. Answer: `Reference`.
    FindReference { side: Location, working: bool, name: String },
    /// Push the checked-out commit of the working clone of `side` to the ref
    /// of its remote. Answer: `Pushed`.
    Push { side: Location, ref_name: String, force: bool, options: Option<Vec<String>> },
    /// Delete the ref on the remote of the working clone of `side`. Answer:
    /// `Pushed`.
    DeleteRef { side: Location, ref_name: String, options: Option<Vec<String>> },
}

/// A `GitQuery` as plain values.
pub enum GitQueryView {
    FindCommit { side: Location, sha: Oid },
    DescendantOf { side: Location, commit: Oid, ancestor: Oid },
    Diff { side: Location, base: Option<Oid>, target: Oid },
    Commit { side: Location, parents: Seq<Oid>, like: Oid },
    RevList { side: Location, hide: Seq<Oid>, tip: Oid },
    RecentHeads { side: Location, count: usize },
    FindReference { side: Location, working: bool, name: Seq<char> },
    Push { side: Location, ref_name: Seq<char>, force: bool, options: Option<Seq<Seq<char>>> },
    DeleteRef { side: Location, ref_name: Seq<char>, options: Option<Seq<Seq<char>>> },
}

/// The views of a list of push options, where there is one.
pub open spec fn option_views(options: Option<Vec<String>>) -> Option<Seq<Seq<char>>> {
    match options {
        Some(list) => Some(string_views(list@)),
        None => None,
    }
}

impl View for GitQuery {
    type V = GitQueryView;

    open spec fn view(&self) -> GitQueryView {
        match self {
            GitQuery::FindCommit { side, sha } => GitQueryView::FindCommit { side: *side, sha: *sha },
            GitQuery::DescendantOf { side, commit, ancestor } => GitQueryView::DescendantOf {
                side: *side,
                commit: *commit,
                ancestor: *ancestor,
            },
            GitQuery::Diff { side, base, target } => GitQueryView::Diff {
                side: *side,
                base: *base,
                target: *target,
            },
            GitQuery::Commit { side, parents, like } => GitQueryView::Commit {
                side: *side,
                parents: parents@,
                like: *like,
            },
            GitQuery::RevList { side, hide, tip } => GitQueryView::RevList {
                side: *side,
                hide: hide@,
                tip: *tip,
            },
            GitQuery::RecentHeads { side, count } => GitQueryView::RecentHeads {
                side: *side,
                count: *count,
            },
            GitQuery::FindReference { side, working, name } => GitQueryView::FindReference {
                side: *side,
                working: *working,
                name: name@,
            },
            GitQuery::Push { side, ref_name, force, options } => GitQueryView::Push {
                side: *side,
                ref_name: ref_name@,
                force: *force,
                options: option_views(*options),
            },
            GitQuery::DeleteRef { side, ref_name, options } => GitQueryView::DeleteRef {
                side: *side,
                ref_name: ref_name@,
                options: option_views(*options),
            },
        }
    }
}

/// The answer to a query.
#[derive(Clone, Debug, PartialEq, Eq)]
pub enum GitReply {
    Parents(Vec<Oid>),
    Flag(bool),
    Deltas(Vec<Delta>),
    Created(Oid),
    Commits(Vec<Oid>),
    Reference(Option<Oid>),
    /// Whether the remote took the push.
    Pushed(bool),
}

/// A `GitReply` as plain values.
pub enum GitReplyView {
    Parents(Seq<Oid>),
    Flag(bool),
    Deltas(Seq<DeltaView>),
    Created(Oid),
    Commits(Seq<Oid>),
    Reference(Option<Oid>),
    Pushed(bool),
}

impl View for GitReply {
    type V = GitReplyView;

    open spec fn view(&self) -> GitReplyView {
        match self {
            GitReply::Parents(parents) => GitReplyView::Parents(parents@),
            GitReply::Flag(flag) => GitReplyView::Flag(*flag),
            GitReply::Deltas(deltas) => GitReplyView::Deltas(delta_views(deltas@)),
            GitReply::Created(sha) => GitReplyView::Created(*sha),
            GitReply::Commits(commits) => GitReplyView::Commits(commits@),
            GitReply::Reference(target) => GitReplyView::Reference(*target),
            GitReply::Pushed(taken) => GitReplyView::Pushed(*taken),
        }
    }
}

/// The views of a list of commands.
pub open spec fn command_views(commands: Seq<GitCommand>) -> Seq<GitCommandView> {
    Seq::new(commands.len(), |i: int| commands[i]@)
}

} // verus!
