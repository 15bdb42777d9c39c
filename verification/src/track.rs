//! What the copy of a commit comes to, said in one piece: given what Git
//! answers, the commit that stands for a source commit on the destination.
//! A run that is answered faithfully records exactly that commit.

use vstd::prelude::*;
use crate::copier::{
    all_mapped, anchor_ref, commit_needed, diff_base, flattened, planned_ops, planned_parents,
    DeltaView,
};
use crate::engine::{CopyError, CopyStepView, RefCopy, Stage};
use crate::location::Location;
use crate::map::{put_of, CommitMapper};
use crate::oid::Oid;
use crate::port::{GitQueryView, GitReplyView};

verus! {

/// What Git answers where it is asked of a commit that is copied.
pub struct Answers {
    /// The parents of a source commit.
    pub parents: spec_fn(Oid) -> Seq<Oid>,
    /// Whether the first destination commit descends from the second.
    pub descends: spec_fn(Oid, Oid) -> bool,
    /// The empty anchor of the destination.
    pub anchor: Option<Oid>,
    /// How a source commit differs from a base.
    pub deltas: spec_fn(Option<Oid>, Oid) -> Seq<DeltaView>,
    /// The commit that is made on the destination on the given parents for
    /// the given source commit.
    pub created: spec_fn(Seq<Oid>, Oid) -> Oid,
}

/// The parents of the commit that stands for a source commit whose parents
/// are all translated: their translations without repetitions; the empty
/// anchor where there are none; and of two of which one descends from the
/// other, the descendant alone.
pub open spec fn settled_parents(answers: Answers, mapper: CommitMapper, side: Location, commit: Oid) -> Seq<Oid> {
    let planned = planned_parents(mapper, side, (answers.parents)(commit));
    if planned.len() == 0 {
        seq![answers.anchor.unwrap()]
    } else if planned.len() == 2 {
        let first = (answers.descends)(planned[0], planned[1]);
        flattened(planned, first, !first && (answers.descends)(planned[1], planned[0]))
    } else {
        planned
    }
}

/// The commit that stands for a source commit on the destination, or why
/// there is none: a commit that is made for it where it joins two or more
/// parents or changes a file that is republished, and else its first parent
/// on the destination.
pub open spec fn copied(
    answers: Answers,
    mapper: CommitMapper,
    side: Location,
    from: Seq<char>,
    to: Seq<char>,
    commit: Oid,
) -> Result<Oid, CopyError> {
    let source_parents = (answers.parents)(commit);
    if !all_mapped(mapper, side, source_parents) {
        Err(CopyError::MissingParent)
    } else if planned_parents(mapper, side, source_parents).len() == 0 && answers.anchor is None {
        Err(CopyError::MissingAnchor)
    } else {
        let dest_parents = settled_parents(answers, mapper, side, commit);
        let base = diff_base(mapper, side.flip(), source_parents, dest_parents);
        if source_parents.len() > 1 && base is None {
            Err(CopyError::MissingBase)
        } else if commit_needed(
            dest_parents,
            planned_ops(from, to, (answers.deltas)(base, commit)).len() > 0,
        ) {
            Ok((answers.created)(dest_parents, commit))
        } else {
            Ok(dest_parents[0])
        }
    }
}

/// The query that a run which copies a commit waits to have answered.
pub open spec fn asked(run: RefCopy) -> GitQueryView {
    match run.stage {
        Stage::Anchor => GitQueryView::FindReference {
            side: run.dest(),
            working: true,
            name: anchor_ref(),
        },
        Stage::FirstDescends => GitQueryView::DescendantOf {
            side: run.dest(),
            commit: run.dest_parents@[0],
            ancestor: run.dest_parents@[1],
        },
        Stage::SecondDescends => GitQueryView::DescendantOf {
            side: run.dest(),
            commit: run.dest_parents@[1],
            ancestor: run.dest_parents@[0],
        },
        Stage::Deltas => GitQueryView::Diff {
            side: run.side(),
            base: diff_base(run.copier.mapper, run.dest(), run.source_parents@, run.dest_parents@),
            target: run.current(),
        },
        Stage::Created => GitQueryView::Commit {
            side: run.dest(),
            parents: run.dest_parents@,
            like: run.current(),
        },
        _ => GitQueryView::FindCommit { side: run.side(), sha: run.current() },
    }
}

/// The reply is what the answers say to the query.
pub open spec fn faithful(answers: Answers, query: GitQueryView, reply: GitReplyView) -> bool {
    match query {
        GitQueryView::FindCommit { sha, .. } => reply == GitReplyView::Parents((answers.parents)(sha)),
        GitQueryView::DescendantOf { commit, ancestor, .. } => reply == GitReplyView::Flag(
            (answers.descends)(commit, ancestor),
        ),
        GitQueryView::FindReference { .. } => reply == GitReplyView::Reference(answers.anchor),
        GitQueryView::Diff { base, target, .. } => reply == GitReplyView::Deltas(
            (answers.deltas)(base, target),
        ),
        GitQueryView::Commit { parents, like, .. } => reply == GitReplyView::Created(
            (answers.created)(parents, like),
        ),
        _ => true,
    }
}

/// The run has come as far with its commit as its stage says, on faithful
/// answers, from the commit map `start`: what it holds is what the answers
/// make of the commit.
pub open spec fn on_track(answers: Answers, start: CommitMapper, run: RefCopy) -> bool {
    let commit = run.current();
    let side = run.side();
    let source_parents = (answers.parents)(commit);
    let planned = planned_parents(start, side, source_parents);
    let settled = settled_parents(answers, start, side, commit);
    let base = diff_base(start, side.flip(), source_parents, settled);
    &&& run.copying()
    &&& run.copier.mapper == start
    &&& run.stage != Stage::Parents ==> run.source_parents@ == source_parents && all_mapped(
        start,
        side,
        source_parents,
    )
    &&& match run.stage {
        Stage::Anchor => planned.len() == 0,
        Stage::FirstDescends => planned.len() == 2 && run.dest_parents@ == planned,
        Stage::SecondDescends => planned.len() == 2 && run.dest_parents@ == planned && !(
        answers.descends)(planned[0], planned[1]),
        Stage::Deltas => (planned.len() == 0 ==> answers.anchor is Some) && run.dest_parents@
            == settled && !(source_parents.len() > 1 && base is None),
        Stage::Created => (planned.len() == 0 ==> answers.anchor is Some) && run.dest_parents@
            == settled && !(source_parents.len() > 1 && base is None) && commit_needed(
            settled,
            planned_ops(
                run.copier.source.location@,
                run.copier.dest.location@,
                (answers.deltas)(base, commit),
            ).len() > 0,
        ),
        _ => true,
    }
}

/// A run that is answered faithfully copies its commit as `copied` says.
/// Each step leaves the run on its track, with the next query put; or the
/// run fails, with the error that `copied` gives, and the commit map as it
/// was; or the commit is recorded as translated to the very commit that
/// `copied` gives.
pub proof fn lemma_faithful_step(
    answers: Answers,
    start: CommitMapper,
    run: RefCopy,
    reply: GitReplyView,
    post: RefCopy,
    out: CopyStepView,
)
    requires
        run.wf(),
        on_track(answers, start, run),
        faithful(answers, asked(run), reply),
        run.transition(reply, post, out),
    ensures
        ({
            let want = copied(
                answers,
                start,
                run.side(),
                run.copier.source.location@,
                run.copier.dest.location@,
                run.current(),
            );
            ||| {
                &&& on_track(answers, start, post)
                &&& post.current() == run.current()
                &&& post.side() == run.side()
                &&& out matches CopyStepView::Ask { query, .. } && query == asked(post)
            }
            ||| {
                &&& want matches Err(error)
                &&& post.stage == Stage::Failed
                &&& post.copier.mapper == start
                &&& out == crate::engine::fails(error)
            }
            ||| {
                &&& want matches Ok(dest)
                &&& put_of(start, run.side(), run.current(), dest, post.copier.mapper)
            }
        }),
{
}

/// The first step of the copy of a commit puts the query that `asked` gives,
/// and the run is on its track.
pub proof fn lemma_copy_begins_on_track(answers: Answers, run: RefCopy)
    requires
        run.wf(),
        run.stage == Stage::Parents,
    ensures
        on_track(answers, run.copier.mapper, run),
        asked(run) == (GitQueryView::FindCommit { side: run.side(), sha: run.current() }),
{
}

} // verus!
