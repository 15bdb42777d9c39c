//! The synchronisation of one ref, as a run of questions and answers.
//!
//! A run begins with `Copier::copy_ref_unchecked`, which hands back the first
//! step. A step holds commands, to be carried out in their order, and then
//! either a query, whose answer goes to `RefCopy::resume`, or the result of
//! the run. All that a run records in the commit map is kept if the run ends
//! well and dropped if it fails.

use vstd::prelude::*;
use crate::action::{PushListener, RecursionDetection};
use crate::copier::{
    all_mapped, anchor_ref, commit_needed, dedup_vec, diff_base, first_unmapped, flatten_parents,
    flattened, op_views, plan_ops, planned_ops, planned_parents, translated_known, Copier,
    DeltaView, RECENT_HEADS,
};
use crate::location::Location;
use crate::map::{put_of, CommitMapper, MapStore};
use crate::oid::{no_sha, zero_oid, Oid};
use crate::port::{
    command_views, option_views, GitCommand, GitCommandView, GitQuery, GitQueryView, GitReply,
    GitReplyView,
};
use crate::text::clone_strings;

verus! {

/// Why a run could not go on.
#[derive(Clone, Copy, Debug, PartialEq, Eq, Structural)]
pub enum CopyError {
    /// The answer does not belong to the query that was put, or the run had
    /// ended before.
    Unexpected,
    /// A parent of the commit that is copied has no translation.
    MissingParent,
    /// The destination has no empty anchor.
    MissingAnchor,
    /// The first destination parent of a merge is not translated back.
    MissingBase,
    /// The new tip has no translation after the walk.
    Unmapped,
    /// The remote refused the push or the deletion.
    PushRejected,
}

impl CopyError {
    /// The error in words.
    pub open spec fn text(self) -> Seq<char> {
        match self {
            CopyError::Unexpected => "The answer does not belong to the query"@,
            CopyError::MissingParent => "A parent of the commit has no translation"@,
            CopyError::MissingAnchor => "An empty commit should exist"@,
            CopyError::MissingBase => "The first parent of the merge is not translated back"@,
            CopyError::Unmapped => "The new tip has no translation"@,
            CopyError::PushRejected => "Could not push"@,
        }
    }

    /// The error in words.
    pub fn message(self) -> (r: &'static str)
        ensures
            r@ == self.text(),
    {
        match self {
            CopyError::Unexpected => "The answer does not belong to the query",
            CopyError::MissingParent => "A parent of the commit has no translation",
            CopyError::MissingAnchor => "An empty commit should exist",
            CopyError::MissingBase => "The first parent of the merge is not translated back",
            CopyError::Unmapped => "The new tip has no translation",
            CopyError::PushRejected => "Could not push",
        }
    }
}

/// What a run is waiting for.
#[derive(Clone, Copy, Debug, PartialEq, Eq, Structural)]
pub enum Stage {
    /// For the commit of the ref on the destination, to find the old tip.
    Resolving,
    /// For the recent heads of the destination, to bound the walk.
    Heads,
    /// For the commits to walk.
    Walking,
    /// For the parents of the commit that is copied.
    Parents,
    /// For the empty anchor of the destination.
    Anchor,
    /// For whether the first destination parent descends from the second.
    FirstDescends,
    /// For whether the second destination parent descends from the first.
    SecondDescends,
    /// For what the commit changed.
    Deltas,
    /// For the commit that was made on the destination.
    Created,
    /// For the outcome of the push.
    Pushing,
    /// For the outcome of the deletion.
    Deleting,
    /// The run has ended well.
    Finished,
    /// The run has failed.
    Failed,
}

/// What is to be done next.
#[derive(Debug, PartialEq, Eq)]
pub enum CopyStep {
    /// Carry out the commands, then answer the query.
    Ask { commands: Vec<GitCommand>, query: GitQuery },
    /// Carry out the commands; the run has ended. A run that ends well gives
    /// the destination commit that the ref now names, or nothing where the
    /// ref was deleted.
    Done { commands: Vec<GitCommand>, result: Result<Option<Oid>, CopyError> },
}

/// A `CopyStep` as plain values.
pub enum CopyStepView {
    Ask { commands: Seq<GitCommandView>, query: GitQueryView },
    Done { commands: Seq<GitCommandView>, result: Result<Option<Oid>, CopyError> },
}

impl View for CopyStep {
    type V = CopyStepView;

    open spec fn view(&self) -> CopyStepView {
        match self {
            CopyStep::Ask { commands, query } => CopyStepView::Ask {
                commands: command_views(commands@),
                query: query@,
            },
            CopyStep::Done { commands, result } => CopyStepView::Done {
                commands: command_views(commands@),
                result: *result,
            },
        }
    }
}

/// The synchronisation of one ref, under way.
#[derive(Debug)]
pub struct RefCopy {
    pub copier: Copier,
    pub ref_name: String,
    /// The commit of the source that the ref is to name; nothing where the
    /// ref is deleted.
    pub new_source: Option<Oid>,
    /// Whether the run ends with a push of the ref.
    pub push: bool,
    pub force_push: bool,
    pub push_opts: Option<Vec<String>>,
    pub listener: Option<RecursionDetection>,
    pub stage: Stage,
    /// The commits of the walk, parents before children.
    pub queue: Vec<Oid>,
    /// The place in the walk of the commit that is copied.
    pub next: usize,
    /// The parents of the commit that is copied.
    pub source_parents: Vec<Oid>,
    /// The parents of the commit that stands for it.
    pub dest_parents: Vec<Oid>,
    /// The destination commit that is pushed.
    pub pushed: Option<Oid>,
}

/// A step with a query and no commands.
pub open spec fn asks(query: GitQueryView) -> CopyStepView {
    CopyStepView::Ask { commands: Seq::empty(), query }
}

/// A step that ends the run with an error and no commands.
pub open spec fn fails(error: CopyError) -> CopyStepView {
    CopyStepView::Done { commands: Seq::empty(), result: Err(error) }
}

/// The command that a listener asks for before a push.
pub open spec fn before_push(listener: Option<RecursionDetection>, ref_name: Seq<char>, sha: Oid) -> Seq<
    GitCommandView,
> {
    match listener {
        Some(l) => match l.marker(ref_name, sha) {
            Some(path) => seq![GitCommandView::CreateMarker { path }],
            None => Seq::empty(),
        },
        None => Seq::empty(),
    }
}

/// The command that a listener asks for after a push.
pub open spec fn after_push(listener: Option<RecursionDetection>, ref_name: Seq<char>, sha: Oid) -> Seq<
    GitCommandView,
> {
    match listener {
        Some(l) => match l.marker(ref_name, sha) {
            Some(path) => seq![GitCommandView::RemoveMarker { path }],
            None => Seq::empty(),
        },
        None => Seq::empty(),
    }
}

impl RefCopy {
    /// The side that commits are copied from.
    pub open spec fn side(&self) -> Location {
        self.copier.source.name
    }

    /// The side that commits are copied to.
    pub open spec fn dest(&self) -> Location {
        self.copier.dest.name
    }

    /// The commit that is copied.
    pub open spec fn current(&self) -> Oid {
        self.queue@[self.next as int]
    }

    /// Whether a commit of the walk is being copied.
    pub open spec fn copying(&self) -> bool {
        self.stage == Stage::Parents || self.stage == Stage::Anchor || self.stage
            == Stage::FirstDescends || self.stage == Stage::SecondDescends || self.stage
            == Stage::Deltas || self.stage == Stage::Created
    }

    /// What holds of a run between its steps: its place lies in the walk;
    /// the commit that it copies has no translation yet; and it holds what
    /// its stage needs.
    pub open spec fn wf(&self) -> bool {
        &&& self.copier.wf()
        &&& self.next <= self.queue@.len()
        &&& self.copying() ==> self.next < self.queue@.len() && self.copier.mapper.get(
            self.side(),
            self.queue@[self.next as int],
        ) is None
        &&& (self.stage == Stage::FirstDescends || self.stage == Stage::SecondDescends)
            ==> self.dest_parents@.len() == 2
        &&& (self.stage == Stage::Deltas || self.stage == Stage::Created) ==> self.dest_parents@.len()
            >= 1
        &&& self.stage == Stage::Pushing ==> self.pushed is Some
        &&& self.stage != Stage::Deleting && self.stage != Stage::Finished && self.stage
            != Stage::Failed ==> self.new_source is Some
    }

    /// What the run was asked for and the two sides are the same in both.
    pub open spec fn same_task(&self, other: RefCopy) -> bool {
        &&& self.copier.source == other.copier.source
        &&& self.copier.dest == other.copier.dest
        &&& self.ref_name@ == other.ref_name@
        &&& self.new_source == other.new_source
        &&& self.push == other.push
        &&& self.force_push == other.force_push
        &&& option_views(self.push_opts) == option_views(other.push_opts)
        &&& self.listener == other.listener
    }

    /// The run has failed: `post` is `self` but for its stage, and the step
    /// ends the run with the error.
    pub open spec fn failed(&self, error: CopyError, post: RefCopy, out: CopyStepView) -> bool {
        &&& post.same_task(*self)
        &&& post.copier.mapper == self.copier.mapper
        &&& post.queue@ == self.queue@
        &&& post.next == self.next
        &&& post.stage == Stage::Failed
        &&& out == fails(error)
    }

    /// The run goes on behind the commits of the walk that stand before
    /// `start`: it passes over those that have a translation, and asks for the
    /// parents of the first that has none. Where every commit has one, the run
    /// resets the destination working clone to the translation of the new tip
    /// and pushes it, or ends where it is not to push. `self` is the run
    /// afterwards.
    pub open spec fn proceeded(&self, queue: Seq<Oid>, start: int, out: CopyStepView) -> bool {
        let k = first_unmapped(self.copier.mapper, self.side(), queue, start);
        let tip = self.new_source.unwrap();
        &&& self.queue@ == queue
        &&& if k < queue.len() {
            &&& self.stage == Stage::Parents
            &&& self.next == k
            &&& out == asks(GitQueryView::FindCommit { side: self.side(), sha: queue[k] })
        } else {
            match self.copier.mapper.get(self.side(), tip) {
                None => self.stage == Stage::Failed && out == fails(CopyError::Unmapped),
                Some(sha) => if self.push {
                    &&& self.stage == Stage::Pushing
                    &&& self.pushed == Some(sha)
                    &&& out == CopyStepView::Ask {
                        commands: seq![GitCommandView::Reset { side: self.dest(), sha }] + before_push(
                            self.listener,
                            self.ref_name@,
                            sha,
                        ),
                        query: GitQueryView::Push {
                            side: self.dest(),
                            ref_name: self.ref_name@,
                            force: self.force_push,
                            options: option_views(self.push_opts),
                        },
                    }
                } else {
                    &&& self.stage == Stage::Finished
                    &&& out == CopyStepView::Done { commands: Seq::empty(), result: Ok(Some(sha)) }
                },
            }
        }
    }

    /// The run `self` goes on behind the commits of the walk that stand
    /// before `start`, and is `post` afterwards.
    pub open spec fn proceeds(&self, queue: Seq<Oid>, start: int, post: RefCopy, out: CopyStepView) -> bool {
        &&& post.same_task(*self)
        &&& post.proceeded(queue, start, out)
    }

    /// The commit that is copied is recorded as translated to `sha`, and the
    /// run goes on behind it.
    pub open spec fn records(&self, sha: Oid, post: RefCopy, out: CopyStepView) -> bool {
        &&& put_of(self.copier.mapper, self.side(), self.current(), sha, post.copier.mapper)
        &&& self.proceeds(self.queue@, self.next + 1, post, out)
    }

    /// The destination parents are settled: the run checks out the first of
    /// them and asks what the commit changed against its base.
    pub open spec fn settles(
        &self,
        source_parents: Seq<Oid>,
        dest_parents: Seq<Oid>,
        post: RefCopy,
        out: CopyStepView,
    ) -> bool {
        let base = diff_base(self.copier.mapper, self.dest(), source_parents, dest_parents);
        if source_parents.len() > 1 && base is None {
            self.failed(CopyError::MissingBase, post, out)
        } else {
            &&& post.same_task(*self)
            &&& post.copier.mapper == self.copier.mapper
            &&& post.queue@ == self.queue@
            &&& post.next == self.next
            &&& post.stage == Stage::Deltas
            &&& post.source_parents@ == source_parents
            &&& post.dest_parents@ == dest_parents
            &&& out == CopyStepView::Ask {
                commands: seq![GitCommandView::Checkout { side: self.dest(), head: dest_parents[0] }],
                query: GitQueryView::Diff { side: self.side(), base, target: self.current() },
            }
        }
    }

    /// The old tip is known: the run ends where the new tip is the old one,
    /// and else asks for the commits between them, or for the recent heads of
    /// the destination where no old tip is known. `self` is the run
    /// afterwards.
    pub open spec fn enumerated(&self, old_source: Option<Oid>, out: CopyStepView) -> bool {
        let tip = self.new_source.unwrap();
        match old_source {
            Some(old) => if old == tip {
                &&& self.stage == Stage::Finished
                &&& out == CopyStepView::Done {
                    commands: Seq::empty(),
                    result: Ok(self.copier.mapper.get(self.side(), tip)),
                }
            } else {
                &&& self.stage == Stage::Walking
                &&& out == asks(
                    GitQueryView::RevList { side: self.side(), hide: seq![old], tip },
                )
            },
            None => {
                &&& self.stage == Stage::Heads
                &&& out == asks(
                    GitQueryView::RecentHeads { side: self.dest(), count: RECENT_HEADS },
                )
            },
        }
    }

    /// The old tip of the run `self` is known, and the run is `post`
    /// afterwards.
    pub open spec fn enumerates(&self, old_source: Option<Oid>, post: RefCopy, out: CopyStepView) -> bool {
        &&& post.same_task(*self)
        &&& post.copier.mapper == self.copier.mapper
        &&& post.enumerated(old_source, out)
    }

    /// What an answer makes of a run: the run afterwards and the next step.
    pub open spec fn transition(&self, reply: GitReplyView, post: RefCopy, out: CopyStepView) -> bool {
        match (self.stage, reply) {
            (Stage::Resolving, GitReplyView::Reference(target)) => self.enumerates(
                match target {
                    Some(sha) => self.copier.mapper.get(self.dest(), sha),
                    None => None,
                },
                post,
                out,
            ),
            (Stage::Heads, GitReplyView::Commits(heads)) => {
                &&& post.same_task(*self)
                &&& post.copier.mapper == self.copier.mapper
                &&& post.stage == Stage::Walking
                &&& out == asks(
                    GitQueryView::RevList {
                        side: self.side(),
                        hide: translated_known(self.copier.mapper, self.dest(), heads),
                        tip: self.new_source.unwrap(),
                    },
                )
            },
            (Stage::Walking, GitReplyView::Commits(commits)) => {
                &&& post.copier.mapper == self.copier.mapper
                &&& self.proceeds(commits, 0, post, out)
            },
            (Stage::Parents, GitReplyView::Parents(parents)) => {
                let planned = planned_parents(self.copier.mapper, self.side(), parents);
                if !all_mapped(self.copier.mapper, self.side(), parents) {
                    self.failed(CopyError::MissingParent, post, out)
                } else if planned.len() == 0 {
                    &&& post.same_task(*self)
                    &&& post.copier.mapper == self.copier.mapper
                    &&& post.queue@ == self.queue@
                    &&& post.next == self.next
                    &&& post.stage == Stage::Anchor
                    &&& post.source_parents@ == parents
                    &&& out == asks(
                        GitQueryView::FindReference {
                            side: self.dest(),
                            working: true,
                            name: anchor_ref(),
                        },
                    )
                } else if planned.len() == 2 {
                    &&& post.same_task(*self)
                    &&& post.copier.mapper == self.copier.mapper
                    &&& post.queue@ == self.queue@
                    &&& post.next == self.next
                    &&& post.stage == Stage::FirstDescends
                    &&& post.source_parents@ == parents
                    &&& post.dest_parents@ == planned
                    &&& out == asks(
                        GitQueryView::DescendantOf {
                            side: self.dest(),
                            commit: planned[0],
                            ancestor: planned[1],
                        },
                    )
                } else {
                    self.settles(parents, planned, post, out)
                }
            },
            (Stage::Anchor, GitReplyView::Reference(target)) => match target {
                None => self.failed(CopyError::MissingAnchor, post, out),
                Some(anchor) => self.settles(self.source_parents@, seq![anchor], post, out),
            },
            (Stage::FirstDescends, GitReplyView::Flag(descends)) => if descends {
                self.settles(
                    self.source_parents@,
                    flattened(self.dest_parents@, true, false),
                    post,
                    out,
                )
            } else {
                &&& post.same_task(*self)
                &&& post.copier.mapper == self.copier.mapper
                &&& post.queue@ == self.queue@
                &&& post.next == self.next
                &&& post.stage == Stage::SecondDescends
                &&& post.source_parents@ == self.source_parents@
                &&& post.dest_parents@ == self.dest_parents@
                &&& out == asks(
                    GitQueryView::DescendantOf {
                        side: self.dest(),
                        commit: self.dest_parents@[1],
                        ancestor: self.dest_parents@[0],
                    },
                )
            },
            (Stage::SecondDescends, GitReplyView::Flag(descends)) => self.settles(
                self.source_parents@,
                flattened(self.dest_parents@, false, descends),
                post,
                out,
            ),
            (Stage::Deltas, GitReplyView::Deltas(deltas)) => {
                let ops = planned_ops(self.copier.source.location@, self.copier.dest.location@, deltas);
                if commit_needed(self.dest_parents@, ops.len() > 0) {
                    &&& post.same_task(*self)
                    &&& post.copier.mapper == self.copier.mapper
                    &&& post.queue@ == self.queue@
                    &&& post.next == self.next
                    &&& post.stage == Stage::Created
                    &&& post.source_parents@ == self.source_parents@
                    &&& post.dest_parents@ == self.dest_parents@
                    &&& out == CopyStepView::Ask {
                        commands: if ops.len() > 0 {
                            seq![GitCommandView::Apply { side: self.dest(), ops }]
                        } else {
                            Seq::empty()
                        },
                        query: GitQueryView::Commit {
                            side: self.dest(),
                            parents: self.dest_parents@,
                            like: self.current(),
                        },
                    }
                } else {
                    self.records(self.dest_parents@[0], post, out)
                }
            },
            (Stage::Created, GitReplyView::Created(sha)) => self.records(sha, post, out),
            (Stage::Pushing, GitReplyView::Pushed(taken)) => {
                &&& post.same_task(*self)
                &&& post.copier.mapper == self.copier.mapper
                &&& post.stage == (if taken {
                    Stage::Finished
                } else {
                    Stage::Failed
                })
                &&& out == CopyStepView::Done {
                    commands: after_push(self.listener, self.ref_name@, self.pushed.unwrap()),
                    result: if taken {
                        Ok(self.pushed)
                    } else {
                        Err(CopyError::PushRejected)
                    },
                }
            },
            (Stage::Deleting, GitReplyView::Pushed(taken)) => {
                &&& post.same_task(*self)
                &&& post.copier.mapper == self.copier.mapper
                &&& post.stage == (if taken {
                    Stage::Finished
                } else {
                    Stage::Failed
                })
                &&& out == CopyStepView::Done {
                    commands: after_push(self.listener, self.ref_name@, zero_oid()),
                    result: if taken {
                        Ok(None)
                    } else {
                        Err(CopyError::PushRejected)
                    },
                }
            },
            _ => self.failed(CopyError::Unexpected, post, out),
        }
    }
}

/// The commands that a listener asks for before a push.
fn listener_before(listener: &Option<RecursionDetection>, ref_name: &str, sha: Oid, commands: &mut Vec<
    GitCommand,
>)
    ensures
        command_views(final(commands)@) == command_views(old(commands)@) + before_push(
            *listener,
            ref_name@,
            sha,
        ),
{
    match listener {
        Some(l) => match l.pre_push(ref_name, sha) {
            Some(command) => {
                proof {
                    assert(command_views(commands@.push(command)) == command_views(commands@).push(
                        command@,
                    ));
                }
                commands.push(command);
            },
            None => {
                assert(command_views(commands@) + Seq::<GitCommandView>::empty() == command_views(
                    commands@,
                ));
            },
        },
        None => {
            assert(command_views(commands@) + Seq::<GitCommandView>::empty() == command_views(
                commands@,
            ));
        },
    }
}

/// The commands that a listener asks for after a push.
fn listener_after(listener: &Option<RecursionDetection>, ref_name: &str, sha: Oid) -> (commands: Vec<
    GitCommand,
>)
    ensures
        command_views(commands@) == after_push(*listener, ref_name@, sha),
{
    let mut commands: Vec<GitCommand> = Vec::new();
    match listener {
        Some(l) => match l.post_push(ref_name, sha) {
            Some(command) => {
                commands.push(command);
            },
            None => {},
        },
        None => {},
    }
    assert(command_views(commands@) == after_push(*listener, ref_name@, sha));
    commands
}

/// A copy of the push options.
fn clone_options(options: &Option<Vec<String>>) -> (r: Option<Vec<String>>)
    ensures
        option_views(r) == option_views(*options),
{
    match options {
        Some(list) => Some(clone_strings(list)),
        None => None,
    }
}

/// A step with a query and no commands.
fn ask(query: GitQuery) -> (r: CopyStep)
    ensures
        r@ == asks(query@),
{
    let r = CopyStep::Ask { commands: Vec::new(), query };
    assert(r@ == asks(query@)) by {
        assert(command_views(Seq::<GitCommand>::empty()) == Seq::<GitCommandView>::empty());
    }
    r
}

impl RefCopy {
    /// Ends the run with an error.
    fn fail(&mut self, error: CopyError) -> (out: CopyStep)
        requires
            old(self).copier.wf(),
            old(self).next <= old(self).queue@.len(),
        ensures
            old(self).failed(error, *final(self), out@),
            final(self).wf(),
    {
        self.stage = Stage::Failed;
        let out = CopyStep::Done { commands: Vec::new(), result: Err(error) };
        assert(out@ == fails(error)) by {
            assert(command_views(Seq::<GitCommand>::empty()) == Seq::<GitCommandView>::empty());
        }
        out
    }

    /// Goes on behind the commits of the walk that stand before `start`.
    fn proceed(&mut self, start: usize) -> (out: CopyStep)
        requires
            old(self).copier.wf(),
            old(self).new_source is Some,
            start <= old(self).queue@.len(),
        ensures
            old(self).proceeds(old(self).queue@, start as int, *final(self), out@),
            final(self).copier.mapper == old(self).copier.mapper,
            final(self).wf(),
    {
        let side = self.copier.source.name;
        let mut k: usize = start;
        while k < self.queue.len() && self.copier.mapper.has_sha(&self.queue[k], side)
            invariant
                start <= k <= self.queue@.len(),
                *self == *old(self),
                side == self.copier.source.name,
                first_unmapped(self.copier.mapper, side, self.queue@, start as int) == first_unmapped(
                    self.copier.mapper,
                    side,
                    self.queue@,
                    k as int,
                ),
            decreases self.queue@.len() - k,
        {
            k += 1;
        }
        if k < self.queue.len() {
            self.next = k;
            self.stage = Stage::Parents;
            ask(GitQuery::FindCommit { side, sha: self.queue[k] })
        } else {
            self.next = k;
            let tip = self.new_source.unwrap();
            match self.copier.mapper.get_translated(Some(&tip), side) {
                None => {
                    self.stage = Stage::Failed;
                    let out = CopyStep::Done { commands: Vec::new(), result: Err(CopyError::Unmapped) };
                    assert(out@ == fails(CopyError::Unmapped)) by {
                        assert(command_views(Seq::<GitCommand>::empty()) == Seq::<
                            GitCommandView,
                        >::empty());
                    }
                    out
                },
                Some(sha) => {
                    if self.push {
                        self.stage = Stage::Pushing;
                        self.pushed = Some(sha);
                        let mut commands: Vec<GitCommand> = Vec::new();
                        commands.push(GitCommand::Reset { side: self.copier.dest.name, sha });
                        assert(command_views(commands@) == seq![
                            GitCommandView::Reset { side: self.copier.dest.name, sha },
                        ]);
                        listener_before(&self.listener, self.ref_name.as_str(), sha, &mut commands);
                        CopyStep::Ask {
                            commands,
                            query: GitQuery::Push {
                                side: self.copier.dest.name,
                                ref_name: self.ref_name.clone(),
                                force: self.force_push,
                                options: clone_options(&self.push_opts),
                            },
                        }
                    } else {
                        self.stage = Stage::Finished;
                        let out = CopyStep::Done { commands: Vec::new(), result: Ok(Some(sha)) };
                        assert(command_views(Seq::<GitCommand>::empty()) == Seq::<
                            GitCommandView,
                        >::empty());
                        out
                    }
                },
            }
        }
    }

    /// Records the translation of the commit that is copied and goes on
    /// behind it.
    fn record(&mut self, sha: Oid) -> (out: CopyStep)
        requires
            old(self).wf(),
            old(self).copying(),
        ensures
            old(self).records(sha, *final(self), out@),
            final(self).wf(),
    {
        let current = self.queue[self.next];
        let len = self.queue.len();
        assert(self.next < len);
        let start = self.next + 1;
        self.copier.record_sha_update(&current, sha);
        self.proceed(start)
    }

    /// Checks out the first destination parent and asks what the commit
    /// changed.
    fn settle(&mut self, source_parents: Vec<Oid>, dest_parents: Vec<Oid>) -> (out: CopyStep)
        requires
            old(self).copier.wf(),
            old(self).next < old(self).queue@.len(),
            old(self).copier.mapper.get(old(self).side(), old(self).queue@[old(self).next as int])
                is None,
            old(self).new_source is Some,
            dest_parents@.len() >= 1,
        ensures
            old(self).settles(source_parents@, dest_parents@, *final(self), out@),
            final(self).wf(),
    {
        let base = if source_parents.len() > 1 {
            match self.copier.get_source_sha(&dest_parents[0]) {
                None => {
                    return self.fail(CopyError::MissingBase);
                },
                Some(sha) => Some(sha),
            }
        } else if source_parents.len() == 1 {
            Some(source_parents[0])
        } else {
            None
        };
        let head = dest_parents[0];
        let target = self.queue[self.next];
        self.stage = Stage::Deltas;
        self.source_parents = source_parents;
        self.dest_parents = dest_parents;
        let mut commands: Vec<GitCommand> = Vec::new();
        commands.push(GitCommand::Checkout { side: self.copier.dest.name, head });
        assert(command_views(commands@) == seq![
            GitCommandView::Checkout { side: self.copier.dest.name, head },
        ]);
        CopyStep::Ask {
            commands,
            query: GitQuery::Diff { side: self.copier.source.name, base, target },
        }
    }

    /// Ends the run where the new tip is the old one, and else asks for the
    /// commits to walk.
    fn enumerate(&mut self, old_source: Option<Oid>) -> (out: CopyStep)
        requires
            old(self).wf(),
            old(self).new_source is Some,
            !old(self).copying(),
            old(self).stage != Stage::Pushing,
        ensures
            old(self).enumerates(old_source, *final(self), out@),
            final(self).wf(),
    {
        let tip = self.new_source.unwrap();
        match old_source {
            Some(old) => {
                if old.same(&tip) {
                    self.stage = Stage::Finished;
                    let result = self.copier.get_dest_sha(&tip);
                    let out = CopyStep::Done { commands: Vec::new(), result: Ok(result) };
                    assert(command_views(Seq::<GitCommand>::empty()) == Seq::<GitCommandView>::empty());
                    out
                } else {
                    self.stage = Stage::Walking;
                    let hide = vec![old];
                    assert(hide@ == seq![old]);
                    ask(GitQuery::RevList { side: self.copier.source.name, hide, tip })
                }
            },
            None => {
                self.stage = Stage::Heads;
                ask(GitQuery::RecentHeads { side: self.copier.dest.name, count: RECENT_HEADS })
            },
        }
    }

    /// Takes the answer to the query of the last step and says what is to be
    /// done next. An answer that does not belong to the query ends the run.
    pub fn resume(&mut self, reply: GitReply) -> (out: CopyStep)
        requires
            old(self).wf(),
        ensures
            final(self).wf(),
            old(self).transition(reply@, *final(self), out@),
    {
        match (self.stage, reply) {
            (Stage::Resolving, GitReply::Reference(target)) => {
                let old_source = match target {
                    Some(sha) => self.copier.get_source_sha(&sha),
                    None => None,
                };
                self.enumerate(old_source)
            },
            (Stage::Heads, GitReply::Commits(heads)) => {
                let hide = self.copier.translate_back(&heads);
                self.stage = Stage::Walking;
                ask(
                    GitQuery::RevList {
                        side: self.copier.source.name,
                        hide,
                        tip: self.new_source.unwrap(),
                    },
                )
            },
            (Stage::Walking, GitReply::Commits(commits)) => {
                self.queue = commits;
                self.proceed(0)
            },
            (Stage::Parents, GitReply::Parents(parents)) => {
                match self.copier.translate_all(&parents) {
                    None => self.fail(CopyError::MissingParent),
                    Some(list) => {
                        let mut planned = list;
                        dedup_vec(&mut planned);
                        if planned.len() == 0 {
                            self.stage = Stage::Anchor;
                            self.source_parents = parents;
                            ask(
                                GitQuery::FindReference {
                                    side: self.copier.dest.name,
                                    working: true,
                                    name: "refs/sync/empty".to_owned(),
                                },
                            )
                        } else if planned.len() == 2 {
                            self.stage = Stage::FirstDescends;
                            self.source_parents = parents;
                            let commit = planned[0];
                            let ancestor = planned[1];
                            self.dest_parents = planned;
                            ask(
                                GitQuery::DescendantOf {
                                    side: self.copier.dest.name,
                                    commit,
                                    ancestor,
                                },
                            )
                        } else {
                            self.settle(parents, planned)
                        }
                    },
                }
            },
            (Stage::Anchor, GitReply::Reference(target)) => {
                match target {
                    None => self.fail(CopyError::MissingAnchor),
                    Some(anchor) => {
                        let dest_parents = vec![anchor];
                        assert(dest_parents@ == seq![anchor]);
                        let source_parents = self.take_source_parents();
                        self.settle(source_parents, dest_parents)
                    },
                }
            },
            (Stage::FirstDescends, GitReply::Flag(descends)) => {
                if descends {
                    let dest_parents = flatten_parents(self.take_dest_parents(), true, false);
                    let source_parents = self.take_source_parents();
                    self.settle(source_parents, dest_parents)
                } else {
                    self.stage = Stage::SecondDescends;
                    ask(
                        GitQuery::DescendantOf {
                            side: self.copier.dest.name,
                            commit: self.dest_parents[1],
                            ancestor: self.dest_parents[0],
                        },
                    )
                }
            },
            (Stage::SecondDescends, GitReply::Flag(descends)) => {
                let dest_parents = flatten_parents(self.take_dest_parents(), false, descends);
                let source_parents = self.take_source_parents();
                self.settle(source_parents, dest_parents)
            },
            (Stage::Deltas, GitReply::Deltas(deltas)) => {
                let ops = plan_ops(
                    self.copier.source.location.as_str(),
                    self.copier.dest.location.as_str(),
                    &deltas,
                );
                let changed = ops.len() > 0;
                if self.dest_parents.len() > 1 || changed {
                    self.stage = Stage::Created;
                    let mut commands: Vec<GitCommand> = Vec::new();
                    if changed {
                        let ghost planned = op_views(ops@);
                        commands.push(GitCommand::Apply { side: self.copier.dest.name, ops });
                        assert(command_views(commands@) == seq![
                            GitCommandView::Apply { side: self.copier.dest.name, ops: planned },
                        ]);
                    } else {
                        assert(command_views(commands@) == Seq::<GitCommandView>::empty());
                    }
                    let parents = self.dest_parents.clone();
                    assert(parents@ == self.dest_parents@);
                    CopyStep::Ask {
                        commands,
                        query: GitQuery::Commit {
                            side: self.copier.dest.name,
                            parents,
                            like: self.queue[self.next],
                        },
                    }
                } else {
                    let head = self.dest_parents[0];
                    self.record(head)
                }
            },
            (Stage::Created, GitReply::Created(sha)) => self.record(sha),
            (Stage::Pushing, GitReply::Pushed(taken)) => {
                let sha = self.pushed.unwrap();
                let commands = listener_after(&self.listener, self.ref_name.as_str(), sha);
                if taken {
                    self.stage = Stage::Finished;
                    CopyStep::Done { commands, result: Ok(Some(sha)) }
                } else {
                    self.stage = Stage::Failed;
                    CopyStep::Done { commands, result: Err(CopyError::PushRejected) }
                }
            },
            (Stage::Deleting, GitReply::Pushed(taken)) => {
                let commands = listener_after(&self.listener, self.ref_name.as_str(), no_sha());
                if taken {
                    self.stage = Stage::Finished;
                    CopyStep::Done { commands, result: Ok(None) }
                } else {
                    self.stage = Stage::Failed;
                    CopyStep::Done { commands, result: Err(CopyError::PushRejected) }
                }
            },
            _ => self.fail(CopyError::Unexpected),
        }
    }

    /// Takes the source parents out of the run.
    fn take_source_parents(&mut self) -> (r: Vec<Oid>)
        ensures
            r@ == old(self).source_parents@,
            final(self).source_parents@ == Seq::<Oid>::empty(),
            final(self).copier == old(self).copier,
            final(self).ref_name == old(self).ref_name,
            final(self).new_source == old(self).new_source,
            final(self).push == old(self).push,
            final(self).force_push == old(self).force_push,
            final(self).push_opts == old(self).push_opts,
            final(self).listener == old(self).listener,
            final(self).stage == old(self).stage,
            final(self).queue == old(self).queue,
            final(self).next == old(self).next,
            final(self).dest_parents == old(self).dest_parents,
            final(self).pushed == old(self).pushed,
    {
        let mut taken: Vec<Oid> = Vec::new();
        std::mem::swap(&mut taken, &mut self.source_parents);
        taken
    }

    /// Takes the destination parents out of the run.
    fn take_dest_parents(&mut self) -> (r: Vec<Oid>)
        ensures
            r@ == old(self).dest_parents@,
            final(self).dest_parents@ == Seq::<Oid>::empty(),
            final(self).copier == old(self).copier,
            final(self).ref_name == old(self).ref_name,
            final(self).new_source == old(self).new_source,
            final(self).push == old(self).push,
            final(self).force_push == old(self).force_push,
            final(self).push_opts == old(self).push_opts,
            final(self).listener == old(self).listener,
            final(self).stage == old(self).stage,
            final(self).queue == old(self).queue,
            final(self).next == old(self).next,
            final(self).source_parents == old(self).source_parents,
            final(self).pushed == old(self).pushed,
    {
        let mut taken: Vec<Oid> = Vec::new();
        std::mem::swap(&mut taken, &mut self.dest_parents);
        taken
    }
}

/// The run was begun for the given task on the given map.
pub open spec fn started(
    copier: Copier,
    ref_name: Seq<char>,
    new_source: Option<Oid>,
    push: bool,
    force_push: bool,
    push_opts: Option<Seq<Seq<char>>>,
    listener: Option<RecursionDetection>,
    run: RefCopy,
) -> bool {
    &&& run.copier == copier
    &&& run.ref_name@ == ref_name
    &&& run.new_source == new_source
    &&& run.push == push
    &&& run.force_push == force_push
    &&& option_views(run.push_opts) == push_opts
    &&& run.listener == listener
}

/// The run and its first step for a ref that the source has moved from
/// `supposed_old` to `new_source`.
pub open spec fn begun(
    copier: Copier,
    ref_name: Seq<char>,
    supposed_old: Option<Oid>,
    new_source: Option<Oid>,
    force_push: bool,
    push_opts: Option<Seq<Seq<char>>>,
    listener: Option<RecursionDetection>,
    run: RefCopy,
    out: CopyStepView,
) -> bool {
    &&& run.wf()
    &&& started(copier, ref_name, new_source, true, force_push, push_opts, listener, run)
    &&& match new_source {
        None => {
            &&& run.stage == Stage::Deleting
            &&& out == CopyStepView::Ask {
                commands: before_push(listener, ref_name, zero_oid()),
                query: GitQueryView::DeleteRef {
                    side: copier.dest.name,
                    ref_name,
                    options: push_opts,
                },
            }
        },
        Some(tip) => match supposed_old {
            Some(old) if copier.mapper.get(copier.source.name, old) is None => {
                &&& run.stage == Stage::Resolving
                &&& out == asks(
                    GitQueryView::FindReference { side: copier.dest.name, working: false, name: ref_name },
                )
            },
            _ => run.enumerated(supposed_old, out),
        },
    }
}

impl Copier {
    /// Begins the synchronisation of one ref that the source has moved from
    /// `supposed_old_source_sha` to `new_source_sha`.
    ///
    /// Where the ref was deleted, it is deleted on the destination. Else the
    /// old tip is the supposed one if the map knows it; if not, the commit
    /// that the ref names on the destination, translated back, is asked for.
    /// Where the new tip is the old one nothing is done. Else the commits
    /// between them are walked, those without a translation are copied, and
    /// the translation of the new tip is pushed to the ref.
    pub fn copy_ref_unchecked(
        self,
        ref_name: &str,
        supposed_old_source_sha: Option<Oid>,
        new_source_sha: Option<Oid>,
        force_push: bool,
        git_push_opts: Option<Vec<String>>,
        push_listener: Option<RecursionDetection>,
    ) -> (r: (RefCopy, CopyStep))
        requires
            self.wf(),
        ensures
            begun(
                self,
                ref_name@,
                supposed_old_source_sha,
                new_source_sha,
                force_push,
                option_views(git_push_opts),
                push_listener,
                r.0,
                r.1@,
            ),
    {
        let mut run = RefCopy {
            copier: self,
            ref_name: ref_name.to_owned(),
            new_source: new_source_sha,
            push: true,
            force_push,
            push_opts: git_push_opts,
            listener: push_listener,
            stage: Stage::Resolving,
            queue: Vec::new(),
            next: 0,
            source_parents: Vec::new(),
            dest_parents: Vec::new(),
            pushed: None,
        };
        match new_source_sha {
            None => {
                run.stage = Stage::Deleting;
                let mut commands: Vec<GitCommand> = Vec::new();
                assert(command_views(commands@) == Seq::<GitCommandView>::empty());
                listener_before(&run.listener, ref_name, no_sha(), &mut commands);
                assert(Seq::<GitCommandView>::empty() + before_push(
                    run.listener,
                    ref_name@,
                    zero_oid(),
                ) == before_push(run.listener, ref_name@, zero_oid()));
                let step = CopyStep::Ask {
                    commands,
                    query: GitQuery::DeleteRef {
                        side: run.copier.dest.name,
                        ref_name: ref_name.to_owned(),
                        options: clone_options(&run.push_opts),
                    },
                };
                (run, step)
            },
            Some(_) => {
                let known = match supposed_old_source_sha {
                    Some(old) => run.copier.get_dest_sha(&old).is_some(),
                    None => true,
                };
                if known {
                    let step = run.enumerate(supposed_old_source_sha);
                    (run, step)
                } else {
                    let step = ask(
                        GitQuery::FindReference {
                            side: run.copier.dest.name,
                            working: false,
                            name: ref_name.to_owned(),
                        },
                    );
                    (run, step)
                }
            },
        }
    }

    /// Begins the copy of one source commit, whose parents have their
    /// translations, without a push behind it. A commit that has a
    /// translation already is not copied again.
    pub fn copy_commit(self, source_sha: &Oid) -> (r: (RefCopy, CopyStep))
        requires
            self.wf(),
        ensures
            r.0.wf(),
            started(self, Seq::empty(), Some(*source_sha), false, false, None, None, r.0),
            r.0.proceeded(seq![*source_sha], 0, r.1@),
    {
        let mut run = RefCopy {
            copier: self,
            ref_name: String::new(),
            new_source: Some(*source_sha),
            push: false,
            force_push: false,
            push_opts: None,
            listener: None,
            stage: Stage::Walking,
            queue: vec![*source_sha],
            next: 0,
            source_parents: Vec::new(),
            dest_parents: Vec::new(),
            pushed: None,
        };
        assert(run.queue@ == seq![*source_sha]);
        let step = run.proceed(0);
        (run, step)
    }
}

impl RefCopy {
    /// Whether the run has ended, well or not.
    pub fn is_over(&self) -> (r: bool)
        ensures
            r == (self.stage == Stage::Finished || self.stage == Stage::Failed),
    {
        match self.stage {
            Stage::Finished => true,
            Stage::Failed => true,
            _ => false,
        }
    }

    /// Ends the unit of work of the run and hands the commit map back: with
    /// all that the run recorded where it ended well, and as it was before the
    /// run where it did not.
    pub fn finish(self) -> (r: MapStore)
        requires
            self.wf(),
        ensures
            r.wf(),
            self.stage == Stage::Finished ==> r == self.copier.mapper.store(),
            self.stage != Stage::Finished ==> r.table(Location::SUBGIT)
                == self.copier.mapper.committed(Location::SUBGIT) && r.table(Location::UPSTREAM)
                == self.copier.mapper.committed(Location::UPSTREAM),
    {
        match self.stage {
            Stage::Finished => self.copier.mapper.save_changes(),
            _ => self.copier.mapper.discard(),
        }
    }
}

/// A commit with a single parent is made on the destination only behind a
/// change to its files: every step that asks for a commit with one parent
/// first applies at least one file operation.
pub proof fn lemma_no_empty_linear(pre: RefCopy, reply: GitReplyView, post: RefCopy, out: CopyStepView)
    requires
        pre.wf(),
        pre.transition(reply, post, out),
        out matches CopyStepView::Ask { query: GitQueryView::Commit { parents, .. }, .. }
            && parents.len() <= 1,
    ensures
        out matches CopyStepView::Ask { commands, .. } && commands.len() == 1 && (
        commands[0] matches GitCommandView::Apply { ops, .. } && ops.len() > 0),
{
}

/// A source commit whose translated parents are two, neither of which
/// descends from the other, or three and more, is given a commit of its own
/// on the destination, with exactly those parents, whatever it changed.
pub proof fn lemma_merge_preserved(run: RefCopy, deltas: Seq<DeltaView>, post: RefCopy, out: CopyStepView)
    requires
        run.wf(),
        run.stage == Stage::Deltas,
        run.dest_parents@.len() >= 2,
        run.transition(GitReplyView::Deltas(deltas), post, out),
    ensures
        post.stage == Stage::Created,
        post.copier.mapper == run.copier.mapper,
        out matches CopyStepView::Ask { query, .. } && query == (GitQueryView::Commit {
            side: run.dest(),
            parents: run.dest_parents@,
            like: run.current(),
        }),
{
}

/// The parents with which a merge reaches the destination are the
/// translations of its source parents without repetitions, where those are
/// two of which neither descends from the other.
pub proof fn lemma_merge_parents(
    run: RefCopy,
    parents: Seq<Oid>,
    first: RefCopy,
    out1: CopyStepView,
    second: RefCopy,
    out2: CopyStepView,
    third: RefCopy,
    out3: CopyStepView,
)
    requires
        run.wf(),
        run.stage == Stage::Parents,
        all_mapped(run.copier.mapper, run.side(), parents),
        planned_parents(run.copier.mapper, run.side(), parents).len() == 2,
        run.transition(GitReplyView::Parents(parents), first, out1),
        first.transition(GitReplyView::Flag(false), second, out2),
        second.transition(GitReplyView::Flag(false), third, out3),
        third.stage != Stage::Failed,
    ensures
        third.stage == Stage::Deltas,
        third.dest_parents@ == planned_parents(run.copier.mapper, run.side(), parents),
        third.current() == run.current(),
{
}

/// A merge whose source parents have three or more translations that differ
/// reaches the destination with all of them as its parents, in the order in
/// which they first occur.
pub proof fn lemma_merge_parents_many(
    run: RefCopy,
    parents: Seq<Oid>,
    settled: RefCopy,
    out: CopyStepView,
)
    requires
        run.wf(),
        run.stage == Stage::Parents,
        all_mapped(run.copier.mapper, run.side(), parents),
        planned_parents(run.copier.mapper, run.side(), parents).len() >= 3,
        run.transition(GitReplyView::Parents(parents), settled, out),
        settled.stage != Stage::Failed,
    ensures
        settled.stage == Stage::Deltas,
        settled.dest_parents@ == planned_parents(run.copier.mapper, run.side(), parents),
        settled.current() == run.current(),
{
}

/// A source merge whose two translated parents lie on one line, one
/// descending from the other, reaches the destination as a commit with the
/// descendant as its single parent, or as that parent itself where it
/// changed nothing: never as a merge.
pub proof fn lemma_merge_flattened(
    run: RefCopy,
    parents: Seq<Oid>,
    first_descends: bool,
    second_descends: bool,
    first: RefCopy,
    out1: CopyStepView,
    second: RefCopy,
    out2: CopyStepView,
    settled: RefCopy,
    out3: CopyStepView,
    deltas: Seq<DeltaView>,
    post: RefCopy,
    out: CopyStepView,
)
    requires
        run.wf(),
        run.stage == Stage::Parents,
        all_mapped(run.copier.mapper, run.side(), parents),
        planned_parents(run.copier.mapper, run.side(), parents).len() == 2,
        first_descends || second_descends,
        run.transition(GitReplyView::Parents(parents), first, out1),
        first_descends ==> first.transition(GitReplyView::Flag(true), settled, out3),
        !first_descends ==> first.transition(GitReplyView::Flag(false), second, out2)
            && second.transition(GitReplyView::Flag(second_descends), settled, out3),
        settled.stage != Stage::Failed,
        settled.transition(GitReplyView::Deltas(deltas), post, out),
    ensures
        settled.stage == Stage::Deltas,
        settled.dest_parents@ == flattened(
            planned_parents(run.copier.mapper, run.side(), parents),
            first_descends,
            second_descends,
        ),
        settled.dest_parents@.len() == 1,
        out matches CopyStepView::Ask { query: GitQueryView::Commit { parents: made, .. }, .. }
            ==> made == settled.dest_parents@,
        !(out matches CopyStepView::Ask { query: GitQueryView::Commit { .. }, .. }) ==> put_of(
            settled.copier.mapper,
            run.side(),
            run.current(),
            settled.dest_parents@[0],
            post.copier.mapper,
        ),
{
}

/// A walk whose commits all have their translations copies nothing: the
/// commit map stays as it is, and the next step is the push of the
/// translation of the tip.
pub proof fn lemma_walk_of_known_commits(run: RefCopy, commits: Seq<Oid>, post: RefCopy, out: CopyStepView)
    requires
        run.wf(),
        run.stage == Stage::Walking,
        run.push,
        all_mapped(run.copier.mapper, run.side(), commits),
        run.copier.mapper.get(run.side(), run.new_source.unwrap()) is Some,
        run.transition(GitReplyView::Commits(commits), post, out),
    ensures
        post.copier.mapper == run.copier.mapper,
        post.stage == Stage::Pushing,
        post.pushed == run.copier.mapper.get(run.side(), run.new_source.unwrap()),
        out matches CopyStepView::Ask { query: GitQueryView::Push { .. }, .. },
{
    lemma_first_unmapped_of_known(run.copier.mapper, run.side(), commits, 0);
}

/// Where every commit of the list has a translation, none is the first
/// without one.
pub proof fn lemma_first_unmapped_of_known(mapper: CommitMapper, side: Location, queue: Seq<Oid>, from: int)
    requires
        all_mapped(mapper, side, queue),
        0 <= from,
    ensures
        first_unmapped(mapper, side, queue, from) == queue.len(),
    decreases queue.len() - from,
{
    if from < queue.len() {
        lemma_first_unmapped_of_known(mapper, side, queue, from + 1);
    }
}

/// A run never gives a source commit that has a translation another one:
/// it copies only commits that have none.
pub proof fn lemma_run_keeps_translations(
    pre: RefCopy,
    reply: GitReplyView,
    post: RefCopy,
    out: CopyStepView,
    commit: Oid,
)
    requires
        pre.wf(),
        pre.transition(reply, post, out),
        pre.copier.mapper.get(pre.side(), commit) is Some,
    ensures
        post.copier.mapper.get(pre.side(), commit) == pre.copier.mapper.get(pre.side(), commit),
{
}

/// A run pushes to no ref but its own, deletes no ref but its own, and
/// writes the commit map only for the commit that it copies.
pub proof fn lemma_run_keeps_to_its_ref(pre: RefCopy, reply: GitReplyView, post: RefCopy, out: CopyStepView)
    requires
        pre.wf(),
        pre.transition(reply, post, out),
    ensures
        post.ref_name@ == pre.ref_name@,
        out matches CopyStepView::Ask { query: GitQueryView::Push { ref_name, .. }, .. }
            ==> ref_name == pre.ref_name@,
        out matches CopyStepView::Ask { query: GitQueryView::DeleteRef { ref_name, .. }, .. }
            ==> ref_name == pre.ref_name@,
        post.copier.mapper != pre.copier.mapper ==> exists|sha: Oid|
            put_of(pre.copier.mapper, pre.side(), pre.current(), sha, post.copier.mapper),
{
}

/// A run that asks has not ended.
pub proof fn lemma_asking_run_goes_on(pre: RefCopy, reply: GitReplyView, post: RefCopy, out: CopyStepView)
    requires
        pre.wf(),
        pre.transition(reply, post, out),
        out is Ask,
    ensures
        post.stage != Stage::Finished,
        post.stage != Stage::Failed,
{
}

} // verus!
