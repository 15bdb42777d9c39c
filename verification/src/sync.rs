//! A subgit with its commit map, and the synchronisations that its hooks
//! run: the export of a push to the subgit, the import of pushes to the
//! upstream repository, and the reconciliation of all refs.
//!
//! A synchronisation is a list of jobs, one ref each, that are run one after
//! another. Each job is a unit of work on the commit map of its own.

use vstd::prelude::*;
use crate::action::{HookContext, RecursionDetection, RefSyncRequest};
use crate::cli::StringError;
use crate::copier::{Copier, GitLocation};
use crate::engine::{begun, CopyError, CopyStep, CopyStepView, RefCopy, Stage};
use crate::filter::{matches_any, RefFilter};
use crate::location::Location;
use crate::map::{
    lemma_put_keeps_pairs, lookup, paired, paired_tables, put_of, CommitMapper, MapEntry, MapStore,
    ReadOnlyMapper,
};
use crate::oid::{optionify_sha, zero_oid, Oid};
use crate::port::{
    command_views, GitCommand, GitCommandView, GitQuery, GitQueryView, GitReply, GitReplyView,
};
use crate::settings::Settings;
use crate::text::{same_str, string_views};

verus! {

/// Where the hook program is taken from at setup, and whether it is linked
/// or copied.
#[derive(Clone, Debug, PartialEq, Eq)]
pub struct BinSource {
    pub location: String,
    pub symlink: bool,
}

/// The directories of the two sides that are shown as each other.
#[derive(Debug, PartialEq, Eq)]
pub struct Workspace {
    pub upstream_path: String,
    pub local_path: String,
}

/// A ref of a repository and the commit that it names.
#[derive(Clone, Debug, PartialEq, Eq)]
pub struct RefEntry {
    pub name: String,
    pub target: Oid,
}

/// The commit that the list gives for the name: that of the first entry
/// with the name.
pub open spec fn find_ref(refs: Seq<RefEntry>, name: Seq<char>) -> Option<Oid>
    decreases refs.len(),
{
    if refs.len() == 0 {
        None
    } else if refs[0].name@ == name {
        Some(refs[0].target)
    } else {
        find_ref(refs.drop_first(), name)
    }
}

/// Looks a ref up in a list of refs.
pub fn find_reference(refs: &Vec<RefEntry>, name: &str) -> (r: Option<Oid>)
    ensures
        r == find_ref(refs@, name@),
{
    let mut i: usize = 0;
    assert(refs@.skip(0) == refs@);
    while i < refs.len()
        invariant
            i <= refs.len(),
            find_ref(refs@, name@) == find_ref(refs@.skip(i as int), name@),
        decreases refs.len() - i,
    {
        proof {
            assert(refs@.skip(i as int).drop_first() == refs@.skip(i + 1));
            assert(refs@.skip(i as int)[0] == refs@[i as int]);
        }
        if same_str(refs[i].name.as_str(), name) {
            return Some(refs[i].target);
        }
        i += 1;
    }
    assert(refs@.skip(refs.len() as int).len() == 0);
    None
}

/// How the old tip of a job is known.
#[derive(Clone, Copy, Debug, PartialEq, Eq)]
pub enum OldTip {
    /// The commit of the source itself.
    Known(Option<Oid>),
    /// The commit of the destination that the ref names there; it is
    /// translated back when the job begins.
    BackOf(Option<Oid>),
}

/// The synchronisation of one ref: the source has moved it from `old` to
/// `new`, and the destination is to follow.
#[derive(Debug, PartialEq, Eq)]
pub struct Job {
    pub source: Location,
    pub ref_name: String,
    pub old: OldTip,
    /// Nothing where the ref is deleted.
    pub new: Option<Oid>,
    pub force_push: bool,
    /// Whether the recursion guard is told of the push.
    pub listen: bool,
    /// The commit that the ref must name on the destination when the job has
    /// ended, where anything else means that the two sides are out of step.
    pub expect: Option<Option<Oid>>,
}

/// A `Job` as plain values.
pub struct JobView {
    pub source: Location,
    pub ref_name: Seq<char>,
    pub old: OldTip,
    pub new: Option<Oid>,
    pub force_push: bool,
    pub listen: bool,
    pub expect: Option<Option<Oid>>,
}

impl View for Job {
    type V = JobView;

    open spec fn view(&self) -> JobView {
        JobView {
            source: self.source,
            ref_name: self.ref_name@,
            old: self.old,
            new: self.new,
            force_push: self.force_push,
            listen: self.listen,
            expect: self.expect,
        }
    }
}

/// The views of a list of jobs.
pub open spec fn job_views(jobs: Seq<Job>) -> Seq<JobView> {
    Seq::new(jobs.len(), |i: int| jobs[i]@)
}

/// The import of one ref: the commits that the upstream repository has
/// gained are copied to the subgit, and the ref is pushed there by force.
pub open spec fn import_job(ref_name: Seq<char>, old: OldTip, new: Option<Oid>, expect: Option<Option<Oid>>) -> JobView {
    JobView {
        source: Location::UPSTREAM,
        ref_name,
        old,
        new,
        force_push: true,
        listen: true,
        expect,
    }
}

/// The export of one ref: the commits that the subgit has gained are copied
/// to the upstream repository, and the ref is pushed there without force, so
/// that the upstream repository can still refuse it.
pub open spec fn export_job(ref_name: Seq<char>, old: Option<Oid>, new: Option<Oid>) -> JobView {
    JobView {
        source: Location::SUBGIT,
        ref_name,
        old: OldTip::Known(old),
        new,
        force_push: false,
        listen: true,
        expect: None,
    }
}

/// The jobs of the export of a push to the subgit, which moved the ref from
/// `old` to `new`, once the commit `real_upstream` that the ref names in the
/// upstream repository is known. Where the upstream repository has moved on
/// from `old_upstream`, the translation of `old`, its new commits are
/// imported first, and the import must end at `old`.
pub open spec fn export_jobs(
    ref_name: Seq<char>,
    old: Option<Oid>,
    new: Oid,
    old_upstream: Option<Oid>,
    real_upstream: Option<Oid>,
) -> Seq<JobView> {
    if old_upstream != real_upstream && real_upstream is Some {
        seq![
            import_job(ref_name, OldTip::Known(old_upstream), real_upstream, Some(old)),
            export_job(ref_name, old, Some(new)),
        ]
    } else {
        seq![export_job(ref_name, old, Some(new))]
    }
}

/// The imports of a reconciliation: one for each ref of the upstream
/// repository that passes the filter, in the order of the refs.
pub open spec fn reconcile_imports(filters: Seq<Seq<char>>, local_refs: Seq<RefEntry>, upstream_refs: Seq<RefEntry>) -> Seq<JobView>
    decreases upstream_refs.len(),
{
    if upstream_refs.len() == 0 {
        Seq::empty()
    } else {
        let before = reconcile_imports(filters, local_refs, upstream_refs.drop_last());
        let entry = upstream_refs.last();
        if matches_any(filters, entry.name@) {
            before.push(
                import_job(
                    entry.name@,
                    OldTip::BackOf(find_ref(local_refs, entry.name@)),
                    Some(entry.target),
                    None,
                ),
            )
        } else {
            before
        }
    }
}

/// The deletions of a reconciliation: one for each ref of the subgit that
/// passes the filter and is gone from the upstream repository.
pub open spec fn reconcile_deletions(filters: Seq<Seq<char>>, local_refs: Seq<RefEntry>, upstream_refs: Seq<RefEntry>) -> Seq<JobView>
    decreases local_refs.len(),
{
    if local_refs.len() == 0 {
        Seq::empty()
    } else {
        let before = reconcile_deletions(filters, local_refs.drop_last(), upstream_refs);
        let entry = local_refs.last();
        if matches_any(filters, entry.name@) && find_ref(upstream_refs, entry.name@) is None {
            before.push(import_job(entry.name@, OldTip::BackOf(Some(entry.target)), None, None))
        } else {
            before
        }
    }
}

/// `None` for the identifier that stands for "no commit".
pub open spec fn optioned(sha: Oid) -> Option<Oid> {
    if sha == zero_oid() {
        None
    } else {
        Some(sha)
    }
}

/// The imports that a push to the upstream repository asks for: one for each
/// ref that it moved and that passes the filter.
pub open spec fn request_jobs(filters: Seq<Seq<char>>, requests: Seq<RefSyncRequest>) -> Seq<JobView>
    decreases requests.len(),
{
    if requests.len() == 0 {
        Seq::empty()
    } else {
        let before = request_jobs(filters, requests.drop_last());
        let request = requests.last();
        if matches_any(filters, request.ref_name@) {
            before.push(
                import_job(
                    request.ref_name@,
                    OldTip::Known(optioned(request.old_upstream_sha)),
                    optioned(request.new_upstream_sha),
                    None,
                ),
            )
        } else {
            before
        }
    }
}

/// Every job is for a ref that passes the filter.
pub open spec fn jobs_pass(filters: Seq<Seq<char>>, jobs: Seq<JobView>) -> bool {
    forall|i: int| 0 <= i < jobs.len() ==> matches_any(filters, (#[trigger] jobs[i]).ref_name)
}

/// A reconciliation has no job for a ref that fails the filter.
pub proof fn lemma_reconcile_passes(filters: Seq<Seq<char>>, local_refs: Seq<RefEntry>, upstream_refs: Seq<RefEntry>)
    ensures
        jobs_pass(filters, reconcile_imports(filters, local_refs, upstream_refs)),
        jobs_pass(filters, reconcile_deletions(filters, local_refs, upstream_refs)),
        jobs_pass(
            filters,
            reconcile_imports(filters, local_refs, upstream_refs) + reconcile_deletions(
                filters,
                local_refs,
                upstream_refs,
            ),
        ),
    decreases upstream_refs.len() + local_refs.len(),
{
    if upstream_refs.len() > 0 {
        lemma_reconcile_passes(filters, local_refs, upstream_refs.drop_last());
    }
    assert(jobs_pass(filters, reconcile_deletions(filters, local_refs, upstream_refs))) by {
        lemma_deletions_pass(filters, local_refs, upstream_refs);
    }
}

/// The deletions of a reconciliation are for refs that pass the filter.
pub proof fn lemma_deletions_pass(filters: Seq<Seq<char>>, local_refs: Seq<RefEntry>, upstream_refs: Seq<RefEntry>)
    ensures
        jobs_pass(filters, reconcile_deletions(filters, local_refs, upstream_refs)),
    decreases local_refs.len(),
{
    if local_refs.len() > 0 {
        lemma_deletions_pass(filters, local_refs.drop_last(), upstream_refs);
    }
}

/// The imports of a push are for refs that pass the filter.
pub proof fn lemma_requests_pass(filters: Seq<Seq<char>>, requests: Seq<RefSyncRequest>)
    ensures
        jobs_pass(filters, request_jobs(filters, requests)),
    decreases requests.len(),
{
    if requests.len() > 0 {
        lemma_requests_pass(filters, requests.drop_last());
    }
}

/// Why a synchronisation failed.
#[derive(Clone, Copy, Debug, PartialEq, Eq)]
pub enum SyncError {
    /// The upstream repository has moved on, and what it gained does not end
    /// at the commit that the push to the subgit started from.
    OutOfSync { expected: Option<Oid>, found: Option<Oid> },
    /// A job failed.
    Copy(CopyError),
}

impl SyncError {
    /// The error in words.
    pub open spec fn text(self) -> Seq<char> {
        match self {
            SyncError::OutOfSync { .. } => "Out of sync with the upstream repo!"@,
            SyncError::Copy(error) => error.text(),
        }
    }

    /// The error in words.
    pub fn message(self) -> (r: &'static str)
        ensures
            r@ == self.text(),
    {
        match self {
            SyncError::OutOfSync { .. } => "Out of sync with the upstream repo!",
            SyncError::Copy(error) => error.message(),
        }
    }

    /// The error for whoever wants nothing but its words.
    pub fn to_string_error(self) -> (r: StringError)
        ensures
            r.message@ == self.text(),
    {
        StringError { message: self.message().to_owned() }
    }
}

/// What a synchronisation is waiting for.
#[derive(Clone, Copy, Debug, PartialEq, Eq, Structural)]
pub enum SessionStage {
    /// For the commit that the ref names in the upstream repository.
    Lookup,
    /// For `advance`, which begins the next job.
    Between,
    /// For the answer to the query of the job that is run.
    Running,
    Finished,
    Failed,
}

/// What is to be done next in a synchronisation.
#[derive(Debug, PartialEq, Eq)]
pub enum SessionStep {
    /// Carry out the commands, then answer the query with `resume`.
    Ask { commands: Vec<GitCommand>, query: GitQuery },
    /// Carry out the commands, then call `advance`. A job has ended, with
    /// `result` as the commit that its ref names on the destination.
    Continue { commands: Vec<GitCommand>, result: Option<Oid> },
    /// Carry out the commands; the synchronisation has ended.
    Done { commands: Vec<GitCommand>, result: Result<(), SyncError> },
}

/// A `SessionStep` as plain values.
pub enum SessionStepView {
    Ask { commands: Seq<GitCommandView>, query: GitQueryView },
    Continue { commands: Seq<GitCommandView>, result: Option<Oid> },
    Done { commands: Seq<GitCommandView>, result: Result<(), SyncError> },
}

impl View for SessionStep {
    type V = SessionStepView;

    open spec fn view(&self) -> SessionStepView {
        match self {
            SessionStep::Ask { commands, query } => SessionStepView::Ask {
                commands: command_views(commands@),
                query: query@,
            },
            SessionStep::Continue { commands, result } => SessionStepView::Continue {
                commands: command_views(commands@),
                result: *result,
            },
            SessionStep::Done { commands, result } => SessionStepView::Done {
                commands: command_views(commands@),
                result: *result,
            },
        }
    }
}

/// The step of the job behind a step of the synchronisation.
pub open spec fn inner_step(out: SessionStepView) -> CopyStepView {
    match out {
        SessionStepView::Ask { commands, query } => CopyStepView::Ask { commands, query },
        SessionStepView::Continue { commands, result } => CopyStepView::Done {
            commands,
            result: Ok(result),
        },
        SessionStepView::Done { commands, result } => CopyStepView::Done {
            commands,
            result: match result {
                Err(SyncError::Copy(error)) => Err(error),
                Err(SyncError::OutOfSync { expected, found }) => Ok(found),
                Ok(_) => Ok(None),
            },
        },
    }
}

/// What a step of a job makes of the synchronisation: a query is handed on; a
/// failure ends the synchronisation; a job that has ended well is held
/// against what was expected of it, and the next job is due.
pub open spec fn completes(
    expect: Option<Option<Oid>>,
    next: int,
    inner: CopyStepView,
    post_stage: SessionStage,
    post_next: int,
    out: SessionStepView,
) -> bool {
    match inner {
        CopyStepView::Ask { commands, query } => {
            &&& post_stage == SessionStage::Running
            &&& post_next == next
            &&& out == SessionStepView::Ask { commands, query }
        },
        CopyStepView::Done { commands, result } => match result {
            Err(error) => {
                &&& post_stage == SessionStage::Failed
                &&& post_next == next
                &&& out == SessionStepView::Done { commands, result: Err(SyncError::Copy(error)) }
            },
            Ok(found) => match expect {
                Some(expected) if expected != found => {
                    &&& post_stage == SessionStage::Failed
                    &&& post_next == next
                    &&& out == SessionStepView::Done {
                        commands,
                        result: Err(SyncError::OutOfSync { expected, found }),
                    }
                },
                _ => {
                    &&& post_stage == SessionStage::Between
                    &&& post_next == next + 1
                    &&& out == SessionStepView::Continue { commands, result: found }
                },
            },
        },
    }
}

/// The old tip of a job, given the table of the destination side.
pub open spec fn job_old(job: JobView, back: Seq<MapEntry>) -> Option<Oid> {
    match job.old {
        OldTip::Known(old) => old,
        OldTip::BackOf(Some(local)) => lookup(back, local),
        OldTip::BackOf(None) => None,
    }
}

/// The push that an export waits to learn the upstream state of.
#[derive(Debug, PartialEq, Eq)]
pub struct Pending {
    pub ref_name: String,
    pub old: Option<Oid>,
    pub new: Oid,
}

/// A subgit: where it lies, its commit map, and its settings.
#[derive(Debug)]
pub struct WrappedSubGit {
    pub location: String,
    pub map: MapStore,
    pub recursion_detection: RecursionDetection,
    pub filters: Vec<String>,
    pub workspace: Workspace,
}

/// A synchronisation under way.
#[derive(Debug)]
pub struct Session {
    pub wrapped: WrappedSubGit,
    pub jobs: Vec<Job>,
    /// The place in the list of the job that is run, or that is due.
    pub next: usize,
    pub stage: SessionStage,
    /// The job that is run, or the last one that was, until the next begins.
    pub run: Option<RefCopy>,
    pub pending: Option<Pending>,
}

impl Workspace {
    /// The directory of `side` that is shown on the other side.
    pub open spec fn path(&self, side: Location) -> Seq<char> {
        match side {
            Location::UPSTREAM => self.upstream_path@,
            Location::SUBGIT => self.local_path@,
        }
    }

    /// The copier copies from `side` to the other side, between the
    /// directories of this workspace.
    pub open spec fn copies_from(&self, side: Location, copier: Copier) -> bool {
        &&& copier.source.name == side
        &&& copier.source.location@ == self.path(side)
        &&& copier.dest.name == side.flip()
        &&& copier.dest.location@ == self.path(side.flip())
    }

    /// A copier from the upstream repository to the subgit, with a unit of
    /// work begun on the map.
    pub fn get_importer(&self, map: MapStore) -> (r: Copier)
        requires
            map.wf(),
        ensures
            r.wf(),
            self.copies_from(Location::UPSTREAM, r),
            r.mapper.store() == map,
            r.mapper.committed(Location::SUBGIT) == map.table(Location::SUBGIT),
            r.mapper.committed(Location::UPSTREAM) == map.table(Location::UPSTREAM),
    {
        Copier {
            source: GitLocation { name: Location::UPSTREAM, location: self.upstream_path.clone() },
            dest: GitLocation { name: Location::SUBGIT, location: self.local_path.clone() },
            mapper: CommitMapper::new(map),
        }
    }

    /// A copier from the subgit to the upstream repository, with a unit of
    /// work begun on the map.
    pub fn get_exporter(&self, map: MapStore) -> (r: Copier)
        requires
            map.wf(),
        ensures
            r.wf(),
            self.copies_from(Location::SUBGIT, r),
            r.mapper.store() == map,
            r.mapper.committed(Location::SUBGIT) == map.table(Location::SUBGIT),
            r.mapper.committed(Location::UPSTREAM) == map.table(Location::UPSTREAM),
    {
        Copier {
            dest: GitLocation { name: Location::UPSTREAM, location: self.upstream_path.clone() },
            source: GitLocation { name: Location::SUBGIT, location: self.local_path.clone() },
            mapper: CommitMapper::new(map),
        }
    }
}

impl Session {
    /// The table of `side` as it would be kept if the synchronisation ended
    /// now: with what the jobs that ended well have recorded, and without
    /// what a job that is under way or has failed has recorded.
    pub open spec fn table(&self, side: Location) -> Seq<MapEntry> {
        match self.run {
            Some(run) => if run.stage == Stage::Finished {
                run.copier.mapper.table(side)
            } else {
                run.copier.mapper.committed(side)
            },
            None => self.wrapped.map.table(side),
        }
    }

    /// What holds of a synchronisation between its steps: its place lies in
    /// the list of jobs, a job that is run has not ended, and every job is
    /// for a ref that passes the filter.
    pub open spec fn wf(&self) -> bool {
        &&& self.wrapped.map.wf()
        &&& self.next <= self.jobs@.len()
        &&& match self.run {
            Some(run) => run.wf(),
            None => true,
        }
        &&& self.stage == SessionStage::Running ==> self.run is Some && self.next < self.jobs@.len()
            && self.run.unwrap().ref_name@ == self.jobs@[self.next as int].ref_name@
            && self.run.unwrap().stage != Stage::Finished && self.run.unwrap().stage != Stage::Failed
        &&& self.stage == SessionStage::Lookup ==> self.run is None && self.pending is Some
            && matches_any(string_views(self.wrapped.filters@), self.pending.unwrap().ref_name@)
        &&& jobs_pass(string_views(self.wrapped.filters@), job_views(self.jobs@))
    }

    /// The two tables of the commit map mirror each other: as they would be
    /// kept if the synchronisation ended now, and with what a job that is
    /// under way has recorded.
    pub open spec fn mirrored(&self) -> bool {
        &&& paired_tables(self.table(Location::UPSTREAM), self.table(Location::SUBGIT))
        &&& match self.run {
            Some(run) => paired(run.copier.mapper.store()),
            None => true,
        }
    }

    /// The subgit and the jobs are the same in both.
    pub open spec fn same_plan(&self, other: Session) -> bool {
        &&& self.wrapped.location == other.wrapped.location
        &&& self.wrapped.recursion_detection == other.wrapped.recursion_detection
        &&& self.wrapped.filters == other.wrapped.filters
        &&& self.wrapped.workspace == other.wrapped.workspace
        &&& self.jobs == other.jobs
    }

    /// The synchronisation has failed on an answer that it did not wait for.
    pub open spec fn confused(&self, post: Session, out: SessionStepView) -> bool {
        &&& post.same_plan(*self)
        &&& post.next == self.next
        &&& post.run == self.run
        &&& post.wrapped.map == self.wrapped.map
        &&& post.stage == SessionStage::Failed
        &&& out == SessionStepView::Done {
            commands: Seq::empty(),
            result: Err(SyncError::Copy(CopyError::Unexpected)),
        }
    }

    /// What an answer makes of a synchronisation.
    pub open spec fn resumed(&self, reply: GitReplyView, post: Session, out: SessionStepView) -> bool {
        match self.stage {
            SessionStage::Lookup => match reply {
                GitReplyView::Reference(real_upstream) => {
                    let pending = self.pending.unwrap();
                    &&& post.wrapped.location == self.wrapped.location
                    &&& post.wrapped.recursion_detection == self.wrapped.recursion_detection
                    &&& post.wrapped.filters == self.wrapped.filters
                    &&& post.wrapped.workspace == self.wrapped.workspace
                    &&& post.wrapped.map == self.wrapped.map
                    &&& post.run is None
                    &&& post.next == 0
                    &&& post.stage == SessionStage::Between
                    &&& job_views(post.jobs@) == export_jobs(
                        pending.ref_name@,
                        pending.old,
                        pending.new,
                        match pending.old {
                            Some(old) => self.wrapped.map.get(Location::SUBGIT, old),
                            None => None,
                        },
                        real_upstream,
                    )
                    &&& out == SessionStepView::Continue { commands: Seq::empty(), result: None }
                },
                _ => self.confused(post, out),
            },
            SessionStage::Running => {
                &&& post.same_plan(*self)
                &&& post.wrapped.map == self.wrapped.map
                &&& post.run is Some
                &&& self.run.unwrap().transition(reply, post.run.unwrap(), inner_step(out))
                &&& completes(
                    self.jobs@[self.next as int].expect,
                    self.next as int,
                    inner_step(out),
                    post.stage,
                    post.next as int,
                    out,
                )
            },
            _ => self.confused(post, out),
        }
    }

    /// What `advance` makes of a synchronisation that waits for it: it ends
    /// where no job is left, and else begins the next job on the commit map
    /// as the jobs before it have left it.
    pub open spec fn advanced(&self, post: Session, out: SessionStepView) -> bool {
        &&& post.same_plan(*self)
        &&& if self.next >= self.jobs@.len() {
            &&& post.run is None
            &&& post.next == self.next
            &&& post.stage == SessionStage::Finished
            &&& post.wrapped.map.table(Location::SUBGIT) == self.table(Location::SUBGIT)
            &&& post.wrapped.map.table(Location::UPSTREAM) == self.table(Location::UPSTREAM)
            &&& out == SessionStepView::Done { commands: Seq::empty(), result: Ok(()) }
        } else {
            let job = self.jobs@[self.next as int];
            &&& post.run is Some
            &&& self.wrapped.workspace.copies_from(job.source, post.run.unwrap().copier)
            &&& post.run.unwrap().copier.mapper.committed(Location::SUBGIT) == self.table(
                Location::SUBGIT,
            )
            &&& post.run.unwrap().copier.mapper.committed(Location::UPSTREAM) == self.table(
                Location::UPSTREAM,
            )
            &&& post.run.unwrap().copier.mapper.table(Location::SUBGIT) == self.table(
                Location::SUBGIT,
            )
            &&& post.run.unwrap().copier.mapper.table(Location::UPSTREAM) == self.table(
                Location::UPSTREAM,
            )
            &&& begun(
                post.run.unwrap().copier,
                job.ref_name@,
                job_old(job@, self.table(job.source.flip())),
                job.new,
                job.force_push,
                self.wrapped.recursion_detection.push_opts(),
                if job.listen {
                    Some(self.wrapped.recursion_detection)
                } else {
                    None
                },
                post.run.unwrap(),
                inner_step(out),
            )
            &&& completes(job.expect, self.next as int, inner_step(out), post.stage, post.next as int, out)
        }
    }

    /// Hands on the step of the job that is run.
    fn complete(&mut self, step: CopyStep) -> (out: SessionStep)
        requires
            old(self).wrapped.map.wf(),
            old(self).next < old(self).jobs@.len(),
            old(self).run matches Some(run) ==> run.wf(),
            jobs_pass(string_views(old(self).wrapped.filters@), job_views(old(self).jobs@)),
        ensures
            final(self).same_plan(*old(self)),
            final(self).run == old(self).run,
            final(self).wrapped.map == old(self).wrapped.map,
            final(self).pending == old(self).pending,
            inner_step(out@) == step@,
            completes(
                old(self).jobs@[old(self).next as int].expect,
                old(self).next as int,
                step@,
                final(self).stage,
                final(self).next as int,
                out@,
            ),
            old(self).run is Some && old(self).run.unwrap().ref_name@ == old(self).jobs@[old(
                self,
            ).next as int].ref_name@ && (step is Ask ==> old(self).run.unwrap().stage
                != Stage::Finished && old(self).run.unwrap().stage != Stage::Failed)
                ==> final(self).wf(),
    {
        match step {
            CopyStep::Ask { commands, query } => {
                self.stage = SessionStage::Running;
                SessionStep::Ask { commands, query }
            },
            CopyStep::Done { commands, result } => match result {
                Err(error) => {
                    self.stage = SessionStage::Failed;
                    SessionStep::Done { commands, result: Err(SyncError::Copy(error)) }
                },
                Ok(found) => {
                    let in_step = match self.jobs[self.next].expect {
                        Some(expected) => same_option(&expected, &found),
                        None => true,
                    };
                    if in_step {
                        self.stage = SessionStage::Between;
                        let count = self.jobs.len();
                        assert(self.next < count);
                        self.next = self.next + 1;
                        SessionStep::Continue { commands, result: found }
                    } else {
                        self.stage = SessionStage::Failed;
                        SessionStep::Done {
                            commands,
                            result: Err(
                                SyncError::OutOfSync {
                                    expected: self.jobs[self.next].expect.unwrap(),
                                    found,
                                },
                            ),
                        }
                    }
                },
            },
        }
    }

    /// Ends the synchronisation on an answer that it did not wait for.
    fn confuse(&mut self) -> (out: SessionStep)
        requires
            old(self).wf(),
        ensures
            final(self).wf(),
            old(self).confused(*final(self), out@),
    {
        self.stage = SessionStage::Failed;
        let out = SessionStep::Done {
            commands: Vec::new(),
            result: Err(SyncError::Copy(CopyError::Unexpected)),
        };
        assert(command_views(Seq::<GitCommand>::empty()) == Seq::<GitCommandView>::empty());
        out
    }

    /// Takes the answer to the query of the last step and says what is to be
    /// done next.
    pub fn resume(&mut self, reply: GitReply) -> (out: SessionStep)
        requires
            old(self).wf(),
        ensures
            final(self).wf(),
            old(self).resumed(reply@, *final(self), out@),
    {
        match self.stage {
            SessionStage::Lookup => match reply {
                GitReply::Reference(real_upstream) => {
                    let mut taken: Option<Pending> = None;
                    std::mem::swap(&mut taken, &mut self.pending);
                    let pending = taken.unwrap();
                    let old_upstream = ReadOnlyMapper::new(&self.wrapped.map).get_translated(
                        pending.old.as_ref(),
                        Location::SUBGIT,
                    );
                    self.jobs = plan_export(
                        &self.wrapped.filters,
                        pending.ref_name,
                        pending.old,
                        pending.new,
                        old_upstream,
                        real_upstream,
                    );
                    self.next = 0;
                    self.stage = SessionStage::Between;
                    let out = SessionStep::Continue { commands: Vec::new(), result: None };
                    assert(command_views(Seq::<GitCommand>::empty()) == Seq::<GitCommandView>::empty());
                    out
                },
                _ => self.confuse(),
            },
            SessionStage::Running => {
                let mut taken: Option<RefCopy> = None;
                std::mem::swap(&mut taken, &mut self.run);
                let mut run = taken.unwrap();
                let ghost before = run;
                let step = run.resume(reply);
                proof {
                    crate::engine::lemma_run_keeps_to_its_ref(before, reply@, run, step@);
                    if step is Ask {
                        crate::engine::lemma_asking_run_goes_on(before, reply@, run, step@);
                    }
                }
                self.run = Some(run);
                self.complete(step)
            },
            _ => self.confuse(),
        }
    }

    /// Begins the next job, or ends the synchronisation where none is left.
    /// The job before it is closed: what it recorded in the commit map is
    /// kept.
    pub fn advance(&mut self) -> (out: SessionStep)
        requires
            old(self).wf(),
            old(self).stage == SessionStage::Between,
        ensures
            final(self).wf(),
            old(self).advanced(*final(self), out@),
    {
        let mut previous: Option<RefCopy> = None;
        std::mem::swap(&mut previous, &mut self.run);
        let map = match previous {
            Some(run) => run.finish(),
            None => {
                let mut map = MapStore::new();
                std::mem::swap(&mut map, &mut self.wrapped.map);
                map
            },
        };
        assert(map.table(Location::SUBGIT) == old(self).table(Location::SUBGIT));
        assert(map.table(Location::UPSTREAM) == old(self).table(Location::UPSTREAM));
        if self.next >= self.jobs.len() {
            self.wrapped.map = map;
            self.stage = SessionStage::Finished;
            let out = SessionStep::Done { commands: Vec::new(), result: Ok(()) };
            assert(command_views(Seq::<GitCommand>::empty()) == Seq::<GitCommandView>::empty());
            out
        } else {
            let job = &self.jobs[self.next];
            let old_source = match job.old {
                OldTip::Known(old) => old,
                OldTip::BackOf(local) => ReadOnlyMapper::new(&map).get_translated(
                    local.as_ref(),
                    job.source.flip(),
                ),
            };
            let copier = match job.source {
                Location::UPSTREAM => self.wrapped.workspace.get_importer(map),
                Location::SUBGIT => self.wrapped.workspace.get_exporter(map),
            };
            let listener = if job.listen {
                Some(self.wrapped.recursion_detection.clone())
            } else {
                None
            };
            let (run, step) = copier.copy_ref_unchecked(
                job.ref_name.as_str(),
                old_source,
                job.new,
                job.force_push,
                self.wrapped.recursion_detection.get_push_opts(),
                listener,
            );
            self.wrapped.map = MapStore::new();
            self.run = Some(run);
            self.complete(step)
        }
    }

    /// Ends the synchronisation and hands the subgit back, with its commit
    /// map as the jobs that ended well have left it.
    pub fn finish(self) -> (r: WrappedSubGit)
        requires
            self.wf(),
        ensures
            r.map.wf(),
            r.map.table(Location::SUBGIT) == self.table(Location::SUBGIT),
            r.map.table(Location::UPSTREAM) == self.table(Location::UPSTREAM),
            self.mirrored() ==> paired(r.map),
            r.location == self.wrapped.location,
            r.recursion_detection == self.wrapped.recursion_detection,
            r.filters == self.wrapped.filters,
            r.workspace == self.wrapped.workspace,
    {
        let mut wrapped = self.wrapped;
        match self.run {
            Some(run) => {
                wrapped.map = run.finish();
            },
            None => {},
        }
        wrapped
    }
}

/// Whether the two are the same commit, or both none.
pub fn same_option(a: &Option<Oid>, b: &Option<Oid>) -> (r: bool)
    ensures
        r == (*a == *b),
{
    match (a, b) {
        (Some(x), Some(y)) => x.same(y),
        (None, None) => true,
        _ => false,
    }
}

/// Plans the export of a push to the subgit.
fn plan_export(
    filters: &Vec<String>,
    ref_name: String,
    old: Option<Oid>,
    new: Oid,
    old_upstream: Option<Oid>,
    real_upstream: Option<Oid>,
) -> (jobs: Vec<Job>)
    requires
        matches_any(string_views(filters@), ref_name@),
    ensures
        job_views(jobs@) == export_jobs(ref_name@, old, new, old_upstream, real_upstream),
        jobs_pass(string_views(filters@), job_views(jobs@)),
{
    let mut jobs: Vec<Job> = Vec::new();
    if !same_option(&old_upstream, &real_upstream) && real_upstream.is_some() {
        jobs.push(
            Job {
                source: Location::UPSTREAM,
                ref_name: ref_name.clone(),
                old: OldTip::Known(old_upstream),
                new: real_upstream,
                force_push: true,
                listen: true,
                expect: Some(old),
            },
        );
    }
    jobs.push(
        Job {
            source: Location::SUBGIT,
            ref_name,
            old: OldTip::Known(old),
            new: Some(new),
            force_push: false,
            listen: true,
            expect: None,
        },
    );
    assert(job_views(jobs@) == export_jobs(ref_name@, old, new, old_upstream, real_upstream));
    jobs
}

/// Plans a reconciliation of all refs.
pub fn plan_reconcile(filters: &Vec<String>, local_refs: &Vec<RefEntry>, upstream_refs: &Vec<RefEntry>) -> (jobs: Vec<Job>)
    ensures
        job_views(jobs@) == reconcile_imports(string_views(filters@), local_refs@, upstream_refs@)
            + reconcile_deletions(string_views(filters@), local_refs@, upstream_refs@),
        jobs_pass(string_views(filters@), job_views(jobs@)),
{
    let mut jobs: Vec<Job> = Vec::new();
    let mut i: usize = 0;
    while i < upstream_refs.len()
        invariant
            i <= upstream_refs.len(),
            job_views(jobs@) == reconcile_imports(
                string_views(filters@),
                local_refs@,
                upstream_refs@.take(i as int),
            ),
        decreases upstream_refs.len() - i,
    {
        proof {
            assert(upstream_refs@.take(i + 1).drop_last() == upstream_refs@.take(i as int));
        }
        let entry = &upstream_refs[i];
        if filters.matches(entry.name.as_str()) {
            let job = Job {
                source: Location::UPSTREAM,
                ref_name: entry.name.clone(),
                old: OldTip::BackOf(find_reference(local_refs, entry.name.as_str())),
                new: Some(entry.target),
                force_push: true,
                listen: true,
                expect: None,
            };
            proof {
                assert(job_views(jobs@.push(job)) == job_views(jobs@).push(job@));
            }
            jobs.push(job);
        }
        i += 1;
    }
    proof {
        assert(upstream_refs@.take(upstream_refs.len() as int) == upstream_refs@);
    }
    let ghost imports = job_views(jobs@);
    let mut k: usize = 0;
    while k < local_refs.len()
        invariant
            k <= local_refs.len(),
            job_views(jobs@) == imports + reconcile_deletions(
                string_views(filters@),
                local_refs@.take(k as int),
                upstream_refs@,
            ),
        decreases local_refs.len() - k,
    {
        proof {
            assert(local_refs@.take(k + 1).drop_last() == local_refs@.take(k as int));
        }
        let entry = &local_refs[k];
        if filters.matches(entry.name.as_str()) && find_reference(
            upstream_refs,
            entry.name.as_str(),
        ).is_none() {
            let job = Job {
                source: Location::UPSTREAM,
                ref_name: entry.name.clone(),
                old: OldTip::BackOf(Some(entry.target)),
                new: None,
                force_push: true,
                listen: true,
                expect: None,
            };
            proof {
                assert(job_views(jobs@.push(job)) == job_views(jobs@).push(job@));
            }
            jobs.push(job);
        }
        k += 1;
    }
    proof {
        assert(local_refs@.take(local_refs.len() as int) == local_refs@);
        lemma_reconcile_passes(string_views(filters@), local_refs@, upstream_refs@);
    }
    jobs
}

/// Plans the imports that a push to the upstream repository asks for.
pub fn plan_requests(filters: &Vec<String>, requests: &Vec<RefSyncRequest>) -> (jobs: Vec<Job>)
    ensures
        job_views(jobs@) == request_jobs(string_views(filters@), requests@),
        jobs_pass(string_views(filters@), job_views(jobs@)),
{
    let mut jobs: Vec<Job> = Vec::new();
    let mut i: usize = 0;
    while i < requests.len()
        invariant
            i <= requests.len(),
            job_views(jobs@) == request_jobs(string_views(filters@), requests@.take(i as int)),
        decreases requests.len() - i,
    {
        proof {
            assert(requests@.take(i + 1).drop_last() == requests@.take(i as int));
        }
        let request = &requests[i];
        if filters.matches(request.ref_name.as_str()) {
            let job = Job {
                source: Location::UPSTREAM,
                ref_name: request.ref_name.clone(),
                old: OldTip::Known(optionify_sha(request.old_upstream_sha)),
                new: optionify_sha(request.new_upstream_sha),
                force_push: true,
                listen: true,
                expect: None,
            };
            proof {
                assert(job_views(jobs@.push(job)) == job_views(jobs@).push(job@));
            }
            jobs.push(job);
        }
        i += 1;
    }
    proof {
        assert(requests@.take(requests.len() as int) == requests@);
        lemma_requests_pass(string_views(filters@), requests@);
    }
    jobs
}

/// The synchronisation was begun on the subgit with the given jobs, and the
/// first of them is due.
pub open spec fn scheduled(wrapped: WrappedSubGit, jobs: Seq<JobView>, session: Session, out: SessionStepView) -> bool {
    &&& session.wrapped == wrapped
    &&& job_views(session.jobs@) == jobs
    &&& session.next == 0
    &&& session.run is None
    &&& session.stage == SessionStage::Between
    &&& out == SessionStepView::Continue { commands: Seq::empty(), result: None }
}

impl WrappedSubGit {
    /// The commit map of the subgit is in order.
    pub open spec fn wf(&self) -> bool {
        self.map.wf()
    }

    /// Opens the subgit for a hook, unless the invocation was caused by a
    /// push of the synchronisation itself: then nothing is opened, so that the
    /// hook ends before it takes the lock. The commit map of what is opened
    /// is empty; its rows are put back once the lock is held.
    pub fn open(subgit_location: &str, settings: &Settings, context: &HookContext) -> (r: Option<
        WrappedSubGit,
    >)
        ensures
            r is None <==> settings.internal.recursion_detection.recursing(*context),
            r matches Some(wrapped) ==> {
                &&& wrapped.wf()
                &&& wrapped.location@ == subgit_location@
                &&& wrapped.map.table(Location::SUBGIT) == Seq::<MapEntry>::empty()
                &&& wrapped.map.table(Location::UPSTREAM) == Seq::<MapEntry>::empty()
                &&& wrapped.recursion_detection == settings.internal.recursion_detection
                &&& string_views(wrapped.filters@) == string_views(settings.internal.filters@)
                &&& wrapped.workspace.upstream_path@ == settings.internal.upstream_path@
                &&& wrapped.workspace.local_path@ == settings.internal.subgit_path@
            },
    {
        if settings.should_abort_hook(context) {
            None
        } else {
            Some(
                WrappedSubGit {
                    location: subgit_location.to_owned(),
                    map: MapStore::new(),
                    recursion_detection: settings.recursion_detection(),
                    filters: settings.filters(),
                    workspace: Workspace {
                        upstream_path: settings.upstream_path(),
                        local_path: settings.local_path(),
                    },
                },
            )
        }
    }

    /// Whether the hook is to end at once, because its invocation was caused
    /// by a push of the synchronisation itself.
    pub fn should_abort_hook(&self, context: &HookContext) -> (r: bool)
        ensures
            r == self.recursion_detection.recursing(*context),
    {
        let status = self.recursion_detection.detect_recursion(context);
        status.is_recursing
    }

    /// What brings both working clones up to date with their remotes.
    pub fn update_self(&self) -> (commands: Vec<GitCommand>)
        ensures
            command_views(commands@) == seq![
                GitCommandView::FetchAll { side: Location::SUBGIT },
                GitCommandView::FetchAll { side: Location::UPSTREAM },
            ],
    {
        let mut commands: Vec<GitCommand> = Vec::new();
        commands.push(GitCommand::FetchAll { side: Location::SUBGIT });
        commands.push(GitCommand::FetchAll { side: Location::UPSTREAM });
        assert(command_views(commands@) == seq![
            GitCommandView::FetchAll { side: Location::SUBGIT },
            GitCommandView::FetchAll { side: Location::UPSTREAM },
        ]);
        commands
    }

    /// Begins a synchronisation with the given jobs.
    fn schedule(self, jobs: Vec<Job>) -> (r: (Session, SessionStep))
        requires
            self.wf(),
            jobs_pass(string_views(self.filters@), job_views(jobs@)),
        ensures
            r.0.wf(),
            r.0.jobs == jobs,
            scheduled(self, job_views(jobs@), r.0, r.1@),
    {
        let session = Session {
            wrapped: self,
            jobs,
            next: 0,
            stage: SessionStage::Between,
            run: None,
            pending: None,
        };
        let out = SessionStep::Continue { commands: Vec::new(), result: None };
        assert(command_views(Seq::<GitCommand>::empty()) == Seq::<GitCommandView>::empty());
        (session, out)
    }

    /// Begins the export of a push to the subgit that moves the ref from
    /// `old_sha` to `new_sha`, either of which is the identifier that stands
    /// for "no commit" where the ref is created or deleted.
    ///
    /// A ref that fails the filter is passed over: the synchronisation has
    /// ended. A deletion is exported as it is. For anything else the commit
    /// that the ref names in the upstream repository is asked for; the jobs
    /// follow from the answer.
    pub fn push_ref_change_upstream(self, ref_name: &str, old_sha: Oid, new_sha: Oid) -> (r: (
        Session,
        SessionStep,
    ))
        requires
            self.wf(),
        ensures
            r.0.wf(),
            r.0.wrapped == self,
            r.0.run is None,
            r.0.next == 0,
            if !matches_any(string_views(self.filters@), ref_name@) {
                &&& r.0.stage == SessionStage::Finished
                &&& r.0.jobs@.len() == 0
                &&& r.1@ == SessionStepView::Done { commands: Seq::empty(), result: Ok(()) }
            } else if new_sha == zero_oid() {
                &&& r.0.stage == SessionStage::Between
                &&& job_views(r.0.jobs@) == seq![export_job(ref_name@, optioned(old_sha), None)]
                &&& r.1@ == SessionStepView::Continue { commands: Seq::empty(), result: None }
            } else {
                &&& r.0.stage == SessionStage::Lookup
                &&& r.0.jobs@.len() == 0
                &&& r.0.pending matches Some(pending) && pending.ref_name@ == ref_name@ && pending.old
                    == optioned(old_sha) && pending.new == new_sha
                &&& r.1@ == SessionStepView::Ask {
                    commands: Seq::empty(),
                    query: GitQueryView::FindReference {
                        side: Location::UPSTREAM,
                        working: false,
                        name: ref_name@,
                    },
                }
            },
    {
        assert(command_views(Seq::<GitCommand>::empty()) == Seq::<GitCommandView>::empty());
        if !self.filters.matches(ref_name) {
            let session = Session {
                wrapped: self,
                jobs: Vec::new(),
                next: 0,
                stage: SessionStage::Finished,
                run: None,
                pending: None,
            };
            return (session, SessionStep::Done { commands: Vec::new(), result: Ok(()) });
        }
        let old = optionify_sha(old_sha);
        match optionify_sha(new_sha) {
            None => {
                let job = Job {
                    source: Location::SUBGIT,
                    ref_name: ref_name.to_owned(),
                    old: OldTip::Known(old),
                    new: None,
                    force_push: false,
                    listen: true,
                    expect: None,
                };
                let jobs = vec![job];
                assert(job_views(jobs@) == seq![export_job(ref_name@, optioned(old_sha), None)]);
                let (session, out) = self.schedule(jobs);
                (session, out)
            },
            Some(new) => {
                let session = Session {
                    wrapped: self,
                    jobs: Vec::new(),
                    next: 0,
                    stage: SessionStage::Lookup,
                    run: None,
                    pending: Some(Pending { ref_name: ref_name.to_owned(), old, new }),
                };
                let out = SessionStep::Ask {
                    commands: Vec::new(),
                    query: GitQuery::FindReference {
                        side: Location::UPSTREAM,
                        working: false,
                        name: ref_name.to_owned(),
                    },
                };
                (session, out)
            },
        }
    }

    /// Begins the import of one ref that the upstream repository has moved
    /// from `old_upstream_sha` to `new_upstream_sha`. A ref that fails the
    /// filter is passed over.
    pub fn import_upstream_commits(
        self,
        ref_name: &str,
        old_upstream_sha: Option<Oid>,
        new_upstream_sha: Option<Oid>,
    ) -> (r: (Session, SessionStep))
        requires
            self.wf(),
        ensures
            r.0.wf(),
            scheduled(
                self,
                if matches_any(string_views(self.filters@), ref_name@) {
                    seq![
                        import_job(ref_name@, OldTip::Known(old_upstream_sha), new_upstream_sha, None),
                    ]
                } else {
                    Seq::empty()
                },
                r.0,
                r.1@,
            ),
    {
        let mut jobs: Vec<Job> = Vec::new();
        if self.filters.matches(ref_name) {
            jobs.push(
                Job {
                    source: Location::UPSTREAM,
                    ref_name: ref_name.to_owned(),
                    old: OldTip::Known(old_upstream_sha),
                    new: new_upstream_sha,
                    force_push: true,
                    listen: true,
                    expect: None,
                },
            );
            assert(job_views(jobs@) == seq![
                import_job(ref_name@, OldTip::Known(old_upstream_sha), new_upstream_sha, None),
            ]);
        } else {
            assert(job_views(jobs@) == Seq::<JobView>::empty());
        }
        self.schedule(jobs)
    }

    /// Begins the export of one ref that the subgit has moved from
    /// `old_local_sha` to `new_local_sha`, without a look at the upstream
    /// repository first. A ref that fails the filter is passed over.
    pub fn export_local_commits(
        self,
        ref_name: &str,
        old_local_sha: Option<Oid>,
        new_local_sha: Option<Oid>,
    ) -> (r: (Session, SessionStep))
        requires
            self.wf(),
        ensures
            r.0.wf(),
            scheduled(
                self,
                if matches_any(string_views(self.filters@), ref_name@) {
                    seq![export_job(ref_name@, old_local_sha, new_local_sha)]
                } else {
                    Seq::empty()
                },
                r.0,
                r.1@,
            ),
    {
        let mut jobs: Vec<Job> = Vec::new();
        if self.filters.matches(ref_name) {
            jobs.push(
                Job {
                    source: Location::SUBGIT,
                    ref_name: ref_name.to_owned(),
                    old: OldTip::Known(old_local_sha),
                    new: new_local_sha,
                    force_push: false,
                    listen: true,
                    expect: None,
                },
            );
            assert(job_views(jobs@) == seq![export_job(ref_name@, old_local_sha, new_local_sha)]);
        } else {
            assert(job_views(jobs@) == Seq::<JobView>::empty());
        }
        self.schedule(jobs)
    }

    /// Begins the reconciliation of all refs, given the refs of the subgit
    /// and those of the upstream repository: each ref of the upstream
    /// repository that passes the filter is imported, and each ref of the
    /// subgit that passes the filter and is gone from the upstream repository
    /// is deleted.
    pub fn update_all_from_upstream(self, local_refs: &Vec<RefEntry>, upstream_refs: &Vec<RefEntry>) -> (r: (
        Session,
        SessionStep,
    ))
        requires
            self.wf(),
        ensures
            r.0.wf(),
            scheduled(
                self,
                reconcile_imports(string_views(self.filters@), local_refs@, upstream_refs@)
                    + reconcile_deletions(string_views(self.filters@), local_refs@, upstream_refs@),
                r.0,
                r.1@,
            ),
    {
        let jobs = plan_reconcile(&self.filters, local_refs, upstream_refs);
        self.schedule(jobs)
    }

    /// Begins the imports that a push to the upstream repository asks for.
    pub fn sync_refs(self, requests: &Vec<RefSyncRequest>) -> (r: (Session, SessionStep))
        requires
            self.wf(),
        ensures
            r.0.wf(),
            scheduled(self, request_jobs(string_views(self.filters@), requests@), r.0, r.1@),
    {
        let jobs = plan_requests(&self.filters, requests);
        self.schedule(jobs)
    }

    /// Records the empty anchor of the subgit as the translation of each of
    /// the given commits of the upstream repository, which stand before the
    /// first commit that touches the directory that is republished.
    pub fn import_initial_empty_commits(&mut self, commits_to_import: &Vec<Oid>, empty_dest_sha: Oid)
        requires
            old(self).wf(),
        ensures
            final(self).wf(),
            final(self).location == old(self).location,
            final(self).recursion_detection == old(self).recursion_detection,
            final(self).filters == old(self).filters,
            final(self).workspace == old(self).workspace,
            old(self).map.table(Location::SUBGIT).is_prefix_of(final(self).map.table(Location::SUBGIT)),
            old(self).map.table(Location::UPSTREAM).is_prefix_of(
                final(self).map.table(Location::UPSTREAM),
            ),
            paired(old(self).map) ==> paired(final(self).map),
            forall|c: Oid|
                final(self).map.get(Location::UPSTREAM, c) == (if commits_to_import@.contains(c) {
                    Some(empty_dest_sha)
                } else {
                    old(self).map.get(Location::UPSTREAM, c)
                }),
            forall|c: Oid|
                final(self).map.get(Location::SUBGIT, c) == (if commits_to_import@.len() > 0 && c
                    == empty_dest_sha {
                    Some(commits_to_import@[0])
                } else {
                    old(self).map.get(Location::SUBGIT, c)
                }),
    {
        let mut map = MapStore::new();
        std::mem::swap(&mut map, &mut self.map);
        let mut copier = self.workspace.get_importer(map);
        let ghost before = copier.mapper;
        copier.import_initial_empty_commits(commits_to_import, empty_dest_sha);
        let ghost after = copier.mapper;
        self.map = copier.mapper.save_changes();
        proof {
            assert forall|c: Oid|
                self.map.get(Location::UPSTREAM, c) == (if commits_to_import@.contains(c) {
                    Some(empty_dest_sha)
                } else {
                    old(self).map.get(Location::UPSTREAM, c)
                }) by {
                assert(after.get(Location::UPSTREAM, c) == self.map.get(Location::UPSTREAM, c));
                assert(before.get(Location::UPSTREAM, c) == old(self).map.get(Location::UPSTREAM, c));
            }
            assert forall|c: Oid|
                self.map.get(Location::SUBGIT, c) == (if commits_to_import@.len() > 0 && c
                    == empty_dest_sha {
                    Some(commits_to_import@[0])
                } else {
                    old(self).map.get(Location::SUBGIT, c)
                }) by {
                assert(after.get(Location::SUBGIT, c) == self.map.get(Location::SUBGIT, c));
                assert(before.get(Location::SUBGIT, c) == old(self).map.get(Location::SUBGIT, c));
            }
        }
    }

    /// Records the pair of empty anchors that setup has made, one on each
    /// side.
    pub fn record_anchor(&mut self, upstream_empty_sha: Oid, subgit_empty_sha: Oid)
        requires
            old(self).wf(),
        ensures
            final(self).wf(),
            final(self).location == old(self).location,
            final(self).recursion_detection == old(self).recursion_detection,
            final(self).filters == old(self).filters,
            final(self).workspace == old(self).workspace,
            final(self).map.table(Location::UPSTREAM).drop_last() == old(self).map.table(
                Location::UPSTREAM,
            ),
            final(self).map.table(Location::SUBGIT).drop_last() == old(self).map.table(
                Location::SUBGIT,
            ),
            final(self).map.table(Location::UPSTREAM).len() == old(self).map.table(
                Location::UPSTREAM,
            ).len() + 1,
            final(self).map.table(Location::SUBGIT).len() == old(self).map.table(
                Location::SUBGIT,
            ).len() + 1,
            final(self).map.get(Location::UPSTREAM, upstream_empty_sha) == Some(subgit_empty_sha),
            final(self).map.get(Location::SUBGIT, subgit_empty_sha) == Some(upstream_empty_sha),
            paired(old(self).map) ==> paired(final(self).map),
    {
        let mut map = MapStore::new();
        std::mem::swap(&mut map, &mut self.map);
        let mut mapper = CommitMapper::new(map);
        mapper.put(Location::UPSTREAM, &upstream_empty_sha, &subgit_empty_sha);
        self.map = mapper.save_changes();
    }
}

/// An answer leaves what a job had found recorded when it began as it was.
pub proof fn lemma_run_keeps_committed(pre: RefCopy, reply: GitReplyView, post: RefCopy, out: CopyStepView, side: Location)
    requires
        pre.wf(),
        post.wf(),
        pre.transition(reply, post, out),
    ensures
        post.copier.mapper.committed(side) == pre.copier.mapper.committed(side),
        pre.copier.mapper.table(side).is_prefix_of(post.copier.mapper.table(side)),
        post.ref_name@ == pre.ref_name@,
{
    crate::engine::lemma_run_keeps_to_its_ref(pre, reply, post, out);
    if post.copier.mapper != pre.copier.mapper {
        let sha = choose|sha: Oid|
            put_of(pre.copier.mapper, pre.side(), pre.current(), sha, post.copier.mapper);
        let before = pre.copier.mapper.table(side);
        let after = post.copier.mapper.table(side);
        assert(after.drop_last() == before);
        assert(before.is_prefix_of(after));
        assert(after.take(pre.copier.mapper.base_len(side) as int) == before.take(
            pre.copier.mapper.base_len(side) as int,
        ));
    }
}

/// What the commit map holds is never changed or removed by an answer: the
/// tables only grow at their ends. So the pair of empty anchors that setup
/// has recorded stays recorded.
pub proof fn lemma_resume_keeps_entries(pre: Session, reply: GitReplyView, post: Session, out: SessionStepView, side: Location)
    requires
        pre.wf(),
        post.wf(),
        pre.resumed(reply, post, out),
    ensures
        pre.table(side).is_prefix_of(post.table(side)),
{
    if pre.stage == SessionStage::Running {
        let before = pre.run.unwrap();
        let after = post.run.unwrap();
        lemma_run_keeps_committed(before, reply, after, inner_step(out), side);
        assert(after.copier.mapper.committed(side).is_prefix_of(after.copier.mapper.table(side)));
    }
}

/// The commit map is written in pairs only: where its two tables mirrored
/// each other before an answer, they do so after it. So a pair that no later
/// pair supersedes reads back both ways at any time.
pub proof fn lemma_resume_keeps_pairs(pre: Session, reply: GitReplyView, post: Session, out: SessionStepView)
    requires
        pre.wf(),
        post.wf(),
        pre.mirrored(),
        pre.resumed(reply, post, out),
    ensures
        post.mirrored(),
{
    if pre.stage == SessionStage::Running {
        let before = pre.run.unwrap();
        let after = post.run.unwrap();
        lemma_run_keeps_committed(before, reply, after, inner_step(out), Location::UPSTREAM);
        lemma_run_keeps_committed(before, reply, after, inner_step(out), Location::SUBGIT);
        if after.copier.mapper != before.copier.mapper {
            let sha = choose|sha: Oid|
                put_of(before.copier.mapper, before.side(), before.current(), sha, after.copier.mapper);
            lemma_put_keeps_pairs(
                before.copier.mapper,
                before.side(),
                before.current(),
                sha,
                after.copier.mapper,
            );
        }
    }
}

/// The two tables of the commit map still mirror each other when the next
/// job begins, and when the synchronisation ends.
pub proof fn lemma_advance_keeps_pairs(pre: Session, post: Session, out: SessionStepView)
    requires
        pre.wf(),
        post.wf(),
        pre.stage == SessionStage::Between,
        pre.mirrored(),
        pre.advanced(post, out),
    ensures
        post.mirrored(),
{
}

/// A synchronisation begins with a commit map whose tables mirror each
/// other, where those of the subgit do.
pub proof fn lemma_schedule_keeps_pairs(wrapped: WrappedSubGit, jobs: Seq<JobView>, session: Session, out: SessionStepView)
    requires
        paired(wrapped.map),
        scheduled(wrapped, jobs, session, out),
    ensures
        session.mirrored(),
{
}

/// What the commit map holds is never changed or removed when the next job
/// begins.
pub proof fn lemma_advance_keeps_entries(pre: Session, post: Session, out: SessionStepView, side: Location)
    requires
        pre.wf(),
        post.wf(),
        pre.stage == SessionStage::Between,
        pre.advanced(post, out),
    ensures
        pre.table(side).is_prefix_of(post.table(side)),
{
}

/// A synchronisation pushes to no ref and deletes no ref that fails the
/// filter: whatever the answer, a push or a deletion that is asked for names
/// a ref that passes.
pub proof fn lemma_resume_passes_filter(pre: Session, reply: GitReplyView, post: Session, out: SessionStepView)
    requires
        pre.wf(),
        pre.resumed(reply, post, out),
    ensures
        out matches SessionStepView::Ask { query: GitQueryView::Push { ref_name, .. }, .. }
            ==> matches_any(string_views(pre.wrapped.filters@), ref_name),
        out matches SessionStepView::Ask { query: GitQueryView::DeleteRef { ref_name, .. }, .. }
            ==> matches_any(string_views(pre.wrapped.filters@), ref_name),
{
    if pre.stage == SessionStage::Running {
        crate::engine::lemma_run_keeps_to_its_ref(
            pre.run.unwrap(),
            reply,
            post.run.unwrap(),
            inner_step(out),
        );
        assert(matches_any(
            string_views(pre.wrapped.filters@),
            job_views(pre.jobs@)[pre.next as int].ref_name,
        ));
    }
}

/// A job that begins pushes to no ref and deletes no ref that fails the
/// filter.
pub proof fn lemma_advance_passes_filter(pre: Session, post: Session, out: SessionStepView)
    requires
        pre.wf(),
        pre.stage == SessionStage::Between,
        pre.advanced(post, out),
    ensures
        out matches SessionStepView::Ask { query: GitQueryView::Push { ref_name, .. }, .. }
            ==> matches_any(string_views(pre.wrapped.filters@), ref_name),
        out matches SessionStepView::Ask { query: GitQueryView::DeleteRef { ref_name, .. }, .. }
            ==> matches_any(string_views(pre.wrapped.filters@), ref_name),
{
    if pre.next < pre.jobs@.len() {
        assert(matches_any(
            string_views(pre.wrapped.filters@),
            job_views(pre.jobs@)[pre.next as int].ref_name,
        ));
    }
}

/// A ref that is in step is left alone. Where the commit that the ref names
/// on the destination is translated back to the very commit that the ref
/// names on the source, and that commit has its translation, the job of the
/// ref ends as it begins: nothing is asked, nothing is done to a repository,
/// and the commit map stays as it is. A reconciliation that follows one that
/// has ended, with no push between them, is made of such jobs.
pub proof fn lemma_settled_ref_is_left_alone(pre: Session, post: Session, out: SessionStepView, tip: Oid)
    requires
        pre.wf(),
        pre.stage == SessionStage::Between,
        pre.next < pre.jobs@.len(),
        pre.advanced(post, out),
        pre.jobs@[pre.next as int].new == Some(tip),
        pre.jobs@[pre.next as int].expect is None,
        job_old(pre.jobs@[pre.next as int]@, pre.table(pre.jobs@[pre.next as int].source.flip()))
            == Some(tip),
        lookup(pre.table(pre.jobs@[pre.next as int].source), tip) is Some,
    ensures
        out == (SessionStepView::Continue {
            commands: Seq::empty(),
            result: lookup(pre.table(pre.jobs@[pre.next as int].source), tip),
        }),
        post.stage == SessionStage::Between,
        post.next == pre.next + 1,
        post.table(Location::SUBGIT) == pre.table(Location::SUBGIT),
        post.table(Location::UPSTREAM) == pre.table(Location::UPSTREAM),
{
}

} // verus!
