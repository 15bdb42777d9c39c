//! How each action of a hook begins, once the subgit is opened and its
//! commit map is read.

use vstd::prelude::*;
use crate::action::{Action, RequestSync, Setup, SyncAll, SyncRefs, UpdateHook};
use crate::cli::{subgit_beside, subgit_of_hook};
use crate::filter::{matches_any, RefFilter};
use crate::location::Location;
use crate::oid::zero_oid;
use crate::port::{command_views, GitCommand, GitCommandView, GitQueryView};
use crate::sync::{
    export_job, job_views, optioned, reconcile_deletions, reconcile_imports, request_jobs,
    scheduled, RefEntry, Session, SessionStage, SessionStep, SessionStepView, WrappedSubGit,
};
use crate::text::string_views;

verus! {

/// The beginning of the work of a hook: first both working clones are
/// brought up to date, then the synchronisation runs.
#[derive(Debug)]
pub struct HookRun {
    /// What brings the working clones up to date.
    pub fetch: Vec<GitCommand>,
    pub session: Session,
    /// The first step of the synchronisation.
    pub step: SessionStep,
}

/// Both working clones are brought up to date before anything else.
pub open spec fn fetches_first(run: HookRun) -> bool {
    command_views(run.fetch@) == seq![
        GitCommandView::FetchAll { side: Location::SUBGIT },
        GitCommandView::FetchAll { side: Location::UPSTREAM },
    ]
}

/// The export of a push to the subgit has begun.
pub open spec fn export_begun(update: UpdateHook, wrapped: WrappedSubGit, run: HookRun) -> bool {
    &&& run.session.wf()
    &&& fetches_first(run)
    &&& run.session.wrapped == wrapped
    &&& run.session.run is None
    &&& run.session.next == 0
    &&& if !matches_any(string_views(wrapped.filters@), update.ref_name@) {
        &&& run.session.stage == SessionStage::Finished
        &&& run.step@ == SessionStepView::Done { commands: Seq::empty(), result: Ok(()) }
    } else if update.new_sha == zero_oid() {
        &&& run.session.stage == SessionStage::Between
        &&& job_views(run.session.jobs@) == seq![
            export_job(update.ref_name@, optioned(update.old_sha), None),
        ]
        &&& run.step@ == SessionStepView::Continue { commands: Seq::empty(), result: None }
    } else {
        &&& run.session.stage == SessionStage::Lookup
        &&& run.session.pending matches Some(pending) && pending.ref_name@ == update.ref_name@
            && pending.old == optioned(update.old_sha) && pending.new == update.new_sha
        &&& run.step@ == SessionStepView::Ask {
            commands: Seq::empty(),
            query: GitQueryView::FindReference {
                side: Location::UPSTREAM,
                working: false,
                name: update.ref_name@,
            },
        }
    }
}

/// The reconciliation of all refs has begun.
pub open spec fn reconciliation_begun(
    wrapped: WrappedSubGit,
    local_refs: Seq<RefEntry>,
    upstream_refs: Seq<RefEntry>,
    run: HookRun,
) -> bool {
    &&& run.session.wf()
    &&& fetches_first(run)
    &&& scheduled(
        wrapped,
        reconcile_imports(string_views(wrapped.filters@), local_refs, upstream_refs)
            + reconcile_deletions(string_views(wrapped.filters@), local_refs, upstream_refs),
        run.session,
        run.step@,
    )
}

/// The import of what a push to the upstream repository has moved has
/// begun.
pub open spec fn import_begun(sync: SyncRefs, wrapped: WrappedSubGit, run: HookRun) -> bool {
    &&& run.session.wf()
    &&& fetches_first(run)
    &&& scheduled(
        wrapped,
        request_jobs(string_views(wrapped.filters@), sync.requests@),
        run.session,
        run.step@,
    )
}

impl UpdateHook {
    /// Begins the export of the ref that a push to the subgit is about to
    /// move. The push is refused if the synchronisation fails.
    pub fn run(self, wrapped: WrappedSubGit) -> (r: HookRun)
        requires
            wrapped.wf(),
        ensures
            export_begun(self, wrapped, r),
    {
        let fetch = wrapped.update_self();
        let (session, step) = wrapped.push_ref_change_upstream(
            self.ref_name.as_str(),
            self.old_sha,
            self.new_sha,
        );
        HookRun { fetch, session, step }
    }
}

impl SyncAll {
    /// Begins the reconciliation of all refs, given the refs of the subgit
    /// and those of the upstream repository.
    pub fn run(self, wrapped: WrappedSubGit, local_refs: &Vec<RefEntry>, upstream_refs: &Vec<RefEntry>) -> (r: HookRun)
        requires
            wrapped.wf(),
        ensures
            reconciliation_begun(wrapped, local_refs@, upstream_refs@, r),
    {
        let fetch = wrapped.update_self();
        let (session, step) = wrapped.update_all_from_upstream(local_refs, upstream_refs);
        HookRun { fetch, session, step }
    }
}

/// The names of the refs that pass the filter, in the order of the requests.
pub open spec fn announced_refs(filters: Seq<Seq<char>>, sync: SyncRefs, upto: int) -> Seq<Seq<char>>
    decreases upto,
{
    if upto <= 0 {
        Seq::empty()
    } else {
        let before = announced_refs(filters, sync, upto - 1);
        let name = sync.requests@[upto - 1].ref_name@;
        if matches_any(filters, name) {
            before.push(name)
        } else {
            before
        }
    }
}

impl SyncRefs {
    /// The refs that the import is for: those of the requests that pass the
    /// filter.
    pub fn announce(&self, filters: &Vec<String>) -> (r: Vec<String>)
        ensures
            string_views(r@) == announced_refs(
                string_views(filters@),
                *self,
                self.requests@.len() as int,
            ),
    {
        let mut names: Vec<String> = Vec::new();
        let mut i: usize = 0;
        while i < self.requests.len()
            invariant
                i <= self.requests.len(),
                string_views(names@) == announced_refs(string_views(filters@), *self, i as int),
            decreases self.requests.len() - i,
        {
            if filters.matches(self.requests[i].ref_name.as_str()) {
                let name = self.requests[i].ref_name.clone();
                proof {
                    assert(string_views(names@.push(name)) == string_views(names@).push(name@));
                }
                names.push(name);
            }
            i += 1;
        }
        names
    }

    /// Begins the import of what a push to the upstream repository has
    /// moved.
    pub fn run(self, wrapped: WrappedSubGit) -> (r: HookRun)
        requires
            wrapped.wf(),
        ensures
            import_begun(self, wrapped, r),
    {
        let fetch = wrapped.update_self();
        let (session, step) = wrapped.sync_refs(&self.requests);
        HookRun { fetch, session, step }
    }
}

/// The hook program of the subgit, run for the post-receive hook of the
/// upstream repository: it is given what the hook was given.
#[derive(Debug, PartialEq, Eq)]
pub struct Relay {
    /// The hook program.
    pub program: String,
    /// The subgit, as the `GIT_DIR` of the program.
    pub git_dir: String,
    pub args: Vec<String>,
    /// What is written to the program.
    pub stdin: Vec<u8>,
}

impl RequestSync {
    /// Hands what the post-receive hook of the upstream repository was given
    /// on to the hook program of the subgit, which lies two levels below the
    /// subgit. Nothing where the path of the program has no two levels above
    /// it.
    pub fn run(self) -> (r: Option<Relay>)
        ensures
            r is Some <==> subgit_beside(self.env.hook_path@) is Some,
            r matches Some(relay) ==> {
                &&& relay.program@ == self.env.hook_path@
                &&& Some(relay.git_dir@) == subgit_beside(self.env.hook_path@)
                &&& string_views(relay.args@) == seq!["sync-refs"@]
                &&& relay.stdin@ == self.stdin@
            },
    {
        match subgit_of_hook(self.env.hook_path.as_str()) {
            None => None,
            Some(git_dir) => {
                let args = vec!["sync-refs".to_owned()];
                assert(string_views(args@) == seq!["sync-refs"@]);
                Some(Relay { program: self.env.hook_path, git_dir, args, stdin: self.stdin })
            },
        }
    }
}

impl Action {
    /// Begins the work of a hook. A setup is no work of a hook: it is handed
    /// back.
    pub fn run(self, wrapped: WrappedSubGit, local_refs: &Vec<RefEntry>, upstream_refs: &Vec<RefEntry>) -> (r: Result<
        HookRun,
        Setup,
    >)
        requires
            wrapped.wf(),
        ensures
            match self {
                Action::Setup(setup) => r == Err::<HookRun, Setup>(setup),
                Action::UpdateHook(update) => r matches Ok(run) && export_begun(update, wrapped, run),
                Action::SyncAll(_) => r matches Ok(run) && reconciliation_begun(
                    wrapped,
                    local_refs@,
                    upstream_refs@,
                    run,
                ),
                Action::SyncRefs(sync) => r matches Ok(run) && import_begun(sync, wrapped, run),
            },
    {
        match self {
            Action::Setup(setup) => Err(setup),
            Action::UpdateHook(update) => Ok(update.run(wrapped)),
            Action::SyncAll(all) => Ok(all.run(wrapped, local_refs, upstream_refs)),
            Action::SyncRefs(sync) => Ok(sync.run(wrapped)),
        }
    }
}

} // verus!
