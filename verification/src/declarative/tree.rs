//! Commit trees: commits with their changes and parents, and branches that
//! name commits.

use vstd::prelude::*;
use vstd::string::StringExecFns;
use crate::action::{entry_of, join_entry};

verus! {

/// What happens to one file in a commit.
#[derive(Debug, PartialEq, Eq)]
pub enum FileChange {
    Deleted,
    Content(String),
}

/// A `FileChange` as plain values.
pub enum FileChangeView {
    Deleted,
    Content(Seq<char>),
}

impl View for FileChange {
    type V = FileChangeView;

    open spec fn view(&self) -> FileChangeView {
        match self {
            FileChange::Deleted => FileChangeView::Deleted,
            FileChange::Content(text) => FileChangeView::Content(text@),
        }
    }
}

impl Clone for FileChange {
    fn clone(&self) -> (r: FileChange)
        ensures
            r == *self,
    {
        match self {
            FileChange::Deleted => FileChange::Deleted,
            FileChange::Content(text) => FileChange::Content(text.clone()),
        }
    }
}

/// A file and what happens to it.
#[derive(Debug, PartialEq, Eq)]
pub struct FileEntry {
    pub path: String,
    pub change: FileChange,
}

impl Clone for FileEntry {
    fn clone(&self) -> (r: FileEntry)
        ensures
            r == *self,
    {
        FileEntry { path: self.path.clone(), change: self.change.clone() }
    }
}

/// The changes of a commit: for each file that it touches, what happens to
/// it. Where a file is named more than once, what was said last counts.
#[derive(Debug, PartialEq, Eq)]
pub struct ChangeSet {
    pub files: Vec<FileEntry>,
}

/// The change of each file that the entries name.
pub open spec fn changes_of(entries: Seq<FileEntry>) -> Map<Seq<char>, FileChangeView>
    decreases entries.len(),
{
    if entries.len() == 0 {
        Map::empty()
    } else {
        changes_of(entries.drop_last()).insert(entries.last().path@, entries.last().change@)
    }
}

/// The files that are there once the entries are carried out in their order
/// on the files `start`, each with its content.
pub open spec fn contents_after(start: Map<Seq<char>, Seq<char>>, entries: Seq<FileEntry>) -> Map<
    Seq<char>,
    Seq<char>,
>
    decreases entries.len(),
{
    if entries.len() == 0 {
        start
    } else {
        let before = contents_after(start, entries.drop_last());
        match entries.last().change {
            FileChange::Deleted => before.remove(entries.last().path@),
            FileChange::Content(text) => before.insert(entries.last().path@, text@),
        }
    }
}

impl View for ChangeSet {
    type V = Map<Seq<char>, FileChangeView>;

    open spec fn view(&self) -> Map<Seq<char>, FileChangeView> {
        changes_of(self.files@)
    }
}

impl Clone for ChangeSet {
    fn clone(&self) -> (r: ChangeSet)
        ensures
            r.files@ == self.files@,
    {
        let mut files: Vec<FileEntry> = Vec::new();
        let mut i: usize = 0;
        while i < self.files.len()
            invariant
                i <= self.files.len(),
                files@ == self.files@.take(i as int),
            decreases self.files.len() - i,
        {
            files.push(self.files[i].clone());
            proof {
                assert(self.files@.take(i + 1) == self.files@.take(i as int).push(self.files@[i as int]));
            }
            i += 1;
        }
        proof {
            assert(self.files@.take(self.files.len() as int) == self.files@);
        }
        ChangeSet { files }
    }
}

impl ChangeSet {
    /// Says what happens to the file at `path`.
    pub fn add(&mut self, path: &str, change: FileChange)
        ensures
            final(self)@ == old(self)@.insert(path@, change@),
            final(self).files@.len() == old(self).files@.len() + 1,
            final(self).files@.last().path@ == path@,
            final(self).files@.last().change == change,
            final(self).files@.drop_last() == old(self).files@,
    {
        let entry = FileEntry { path: path.to_owned(), change };
        proof {
            assert(self.files@.push(entry).drop_last() == self.files@);
        }
        self.files.push(entry);
        proof {
            lemma_changes_push(old(self).files@, self.files@);
        }
    }

    /// No changes.
    pub fn new() -> (r: ChangeSet)
        ensures
            r@ == Map::<Seq<char>, FileChangeView>::empty(),
            r.files@.len() == 0,
    {
        ChangeSet { files: Vec::new() }
    }

    /// What happens to the file at `path`, if the changes name it.
    pub fn get(&self, path: &str) -> (r: Option<FileChange>)
        ensures
            r is Some <==> self@.dom().contains(path@),
            r matches Some(change) ==> change@ == self@[path@],
    {
        let mut i: usize = self.files.len();
        proof {
            assert(self.files@.take(i as int) == self.files@);
        }
        while i > 0
            invariant
                i <= self.files@.len(),
                changes_of(self.files@).dom().contains(path@) == changes_of(
                    self.files@.take(i as int),
                ).dom().contains(path@),
                changes_of(self.files@).dom().contains(path@) ==> changes_of(self.files@)[path@]
                    == changes_of(self.files@.take(i as int))[path@],
            decreases i,
        {
            proof {
                assert(self.files@.take(i as int).drop_last() == self.files@.take(i - 1));
                assert(self.files@.take(i as int).last() == self.files@[i - 1]);
            }
            if crate::text::same_str(self.files[i - 1].path.as_str(), path) {
                return Some(self.files[i - 1].change.clone());
            }
            i -= 1;
        }
        None
    }
}

/// One entry more changes what is said of its file and of no other.
proof fn lemma_changes_push(before: Seq<FileEntry>, after: Seq<FileEntry>)
    requires
        after.len() == before.len() + 1,
        after.drop_last() == before,
    ensures
        changes_of(after) == changes_of(before).insert(after.last().path@, after.last().change@),
{
}

/// A file and what happens to it, as plain values.
pub struct EntryView {
    pub path: Seq<char>,
    pub change: FileChangeView,
}

/// The views of a list of entries.
pub open spec fn entry_views(entries: Seq<FileEntry>) -> Seq<EntryView> {
    Seq::new(entries.len(), |i: int| EntryView { path: entries[i].path@, change: entries[i].change@ })
}

/// Makes the changes of a commit from the label of the commit.
pub trait ChangesForLabel: Sized {
    /// The changes of the commit with the label.
    spec fn changes(&self, label: Seq<char>) -> Seq<EntryView>;

    fn construct(self, label: &str) -> (r: ChangeSet)
        ensures
            entry_views(r.files@) == self.changes(label@),
    ;
}

/// Changes that add one file in the part of the upstream repository that is
/// not republished, one file in the part that is, both or neither.
#[derive(Debug, PartialEq, Eq)]
pub struct LabelBasedChangeSet {
    pub subgit_base: String,
    pub add_upstream: bool,
    pub add_subgit: bool,
}

/// The file that a commit adds outside of the part that is republished.
pub open spec fn upstream_file(label: Seq<char>) -> EntryView {
    EntryView {
        path: "up-"@ + label,
        change: FileChangeView::Content("New content in upstream area.\nLabel: "@ + label),
    }
}

/// The file that a commit adds in the part that is republished.
pub open spec fn subgit_file(subgit_base: Seq<char>, label: Seq<char>) -> EntryView {
    EntryView {
        path: entry_of(subgit_base, "sb-"@ + label),
        change: FileChangeView::Content("New content in subgit area.\nLabel: "@ + label),
    }
}

impl ChangesForLabel for LabelBasedChangeSet {
    open spec fn changes(&self, label: Seq<char>) -> Seq<EntryView> {
        (if self.add_upstream {
            seq![upstream_file(label)]
        } else {
            Seq::empty()
        }) + (if self.add_subgit {
            seq![subgit_file(self.subgit_base@, label)]
        } else {
            Seq::empty()
        })
    }

    fn construct(self, label: &str) -> (r: ChangeSet) {
        let mut change_set = ChangeSet::new();
        if self.add_upstream {
            let mut path = "up-".to_owned();
            path.append(label);
            let mut content = "New content in upstream area.\nLabel: ".to_owned();
            content.append(label);
            change_set.add(path.as_str(), FileChange::Content(content));
        }
        let ghost first = entry_views(change_set.files@);
        if self.add_subgit {
            let mut name = "sb-".to_owned();
            name.append(label);
            let path = join_entry(self.subgit_base.as_str(), name.as_str());
            let mut content = "New content in subgit area.\nLabel: ".to_owned();
            content.append(label);
            change_set.add(path.as_str(), FileChange::Content(content));
            assert(entry_views(change_set.files@) == first + seq![
                subgit_file(self.subgit_base@, label@),
            ]);
        } else {
            assert(first + Seq::<EntryView>::empty() == first);
        }
        assert(first == (if self.add_upstream {
            seq![upstream_file(label@)]
        } else {
            Seq::<EntryView>::empty()
        }));
        change_set
    }
}

/// The changes of a merge: none.
#[derive(Debug, PartialEq, Eq)]
pub struct MergeCommit;

impl ChangesForLabel for MergeCommit {
    open spec fn changes(&self, label: Seq<char>) -> Seq<EntryView> {
        Seq::empty()
    }

    fn construct(self, _label: &str) -> (r: ChangeSet) {
        let r = ChangeSet::new();
        assert(entry_views(r.files@) == Seq::<EntryView>::empty());
        r
    }
}

/// Makes changes for commits of a history whose republished part lies under
/// `subgit_base`.
#[derive(Debug, PartialEq, Eq)]
pub struct ChangeSetGenerator {
    pub subgit_base: String,
}

impl ChangeSetGenerator {
    /// A maker of changes for the republished directory `subgit_base`.
    pub fn new(subgit_base: &str) -> (r: ChangeSetGenerator)
        ensures
            r.subgit_base@ == subgit_base@,
    {
        ChangeSetGenerator { subgit_base: subgit_base.to_owned() }
    }

    /// Changes that add a file outside of the republished part, inside of
    /// it, or both, as the flags say.
    pub fn for_values(&self, add_upstream: bool, add_subgit: bool) -> (r: LabelBasedChangeSet)
        ensures
            r.subgit_base@ == self.subgit_base@,
            r.add_upstream == add_upstream,
            r.add_subgit == add_subgit,
    {
        LabelBasedChangeSet { subgit_base: self.subgit_base.clone(), add_upstream, add_subgit }
    }

    /// Changes outside of the part that is republished.
    pub fn upstream(&self) -> (r: LabelBasedChangeSet)
        ensures
            r.subgit_base@ == self.subgit_base@,
            r.add_upstream,
            !r.add_subgit,
    {
        self.for_values(true, false)
    }

    /// Changes in the part that is republished.
    pub fn subgit(&self) -> (r: LabelBasedChangeSet)
        ensures
            r.subgit_base@ == self.subgit_base@,
            !r.add_upstream,
            r.add_subgit,
    {
        self.for_values(false, true)
    }

    /// No changes.
    pub fn empty(&self) -> (r: LabelBasedChangeSet)
        ensures
            r.subgit_base@ == self.subgit_base@,
            !r.add_upstream,
            !r.add_subgit,
    {
        self.for_values(false, false)
    }

    /// Changes in both parts.
    pub fn both(&self) -> (r: LabelBasedChangeSet)
        ensures
            r.subgit_base@ == self.subgit_base@,
            r.add_upstream,
            r.add_subgit,
    {
        self.for_values(true, true)
    }
}

/// A commit of a tree: its place in the list of commits.
#[derive(Clone, Copy, Debug, PartialEq, Eq, Hash)]
pub struct CommitRef(usize);

impl CommitRef {
    /// The place of the commit in the list of commits of its tree.
    pub closed spec fn index(self) -> nat {
        self.0 as nat
    }

    /// The place of the commit in the list of commits of its tree.
    pub fn position(&self) -> (r: usize)
        ensures
            r == self.index(),
    {
        self.0
    }
}

/// A commit of a tree.
#[derive(Debug, PartialEq, Eq)]
pub struct Commit {
    pub message: String,
    pub changes: ChangeSet,
    pub parents: Vec<CommitRef>,
    pub id: CommitRef,
}

/// A branch of a tree and the commit that it names.
#[derive(Debug, PartialEq, Eq)]
pub struct Branch {
    pub name: String,
    pub target: CommitRef,
}

/// A history: commits, each behind its parents, and branches. Where a
/// branch is named more than once, what was said last counts.
#[derive(Debug, PartialEq, Eq)]
pub struct CommitTree {
    pub commits: Vec<Commit>,
    pub branches: Vec<Branch>,
}

/// The message of the commit with the label.
pub open spec fn message_of(label: Seq<char>) -> Seq<char> {
    "Commit: "@ + label
}

impl CommitTree {
    /// Each commit stands at the place that its id gives and behind all of
    /// its parents, and each branch names a commit of the tree.
    pub open spec fn wf(&self) -> bool {
        &&& forall|i: int|
            0 <= i < self.commits@.len() ==> (#[trigger] self.commits@[i]).id.index() == i
        &&& forall|i: int, k: int|
            0 <= i < self.commits@.len() && 0 <= k < self.commits@[i].parents@.len()
                ==> (#[trigger] self.commits@[i].parents@[k]).index() < i
        &&& forall|b: int|
            0 <= b < self.branches@.len() ==> (#[trigger] self.branches@[b]).target.index()
                < self.commits@.len()
    }

    /// The tree is `before` with one commit more, which has the given label
    /// and parents and the changes that `changes` makes for the label.
    pub open spec fn extends<C: ChangesForLabel>(&self, before: CommitTree, label: Seq<char>, changes: C, parents: Seq<CommitRef>, made: CommitRef) -> bool {
        &&& self.branches == before.branches
        &&& self.commits@.len() == before.commits@.len() + 1
        &&& self.commits@.drop_last() == before.commits@
        &&& made.index() == before.commits@.len()
        &&& self.commits@.last().id == made
        &&& self.commits@.last().message@ == message_of(label)
        &&& entry_views(self.commits@.last().changes.files@) == changes.changes(label)
        &&& self.commits@.last().parents@ == parents
    }

    /// A tree without commits and without branches.
    pub fn new() -> (r: CommitTree)
        ensures
            r.wf(),
            r.commits@.len() == 0,
            r.branches@.len() == 0,
    {
        CommitTree { commits: Vec::new(), branches: Vec::new() }
    }

    fn add_commit<C: ChangesForLabel>(&mut self, label: &str, changes: C, parents: Vec<CommitRef>) -> (r: CommitRef)
        requires
            old(self).wf(),
            forall|k: int| 0 <= k < parents@.len() ==> (#[trigger] parents@[k]).index() < old(
                self,
            ).commits@.len(),
        ensures
            final(self).wf(),
            final(self).extends(*old(self), label@, changes, parents@, r),
    {
        let commit_ref = CommitRef(self.commits.len());
        let mut message = "Commit: ".to_owned();
        message.append(label);
        let commit = Commit {
            message,
            changes: changes.construct(label),
            parents,
            id: commit_ref,
        };
        proof {
            assert(self.commits@.push(commit).drop_last() == self.commits@);
        }
        self.commits.push(commit);
        proof {
            assert forall|i: int, k: int|
                0 <= i < self.commits@.len() && 0 <= k < self.commits@[i].parents@.len() implies (
            #[trigger] self.commits@[i].parents@[k]).index() < i by {
                if i < old(self).commits@.len() {
                    assert(self.commits@[i] == old(self).commits@[i]);
                }
            }
            assert forall|i: int| 0 <= i < self.commits@.len() implies (
            #[trigger] self.commits@[i]).id.index() == i by {
                if i < old(self).commits@.len() {
                    assert(self.commits@[i] == old(self).commits@[i]);
                }
            }
        }
        commit_ref
    }

    /// Adds a commit without parents.
    pub fn root<C: ChangesForLabel>(&mut self, label: &str, changes: C) -> (r: CommitRef)
        requires
            old(self).wf(),
        ensures
            final(self).wf(),
            final(self).extends(*old(self), label@, changes, Seq::empty(), r),
    {
        self.add_commit(label, changes, Vec::new())
    }

    /// Adds a commit on a commit of the tree.
    pub fn commit<C: ChangesForLabel>(&mut self, label: &str, changes: C, parent: CommitRef) -> (r: CommitRef)
        requires
            old(self).wf(),
            parent.index() < old(self).commits@.len(),
        ensures
            final(self).wf(),
            final(self).extends(*old(self), label@, changes, seq![parent], r),
    {
        let parents = vec![parent];
        assert(parents@ == seq![parent]);
        self.add_commit(label, changes, parents)
    }

    /// Adds a merge of two commits of the tree. It changes no file.
    pub fn merge_2(&mut self, label: &str, parent: CommitRef, other_parent: CommitRef) -> (r: CommitRef)
        requires
            old(self).wf(),
            parent.index() < old(self).commits@.len(),
            other_parent.index() < old(self).commits@.len(),
        ensures
            final(self).wf(),
            final(self).extends(*old(self), label@, MergeCommit, seq![parent, other_parent], r),
    {
        let parents = vec![parent, other_parent];
        assert(parents@ == seq![parent, other_parent]);
        self.add_commit(label, MergeCommit, parents)
    }

    /// Lets the branch name a commit of the tree.
    pub fn branch(&mut self, name: &str, id: CommitRef)
        requires
            old(self).wf(),
            id.index() < old(self).commits@.len(),
        ensures
            final(self).wf(),
            final(self).commits == old(self).commits,
            final(self).branches@.len() == old(self).branches@.len() + 1,
            final(self).branches@.drop_last() == old(self).branches@,
            final(self).branches@.last().name@ == name@,
            final(self).branches@.last().target == id,
    {
        let entry = Branch { name: name.to_owned(), target: id };
        proof {
            assert(self.branches@.push(entry).drop_last() == self.branches@);
        }
        self.branches.push(entry);
        proof {
            assert forall|b: int| 0 <= b < self.branches@.len() implies (
            #[trigger] self.branches@[b]).target.index() < self.commits@.len() by {
                if b < old(self).branches@.len() {
                    assert(self.branches@[b] == old(self).branches@[b]);
                }
            }
        }
    }

    /// Whether the commit is one of the tree.
    pub fn holds(&self, id: CommitRef) -> (r: bool)
        ensures
            r == (id.index() < self.commits@.len()),
    {
        id.0 < self.commits.len()
    }
}

/// The parents of the commits of a level, in the order of the level.
pub open spec fn next_level(commits: Seq<Commit>, level: Seq<CommitRef>) -> Seq<CommitRef>
    decreases level.len(),
{
    if level.len() == 0 {
        Seq::empty()
    } else {
        next_level(commits, level.drop_last()) + commits[level.last().index() as int].parents@
    }
}

/// The commits of a level, then their parents, then the parents of those,
/// and so on for `depth` levels.
pub open spec fn levels_from(commits: Seq<Commit>, level: Seq<CommitRef>, depth: nat) -> Seq<CommitRef>
    decreases depth,
{
    if depth == 0 || level.len() == 0 {
        Seq::empty()
    } else {
        level + levels_from(commits, next_level(commits, level), (depth - 1) as nat)
    }
}

/// A commit and all that it descends from: the commit, then its parents,
/// then their parents, and so on. A commit that is reached on several ways is
/// listed once for each.
pub open spec fn ancestors(commits: Seq<Commit>, commit: CommitRef) -> Seq<CommitRef> {
    levels_from(commits, seq![commit], commit.index() + 1)
}

/// The changes of the commits of a list, one commit after another.
pub open spec fn path_entries(commits: Seq<Commit>, path: Seq<CommitRef>) -> Seq<FileEntry>
    decreases path.len(),
{
    if path.len() == 0 {
        Seq::empty()
    } else {
        path_entries(commits, path.drop_last()) + commits[path.last().index() as int].changes.files@
    }
}

/// A branch and the changes that lead to its files.
#[derive(Debug, PartialEq, Eq)]
pub struct BranchFiles {
    pub branch: String,
    pub files: ChangeSet,
}

impl ChangeSet {
    /// The content of the file at `path` once the changes are carried out in
    /// their order on no files; nothing where the file is not there then.
    pub fn content_of(&self, path: &str) -> (r: Option<String>)
        ensures
            r is Some <==> contents_after(Map::empty(), self.files@).dom().contains(path@),
            r matches Some(text) ==> text@ == contents_after(Map::empty(), self.files@)[path@],
    {
        let mut i: usize = self.files.len();
        proof {
            assert(self.files@.take(i as int) == self.files@);
        }
        while i > 0
            invariant
                i <= self.files@.len(),
                contents_after(Map::empty(), self.files@).dom().contains(path@) == contents_after(
                    Map::empty(),
                    self.files@.take(i as int),
                ).dom().contains(path@),
                contents_after(Map::empty(), self.files@).dom().contains(path@) ==> contents_after(
                    Map::empty(),
                    self.files@,
                )[path@] == contents_after(Map::empty(), self.files@.take(i as int))[path@],
            decreases i,
        {
            proof {
                assert(self.files@.take(i as int).drop_last() == self.files@.take(i - 1));
                assert(self.files@.take(i as int).last() == self.files@[i - 1]);
            }
            if crate::text::same_str(self.files[i - 1].path.as_str(), path) {
                return match &self.files[i - 1].change {
                    FileChange::Deleted => None,
                    FileChange::Content(text) => Some(text.clone()),
                };
            }
            i -= 1;
        }
        None
    }
}

impl CommitTree {
    /// The commit and all that it descends from, level by level.
    pub fn ancestor_path(&self, commit_ref: CommitRef) -> (r: Vec<CommitRef>)
        requires
            self.wf(),
            commit_ref.index() < self.commits@.len(),
        ensures
            r@ == ancestors(self.commits@, commit_ref),
            forall|k: int| 0 <= k < r@.len() ==> (#[trigger] r@[k]).index() < self.commits@.len(),
    {
        let mut out: Vec<CommitRef> = Vec::new();
        let mut level: Vec<CommitRef> = vec![commit_ref];
        let count = self.commits.len();
        assert(commit_ref.0 < count);
        let mut bound: usize = commit_ref.0 + 1;
        assert(level@ == seq![commit_ref]);
        assert(out@ + levels_from(self.commits@, level@, bound as nat) == ancestors(
            self.commits@,
            commit_ref,
        ));
        while level.len() > 0
            invariant
                self.wf(),
                bound <= self.commits@.len(),
                forall|k: int| 0 <= k < level@.len() ==> (#[trigger] level@[k]).index() < bound,
                forall|k: int| 0 <= k < out@.len() ==> (#[trigger] out@[k]).index() < self.commits@.len(),
                out@ + levels_from(self.commits@, level@, bound as nat) == ancestors(
                    self.commits@,
                    commit_ref,
                ),
            decreases bound,
        {
            assert(level@[0].index() < bound);
            let mut next: Vec<CommitRef> = Vec::new();
            let mut j: usize = 0;
            while j < level.len()
                invariant
                    self.wf(),
                    j <= level.len(),
                    0 < bound <= self.commits@.len(),
                    forall|k: int| 0 <= k < level@.len() ==> (#[trigger] level@[k]).index() < bound,
                    next@ == next_level(self.commits@, level@.take(j as int)),
                    forall|k: int| 0 <= k < next@.len() ==> (#[trigger] next@[k]).index() < bound - 1,
                decreases level.len() - j,
            {
                let at = level[j].0;
                assert(level@[j as int].index() < bound);
                let commit = &self.commits[at];
                let ghost start = next@;
                let mut k: usize = 0;
                while k < commit.parents.len()
                    invariant
                        k <= commit.parents.len(),
                        next@ == start + commit.parents@.take(k as int),
                        forall|m: int|
                            0 <= m < commit.parents@.len() ==> (#[trigger] commit.parents@[m]).index()
                                < bound - 1,
                        forall|m: int| 0 <= m < start.len() ==> (#[trigger] start[m]).index() < bound - 1,
                    decreases commit.parents.len() - k,
                {
                    next.push(commit.parents[k]);
                    proof {
                        assert(commit.parents@.take(k + 1) == commit.parents@.take(k as int).push(
                            commit.parents@[k as int],
                        ));
                    }
                    k += 1;
                }
                proof {
                    assert(commit.parents@.take(commit.parents.len() as int) == commit.parents@);
                    assert(level@.take(j + 1).drop_last() == level@.take(j as int));
                    assert(level@.take(j + 1).last() == level@[j as int]);
                }
                j += 1;
            }
            proof {
                assert(level@.take(level.len() as int) == level@);
            }
            let ghost before = out@;
            let mut m: usize = 0;
            while m < level.len()
                invariant
                    m <= level.len(),
                    out@ == before + level@.take(m as int),
                    bound <= self.commits@.len(),
                    forall|k: int| 0 <= k < level@.len() ==> (#[trigger] level@[k]).index() < bound,
                    forall|k: int|
                        0 <= k < before.len() ==> (#[trigger] before[k]).index() < self.commits@.len(),
                decreases level.len() - m,
            {
                out.push(level[m]);
                proof {
                    assert(level@.take(m + 1) == level@.take(m as int).push(level@[m as int]));
                }
                m += 1;
            }
            proof {
                assert(level@.take(level.len() as int) == level@);
                assert(before + level@ + levels_from(self.commits@, next@, (bound - 1) as nat)
                    == before + (level@ + levels_from(self.commits@, next@, (bound - 1) as nat)));
            }
            level = next;
            bound -= 1;
        }
        proof {
            assert(out@ + Seq::<CommitRef>::empty() == out@);
        }
        out
    }

    /// For each branch, the changes that lead to its files: those of the
    /// commit that the branch names and of all that it descends from, in the
    /// order of `ancestors`.
    pub fn reify(&self) -> (r: Vec<BranchFiles>)
        requires
            self.wf(),
        ensures
            r@.len() == self.branches@.len(),
            forall|b: int|
                0 <= b < r@.len() ==> (#[trigger] r@[b]).branch@ == self.branches@[b].name@
                    && r@[b].files.files@ == path_entries(
                    self.commits@,
                    ancestors(self.commits@, self.branches@[b].target),
                ),
    {
        let mut out: Vec<BranchFiles> = Vec::new();
        let mut b: usize = 0;
        while b < self.branches.len()
            invariant
                self.wf(),
                b <= self.branches.len(),
                out@.len() == b,
                forall|i: int|
                    0 <= i < b ==> (#[trigger] out@[i]).branch@ == self.branches@[i].name@
                        && out@[i].files.files@ == path_entries(
                        self.commits@,
                        ancestors(self.commits@, self.branches@[i].target),
                    ),
            decreases self.branches.len() - b,
        {
            let target = self.branches[b].target;
            assert(self.branches@[b as int].target.index() < self.commits@.len());
            let path = self.ancestor_path(target);
            let mut files: Vec<FileEntry> = Vec::new();
            let mut i: usize = 0;
            while i < path.len()
                invariant
                    i <= path.len(),
                    forall|k: int|
                        0 <= k < path@.len() ==> (#[trigger] path@[k]).index() < self.commits@.len(),
                    files@ == path_entries(self.commits@, path@.take(i as int)),
                decreases path.len() - i,
            {
                assert(path@[i as int].index() < self.commits@.len());
                let commit = &self.commits[path[i].0];
                let ghost start = files@;
                let mut k: usize = 0;
                while k < commit.changes.files.len()
                    invariant
                        k <= commit.changes.files.len(),
                        files@ == start + commit.changes.files@.take(k as int),
                    decreases commit.changes.files.len() - k,
                {
                    files.push(commit.changes.files[k].clone());
                    proof {
                        assert(commit.changes.files@.take(k + 1) == commit.changes.files@.take(
                            k as int,
                        ).push(commit.changes.files@[k as int]));
                    }
                    k += 1;
                }
                proof {
                    assert(commit.changes.files@.take(commit.changes.files.len() as int)
                        == commit.changes.files@);
                    assert(path@.take(i + 1).drop_last() == path@.take(i as int));
                    assert(path@.take(i + 1).last() == path@[i as int]);
                }
                i += 1;
            }
            proof {
                assert(path@.take(path.len() as int) == path@);
            }
            out.push(BranchFiles { branch: self.branches[b].name.clone(), files: ChangeSet { files } });
            b += 1;
        }
        out
    }
}

/// What is known of the commits of a tree once they are made in a
/// repository: for each commit its identifier there, and the branch that
/// names it.
#[derive(Debug, PartialEq, Eq)]
pub struct TreeRecord {
    pub to_sha: Vec<Option<String>>,
    pub to_branch: Vec<Option<String>>,
}

/// What a list of slots says of a place: nothing where the list ends before
/// it.
pub open spec fn slot(slots: Seq<Option<String>>, at: nat) -> Option<Seq<char>> {
    if at < slots.len() {
        match slots[at as int] {
            Some(text) => Some(text@),
            None => None,
        }
    } else {
        None
    }
}

/// Fills one slot of a list, which grows as far as needed.
fn fill_slot(slots: &mut Vec<Option<String>>, at: usize, value: String)
    ensures
        slot(final(slots)@, at as nat) == Some(value@),
        forall|other: nat| other != at ==> slot(final(slots)@, other) == slot(old(slots)@, other),
{
    while slots.len() <= at
        invariant
            forall|other: nat| slot(slots@, other) == slot(old(slots)@, other),
        decreases at + 1 - slots.len(),
    {
        let ghost before = slots@;
        slots.push(None);
        proof {
            assert forall|other: nat| slot(slots@, other) == slot(before, other) by {
                if other < before.len() {
                    assert(slots@[other as int] == before[other as int]);
                }
            }
        }
    }
    let ghost before = slots@;
    slots.set(at, Some(value));
    proof {
        assert forall|other: nat| other != at implies slot(slots@, other) == slot(old(slots)@, other) by {
            if other < before.len() {
                assert(slots@[other as int] == before[other as int]);
            }
        }
    }
}

impl TreeRecord {
    /// The identifier of the commit in the repository, where it was made.
    pub open spec fn sha(&self, commit: CommitRef) -> Option<Seq<char>> {
        slot(self.to_sha@, commit.index())
    }

    /// The branch that names the commit, where one does.
    pub open spec fn branch(&self, commit: CommitRef) -> Option<Seq<char>> {
        slot(self.to_branch@, commit.index())
    }

    /// Nothing is known yet.
    pub fn new() -> (r: TreeRecord)
        ensures
            forall|commit: CommitRef| r.sha(commit) is None && r.branch(commit) is None,
    {
        TreeRecord { to_sha: Vec::new(), to_branch: Vec::new() }
    }

    /// The identifier of the commit in the repository.
    pub fn sha_of(&self, commit: CommitRef) -> (r: Option<String>)
        ensures
            r is Some <==> self.sha(commit) is Some,
            r matches Some(text) ==> Some(text@) == self.sha(commit),
    {
        if commit.0 < self.to_sha.len() {
            match &self.to_sha[commit.0] {
                Some(text) => Some(text.clone()),
                None => None,
            }
        } else {
            None
        }
    }

    /// The branch that names the commit.
    pub fn branch_of(&self, commit: CommitRef) -> (r: Option<String>)
        ensures
            r is Some <==> self.branch(commit) is Some,
            r matches Some(text) ==> Some(text@) == self.branch(commit),
    {
        if commit.0 < self.to_branch.len() {
            match &self.to_branch[commit.0] {
                Some(text) => Some(text.clone()),
                None => None,
            }
        } else {
            None
        }
    }
}

/// A repository in which commits and branches can be made. The identifier of
/// a commit is whatever the repository gives it.
pub trait NiceGit {
    /// Makes a commit without parents that holds the files of the changes.
    fn commit_orphan(&self, message: String, change_set: ChangeSet) -> String;

    /// Merges the commits, the first of which is checked out.
    fn commit_merge(&self, message: String, parents: Vec<String>) -> String;

    /// Makes a commit with the changes on the parent.
    fn commit_child(&self, message: String, change_set: ChangeSet, parent: String) -> String;

    /// Lets the branch name the commit.
    fn make_branch(&self, branch: String, commit: String);
}

impl CommitTree {
    /// Makes the commits and the branches of the tree in a repository, and
    /// records the identifier that each commit is given. A commit whose
    /// identifier is recorded already is not made again.
    pub fn commit_tree<GIT: NiceGit>(self, git: &GIT, record: &mut TreeRecord)
        requires
            self.wf(),
        ensures
            forall|i: int|
                0 <= i < self.commits@.len() ==> final(record).sha((#[trigger] self.commits@[i]).id)
                    is Some,
            forall|commit: CommitRef|
                old(record).sha(commit) is Some ==> final(record).sha(commit) == old(record).sha(
                    commit,
                ),
            forall|b: int|
                0 <= b < self.branches@.len() ==> final(record).branch(
                    (#[trigger] self.branches@[b]).target,
                ) is Some,
    {
        let mut i: usize = 0;
        while i < self.commits.len()
            invariant
                self.wf(),
                i <= self.commits.len(),
                record.to_branch == old(record).to_branch,
                forall|k: int| 0 <= k < i ==> record.sha((#[trigger] self.commits@[k]).id) is Some,
                forall|commit: CommitRef|
                    old(record).sha(commit) is Some ==> record.sha(commit) == old(record).sha(commit),
            decreases self.commits.len() - i,
        {
            let commit = &self.commits[i];
            assert(self.commits@[i as int].id.index() == i);
            if record.sha_of(commit.id).is_none() {
                let sha = if commit.parents.len() == 0 {
                    git.commit_orphan(commit.message.clone(), commit.changes.clone())
                } else if commit.parents.len() == 1 {
                    let parent = commit.parents[0];
                    assert(self.commits@[i as int].parents@[0].index() < i);
                    assert(self.commits@[parent.index() as int].id == parent) by {
                        self.lemma_id_at(parent);
                    }
                    git.commit_child(
                        commit.message.clone(),
                        commit.changes.clone(),
                        record.sha_of(parent).unwrap(),
                    )
                } else {
                    let mut parents: Vec<String> = Vec::new();
                    let mut k: usize = 0;
                    while k < commit.parents.len()
                        invariant
                            self.wf(),
                            k <= commit.parents.len(),
                            i < self.commits@.len(),
                            *commit == self.commits@[i as int],
                            forall|m: int|
                                0 <= m < i ==> record.sha((#[trigger] self.commits@[m]).id) is Some,
                        decreases commit.parents.len() - k,
                    {
                        let parent = commit.parents[k];
                        assert(self.commits@[i as int].parents@[k as int].index() < i);
                        assert(self.commits@[parent.index() as int].id == parent) by {
                            self.lemma_id_at(parent);
                        }
                        parents.push(record.sha_of(parent).unwrap());
                        k += 1;
                    }
                    git.commit_merge(commit.message.clone(), parents)
                };
                let ghost before = *record;
                fill_slot(&mut record.to_sha, commit.id.0, sha);
                proof {
                    assert forall|k: int| 0 <= k < i + 1 implies record.sha(
                        (#[trigger] self.commits@[k]).id,
                    ) is Some by {
                        if k < i {
                            assert(before.sha(self.commits@[k].id) is Some);
                            assert(self.commits@[k].id.index() == k);
                        }
                    }
                }
            }
            i += 1;
        }
        let mut b: usize = 0;
        while b < self.branches.len()
            invariant
                self.wf(),
                b <= self.branches.len(),
                forall|k: int|
                    0 <= k < self.commits@.len() ==> record.sha((#[trigger] self.commits@[k]).id)
                        is Some,
                forall|commit: CommitRef|
                    old(record).sha(commit) is Some ==> record.sha(commit) == old(record).sha(commit),
                forall|k: int|
                    0 <= k < b ==> record.branch((#[trigger] self.branches@[k]).target) is Some,
            decreases self.branches.len() - b,
        {
            let entry = &self.branches[b];
            assert(self.branches@[b as int].target.index() < self.commits@.len());
            assert(self.commits@[entry.target.index() as int].id == entry.target) by {
                self.lemma_id_at(entry.target);
            }
            let sha = record.sha_of(entry.target).unwrap();
            git.make_branch(entry.name.clone(), sha);
            let ghost before = *record;
            fill_slot(&mut record.to_branch, entry.target.0, entry.name.clone());
            proof {
                assert forall|k: int| 0 <= k < b + 1 implies record.branch(
                    (#[trigger] self.branches@[k]).target,
                ) is Some by {
                    if k < b {
                        assert(before.branch(self.branches@[k].target) is Some);
                    }
                }
            }
            b += 1;
        }
    }

    /// The commit at the place of a commit of the tree is that commit.
    pub proof fn lemma_id_at(&self, commit: CommitRef)
        requires
            self.wf(),
            commit.index() < self.commits@.len(),
        ensures
            self.commits@[commit.index() as int].id == commit,
    {
        assert(self.commits@[commit.index() as int].id.index() == commit.index());
    }
}

} // verus!
