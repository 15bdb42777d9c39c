//! The commit copier: what a source commit becomes on the destination side.
//!
//! The functions of this file decide; they touch no repository. What they
//! need to know of a repository they take as plain values, and what has to be
//! done to one they hand back as plain values.

use vstd::prelude::*;
use crate::filter::{project_path, projected};
use crate::location::Location;
use crate::map::{paired, put_of, CommitMapper};
use crate::oid::Oid;

verus! {

/// How a file differs between two trees.
#[derive(Clone, Copy, Debug, PartialEq, Eq, Structural)]
pub enum DeltaKind {
    Added,
    Modified,
    Deleted,
}

/// One entry of the difference between a commit and the commit it is held
/// against: a path of the source repository, how the file there changed, and
/// the blob it holds afterwards.
#[derive(Clone, Debug, PartialEq, Eq)]
pub struct Delta {
    pub path: String,
    pub kind: DeltaKind,
    pub blob: Oid,
}

/// A `Delta` as plain values.
pub struct DeltaView {
    pub path: Seq<char>,
    pub kind: DeltaKind,
    pub blob: Oid,
}

impl View for Delta {
    type V = DeltaView;

    open spec fn view(&self) -> DeltaView {
        DeltaView { path: self.path@, kind: self.kind, blob: self.blob }
    }
}

/// What is done to one file of the destination working clone.
#[derive(Clone, Debug, PartialEq, Eq)]
pub enum FileOp {
    /// Create the file, and the directories above it, with the content of the blob.
    Create { path: String, blob: Oid },
    /// Replace the content of the file, which exists, by the content of the blob.
    Overwrite { path: String, blob: Oid },
    /// Remove the file.
    Remove { path: String },
}

/// A `FileOp` as plain values.
pub enum FileOpView {
    Create { path: Seq<char>, blob: Oid },
    Overwrite { path: Seq<char>, blob: Oid },
    Remove { path: Seq<char> },
}

impl View for FileOp {
    type V = FileOpView;

    open spec fn view(&self) -> FileOpView {
        match self {
            FileOp::Create { path, blob } => FileOpView::Create { path: path@, blob: *blob },
            FileOp::Overwrite { path, blob } => FileOpView::Overwrite { path: path@, blob: *blob },
            FileOp::Remove { path } => FileOpView::Remove { path: path@ },
        }
    }
}

/// The views of a list of differences.
pub open spec fn delta_views(deltas: Seq<Delta>) -> Seq<DeltaView> {
    Seq::new(deltas.len(), |i: int| deltas[i]@)
}

/// The views of a list of file operations.
pub open spec fn op_views(ops: Seq<FileOp>) -> Seq<FileOpView> {
    Seq::new(ops.len(), |i: int| ops[i]@)
}

/// The list without its repetitions: of items that are equal the first
/// stays, in its place, and the later ones are dropped.
pub open spec fn dedup_stable(items: Seq<Oid>) -> Seq<Oid>
    decreases items.len(),
{
    if items.len() == 0 {
        Seq::empty()
    } else {
        let before = dedup_stable(items.drop_last());
        if before.contains(items.last()) {
            before
        } else {
            before.push(items.last())
        }
    }
}

/// `dedup_stable` holds each item of the list once and nothing else, and
/// an item that first occurs before another stands before it.
pub proof fn lemma_dedup_stable(items: Seq<Oid>)
    ensures
        dedup_stable(items).no_duplicates(),
        dedup_stable(items).len() <= items.len(),
        forall|x: Oid| dedup_stable(items).contains(x) <==> items.contains(x),
        items.len() > 0 ==> dedup_stable(items).len() > 0 && dedup_stable(items)[0] == items[0],
        items.no_duplicates() ==> dedup_stable(items) == items,
    decreases items.len(),
{
    if items.len() > 0 {
        let init = items.drop_last();
        let last = items.last();
        lemma_dedup_stable(init);
        let before = dedup_stable(init);
        assert forall|x: Oid| dedup_stable(items).contains(x) <==> items.contains(x) by {
            if items.contains(x) {
                let i = choose|i: int| 0 <= i < items.len() && items[i] == x;
                if i < init.len() {
                    assert(init[i] == x);
                    assert(init.contains(x));
                    assert(before.contains(x));
                    let k = choose|k: int| 0 <= k < before.len() && before[k] == x;
                    assert(dedup_stable(items)[k] == x);
                } else {
                    if !before.contains(last) {
                        assert(before.push(last)[before.len() as int] == x);
                    }
                }
            }
            if dedup_stable(items).contains(x) {
                let k = choose|k: int| 0 <= k < dedup_stable(items).len() && dedup_stable(items)[k] == x;
                if k < before.len() {
                    assert(before[k] == x);
                    assert(before.contains(x));
                    assert(init.contains(x));
                    let i = choose|i: int| 0 <= i < init.len() && init[i] == x;
                    assert(items[i] == x);
                } else {
                    assert(x == last);
                    assert(items[items.len() - 1] == x);
                }
            }
        }
        if init.len() > 0 {
            assert(init[0] == items[0]);
        } else {
            assert(!before.contains(last));
        }
        if items.no_duplicates() {
            assert(init.no_duplicates());
            if before.contains(last) {
                assert(init.contains(last));
                let i = choose|i: int| 0 <= i < init.len() && init[i] == last;
                assert(items[i] == items[items.len() - 1]);
                assert(false);
            }
            assert(init.push(last) == items);
        }
    }
}

/// Whether the list holds the item.
pub fn contains_oid(items: &Vec<Oid>, item: &Oid) -> (r: bool)
    ensures
        r == items@.contains(*item),
{
    let mut i: usize = 0;
    while i < items.len()
        invariant
            i <= items.len(),
            forall|k: int| 0 <= k < i ==> items@[k] != *item,
        decreases items.len() - i,
    {
        if items[i].same(item) {
            return true;
        }
        i += 1;
    }
    false
}

/// Removes the repetitions from the list: of items that are equal the first
/// stays, in its place.
pub fn dedup_vec(items: &mut Vec<Oid>)
    ensures
        final(items)@ == dedup_stable(old(items)@),
{
    let mut out: Vec<Oid> = Vec::new();
    let mut i: usize = 0;
    while i < items.len()
        invariant
            i <= items.len(),
            *items == *old(items),
            out@ == dedup_stable(items@.take(i as int)),
        decreases items.len() - i,
    {
        proof {
            assert(items@.take(i + 1).drop_last() == items@.take(i as int));
        }
        let item = items[i];
        if !contains_oid(&out, &item) {
            out.push(item);
        }
        i += 1;
    }
    proof {
        assert(items@.take(items.len() as int) == items@);
    }
    *items = out;
}

/// Of two destination parents of which one descends from the other, the
/// descendant alone; any other list as it is.
pub open spec fn flattened(parents: Seq<Oid>, first_descends: bool, second_descends: bool) -> Seq<Oid> {
    if parents.len() == 2 && first_descends {
        seq![parents[0]]
    } else if parents.len() == 2 && second_descends {
        seq![parents[1]]
    } else {
        parents
    }
}

/// Turns a merge of a commit with one of its own ancestors into a plain
/// step: `first_descends` says whether the first parent descends from the
/// second, `second_descends` whether the second descends from the first.
pub fn flatten_parents(parents: Vec<Oid>, first_descends: bool, second_descends: bool) -> (r: Vec<Oid>)
    ensures
        r@ == flattened(parents@, first_descends, second_descends),
{
    if parents.len() == 2 && first_descends {
        let r = vec![parents[0]];
        assert(r@ == seq![parents@[0]]);
        r
    } else if parents.len() == 2 && second_descends {
        let r = vec![parents[1]];
        assert(r@ == seq![parents@[1]]);
        r
    } else {
        parents
    }
}

/// A destination commit is made where the translated commit joins two or
/// more parents or changes a file; otherwise its first parent stands for it.
pub open spec fn commit_needed(dest_parents: Seq<Oid>, changed: bool) -> bool {
    dest_parents.len() > 1 || changed
}

/// What one difference asks of the destination: nothing where its path does
/// not lie under the source directory, else the operation on the projected
/// path.
pub open spec fn planned_op(from: Seq<char>, to: Seq<char>, delta: DeltaView) -> Option<FileOpView> {
    match projected(from, to, delta.path) {
        None => None,
        Some(path) => Some(
            match delta.kind {
                DeltaKind::Added => FileOpView::Create { path, blob: delta.blob },
                DeltaKind::Modified => FileOpView::Overwrite { path, blob: delta.blob },
                DeltaKind::Deleted => FileOpView::Remove { path },
            },
        ),
    }
}

/// The operations that a list of differences asks of the destination, in the
/// order of the differences.
pub open spec fn planned_ops(from: Seq<char>, to: Seq<char>, deltas: Seq<DeltaView>) -> Seq<FileOpView>
    decreases deltas.len(),
{
    if deltas.len() == 0 {
        Seq::empty()
    } else {
        let before = planned_ops(from, to, deltas.drop_last());
        match planned_op(from, to, deltas.last()) {
            None => before,
            Some(op) => before.push(op),
        }
    }
}

/// No operation is planned exactly when no difference lies under the
/// source directory.
pub proof fn lemma_planned_ops_empty(from: Seq<char>, to: Seq<char>, deltas: Seq<DeltaView>)
    ensures
        planned_ops(from, to, deltas).len() == 0 <==> forall|i: int|
            0 <= i < deltas.len() ==> projected(from, to, (#[trigger] deltas[i]).path) is None,
    decreases deltas.len(),
{
    if deltas.len() > 0 {
        let init = deltas.drop_last();
        lemma_planned_ops_empty(from, to, init);
        if planned_ops(from, to, deltas).len() == 0 {
            assert forall|i: int| 0 <= i < deltas.len() implies projected(
                from,
                to,
                (#[trigger] deltas[i]).path,
            ) is None by {
                if i < init.len() {
                    assert(init[i] == deltas[i]);
                }
            }
        } else {
            if planned_op(from, to, deltas.last()) is None {
                let i = choose|i: int|
                    0 <= i < init.len() && !(projected(from, to, (#[trigger] init[i]).path) is None);
                assert(deltas[i] == init[i]);
            } else {
                assert(!(projected(from, to, deltas[deltas.len() - 1].path) is None));
            }
        }
    }
}

/// Plans the file operations for the differences of a source commit, where
/// the directory `from` of the source is shown as the directory `to` of the
/// destination.
pub fn plan_ops(from: &str, to: &str, deltas: &Vec<Delta>) -> (ops: Vec<FileOp>)
    ensures
        op_views(ops@) == planned_ops(from@, to@, delta_views(deltas@)),
{
    let mut ops: Vec<FileOp> = Vec::new();
    let mut i: usize = 0;
    while i < deltas.len()
        invariant
            i <= deltas.len(),
            op_views(ops@) == planned_ops(from@, to@, delta_views(deltas@).take(i as int)),
        decreases deltas.len() - i,
    {
        proof {
            let upto = delta_views(deltas@).take(i + 1);
            assert(upto.drop_last() == delta_views(deltas@).take(i as int));
            assert(upto.last() == deltas@[i as int]@);
        }
        let delta = &deltas[i];
        match project_path(from, to, delta.path.as_str()) {
            None => {},
            Some(path) => {
                let op = match delta.kind {
                    DeltaKind::Added => FileOp::Create { path, blob: delta.blob },
                    DeltaKind::Modified => FileOp::Overwrite { path, blob: delta.blob },
                    DeltaKind::Deleted => FileOp::Remove { path },
                };
                proof {
                    assert(op_views(ops@.push(op)) == op_views(ops@).push(op@));
                }
                ops.push(op);
            },
        }
        i += 1;
    }
    proof {
        assert(delta_views(deltas@).take(deltas.len() as int) == delta_views(deltas@));
    }
    ops
}

/// The ref under which each side keeps its empty anchor, the commit without
/// files and without parents that translated root commits stand on.
pub open spec fn anchor_ref() -> Seq<char> {
    "refs/sync/empty"@
}

/// How many of the branches that were written to last bound the walk of a
/// branch that is met for the first time.
pub const RECENT_HEADS: usize = 10;

/// One side of a copy: which repository it is and the directory of it that
/// is mirrored.
#[derive(Clone, Debug, PartialEq, Eq)]
pub struct GitLocation {
    pub location: String,
    pub name: Location,
}

/// Copies commits from the source side to the destination side and records
/// each translation in the commit map.
#[derive(Debug)]
pub struct Copier {
    pub source: GitLocation,
    pub dest: GitLocation,
    pub mapper: CommitMapper,
}

/// Every commit of the list has a translation.
pub open spec fn all_mapped(mapper: CommitMapper, side: Location, commits: Seq<Oid>) -> bool {
    forall|i: int| 0 <= i < commits.len() ==> mapper.get(side, #[trigger] commits[i]) is Some
}

/// The translations of the commits, in their order.
pub open spec fn translated(mapper: CommitMapper, side: Location, commits: Seq<Oid>) -> Seq<Oid> {
    Seq::new(commits.len(), |i: int| mapper.get(side, commits[i]).unwrap())
}

/// The translations of those commits that have one, in their order.
pub open spec fn translated_known(mapper: CommitMapper, side: Location, commits: Seq<Oid>) -> Seq<Oid>
    decreases commits.len(),
{
    if commits.len() == 0 {
        Seq::empty()
    } else {
        let before = translated_known(mapper, side, commits.drop_last());
        match mapper.get(side, commits.last()) {
            Some(t) => before.push(t),
            None => before,
        }
    }
}

/// The place at or behind `from` of the first commit of the list that has no
/// translation; the length of the list where every one has.
pub open spec fn first_unmapped(mapper: CommitMapper, side: Location, queue: Seq<Oid>, from: int) -> int
    decreases queue.len() - from,
{
    if from < 0 || from >= queue.len() {
        queue.len() as int
    } else if mapper.get(side, queue[from]) is None {
        from
    } else {
        first_unmapped(mapper, side, queue, from + 1)
    }
}

/// The destination parents of a commit whose source parents all have a
/// translation: the translations without repetitions.
pub open spec fn planned_parents(mapper: CommitMapper, side: Location, source_parents: Seq<Oid>) -> Seq<Oid> {
    dedup_stable(translated(mapper, side, source_parents))
}

/// The source commit against which a commit is held to find what it
/// changed: its one parent, or for a merge the commit that the first
/// destination parent is translated back to; nothing for a commit without
/// parents.
pub open spec fn diff_base(
    mapper: CommitMapper,
    dest: Location,
    source_parents: Seq<Oid>,
    dest_parents: Seq<Oid>,
) -> Option<Oid> {
    if source_parents.len() > 1 {
        mapper.get(dest, dest_parents[0])
    } else if source_parents.len() == 1 {
        Some(source_parents[0])
    } else {
        None
    }
}

impl Copier {
    /// The commit map is in order, and the two sides are the two sides.
    pub open spec fn wf(&self) -> bool {
        &&& self.mapper.wf()
        &&& self.dest.name == self.source.name.flip()
    }

    /// The translation of a source commit.
    pub fn get_dest_sha(&self, source_sha: &Oid) -> (r: Option<Oid>)
        ensures
            r == self.mapper.get(self.source.name, *source_sha),
    {
        self.mapper.get_translated(Some(source_sha), self.source.name)
    }

    /// The source commit that a destination commit is translated back to.
    pub fn get_source_sha(&self, dest_sha: &Oid) -> (r: Option<Oid>)
        ensures
            r == self.mapper.get(self.dest.name, *dest_sha),
    {
        self.mapper.get_translated(Some(dest_sha), self.dest.name)
    }

    /// The path of the destination that stands for a path of the source;
    /// nothing where the path lies outside the source directory.
    pub fn translate(&self, path: &str) -> (r: Option<String>)
        ensures
            r is Some <==> projected(self.source.location@, self.dest.location@, path@) is Some,
            r matches Some(p) ==> Some(p@) == projected(
                self.source.location@,
                self.dest.location@,
                path@,
            ),
    {
        project_path(self.source.location.as_str(), self.dest.location.as_str(), path)
    }

    /// Records that `source_sha` is translated to `dest_sha`, and back.
    pub fn record_sha_update(&mut self, source_sha: &Oid, dest_sha: Oid) -> (r: Oid)
        requires
            old(self).wf(),
        ensures
            r == dest_sha,
            final(self).wf(),
            final(self).source == old(self).source,
            final(self).dest == old(self).dest,
            put_of(old(self).mapper, old(self).source.name, *source_sha, dest_sha, final(self).mapper),
    {
        let side = self.source.name;
        self.mapper.put(side, source_sha, &dest_sha);
        dest_sha
    }

    /// Records the empty anchor of the destination as the translation of
    /// each of the given source commits, which stand before the first commit
    /// that touches the source directory, and the first of them as the
    /// translation back of the anchor. Each commit is recorded as a pair with
    /// the anchor, the first of them last.
    pub fn import_initial_empty_commits(&mut self, commits_to_import: &Vec<Oid>, empty_dest_sha: Oid)
        requires
            old(self).wf(),
        ensures
            final(self).wf(),
            final(self).source == old(self).source,
            final(self).dest == old(self).dest,
            old(self).mapper.table(Location::SUBGIT).is_prefix_of(
                final(self).mapper.table(Location::SUBGIT),
            ),
            old(self).mapper.table(Location::UPSTREAM).is_prefix_of(
                final(self).mapper.table(Location::UPSTREAM),
            ),
            paired(old(self).mapper.store()) ==> paired(final(self).mapper.store()),
            forall|c: Oid|
                final(self).mapper.get(old(self).source.name, c) == (if commits_to_import@.contains(
                    c,
                ) {
                    Some(empty_dest_sha)
                } else {
                    old(self).mapper.get(old(self).source.name, c)
                }),
            forall|c: Oid|
                final(self).mapper.get(old(self).dest.name, c) == (if commits_to_import@.len() > 0
                    && c == empty_dest_sha {
                    Some(commits_to_import@[0])
                } else {
                    old(self).mapper.get(old(self).dest.name, c)
                }),
    {
        let side = self.source.name;
        let other = self.dest.name;
        let mut i: usize = commits_to_import.len();
        proof {
            assert(commits_to_import@.skip(i as int).len() == 0);
        }
        while i > 0
            invariant
                i <= commits_to_import.len(),
                self.wf(),
                self.source == old(self).source,
                self.dest == old(self).dest,
                side == self.source.name,
                other == self.dest.name,
                old(self).mapper.table(side).is_prefix_of(self.mapper.table(side)),
                old(self).mapper.table(other).is_prefix_of(self.mapper.table(other)),
                paired(old(self).mapper.store()) ==> paired(self.mapper.store()),
                forall|c: Oid|
                    self.mapper.get(side, c) == (if commits_to_import@.skip(i as int).contains(c) {
                        Some(empty_dest_sha)
                    } else {
                        old(self).mapper.get(side, c)
                    }),
                forall|c: Oid|
                    self.mapper.get(other, c) == (if i < commits_to_import.len() && c
                        == empty_dest_sha {
                        Some(commits_to_import@[i as int])
                    } else {
                        old(self).mapper.get(other, c)
                    }),
            decreases i,
        {
            let ghost before = self.mapper;
            let sha = commits_to_import[i - 1];
            self.mapper.put(side, &sha, &empty_dest_sha);
            proof {
                assert(before.table(side) == self.mapper.table(side).drop_last());
                assert(before.table(side).is_prefix_of(self.mapper.table(side)));
                assert(before.table(other) == self.mapper.table(other).drop_last());
                assert(before.table(other).is_prefix_of(self.mapper.table(other)));
                let later = commits_to_import@.skip(i as int);
                let now = commits_to_import@.skip(i - 1);
                assert(now[0] == sha);
                assert(now.drop_first() == later);
                assert forall|c: Oid|
                    self.mapper.get(side, c) == (if now.contains(c) {
                        Some(empty_dest_sha)
                    } else {
                        old(self).mapper.get(side, c)
                    }) by {
                    if c == sha {
                        assert(now[0] == c);
                    } else if now.contains(c) {
                        let k = choose|k: int| 0 <= k < now.len() && now[k] == c;
                        assert(later[k - 1] == c);
                    } else if later.contains(c) {
                        let k = choose|k: int| 0 <= k < later.len() && later[k] == c;
                        assert(now[k + 1] == c);
                    }
                }
            }
            i -= 1;
        }
        proof {
            assert(commits_to_import@.skip(0) == commits_to_import@);
        }
    }

    /// The translations of the commits, if each has one.
    pub fn translate_all(&self, commits: &Vec<Oid>) -> (r: Option<Vec<Oid>>)
        ensures
            r is Some <==> all_mapped(self.mapper, self.source.name, commits@),
            r matches Some(list) ==> list@ == translated(self.mapper, self.source.name, commits@),
    {
        let mut out: Vec<Oid> = Vec::new();
        let mut i: usize = 0;
        while i < commits.len()
            invariant
                i <= commits.len(),
                all_mapped(self.mapper, self.source.name, commits@.take(i as int)),
                out@ == translated(self.mapper, self.source.name, commits@.take(i as int)),
            decreases commits.len() - i,
        {
            match self.get_dest_sha(&commits[i]) {
                None => {
                    return None;
                },
                Some(sha) => {
                    proof {
                        let upto = commits@.take(i + 1);
                        assert forall|k: int| 0 <= k < upto.len() implies self.mapper.get(
                            self.source.name,
                            #[trigger] upto[k],
                        ) is Some by {
                            if k < i {
                                assert(commits@.take(i as int)[k] == upto[k]);
                            }
                        }
                        assert(out@.push(sha) == translated(self.mapper, self.source.name, upto));
                    }
                    out.push(sha);
                },
            }
            i += 1;
        }
        proof {
            assert(commits@.take(commits.len() as int) == commits@);
        }
        Some(out)
    }

    /// The source commits that the given destination commits are translated
    /// back to; a destination commit without a translation is passed over.
    pub fn translate_back(&self, commits: &Vec<Oid>) -> (r: Vec<Oid>)
        ensures
            r@ == translated_known(self.mapper, self.dest.name, commits@),
    {
        let mut out: Vec<Oid> = Vec::new();
        let mut i: usize = 0;
        while i < commits.len()
            invariant
                i <= commits.len(),
                out@ == translated_known(self.mapper, self.dest.name, commits@.take(i as int)),
            decreases commits.len() - i,
        {
            proof {
                assert(commits@.take(i + 1).drop_last() == commits@.take(i as int));
            }
            match self.get_source_sha(&commits[i]) {
                None => {},
                Some(sha) => {
                    out.push(sha);
                },
            }
            i += 1;
        }
        proof {
            assert(commits@.take(commits.len() as int) == commits@);
        }
        out
    }
}

} // verus!
