//! What the file operations of a copied commit do to the files of the
//! destination: where Git answers faithfully, the destination goes on showing
//! under its directory exactly the files that the source holds under its own.

use vstd::prelude::*;
use crate::copier::{planned_op, planned_ops, DeltaKind, DeltaView, FileOpView};
use crate::engine::{CopyStepView, RefCopy, Stage};
use crate::filter::{components, projected};
use crate::oid::Oid;
use crate::port::{GitCommandView, GitReplyView};
use crate::text::{free_of, is_split, join, lemma_pieces_is_split, lemma_split_unique, nonempty, pieces};

verus! {

/// The path is written with its components and one slash between
/// neighbours, as Git writes the paths of a tree.
pub open spec fn normal(path: Seq<char>) -> bool {
    pieces(path, '/') == components(path)
}

/// Every path of the tree is written as Git writes it.
pub open spec fn normal_tree(tree: Map<Seq<char>, Oid>) -> bool {
    forall|p: Seq<char>| tree.contains_key(p) ==> normal(p)
}

/// The files of a tree once the operations are carried out in their order.
pub open spec fn applied(tree: Map<Seq<char>, Oid>, ops: Seq<FileOpView>) -> Map<Seq<char>, Oid>
    decreases ops.len(),
{
    if ops.len() == 0 {
        tree
    } else {
        let before = applied(tree, ops.drop_last());
        match ops.last() {
            FileOpView::Create { path, blob } => before.insert(path, blob),
            FileOpView::Overwrite { path, blob } => before.insert(path, blob),
            FileOpView::Remove { path } => before.remove(path),
        }
    }
}

/// The two trees hold the same at a path of the source and at the path that
/// stands for it.
pub open spec fn agree(source: Map<Seq<char>, Oid>, p: Seq<char>, dest: Map<Seq<char>, Oid>, q: Seq<char>) -> bool {
    &&& dest.contains_key(q) == source.contains_key(p)
    &&& source.contains_key(p) ==> dest[q] == source[p]
}

/// The destination shows the source: at every path that stands for a path of
/// the source directory it holds what the source holds there, a file with the
/// same content or none.
pub open spec fn shows(from: Seq<char>, to: Seq<char>, source: Map<Seq<char>, Oid>, dest: Map<Seq<char>, Oid>) -> bool {
    forall|p: Seq<char>|
        normal(p) && (#[trigger] projected(from, to, p)) is Some ==> agree(
            source,
            p,
            dest,
            projected(from, to, p).unwrap(),
        )
}

/// The tree holds at the path what it held before.
pub open spec fn untouched(before: Map<Seq<char>, Oid>, now: Map<Seq<char>, Oid>, q: Seq<char>) -> bool {
    &&& now.contains_key(q) == before.contains_key(q)
    &&& before.contains_key(q) ==> now[q] == before[q]
}

/// The path stands for no path of the source directory.
pub open spec fn outside(from: Seq<char>, to: Seq<char>, q: Seq<char>) -> bool {
    forall|p: Seq<char>| normal(p) ==> #[trigger] projected(from, to, p) != Some(q)
}

/// The list says faithfully how the target differs from the base: one entry
/// for each path at which they differ, of the right kind and with the blob of
/// the target, and no entry for any other path.
pub open spec fn is_diff(deltas: Seq<DeltaView>, base: Map<Seq<char>, Oid>, target: Map<Seq<char>, Oid>) -> bool {
    &&& forall|i: int, j: int|
        0 <= i < deltas.len() && 0 <= j < deltas.len() && i != j ==> (#[trigger] deltas[i]).path != (
        #[trigger] deltas[j]).path
    &&& forall|i: int|
        0 <= i < deltas.len() ==> match (#[trigger] deltas[i]).kind {
            DeltaKind::Added => !base.contains_key(deltas[i].path) && target.contains_key(
                deltas[i].path,
            ) && target[deltas[i].path] == deltas[i].blob,
            DeltaKind::Modified => base.contains_key(deltas[i].path) && target.contains_key(
                deltas[i].path,
            ) && target[deltas[i].path] == deltas[i].blob && base[deltas[i].path]
                != deltas[i].blob,
            DeltaKind::Deleted => base.contains_key(deltas[i].path) && !target.contains_key(
                deltas[i].path,
            ),
        }
    &&& forall|p: Seq<char>|
        !(#[trigger] listed(deltas, p, deltas.len() as int)) ==> base.contains_key(p)
            == target.contains_key(p) && (base.contains_key(p) ==> base[p] == target[p])
}

/// One of the first `upto` entries is for the path.
pub open spec fn listed(deltas: Seq<DeltaView>, p: Seq<char>, upto: int) -> bool {
    exists|i: int| 0 <= i < upto && i < deltas.len() && (#[trigger] deltas[i]).path == p
}

/// The components of a path are not empty and hold no slash.
pub proof fn lemma_components(path: Seq<char>)
    ensures
        free_of(components(path), '/'),
        forall|i: int| 0 <= i < components(path).len() ==> (#[trigger] components(path)[i]).len() > 0,
{
    lemma_pieces_is_split(path, '/');
    lemma_nonempty_keeps(pieces(path, '/'), '/');
}

/// The pieces that are not empty are pieces still: what holds no separator
/// before holds none after.
pub proof fn lemma_nonempty_keeps(parts: Seq<Seq<char>>, sep: char)
    requires
        free_of(parts, sep),
    ensures
        free_of(nonempty(parts), sep),
        forall|i: int| 0 <= i < nonempty(parts).len() ==> (#[trigger] nonempty(parts)[i]).len() > 0,
    decreases parts.len(),
{
    if parts.len() > 0 {
        let init = parts.drop_last();
        assert(free_of(init, sep)) by {
            assert forall|i: int| 0 <= i < init.len() implies !(#[trigger] init[i]).contains(sep) by {
                assert(init[i] == parts[i]);
            }
        }
        lemma_nonempty_keeps(init, sep);
        if parts.last().len() > 0 {
            let kept = nonempty(init).push(parts.last());
            assert forall|i: int| 0 <= i < kept.len() implies !(#[trigger] kept[i]).contains(sep)
                && kept[i].len() > 0 by {
                if i < nonempty(init).len() {
                    assert(kept[i] == nonempty(init)[i]);
                }
            }
        }
    }
}

/// Pieces that are not empty join to a text that is not empty.
pub proof fn lemma_join_not_empty(parts: Seq<Seq<char>>, sep: Seq<char>)
    requires
        parts.len() > 0,
        forall|i: int| 0 <= i < parts.len() ==> (#[trigger] parts[i]).len() > 0,
    ensures
        join(parts, sep).len() > 0,
    decreases parts.len(),
{
    if parts.len() > 1 {
        assert(parts.last() == parts[parts.len() - 1]);
    } else {
        assert(parts[0].len() > 0);
    }
}

/// A path that is written as Git writes it is its components joined.
pub proof fn lemma_normal_joins(p: Seq<char>)
    requires
        normal(p),
    ensures
        join(components(p), seq!['/']) == p,
{
    lemma_pieces_is_split(p, '/');
}

/// Two paths of the source directory that have the same path standing for
/// them are the same path.
pub proof fn lemma_projection_tells_apart(from: Seq<char>, to: Seq<char>, left: Seq<char>, right: Seq<char>)
    requires
        normal(left),
        normal(right),
        projected(from, to, left) is Some,
        projected(from, to, left) == projected(from, to, right),
    ensures
        left == right,
{
    let base = components(from);
    let head = components(to);
    let c1 = components(left);
    let c2 = components(right);
    let n = base.len() as int;
    let x1 = c1.skip(n);
    let x2 = c2.skip(n);
    let q = projected(from, to, left).unwrap();
    lemma_components(to);
    lemma_components(left);
    lemma_components(right);
    let a1 = head + x1;
    let a2 = head + x2;
    assert(join(a1, seq!['/']) == q);
    assert(join(a2, seq!['/']) == q);
    assert forall|i: int| 0 <= i < a1.len() implies !(#[trigger] a1[i]).contains('/') && a1[i].len()
        > 0 by {
        if i >= head.len() {
            assert(a1[i] == c1[i - head.len() + n]);
        } else {
            assert(a1[i] == head[i]);
        }
    }
    assert forall|i: int| 0 <= i < a2.len() implies !(#[trigger] a2[i]).contains('/') && a2[i].len()
        > 0 by {
        if i >= head.len() {
            assert(a2[i] == c2[i - head.len() + n]);
        } else {
            assert(a2[i] == head[i]);
        }
    }
    if a1.len() == 0 {
        if a2.len() > 0 {
            lemma_join_not_empty(a2, seq!['/']);
        }
        assert(a1 == a2);
    } else {
        lemma_join_not_empty(a1, seq!['/']);
        assert(a2.len() > 0);
        lemma_split_unique(a1, a2, q, '/');
    }
    assert(x1 == x2) by {
        assert(x1.len() == x2.len());
        assert forall|i: int| 0 <= i < x1.len() implies x1[i] == x2[i] by {
            assert(a1[head.len() + i] == x1[i]);
            assert(a2[head.len() + i] == x2[i]);
        }
    }
    assert(c1 == c2) by {
        assert(c1 == base + x1);
        assert(c2 == base + x2);
    }
    lemma_normal_joins(left);
    lemma_normal_joins(right);
}

/// Components that are joined are found again when the joined path is taken
/// apart.
pub proof fn lemma_components_of_join(parts: Seq<Seq<char>>)
    requires
        free_of(parts, '/'),
        forall|i: int| 0 <= i < parts.len() ==> (#[trigger] parts[i]).len() > 0,
    ensures
        components(join(parts, seq!['/'])) == parts,
{
    let path = join(parts, seq!['/']);
    lemma_pieces_is_split(path, '/');
    if parts.len() == 0 {
        let one = seq![Seq::<char>::empty()];
        assert(pieces(path, '/') == one);
        assert(one.last().len() == 0);
        assert(one.drop_last().len() == 0);
        assert(nonempty(one.drop_last()).len() == 0);
        assert(nonempty(one) == nonempty(one.drop_last()));
        assert(components(path) == parts);
    } else {
        lemma_split_unique(parts, pieces(path, '/'), path, '/');
        lemma_nonempty_of_full(parts);
    }
}

/// Pieces of which none is empty are all kept.
pub proof fn lemma_nonempty_of_full(parts: Seq<Seq<char>>)
    requires
        forall|i: int| 0 <= i < parts.len() ==> (#[trigger] parts[i]).len() > 0,
    ensures
        nonempty(parts) == parts,
    decreases parts.len(),
{
    if parts.len() > 0 {
        let init = parts.drop_last();
        assert forall|i: int| 0 <= i < init.len() implies (#[trigger] init[i]).len() > 0 by {
            assert(init[i] == parts[i]);
        }
        lemma_nonempty_of_full(init);
        assert(parts.last() == parts[parts.len() - 1]);
        assert(init.push(parts.last()) == parts);
    }
}

/// Down and up again is where one began: the path that stands for a path of
/// the source directory lies in the destination directory, and the path that
/// stands for it in turn is the path itself.
pub proof fn lemma_projection_roundtrip(from: Seq<char>, to: Seq<char>, p: Seq<char>)
    requires
        normal(p),
        projected(from, to, p) is Some,
    ensures
        projected(to, from, projected(from, to, p).unwrap()) == Some(p),
{
    let base = components(from);
    let head = components(to);
    let rest = components(p).skip(base.len() as int);
    let q = projected(from, to, p).unwrap();
    lemma_components(from);
    lemma_components(to);
    lemma_components(p);
    let all = head + rest;
    assert forall|i: int| 0 <= i < all.len() implies !(#[trigger] all[i]).contains('/') && all[i].len()
        > 0 by {
        if i >= head.len() {
            assert(all[i] == components(p)[i - head.len() + base.len()]);
        } else {
            assert(all[i] == head[i]);
        }
    }
    lemma_components_of_join(all);
    assert(components(q) == all);
    assert(head.is_prefix_of(all));
    assert(all.skip(head.len() as int) == rest);
    assert(base + rest == components(p));
    lemma_normal_joins(p);
}

/// The operations for one entry more are the operations before it and, where
/// the path of the entry lies in the source directory, one operation more.
pub proof fn lemma_planned_ops_step(from: Seq<char>, to: Seq<char>, deltas: Seq<DeltaView>, k: int)
    requires
        0 <= k < deltas.len(),
    ensures
        planned_ops(from, to, deltas.take(k + 1)) == (match planned_op(from, to, deltas[k]) {
            None => planned_ops(from, to, deltas.take(k)),
            Some(op) => planned_ops(from, to, deltas.take(k)).push(op),
        }),
{
    assert(deltas.take(k + 1).drop_last() == deltas.take(k));
    assert(deltas.take(k + 1).last() == deltas[k]);
}

/// What holds of the destination when the operations for the first `k`
/// entries are carried out: at the path that stands for a path with an entry
/// among them it holds what the target holds, at a path that stands for
/// another path of the source directory what the base holds, and everywhere
/// else what it held before.
pub open spec fn partly_shows(
    from: Seq<char>,
    to: Seq<char>,
    deltas: Seq<DeltaView>,
    base: Map<Seq<char>, Oid>,
    target: Map<Seq<char>, Oid>,
    before: Map<Seq<char>, Oid>,
    k: int,
) -> bool {
    let now = applied(before, planned_ops(from, to, deltas.take(k)));
    &&& forall|p: Seq<char>|
        normal(p) && (#[trigger] projected(from, to, p)) is Some ==> agree(
            if listed(deltas, p, k) {
                target
            } else {
                base
            },
            p,
            now,
            projected(from, to, p).unwrap(),
        )
    &&& forall|q: Seq<char>| #[trigger] outside(from, to, q) ==> untouched(before, now, q)
}

/// The operations for the first `k` entries of a faithful list leave the
/// destination as `partly_shows` says.
pub proof fn lemma_partly_shows(
    from: Seq<char>,
    to: Seq<char>,
    deltas: Seq<DeltaView>,
    base: Map<Seq<char>, Oid>,
    target: Map<Seq<char>, Oid>,
    before: Map<Seq<char>, Oid>,
    k: int,
)
    requires
        0 <= k <= deltas.len(),
        normal_tree(base),
        normal_tree(target),
        is_diff(deltas, base, target),
        shows(from, to, base, before),
    ensures
        partly_shows(from, to, deltas, base, target, before, k),
    decreases k,
{
    if k == 0 {
        assert(deltas.take(0).len() == 0);
        assert(planned_ops(from, to, deltas.take(0)).len() == 0);
        assert(applied(before, planned_ops(from, to, deltas.take(0))) == before);
        assert forall|p: Seq<char>|
            normal(p) && (#[trigger] projected(from, to, p)) is Some implies agree(
            if listed(deltas, p, 0) {
                target
            } else {
                base
            },
            p,
            before,
            projected(from, to, p).unwrap(),
        ) by {
            assert(!listed(deltas, p, 0));
        }
    } else {
        lemma_partly_shows(from, to, deltas, base, target, before, k - 1);
        lemma_planned_ops_step(from, to, deltas, k - 1);
        let d = deltas[k - 1];
        let earlier = applied(before, planned_ops(from, to, deltas.take(k - 1)));
        let now = applied(before, planned_ops(from, to, deltas.take(k)));
        assert(base.contains_key(d.path) || target.contains_key(d.path));
        assert(normal(d.path));
        assert forall|p: Seq<char>| listed(deltas, p, k) == (listed(deltas, p, k - 1) || p == d.path) by {
            if listed(deltas, p, k) {
                let i = choose|i: int| 0 <= i < k && i < deltas.len() && (#[trigger] deltas[i]).path == p;
                if i < k - 1 {
                    assert(listed(deltas, p, k - 1));
                }
            }
            if listed(deltas, p, k - 1) {
                let i = choose|i: int|
                    0 <= i < k - 1 && i < deltas.len() && (#[trigger] deltas[i]).path == p;
                assert(deltas[i].path == p && i < k);
            }
            if p == d.path {
                assert(deltas[k - 1].path == p);
            }
        }
        assert(!listed(deltas, d.path, k - 1)) by {
            if listed(deltas, d.path, k - 1) {
                let i = choose|i: int|
                    0 <= i < k - 1 && i < deltas.len() && (#[trigger] deltas[i]).path == d.path;
                assert(deltas[i].path == deltas[k - 1].path);
            }
        }
        match projected(from, to, d.path) {
            None => {
                assert(now == earlier);
                assert forall|p: Seq<char>|
                    normal(p) && (#[trigger] projected(from, to, p)) is Some implies agree(
                    if listed(deltas, p, k) {
                        target
                    } else {
                        base
                    },
                    p,
                    now,
                    projected(from, to, p).unwrap(),
                ) by {
                    assert(p != d.path);
                }
            },
            Some(qd) => {
                let op = planned_op(from, to, d).unwrap();
                assert(planned_ops(from, to, deltas.take(k)).drop_last() == planned_ops(
                    from,
                    to,
                    deltas.take(k - 1),
                ));
                assert(planned_ops(from, to, deltas.take(k)).last() == op);
                assert forall|p: Seq<char>|
                    normal(p) && (#[trigger] projected(from, to, p)) is Some implies agree(
                    if listed(deltas, p, k) {
                        target
                    } else {
                        base
                    },
                    p,
                    now,
                    projected(from, to, p).unwrap(),
                ) by {
                    let q = projected(from, to, p).unwrap();
                    if q == qd {
                        lemma_projection_tells_apart(from, to, p, d.path);
                    } else {
                        assert(p != d.path);
                        assert(now.contains_key(q) == earlier.contains_key(q));
                        assert(earlier.contains_key(q) ==> now[q] == earlier[q]);
                    }
                }
                assert forall|q: Seq<char>| #[trigger] outside(from, to, q) implies untouched(
                    before,
                    now,
                    q,
                ) by {
                    assert(projected(from, to, d.path) != Some(q));
                    assert(q != qd);
                    assert(untouched(before, earlier, q));
                }
            },
        }
    }
}

/// The files that are republished stay the same on both sides through the
/// copy of a commit. The destination shows the base against which the commit
/// is held; the list says faithfully how the commit differs from the base.
/// Then, once the planned operations are carried out, the destination shows
/// the commit: at every path that stands for a path of the source directory
/// it holds what the commit holds there. What lies elsewhere in the
/// destination is as it was. A commit for which nothing is planned is shown
/// by the destination as it is.
pub proof fn lemma_copy_keeps_files_equal(
    from: Seq<char>,
    to: Seq<char>,
    deltas: Seq<DeltaView>,
    base: Map<Seq<char>, Oid>,
    target: Map<Seq<char>, Oid>,
    before: Map<Seq<char>, Oid>,
)
    requires
        normal_tree(base),
        normal_tree(target),
        is_diff(deltas, base, target),
        shows(from, to, base, before),
    ensures
        shows(from, to, target, applied(before, planned_ops(from, to, deltas))),
        forall|q: Seq<char>| #[trigger]
            outside(from, to, q) ==> untouched(
                before,
                applied(before, planned_ops(from, to, deltas)),
                q,
            ),
        planned_ops(from, to, deltas).len() == 0 ==> shows(from, to, target, before),
{
    lemma_partly_shows(from, to, deltas, base, target, before, deltas.len() as int);
    assert(deltas.take(deltas.len() as int) == deltas);
    let now = applied(before, planned_ops(from, to, deltas));
    assert forall|p: Seq<char>|
        normal(p) && (#[trigger] projected(from, to, p)) is Some implies agree(
        target,
        p,
        now,
        projected(from, to, p).unwrap(),
    ) by {
        if !listed(deltas, p, deltas.len() as int) {
            assert(base.contains_key(p) == target.contains_key(p));
            assert(base.contains_key(p) ==> base[p] == target[p]);
        }
    }
}

/// Where an operation is planned, an entry of the list lies in the source
/// directory.
pub proof fn lemma_planned_op_comes_from(from: Seq<char>, to: Seq<char>, deltas: Seq<DeltaView>) -> (i: int)
    requires
        planned_ops(from, to, deltas).len() > 0,
    ensures
        0 <= i < deltas.len(),
        projected(from, to, deltas[i].path) is Some,
    decreases deltas.len(),
{
    if planned_op(from, to, deltas.last()) is Some {
        deltas.len() - 1
    } else {
        let i = lemma_planned_op_comes_from(from, to, deltas.drop_last());
        assert(deltas.drop_last()[i] == deltas[i]);
        i
    }
}

/// No file operation is planned in vain: where operations are planned for a
/// faithful list, the files of the destination are not the same afterwards.
/// So a commit that is made because a file operation was carried out does not
/// hold the files of its parent.
pub proof fn lemma_operations_change_files(
    from: Seq<char>,
    to: Seq<char>,
    deltas: Seq<DeltaView>,
    base: Map<Seq<char>, Oid>,
    target: Map<Seq<char>, Oid>,
    before: Map<Seq<char>, Oid>,
)
    requires
        normal_tree(base),
        normal_tree(target),
        is_diff(deltas, base, target),
        shows(from, to, base, before),
        planned_ops(from, to, deltas).len() > 0,
    ensures
        applied(before, planned_ops(from, to, deltas)) != before,
{
    lemma_copy_keeps_files_equal(from, to, deltas, base, target, before);
    let i = lemma_planned_op_comes_from(from, to, deltas);
    let p = deltas[i].path;
    let q = projected(from, to, p).unwrap();
    let now = applied(before, planned_ops(from, to, deltas));
    assert(base.contains_key(p) || target.contains_key(p));
    assert(normal(p));
    assert(agree(target, p, now, q));
    assert(agree(base, p, before, q));
    if now == before {
        match deltas[i].kind {
            DeltaKind::Added => {
                assert(now.contains_key(q) && !before.contains_key(q));
            },
            DeltaKind::Modified => {
                assert(now[q] == deltas[i].blob && before[q] == base[p]);
            },
            DeltaKind::Deleted => {
                assert(!now.contains_key(q) && before.contains_key(q));
            },
        }
    }
}

/// The file operations that a step asks for before anything else: none
/// where it begins with no such command.
pub open spec fn first_applied(out: CopyStepView) -> Seq<FileOpView> {
    match out {
        CopyStepView::Ask { commands, .. } => if commands.len() > 0 {
            match commands[0] {
                GitCommandView::Apply { ops, .. } => ops,
                _ => Seq::empty(),
            }
        } else {
            Seq::empty()
        },
        CopyStepView::Done { .. } => Seq::empty(),
    }
}

/// A run keeps the republished files equal on both sides. The working clone
/// of the destination, checked out at the first destination parent, shows the
/// commit against which the commit that is copied is held; Git says
/// faithfully how the two differ. Then the working clone shows the commit
/// that is copied once the file operations of the next step are carried out,
/// and so does the commit that is made of it.
pub proof fn lemma_run_keeps_files_equal(
    run: RefCopy,
    deltas: Seq<DeltaView>,
    post: RefCopy,
    out: CopyStepView,
    base: Map<Seq<char>, Oid>,
    target: Map<Seq<char>, Oid>,
    before: Map<Seq<char>, Oid>,
)
    requires
        run.wf(),
        run.stage == Stage::Deltas,
        run.transition(GitReplyView::Deltas(deltas), post, out),
        normal_tree(base),
        normal_tree(target),
        is_diff(deltas, base, target),
        shows(run.copier.source.location@, run.copier.dest.location@, base, before),
    ensures
        first_applied(out) == planned_ops(
            run.copier.source.location@,
            run.copier.dest.location@,
            deltas,
        ),
        shows(
            run.copier.source.location@,
            run.copier.dest.location@,
            target,
            applied(before, first_applied(out)),
        ),
{
    lemma_copy_keeps_files_equal(
        run.copier.source.location@,
        run.copier.dest.location@,
        deltas,
        base,
        target,
        before,
    );
    let ops = planned_ops(run.copier.source.location@, run.copier.dest.location@, deltas);
    if ops.len() == 0 {
        assert(first_applied(out) == Seq::<FileOpView>::empty());
        assert(first_applied(out) == ops);
    }
}

} // verus!
