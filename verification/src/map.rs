//! The commit map: for each side, a table from a commit of that side to the
//! commit that stands for it on the other side. A table is a log. Entries are
//! only ever appended, in the order of their timestamps, and the latest entry
//! for a commit is the one that is read.

use vstd::prelude::*;
use crate::location::Location;
use crate::oid::Oid;

verus! {

/// One row of a table: `source` is translated to `dest`, written at `timestamp`.
#[derive(Clone, Copy, Debug, PartialEq, Eq)]
pub struct MapEntry {
    pub source: Oid,
    pub dest: Oid,
    pub timestamp: i64,
}

/// What a table says of `source`: the destination in the latest entry that
/// has it as its source.
pub open spec fn lookup(entries: Seq<MapEntry>, source: Oid) -> Option<Oid>
    decreases entries.len(),
{
    if entries.len() == 0 {
        None
    } else if entries.last().source == source {
        Some(entries.last().dest)
    } else {
        lookup(entries.drop_last(), source)
    }
}

/// The entries stand in the order of their timestamps.
pub open spec fn ordered(entries: Seq<MapEntry>) -> bool {
    forall|i: int, j: int| 0 <= i <= j < entries.len() ==> entries[i].timestamp <= entries[j].timestamp
}

/// A found destination comes from an entry of the table, and no entry for the
/// same source stands behind it or has a higher timestamp.
pub proof fn lemma_lookup_is_latest(entries: Seq<MapEntry>, source: Oid)
    requires
        ordered(entries),
    ensures
        lookup(entries, source) is None <==> forall|i: int|
            0 <= i < entries.len() ==> entries[i].source != source,
        lookup(entries, source) matches Some(dest) ==> exists|i: int|
            0 <= i < entries.len() && entries[i].source == source && entries[i].dest == dest && (
            forall|j: int|
                0 <= j < entries.len() && entries[j].source == source ==> j <= i
                    && entries[j].timestamp <= entries[i].timestamp),
    decreases entries.len(),
{
    if entries.len() == 0 {
    } else if entries.last().source == source {
        let i = entries.len() - 1;
        assert(entries[i].source == source && entries[i].dest == entries.last().dest);
    } else {
        let init = entries.drop_last();
        lemma_lookup_is_latest(init, source);
        assert forall|i: int| 0 <= i < init.len() implies init[i] == entries[i] by {}
        if lookup(init, source) is Some {
            let dest = lookup(init, source).unwrap();
            let i = choose|i: int|
                0 <= i < init.len() && init[i].source == source && init[i].dest == dest && (
                forall|j: int|
                    0 <= j < init.len() && init[j].source == source ==> j <= i
                        && init[j].timestamp <= init[i].timestamp);
            assert(entries[i].source == source && entries[i].dest == dest);
            assert forall|j: int| 0 <= j < entries.len() && entries[j].source == source implies j
                <= i && entries[j].timestamp <= entries[i].timestamp by {
                assert(j < init.len());
                assert(init[j].source == source);
            }
        } else {
            assert forall|i: int| 0 <= i < entries.len() implies entries[i].source != source by {
                if i < init.len() {
                    assert(init[i].source != source);
                }
            }
        }
    }
}

/// Appending an entry makes its source read as its destination and leaves
/// every other source as it was.
pub proof fn lemma_lookup_push(entries: Seq<MapEntry>, entry: MapEntry, source: Oid)
    ensures
        lookup(entries.push(entry), source) == (if source == entry.source {
            Some(entry.dest)
        } else {
            lookup(entries, source)
        }),
{
    assert(entries.push(entry).drop_last() == entries);
}

/// The two tables of the commit map.
#[derive(Debug)]
pub struct MapStore {
    from_local: Vec<MapEntry>,
    from_upstream: Vec<MapEntry>,
}

impl MapStore {
    /// The log of the table whose sources are commits of `side`.
    pub closed spec fn table(&self, side: Location) -> Seq<MapEntry> {
        match side {
            Location::SUBGIT => self.from_local@,
            Location::UPSTREAM => self.from_upstream@,
        }
    }

    /// Both logs stand in the order of their timestamps.
    pub open spec fn wf(&self) -> bool {
        &&& ordered(self.table(Location::SUBGIT))
        &&& ordered(self.table(Location::UPSTREAM))
    }

    /// The translation of `source`, a commit of `side`, if one is recorded.
    pub open spec fn get(&self, side: Location, source: Oid) -> Option<Oid> {
        lookup(self.table(side), source)
    }

    /// A map with two empty tables.
    pub fn new() -> (r: MapStore)
        ensures
            r.wf(),
            r.table(Location::SUBGIT) == Seq::<MapEntry>::empty(),
            r.table(Location::UPSTREAM) == Seq::<MapEntry>::empty(),
    {
        MapStore { from_local: Vec::new(), from_upstream: Vec::new() }
    }

    /// Puts back a row that was read from storage. Rows come in the order of
    /// their timestamps; one that is older than the row before it is refused
    /// and the map stays as it was.
    pub fn restore(&mut self, side: Location, entry: MapEntry) -> (accepted: bool)
        requires
            old(self).wf(),
        ensures
            final(self).wf(),
            accepted == (old(self).table(side).len() == 0 || old(self).table(side).last().timestamp
                <= entry.timestamp),
            final(self).table(side.flip()) == old(self).table(side.flip()),
            final(self).table(side) == (if accepted {
                old(self).table(side).push(entry)
            } else {
                old(self).table(side)
            }),
    {
        match side {
            Location::SUBGIT => {
                let n = self.from_local.len();
                if n == 0 || self.from_local[n - 1].timestamp <= entry.timestamp {
                    self.from_local.push(entry);
                    true
                } else {
                    false
                }
            },
            Location::UPSTREAM => {
                let n = self.from_upstream.len();
                if n == 0 || self.from_upstream[n - 1].timestamp <= entry.timestamp {
                    self.from_upstream.push(entry);
                    true
                } else {
                    false
                }
            },
        }
    }

    /// The number of rows of a table.
    pub fn len(&self, side: Location) -> (n: usize)
        ensures
            n == self.table(side).len(),
    {
        match side {
            Location::SUBGIT => self.from_local.len(),
            Location::UPSTREAM => self.from_upstream.len(),
        }
    }

    /// The row at `index` of a table.
    pub fn row(&self, side: Location, index: usize) -> (entry: MapEntry)
        requires
            index < self.table(side).len(),
        ensures
            entry == self.table(side)[index as int],
    {
        match side {
            Location::SUBGIT => self.from_local[index],
            Location::UPSTREAM => self.from_upstream[index],
        }
    }

    /// Reads the translation of `source`, a commit of `side`.
    pub fn find(&self, side: Location, source: &Oid) -> (r: Option<Oid>)
        ensures
            r == self.get(side, *source),
    {
        let mut i: usize = self.len(side);
        proof {
            assert(self.table(side).take(i as int) == self.table(side));
        }
        while i > 0
            invariant
                i <= self.table(side).len(),
                lookup(self.table(side), *source) == lookup(self.table(side).take(i as int), *source),
            decreases i,
        {
            let entry = self.row(side, i - 1);
            proof {
                let t = self.table(side).take(i as int);
                assert(t.last() == entry);
                assert(t.drop_last() == self.table(side).take(i - 1));
            }
            if entry.source.same(source) {
                return Some(entry.dest);
            }
            i -= 1;
        }
        None
    }
}

/// `chrono::Utc::now`, as milliseconds since the start of 1970. The value is
/// whatever the machine's clock says, so nothing is claimed of it. The call
/// fails on a machine whose clock stands before 1970.
#[verifier::external_body]
fn clock_millis() -> i64 {
    chrono::Utc::now().timestamp_millis()
}

/// The two logs mirror each other: the entries were written in pairs, one
/// in each log, the second the first turned round.
pub open spec fn paired_tables(up: Seq<MapEntry>, sub: Seq<MapEntry>) -> bool {
    &&& up.len() == sub.len()
    &&& forall|i: int|
        0 <= i < up.len() ==> (#[trigger] up[i]).source == sub[i].dest && up[i].dest
            == sub[i].source
}

/// The two tables of the map mirror each other.
pub open spec fn paired(store: MapStore) -> bool {
    paired_tables(store.table(Location::UPSTREAM), store.table(Location::SUBGIT))
}

/// One pair more leaves the logs mirroring each other.
pub proof fn lemma_put_keeps_pairs(
    before: CommitMapper,
    side: Location,
    source: Oid,
    dest: Oid,
    after: CommitMapper,
)
    requires
        put_of(before, side, source, dest, after),
        paired(before.store()),
    ensures
        paired(after.store()),
{
    let up = after.table(Location::UPSTREAM);
    let sub = after.table(Location::SUBGIT);
    let up0 = before.table(Location::UPSTREAM);
    let sub0 = before.table(Location::SUBGIT);
    assert(up.drop_last() == up0);
    assert(sub.drop_last() == sub0);
    assert forall|i: int| 0 <= i < up.len() implies (#[trigger] up[i]).source == sub[i].dest
        && up[i].dest == sub[i].source by {
        if i < up0.len() {
            assert(up[i] == up0[i]);
            assert(sub[i] == sub0[i]);
        }
    }
}

/// In two logs that mirror each other, a pair whose two commits no later
/// pair names again on their own side reads back both ways.
pub proof fn lemma_pair_reads_back(up: Seq<MapEntry>, sub: Seq<MapEntry>, i: int)
    requires
        ordered(up),
        ordered(sub),
        paired_tables(up, sub),
        0 <= i < up.len(),
        forall|j: int|
            i < j < up.len() ==> (#[trigger] up[j]).source != up[i].source && up[j].dest
                != up[i].dest,
    ensures
        lookup(up, up[i].source) == Some(up[i].dest),
        lookup(sub, up[i].dest) == Some(up[i].source),
{
    let u = up[i].source;
    let s = up[i].dest;
    lemma_lookup_is_latest(up, u);
    lemma_lookup_is_latest(sub, s);
    assert(up[i].source == u);
    assert(sub[i].source == s && sub[i].dest == u);
    assert forall|j: int| i < j < sub.len() implies sub[j].source != s by {
        assert(up[j].dest != s);
    }
}

/// A pair that was written and whose two commits no later pair names again
/// on their own side reads back both ways.
pub proof fn lemma_roundtrip(store: MapStore, i: int)
    requires
        store.wf(),
        paired(store),
        0 <= i < store.table(Location::UPSTREAM).len(),
        forall|j: int|
            i < j < store.table(Location::UPSTREAM).len() ==> {
                &&& (#[trigger] store.table(Location::UPSTREAM)[j]).source != store.table(
                    Location::UPSTREAM,
                )[i].source
                &&& store.table(Location::UPSTREAM)[j].dest != store.table(
                    Location::UPSTREAM,
                )[i].dest
            },
    ensures
        store.get(Location::UPSTREAM, store.table(Location::UPSTREAM)[i].source) == Some(
            store.table(Location::UPSTREAM)[i].dest,
        ),
        store.get(Location::SUBGIT, store.table(Location::UPSTREAM)[i].dest) == Some(
            store.table(Location::UPSTREAM)[i].source,
        ),
{
    lemma_pair_reads_back(store.table(Location::UPSTREAM), store.table(Location::SUBGIT), i);
}

/// Reads the commit map and never writes it.
pub struct ReadOnlyMapper<'a> {
    conn: &'a MapStore,
}

impl<'a> ReadOnlyMapper<'a> {
    /// The map that is read.
    pub closed spec fn store(&self) -> MapStore {
        *self.conn
    }

    /// A reader of the map.
    pub fn new(conn: &'a MapStore) -> (r: ReadOnlyMapper<'a>)
        ensures
            r.store() == *conn,
    {
        ReadOnlyMapper { conn }
    }

    /// The latest translation of a commit of side `source`; nothing for no
    /// commit.
    pub fn get_translated(&self, maybe_sha: Option<&Oid>, source: Location) -> (r: Option<Oid>)
        ensures
            r == (match maybe_sha {
                Some(sha) => self.store().get(source, *sha),
                None => None,
            }),
    {
        match maybe_sha {
            Some(sha) => self.conn.find(source, sha),
            None => None,
        }
    }

    /// Whether a translation of the commit is recorded.
    pub fn has_sha(&self, sha: &Oid, source: Location) -> (r: bool)
        ensures
            r == self.store().get(source, *sha).is_some(),
    {
        self.get_translated(Some(sha), source).is_some()
    }
}

/// Writes the commit map within one unit of work: what is written is kept
/// by `save_changes` as a whole, or dropped by `discard` as a whole.
#[derive(Debug)]
pub struct CommitMapper {
    conn: MapStore,
    base_local: usize,
    base_upstream: usize,
}

impl CommitMapper {
    /// The map as the writer sees it, with what it has written so far.
    pub closed spec fn store(&self) -> MapStore {
        self.conn
    }

    /// The number of rows that a table had when the unit of work began.
    pub closed spec fn base_len(&self, side: Location) -> nat {
        match side {
            Location::SUBGIT => self.base_local as nat,
            Location::UPSTREAM => self.base_upstream as nat,
        }
    }

    /// The log of a table, with what has been written so far.
    pub open spec fn table(&self, side: Location) -> Seq<MapEntry> {
        self.store().table(side)
    }

    /// The log of a table as it was when the unit of work began.
    pub open spec fn committed(&self, side: Location) -> Seq<MapEntry> {
        self.table(side).take(self.base_len(side) as int)
    }

    /// The map is in order, and what the unit of work found lies within
    /// it.
    pub open spec fn wf(&self) -> bool {
        &&& self.store().wf()
        &&& self.base_len(Location::SUBGIT) <= self.table(Location::SUBGIT).len()
        &&& self.base_len(Location::UPSTREAM) <= self.table(Location::UPSTREAM).len()
    }

    /// The translation of `source`, a commit of `side`, as the writer sees it.
    pub open spec fn get(&self, side: Location, source: Oid) -> Option<Oid> {
        self.store().get(side, source)
    }

    /// Begins a unit of work on the map.
    pub fn new(conn: MapStore) -> (r: CommitMapper)
        requires
            conn.wf(),
        ensures
            r.wf(),
            r.store() == conn,
            r.committed(Location::SUBGIT) == conn.table(Location::SUBGIT),
            r.committed(Location::UPSTREAM) == conn.table(Location::UPSTREAM),
    {
        let base_local = conn.len(Location::SUBGIT);
        let base_upstream = conn.len(Location::UPSTREAM);
        proof {
            assert(conn.table(Location::SUBGIT).take(base_local as int) == conn.table(
                Location::SUBGIT,
            ));
            assert(conn.table(Location::UPSTREAM).take(base_upstream as int) == conn.table(
                Location::UPSTREAM,
            ));
        }
        CommitMapper { conn, base_local, base_upstream }
    }

    /// Ends the unit of work and keeps all that it wrote.
    pub fn save_changes(self) -> (r: MapStore)
        requires
            self.wf(),
        ensures
            r.wf(),
            r == self.store(),
    {
        self.conn
    }

    /// Ends the unit of work and drops all that it wrote: the map is as it
    /// was when the unit began.
    pub fn discard(self) -> (r: MapStore)
        requires
            self.wf(),
        ensures
            r.wf(),
            r.table(Location::SUBGIT) == self.committed(Location::SUBGIT),
            r.table(Location::UPSTREAM) == self.committed(Location::UPSTREAM),
    {
        let mut conn = self.conn;
        conn.from_local.truncate(self.base_local);
        conn.from_upstream.truncate(self.base_upstream);
        proof {
            assert(conn.from_local@ == self.conn.from_local@.take(self.base_local as int));
            assert(conn.from_upstream@ == self.conn.from_upstream@.take(self.base_upstream as int));
        }
        conn
    }

    /// The number of rows that the unit of work has added to a table.
    pub fn pending_len(&self, side: Location) -> (n: usize)
        requires
            self.wf(),
        ensures
            n == self.table(side).len() - self.base_len(side),
    {
        match side {
            Location::SUBGIT => self.conn.from_local.len() - self.base_local,
            Location::UPSTREAM => self.conn.from_upstream.len() - self.base_upstream,
        }
    }

    /// One of the rows that the unit of work has added to a table.
    pub fn pending_row(&self, side: Location, index: usize) -> (entry: MapEntry)
        requires
            self.wf(),
            index < self.table(side).len() - self.base_len(side),
        ensures
            entry == self.table(side)[self.base_len(side) + index],
    {
        match side {
            Location::SUBGIT => {
                assert(self.base_local + index < self.conn.from_local.len());
                self.conn.from_local[self.base_local + index]
            },
            Location::UPSTREAM => {
                assert(self.base_upstream + index < self.conn.from_upstream.len());
                self.conn.from_upstream[self.base_upstream + index]
            },
        }
    }

    /// The latest translation of a commit of side `source`; nothing for no
    /// commit.
    pub fn get_translated(&self, maybe_sha: Option<&Oid>, source: Location) -> (r: Option<Oid>)
        ensures
            r == (match maybe_sha {
                Some(sha) => self.get(source, *sha),
                None => None,
            }),
    {
        ReadOnlyMapper::new(&self.conn).get_translated(maybe_sha, source)
    }

    /// Whether a translation of the commit is recorded.
    pub fn has_sha(&self, sha: &Oid, source: Location) -> (r: bool)
        ensures
            r == self.get(source, *sha).is_some(),
    {
        ReadOnlyMapper::new(&self.conn).has_sha(sha, source)
    }

    /// Appends one entry to the table of `source`: `sha` is translated to
    /// `translated`. The entry is stamped with the time of the call, or with
    /// the stamp of the entry before it where the clock has fallen behind.
    pub fn set_translated(&mut self, sha: &Oid, source: Location, translated: &Oid)
        requires
            old(self).wf(),
        ensures
            final(self).wf(),
            final(self).base_len(Location::SUBGIT) == old(self).base_len(Location::SUBGIT),
            final(self).base_len(Location::UPSTREAM) == old(self).base_len(Location::UPSTREAM),
            final(self).table(source.flip()) == old(self).table(source.flip()),
            final(self).table(source).len() == old(self).table(source).len() + 1,
            final(self).table(source).drop_last() == old(self).table(source),
            final(self).table(source).last().source == *sha,
            final(self).table(source).last().dest == *translated,
            final(self).get(source, *sha) == Some(*translated),
            forall|other: Oid|
                other != *sha ==> final(self).get(source, other) == old(self).get(source, other),
            forall|other: Oid|
                final(self).get(source.flip(), other) == old(self).get(source.flip(), other),
    {
        let now = clock_millis();
        let n = self.conn.len(source);
        let timestamp = if n > 0 && self.conn.row(source, n - 1).timestamp > now {
            self.conn.row(source, n - 1).timestamp
        } else {
            now
        };
        let entry = MapEntry { source: *sha, dest: *translated, timestamp };
        let ghost before = self.conn.table(source);
        match source {
            Location::SUBGIT => {
                self.conn.from_local.push(entry);
            },
            Location::UPSTREAM => {
                self.conn.from_upstream.push(entry);
            },
        }
        proof {
            assert(self.conn.table(source) == before.push(entry));
            assert(before.push(entry).drop_last() == before);
            assert forall|other: Oid| other != *sha implies self.get(source, other) == old(
                self,
            ).get(source, other) by {
                lemma_lookup_push(before, entry, other);
            }
            lemma_lookup_push(before, entry, *sha);
        }
    }

    /// Records a pair in both tables: `source`, a commit of `side`, is
    /// translated to `dest`, and `dest`, a commit of the other side, back to
    /// `source`.
    pub fn put(&mut self, side: Location, source: &Oid, dest: &Oid)
        requires
            old(self).wf(),
        ensures
            put_of(*old(self), side, *source, *dest, *final(self)),
            final(self).get(side, *source) == Some(*dest),
            final(self).get(side.flip(), *dest) == Some(*source),
            forall|other: Oid|
                other != *source ==> final(self).get(side, other) == old(self).get(side, other),
            forall|other: Oid|
                other != *dest ==> final(self).get(side.flip(), other) == old(self).get(
                    side.flip(),
                    other,
                ),
            paired(old(self).store()) ==> paired(final(self).store()),
    {
        self.set_translated(source, side, dest);
        self.set_translated(dest, side.flip(), source);
        proof {
            if paired(old(self).store()) {
                lemma_put_keeps_pairs(*old(self), side, *source, *dest, *self);
            }
        }
    }
}

/// `after` is `before` with one pair more: an entry from `source` to `dest`
/// at the end of the table of `side`, an entry from `dest` to `source` at the
/// end of the other table, and nothing else changed.
pub open spec fn put_of(
    before: CommitMapper,
    side: Location,
    source: Oid,
    dest: Oid,
    after: CommitMapper,
) -> bool {
    &&& after.wf()
    &&& after.base_len(Location::SUBGIT) == before.base_len(Location::SUBGIT)
    &&& after.base_len(Location::UPSTREAM) == before.base_len(Location::UPSTREAM)
    &&& after.table(side).len() == before.table(side).len() + 1
    &&& after.table(side).drop_last() == before.table(side)
    &&& after.table(side).last().source == source
    &&& after.table(side).last().dest == dest
    &&& after.table(side.flip()).len() == before.table(side.flip()).len() + 1
    &&& after.table(side.flip()).drop_last() == before.table(side.flip())
    &&& after.table(side.flip()).last().source == dest
    &&& after.table(side.flip()).last().dest == source
}

/// What a unit of work has written stays in the log, whatever is written
/// after it: entries are appended and never changed or removed.
pub proof fn lemma_recorded_stays(before: Seq<MapEntry>, after: Seq<MapEntry>, i: int)
    requires
        before.is_prefix_of(after),
        0 <= i < before.len(),
    ensures
        i < after.len(),
        after[i] == before[i],
{
}

} // verus!
