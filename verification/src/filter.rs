//! Which refs are mirrored, and how a path of one side stands on the other.

use vstd::prelude::*;
use crate::location::Location;
use crate::text::{to_chars, from_chars, starts_with, same_chars, split, drop_empty, join_chars, views, string_views, join, pieces, nonempty};

verus! {

/// Some prefix of the list begins the name.
pub open spec fn matches_any(prefixes: Seq<Seq<char>>, name: Seq<char>) -> bool {
    exists|i: int| 0 <= i < prefixes.len() && (#[trigger] prefixes[i]).is_prefix_of(name)
}

/// A list of ref-name prefixes: a ref is mirrored when its name begins with
/// one of them.
pub trait RefFilter {
    /// The prefixes of the list.
    spec fn prefixes(&self) -> Seq<Seq<char>>;

    fn matches(&self, ref_name: &str) -> (r: bool)
        ensures
            r == matches_any(self.prefixes(), ref_name@),
    ;
}

impl RefFilter for Vec<String> {
    open spec fn prefixes(&self) -> Seq<Seq<char>> {
        string_views(self@)
    }

    fn matches(&self, ref_name: &str) -> (r: bool) {
        let name = to_chars(ref_name);
        let mut i: usize = 0;
        while i < self.len()
            invariant
                i <= self.len(),
                name@ == ref_name@,
                forall|k: int| 0 <= k < i ==> !(#[trigger] string_views(self@)[k]).is_prefix_of(name@),
            decreases self.len() - i,
        {
            let prefix = to_chars(self[i].as_str());
            if starts_with(&name, &prefix) {
                assert(string_views(self@)[i as int].is_prefix_of(name@));
                return true;
            }
            i += 1;
        }
        false
    }
}

/// The refs that are mirrored where no list is configured: the branches and
/// `HEAD`.
pub open spec fn applicable(name: Seq<char>) -> bool {
    "refs/heads"@.is_prefix_of(name) || name == "HEAD"@
}

/// Whether the ref is a branch or `HEAD`.
pub fn is_applicable(value: &str) -> (r: bool)
    ensures
        r == applicable(value@),
{
    let name = to_chars(value);
    starts_with(&name, &to_chars("refs/heads")) || same_chars(&name, &to_chars("HEAD"))
}

/// Whether the ref is a branch or `HEAD`.
pub fn is_standard(value: &str) -> (r: bool)
    ensures
        r == applicable(value@),
{
    is_applicable(value)
}

/// The components of a path: its pieces between slashes, the empty ones left
/// out, so that a doubled, leading or trailing slash changes nothing.
pub open spec fn components(path: Seq<char>) -> Seq<Seq<char>> {
    nonempty(pieces(path, '/'))
}

/// The path that stands for `path` when the directory `from` of one side is
/// shown as the directory `to` of the other: the components of `path` behind
/// those of `from`, put under `to`. Nothing where `path` does not lie under
/// `from`.
pub open spec fn projected(from: Seq<char>, to: Seq<char>, path: Seq<char>) -> Option<Seq<char>> {
    let base = components(from);
    let parts = components(path);
    if base.is_prefix_of(parts) {
        Some(join(components(to) + parts.skip(base.len() as int), seq!['/']))
    } else {
        None
    }
}

/// The components of a path.
pub fn path_components(path: &str) -> (r: Vec<Vec<char>>)
    ensures
        views(r@) == components(path@),
{
    drop_empty(split(&to_chars(path), '/'))
}

/// The path that stands for `path` when the directory `from` is shown as the
/// directory `to`.
pub fn project_path(from: &str, to: &str, path: &str) -> (r: Option<String>)
    ensures
        r is Some <==> projected(from@, to@, path@) is Some,
        r matches Some(p) ==> Some(p@) == projected(from@, to@, path@),
{
    let base = path_components(from);
    let parts = path_components(path);
    if base.len() > parts.len() {
        return None;
    }
    let mut i: usize = 0;
    while i < base.len()
        invariant
            i <= base.len() <= parts.len(),
            views(base@) == components(from@),
            views(parts@) == components(path@),
            forall|k: int| 0 <= k < i ==> views(base@)[k] == views(parts@)[k],
        decreases base.len() - i,
    {
        if !same_chars(&base[i], &parts[i]) {
            assert(views(base@)[i as int] != views(parts@)[i as int]);
            assert(views(parts@).subrange(0, base.len() as int)[i as int] == views(parts@)[i as int]);
            return None;
        }
        i += 1;
    }
    assert(views(base@) == views(parts@).subrange(0, base.len() as int));
    let mut out = path_components(to);
    let ghost head = views(out@);
    let mut j: usize = base.len();
    while j < parts.len()
        invariant
            base.len() <= j <= parts.len(),
            views(out@) == head + views(parts@).subrange(base.len() as int, j as int),
        decreases parts.len() - j,
    {
        let piece = parts[j].clone();
        assert(piece@ == parts@[j as int]@);
        proof {
            assert(views(out@.push(piece)) == views(out@).push(piece@));
            assert(views(parts@).subrange(base.len() as int, j + 1) == views(parts@).subrange(
                base.len() as int,
                j as int,
            ).push(piece@));
        }
        out.push(piece);
        j += 1;
    }
    assert(views(parts@).subrange(base.len() as int, parts.len() as int) == views(parts@).skip(
        base.len() as int,
    ));
    Some(from_chars(&join_chars(&out, '/')))
}

/// Shows a subdirectory of the upstream repository as a directory of the
/// subgit repository, and back.
#[derive(Clone, Debug, PartialEq, Eq)]
pub struct PathFilter {
    pub upstream_subdir: String,
    pub subgit_subdir: String,
}

impl PathFilter {
    /// The directory of `side` that the filter speaks of.
    pub open spec fn subdir(&self, side: Location) -> Seq<char> {
        match side {
            Location::UPSTREAM => self.upstream_subdir@,
            Location::SUBGIT => self.subgit_subdir@,
        }
    }

    /// The filter between the two directories.
    pub fn new(upstream_subdir: String, subgit_subdir: String) -> (r: PathFilter)
        ensures
            r.upstream_subdir == upstream_subdir,
            r.subgit_subdir == subgit_subdir,
    {
        PathFilter { upstream_subdir, subgit_subdir }
    }

    /// The path of the other side that stands for `path`, a path of `source`.
    pub fn project(&self, source: Location, path: &str) -> (r: Option<String>)
        ensures
            r is Some <==> projected(self.subdir(source), self.subdir(source.flip()), path@) is Some,
            r matches Some(p) ==> Some(p@) == projected(
                self.subdir(source),
                self.subdir(source.flip()),
                path@,
            ),
    {
        match source {
            Location::UPSTREAM => project_path(
                self.upstream_subdir.as_str(),
                self.subgit_subdir.as_str(),
                path,
            ),
            Location::SUBGIT => project_path(
                self.subgit_subdir.as_str(),
                self.upstream_subdir.as_str(),
                path,
            ),
        }
    }

    /// The path of the subgit repository that stands for `path` of the
    /// upstream repository; nothing where `path` lies outside the
    /// subdirectory that is republished.
    pub fn project_down(&self, path: &str) -> (r: Option<String>)
        ensures
            r is Some <==> projected(self.upstream_subdir@, self.subgit_subdir@, path@) is Some,
            r matches Some(p) ==> Some(p@) == projected(
                self.upstream_subdir@,
                self.subgit_subdir@,
                path@,
            ),
    {
        self.project(Location::UPSTREAM, path)
    }

    /// The path of the upstream repository that stands for `path` of the
    /// subgit repository.
    pub fn project_up(&self, path: &str) -> (r: Option<String>)
        ensures
            r is Some <==> projected(self.subgit_subdir@, self.upstream_subdir@, path@) is Some,
            r matches Some(p) ==> Some(p@) == projected(
                self.subgit_subdir@,
                self.upstream_subdir@,
                path@,
            ),
    {
        self.project(Location::SUBGIT, path)
    }
}

} // verus!
