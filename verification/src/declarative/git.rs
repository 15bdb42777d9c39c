//! The command lines with which a history is replayed into a repository and
//! a consumer works on its clone.

use vstd::prelude::*;
use crate::declarative::tree::NiceGit;
use crate::declarative::util::{args1, args2, args3, with_first, CommandLine};
use crate::text::{
    from_chars, parse_u32, parsed_u32, pieces, split, string_views, to_chars, trim, trimmed,
};

verus! {

/// A version of Git.
#[derive(Clone, Copy, Debug, PartialEq, Eq, PartialOrd, Ord)]
pub struct Version {
    pub major: u32,
    pub minor: u32,
    pub dot: u32,
}

/// The version from which on Git merges unrelated histories only when it is
/// told to.
pub fn unrelated_histories_version() -> (r: Version)
    ensures
        r == (Version { major: 2, minor: 9, dot: 0 }),
{
    Version { major: 2, minor: 9, dot: 0 }
}

/// The version that a text stands for. The text holds numbers with dots
/// between them; the first is the major number, the second is both the minor
/// number and the last number. Nothing where a second number is missing or one
/// of the two is no number.
pub open spec fn parsed_version(s: Seq<char>) -> Option<Version> {
    let coords = pieces(s, '.');
    if coords.len() < 2 {
        None
    } else {
        match (parsed_u32(coords[0]), parsed_u32(coords[1])) {
            (Some(major), Some(minor)) => Some(Version { major, minor, dot: minor }),
            _ => None,
        }
    }
}

impl Version {
    /// Whether this version is later than the other: by the major number,
    /// then by the minor number, then by the last number.
    pub open spec fn later_than(self, other: Version) -> bool {
        self.major > other.major || (self.major == other.major && (self.minor > other.minor || (
        self.minor == other.minor && self.dot > other.dot)))
    }

    /// Whether this version is later than the other.
    pub fn exceeds(&self, other: &Version) -> (r: bool)
        ensures
            r == self.later_than(*other),
    {
        self.major > other.major || (self.major == other.major && (self.minor > other.minor || (
        self.minor == other.minor && self.dot > other.dot)))
    }

    /// Reads a version.
    pub fn parse(s: &str) -> (r: Option<Version>)
        ensures
            r == parsed_version(s@),
    {
        let coords = split(&to_chars(s), '.');
        if coords.len() < 2 {
            return None;
        }
        match (parse_u32(&coords[0]), parse_u32(&coords[1])) {
            (Some(major), Some(minor)) => Some(Version { major, minor, dot: minor }),
            _ => None,
        }
    }
}

/// The version that `git --version` has printed: that of the last word of
/// the output.
pub open spec fn printed_version(output: Seq<char>) -> Option<Version> {
    parsed_version(pieces(output, ' ').last())
}

/// Reads what `git --version` has printed.
pub fn get_git_version(output: &str) -> (r: Option<Version>)
    ensures
        r == printed_version(output@),
{
    let words = split(&to_chars(output), ' ');
    Version::parse(from_chars(&words[words.len() - 1]).as_str())
}

/// A working clone and the version of the Git that works on it.
#[derive(Clone, Debug, PartialEq, Eq)]
pub struct Git {
    pub path: String,
    pub git_version: Version,
}

/// The arguments of a merge of the given commits by a Git of the version.
pub open spec fn merge_args(version: Version, args: Seq<Seq<char>>) -> Seq<Seq<char>> {
    if version.later_than(Version { major: 2, minor: 9, dot: 0 }) {
        seq!["merge"@, "--allow-unrelated-histories"@] + args
    } else {
        seq!["merge"@] + args
    }
}

impl Git {
    /// The working clone.
    pub fn path(&self) -> (r: String)
        ensures
            r@ == self.path@,
    {
        self.path.clone()
    }

    /// Git with the arguments, in the working clone.
    pub fn command(&self, args: Vec<String>) -> (r: CommandLine)
        ensures
            r.is_git(self.path@, string_views(args@)),
    {
        CommandLine::git(self.path.as_str(), args)
    }

    /// The commit of what is staged.
    pub fn commit(&self, message: &str) -> (r: CommandLine)
        ensures
            r.is_git(self.path@, seq!["commit"@, "-m"@, message@]),
    {
        self.command(args3("commit", "-m", message))
    }

    /// The staging of all that changed under the path.
    pub fn add(&self, path: &str) -> (r: CommandLine)
        ensures
            r.is_git(self.path@, seq!["add"@, "--all"@, path@]),
    {
        self.command(args3("add", "--all", path))
    }

    /// The checkout of a branch or a commit.
    pub fn checkout(&self, ref_ish: &str) -> (r: CommandLine)
        ensures
            r.is_git(self.path@, seq!["checkout"@, ref_ish@]),
    {
        self.command(args2("checkout", ref_ish))
    }

    /// The pull of the branch that is checked out.
    pub fn pull(&self) -> (r: CommandLine)
        ensures
            r.is_git(self.path@, seq!["pull"@]),
    {
        self.command(args1("pull"))
    }

    /// The push of the branch that is checked out.
    pub fn push(&self) -> (r: CommandLine)
        ensures
            r.is_git(self.path@, seq!["push"@]),
    {
        self.command(args1("push"))
    }

    /// `git branch` with the arguments.
    pub fn branch(&self, args: &Vec<String>) -> (r: CommandLine)
        ensures
            r.is_git(self.path@, seq!["branch"@] + string_views(args@)),
    {
        self.command(with_first("branch", args))
    }

    /// `git checkout` with the arguments.
    pub fn checkout_adv(&self, args: &Vec<String>) -> (r: CommandLine)
        ensures
            r.is_git(self.path@, seq!["checkout"@] + string_views(args@)),
    {
        self.command(with_first("checkout", args))
    }

    /// `git push` with the arguments.
    pub fn push_adv(&self, args: &Vec<String>) -> (r: CommandLine)
        ensures
            r.is_git(self.path@, seq!["push"@] + string_views(args@)),
    {
        self.command(with_first("push", args))
    }

    /// A merge of the given commits. A Git later than 2.9.0 is told to merge
    /// histories that have nothing in common.
    pub fn merge(&self, args: &Vec<String>) -> (r: CommandLine)
        ensures
            r.is_git(self.path@, merge_args(self.git_version, string_views(args@))),
    {
        if self.git_version.exceeds(&unrelated_histories_version()) {
            let rest = with_first("--allow-unrelated-histories", args);
            let all = with_first("merge", &rest);
            assert(seq!["merge"@] + (seq!["--allow-unrelated-histories"@] + string_views(args@))
                == seq!["merge"@, "--allow-unrelated-histories"@] + string_views(args@));
            self.command(all)
        } else {
            self.command(with_first("merge", args))
        }
    }

    /// The command that counts the commits that `commit_ish` reaches.
    pub fn commit_count(&self, commit_ish: &str) -> (r: CommandLine)
        ensures
            r.is_git(self.path@, seq!["rev-list"@, "--count"@, commit_ish@]),
    {
        self.command(args3("rev-list", "--count", commit_ish))
    }

    /// The command that names the commit that is checked out.
    pub fn get_current_commit(&self) -> (r: CommandLine)
        ensures
            r.is_git(self.path@, seq!["rev-parse"@, "HEAD"@]),
    {
        self.command(args2("rev-parse", "HEAD"))
    }

    /// Git with the arguments, in the working clone, where what it prints is
    /// read.
    pub fn command_output(&self, args: Vec<String>) -> (r: CommandLine)
        ensures
            r.is_git(self.path@, string_views(args@)),
    {
        self.command(args)
    }
}

/// What a command has printed, without the white space round it.
pub fn read_output(output: &str) -> (r: String)
    ensures
        r@ == trimmed(output@),
{
    from_chars(&trim(&to_chars(output)))
}

/// The number of commits that `commit_count` has printed.
pub fn read_commit_count(output: &str) -> (r: Option<u32>)
    ensures
        r == parsed_u32(trimmed(output@)),
{
    parse_u32(&trim(&to_chars(output)))
}

/// Replays a history into a working clone.
#[derive(Clone, Debug, PartialEq, Eq)]
pub struct GitWrapper {
    pub git: Git,
}

impl GitWrapper {
    /// A wrapper of the working clone at `path`.
    pub fn new(path: String, git_version: Version) -> (r: GitWrapper)
        ensures
            r.git.path == path,
            r.git.git_version == git_version,
    {
        GitWrapper { git: Git { path, git_version } }
    }

    /// The command that checks the commit out.
    pub fn checkout_commit(&self, sha: &str) -> (r: CommandLine)
        ensures
            r.is_git(self.git.path@, seq!["checkout"@, sha@]),
    {
        self.git.command(args2("checkout", sha))
    }
}

/// A working clone into which a history is replayed and from which it is
/// pushed.
pub trait InternalGit: NiceGit {
    /// Pushes all branches.
    fn push_all(&self);

    /// Lets the head of the remote name the branch.
    fn set_head(&self, branch: String);
}

/// Someone who works on a clone of the upstream repository or of the
/// subgit.
#[derive(Clone, Debug, PartialEq, Eq)]
pub struct Consumer {
    /// The directory of the upstream repository that the subgit shows as its
    /// root, where the clone is one of the subgit.
    pub filter: Option<String>,
    pub git: Git,
}

impl Consumer {
    /// Someone who works on the clone at `path`.
    pub fn new(path: String, filter: Option<String>, git_version: Version) -> (r: Consumer)
        ensures
            r.filter == filter,
            r.git.path == path,
            r.git.git_version == git_version,
    {
        Consumer { filter, git: Git { path, git_version } }
    }
}

} // verus!
