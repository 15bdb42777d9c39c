//! Command lines for Git, and paths.

use vstd::prelude::*;
use vstd::string::StringExecFns;
use crate::action::{entry_of, join_entry};
use crate::cli::{absolute, make_absolute};
use crate::filter::{components, path_components};
use crate::text::{
    from_chars, join, join_chars, pieces, same_chars, split, string_views, to_chars, views,
};

verus! {

/// A program to be run in a directory with arguments.
#[derive(Debug, PartialEq, Eq)]
pub struct CommandLine {
    pub dir: String,
    pub program: String,
    pub args: Vec<String>,
}

impl CommandLine {
    /// The command line runs `git` in `dir` with the arguments.
    pub open spec fn is_git(&self, dir: Seq<char>, args: Seq<Seq<char>>) -> bool {
        &&& self.dir@ == dir
        &&& self.program@ == "git"@
        &&& string_views(self.args@) == args
    }

    /// A command line that runs `git` in `dir`.
    pub fn git(dir: &str, args: Vec<String>) -> (r: CommandLine)
        ensures
            r.is_git(dir@, string_views(args@)),
    {
        CommandLine { dir: dir.to_owned(), program: "git".to_owned(), args }
    }
}

/// A list with one argument.
pub fn args1(a: &str) -> (r: Vec<String>)
    ensures
        string_views(r@) == seq![a@],
{
    let r = vec![a.to_owned()];
    assert(string_views(r@) == seq![a@]);
    r
}

/// A list with two arguments.
pub fn args2(a: &str, b: &str) -> (r: Vec<String>)
    ensures
        string_views(r@) == seq![a@, b@],
{
    let r = vec![a.to_owned(), b.to_owned()];
    assert(string_views(r@) == seq![a@, b@]);
    r
}

/// A list with three arguments.
pub fn args3(a: &str, b: &str, c: &str) -> (r: Vec<String>)
    ensures
        string_views(r@) == seq![a@, b@, c@],
{
    let r = vec![a.to_owned(), b.to_owned(), c.to_owned()];
    assert(string_views(r@) == seq![a@, b@, c@]);
    r
}

/// The list with one argument before it.
pub fn with_first(first: &str, rest: &Vec<String>) -> (r: Vec<String>)
    ensures
        string_views(r@) == seq![first@] + string_views(rest@),
{
    let mut out: Vec<String> = Vec::new();
    out.push(first.to_owned());
    assert(string_views(out@) == seq![first@]);
    let mut i: usize = 0;
    while i < rest.len()
        invariant
            i <= rest.len(),
            string_views(out@) == seq![first@] + string_views(rest@).take(i as int),
        decreases rest.len() - i,
    {
        let item = rest[i].clone();
        proof {
            assert(string_views(out@.push(item)) == string_views(out@).push(item@));
            assert(string_views(rest@).take(i + 1) == string_views(rest@).take(i as int).push(
                item@,
            ));
        }
        out.push(item);
        i += 1;
    }
    proof {
        assert(string_views(rest@).take(rest.len() as int) == string_views(rest@));
    }
    out
}

/// The path of the repository `name` in the directory `parent`.
pub open spec fn repo_path(parent: Seq<char>, name: Seq<char>) -> Seq<char> {
    parent + seq!['/'] + name
}

/// The command that makes an empty bare repository `name` in the directory
/// `parent`, and the path of that repository.
pub fn init_bare_repo(name: &str, parent: &str) -> (r: (CommandLine, String))
    ensures
        r.0.is_git(parent@, seq!["init"@, "--bare"@, name@]),
        r.1@ == repo_path(parent@, name@),
{
    let command = CommandLine::git(parent, args3("init", "--bare", name));
    let mut path = parent.to_owned();
    path.push('/');
    path.append(name);
    (command, path)
}

/// The name under which a repository is cloned where none is given: the last
/// part of its path, up to the first dot in it.
pub open spec fn clone_name(path: Seq<char>) -> Seq<char> {
    pieces(pieces(path, '/').last(), '.')[0]
}

/// The command that clones the repository at `p` into the directory `cwd`,
/// and the path of the clone. A path that does not begin at the root is read
/// against `current_dir`.
pub fn clone(cwd: &str, p: &str, current_dir: &str) -> (r: (CommandLine, String))
    ensures
        r.0.is_git(cwd@, seq!["clone"@, "file://"@ + absolute(current_dir@, p@)]),
        r.1@ == entry_of(cwd@, clone_name(p@)),
{
    let parts = split(&to_chars(p), '/');
    let last = &parts[parts.len() - 1];
    let name_parts = split(last, '.');
    let name = from_chars(&name_parts[0]);
    let mut full_path = "file://".to_owned();
    full_path.append(make_absolute(current_dir, p).as_str());
    let command = CommandLine::git(cwd, args2("clone", full_path.as_str()));
    (command, join_entry(cwd, name.as_str()))
}

/// The command that clones `url` into the directory `name` of `cwd`, and
/// the path of the clone.
pub fn clone_url(cwd: &str, url: &str, name: &str) -> (r: (CommandLine, String))
    ensures
        r.0.is_git(cwd@, seq!["clone"@, url@, name@]),
        r.1@ == entry_of(cwd@, name@),
{
    (CommandLine::git(cwd, args3("clone", url, name)), join_entry(cwd, name))
}

/// Runs what is known to work.
pub fn assert_works<E, F: FnOnce() -> Result<(), E>>(f: F)
    requires
        f.requires(()),
        forall|r: Result<(), E>| f.ensures((), r) ==> r is Ok,
{
    let result = f();
    assert(result is Ok);
}

/// The commands that set the name and the address of the user of the
/// repository at `path`.
pub fn set_credentials(path: &str, name: &str) -> (r: (CommandLine, CommandLine))
    ensures
        r.0.is_git(path@, seq!["config"@, "user.name"@, "User "@ + name@]),
        r.1.is_git(path@, seq!["config"@, "user.email"@, name@ + "@example.com"@]),
{
    let mut user = "User ".to_owned();
    user.append(name);
    let mut email = name.to_owned();
    email.append("@example.com");
    (
        CommandLine::git(path, args3("config", "user.name", user.as_str())),
        CommandLine::git(path, args3("config", "user.email", email.as_str())),
    )
}

/// The place of the last component `target` among the components; the number
/// of the components where none is `target`.
pub open spec fn last_target(parts: Seq<Seq<char>>) -> int
    decreases parts.len(),
{
    if parts.len() == 0 {
        0
    } else if parts.last() == "target"@ {
        parts.len() - 1
    } else {
        let before = last_target(parts.drop_last());
        if before == parts.len() - 1 {
            parts.len() as int
        } else {
            before
        }
    }
}

/// The top directory of the project whose build put the program at `exe`:
/// the directory above the last directory `target` on the way to the
/// program. Nothing where the program lies under no such directory.
pub open spec fn top_of(exe: Seq<char>) -> Option<Seq<char>> {
    let parts = components(exe);
    if parts.len() == 0 {
        None
    } else {
        let dirs = parts.drop_last();
        let at = last_target(dirs);
        if at == dirs.len() {
            None
        } else {
            Some(
                (if exe[0] == '/' {
                    seq!['/']
                } else {
                    Seq::empty()
                }) + join(dirs.take(at), seq!['/']),
            )
        }
    }
}

/// The top directory of the project whose build put the program at
/// `current_exe`.
pub fn get_top(current_exe: &str) -> (r: Option<String>)
    ensures
        r is Some <==> top_of(current_exe@) is Some,
        r matches Some(top) ==> Some(top@) == top_of(current_exe@),
{
    let chars = to_chars(current_exe);
    let mut parts = path_components(current_exe);
    if parts.len() == 0 {
        return None;
    }
    let ghost all = views(parts@);
    parts.pop();
    assert(views(parts@) == all.drop_last());
    let target = to_chars("target");
    let mut at: usize = parts.len();
    let mut i: usize = 0;
    while i < parts.len()
        invariant
            i <= parts.len(),
            target@ == "target"@,
            at <= parts.len(),
            at < parts.len() ==> at < i,
            at < parts.len() ==> last_target(views(parts@).take(i as int)) == at,
            at == parts.len() ==> last_target(views(parts@).take(i as int)) == i,
        decreases parts.len() - i,
    {
        proof {
            assert(views(parts@).take(i + 1).drop_last() == views(parts@).take(i as int));
            assert(views(parts@).take(i + 1).last() == parts@[i as int]@);
        }
        if same_chars(&parts[i], &target) {
            at = i;
        }
        i += 1;
    }
    proof {
        assert(views(parts@).take(parts.len() as int) == views(parts@));
    }
    if at == parts.len() {
        return None;
    }
    let ghost dirs = views(parts@);
    parts.truncate(at);
    assert(views(parts@) == dirs.take(at as int));
    let rest = join_chars(&parts, '/');
    let mut out = String::new();
    assert(chars@.len() > 0) by {
        if chars@.len() == 0 {
            let one = seq![Seq::<char>::empty()];
            assert(pieces(chars@, '/') == one);
            assert(one.last().len() == 0);
            assert(one.drop_last().len() == 0);
            assert(crate::text::nonempty(one.drop_last()).len() == 0);
            assert(crate::text::nonempty(one) == crate::text::nonempty(one.drop_last()));
        }
    }
    if chars[0] == '/' {
        out.push('/');
    }
    out.append(from_chars(&rest).as_str());
    assert(Seq::<char>::empty() + rest@ == rest@);
    Some(out)
}

} // verus!
