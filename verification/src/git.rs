//! How Git is asked on its command line for what the library needs of it, and
//! how what it prints is read.

use vstd::prelude::*;
use vstd::string::StringExecFns;
use crate::oid::{parsed, Oid};
use crate::text::{
    decimal, decimal_text, from_chars, lines, lines_of, parse_u32, parsed_u32, string_views,
    to_chars, trim, trimmed, views,
};

verus! {

/// A variable of the environment and its value.
#[derive(Debug, PartialEq, Eq)]
pub struct EnvVar {
    pub name: String,
    pub value: String,
}

/// An `EnvVar` as plain values.
pub struct EnvVarView {
    pub name: Seq<char>,
    pub value: Seq<char>,
}

/// The views of a list of variables.
pub open spec fn env_views(env: Seq<EnvVar>) -> Seq<EnvVarView> {
    Seq::new(env.len(), |i: int| EnvVarView { name: env[i].name@, value: env[i].value@ })
}

/// A run of Git: its arguments, and what is added to its environment.
#[derive(Debug, PartialEq, Eq)]
pub struct Invocation {
    pub args: Vec<String>,
    pub env: Vec<EnvVar>,
}

/// Appends one argument.
fn push_text(args: &mut Vec<String>, value: String)
    ensures
        string_views(final(args)@) == string_views(old(args)@).push(value@),
{
    proof {
        assert(string_views(args@.push(value)) == string_views(args@).push(value@));
    }
    args.push(value);
}

/// Each push option as an argument of `git push`.
pub open spec fn option_args(options: Seq<Seq<char>>) -> Seq<Seq<char>> {
    Seq::new(options.len(), |i: int| "--push-option="@ + options[i])
}

/// The arguments of the push of the commit that is checked out to the ref of
/// the remote `origin`.
pub open spec fn push_args(ref_name: Seq<char>, force_push: bool, options: Option<Seq<Seq<char>>>) -> Seq<
    Seq<char>,
> {
    seq!["push"@] + (match options {
        Some(list) => option_args(list),
        None => Seq::empty(),
    }) + seq![
        "origin"@,
        if force_push {
            "+HEAD:"@ + ref_name
        } else {
            "HEAD:"@ + ref_name
        },
    ]
}

/// The views of a list of push options, where there is one.
pub open spec fn options_view(options: Option<Vec<String>>) -> Option<Seq<Seq<char>>> {
    match options {
        Some(list) => Some(string_views(list@)),
        None => None,
    }
}

/// The push of the commit that is checked out to the ref of the remote, by
/// force or not, with the push options.
pub fn push_sha_ext(ref_name: &str, force_push: bool, git_push_options: &Option<Vec<String>>) -> (r: Invocation)
    ensures
        string_views(r.args@) == push_args(ref_name@, force_push, options_view(*git_push_options)),
        r.env@.len() == 0,
{
    let mut args: Vec<String> = Vec::new();
    push_text(&mut args, "push".to_owned());
    assert(string_views(args@) == seq!["push"@]);
    match git_push_options {
        Some(list) => {
            let mut i: usize = 0;
            while i < list.len()
                invariant
                    i <= list.len(),
                    string_views(args@) == seq!["push"@] + option_args(string_views(list@)).take(
                        i as int,
                    ),
                decreases list.len() - i,
            {
                let mut option = "--push-option=".to_owned();
                option.append(list[i].as_str());
                proof {
                    assert(option_args(string_views(list@)).take(i + 1) == option_args(
                        string_views(list@),
                    ).take(i as int).push(option@));
                }
                push_text(&mut args, option);
                i += 1;
            }
            proof {
                assert(option_args(string_views(list@)).take(list.len() as int) == option_args(
                    string_views(list@),
                ));
            }
        },
        None => {
            assert(seq!["push"@] + Seq::<Seq<char>>::empty() == seq!["push"@]);
        },
    }
    let ghost before = string_views(args@);
    push_text(&mut args, "origin".to_owned());
    let mut refspec = if force_push {
        "+HEAD:".to_owned()
    } else {
        "HEAD:".to_owned()
    };
    refspec.append(ref_name);
    push_text(&mut args, refspec);
    proof {
        assert(string_views(args@) == before + seq!["origin"@, refspec@]);
    }
    Invocation { args, env: Vec::new() }
}

/// The name of the variable that holds the push option at a place.
pub open spec fn option_variable(index: nat) -> Seq<char> {
    "GIT_PUSH_OPTION_"@ + decimal_text(index)
}

/// The variables with which Git hands push options on: their number, and
/// each of them under its place.
pub open spec fn env_of_options(options: Seq<Seq<char>>) -> Seq<EnvVarView> {
    seq![EnvVarView { name: "GIT_PUSH_OPTION_COUNT"@, value: decimal_text(options.len()) }] + Seq::new(
        options.len(),
        |i: int| EnvVarView { name: option_variable(i as nat), value: options[i] },
    )
}

/// The deletion of the ref on the remote, with the push options in the
/// environment.
pub fn delete_remote_branch(ref_name: &str, git_push_options: &Option<Vec<String>>) -> (r: Invocation)
    ensures
        string_views(r.args@) == seq!["push"@, "origin"@, seq![':'] + ref_name@],
        env_views(r.env@) == (match *git_push_options {
            Some(list) => env_of_options(string_views(list@)),
            None => Seq::empty(),
        }),
{
    let mut env: Vec<EnvVar> = Vec::new();
    match git_push_options {
        Some(list) => {
            let count = EnvVar { name: "GIT_PUSH_OPTION_COUNT".to_owned(), value: decimal(list.len()) };
            env.push(count);
            assert(env_views(env@) == seq![
                EnvVarView {
                    name: "GIT_PUSH_OPTION_COUNT"@,
                    value: decimal_text(list@.len()),
                },
            ]);
            let ghost first = env_views(env@);
            let ghost rest = Seq::new(
                list@.len(),
                |i: int| EnvVarView { name: option_variable(i as nat), value: list@[i]@ },
            );
            let mut i: usize = 0;
            while i < list.len()
                invariant
                    i <= list.len(),
                    env_views(env@) == first + rest.take(i as int),
                    rest == Seq::new(
                        list@.len(),
                        |i: int| EnvVarView { name: option_variable(i as nat), value: list@[i]@ },
                    ),
                decreases list.len() - i,
            {
                let mut name = "GIT_PUSH_OPTION_".to_owned();
                name.append(decimal(i).as_str());
                let var = EnvVar { name, value: list[i].clone() };
                proof {
                    assert(env_views(env@.push(var)) == env_views(env@).push(
                        EnvVarView { name: var.name@, value: var.value@ },
                    ));
                    assert(rest.take(i + 1) == rest.take(i as int).push(rest[i as int]));
                }
                env.push(var);
                i += 1;
            }
            proof {
                assert(rest.take(list.len() as int) == rest);
                assert(rest == Seq::new(
                    string_views(list@).len(),
                    |i: int|
                        EnvVarView { name: option_variable(i as nat), value: string_views(list@)[i] },
                ));
            }
        },
        None => {
            assert(env_views(env@) == Seq::<EnvVarView>::empty());
        },
    }
    let mut args: Vec<String> = Vec::new();
    push_text(&mut args, "push".to_owned());
    push_text(&mut args, "origin".to_owned());
    let mut refspec = String::new();
    refspec.push(':');
    refspec.append(ref_name);
    assert(refspec@ == seq![':'] + ref_name@);
    push_text(&mut args, refspec);
    assert(string_views(args@) == seq!["push"@, "origin"@, seq![':'] + ref_name@]);
    Invocation { args, env }
}

/// The fetch from all remotes.
pub fn fetch_all_ext() -> (r: Invocation)
    ensures
        string_views(r.args@) == seq!["fetch"@, "--all"@],
        r.env@.len() == 0,
{
    let mut args: Vec<String> = Vec::new();
    push_text(&mut args, "fetch".to_owned());
    push_text(&mut args, "--all".to_owned());
    assert(string_views(args@) == seq!["fetch"@, "--all"@]);
    Invocation { args, env: Vec::new() }
}

/// The clone of `url` into the directory `name`.
pub fn clone_remote(url: &str, name: &str) -> (r: Invocation)
    ensures
        string_views(r.args@) == seq!["clone"@, url@, name@],
        r.env@.len() == 0,
{
    let mut args: Vec<String> = Vec::new();
    push_text(&mut args, "clone".to_owned());
    push_text(&mut args, url.to_owned());
    push_text(&mut args, name.to_owned());
    assert(string_views(args@) == seq!["clone"@, url@, name@]);
    Invocation { args, env: Vec::new() }
}

/// The question for the heads of the `n` branches that were written to last,
/// the last first. Git answers with one commit on each line.
pub fn get_n_recent_shas(n: usize) -> (r: Invocation)
    ensures
        string_views(r.args@) == seq![
            "for-each-ref"@,
            "--count="@ + decimal_text(n as nat),
            "--sort=-authordate"@,
            "--format=%(objectname)"@,
            "refs/heads"@,
        ],
        r.env@.len() == 0,
{
    let mut args: Vec<String> = Vec::new();
    push_text(&mut args, "for-each-ref".to_owned());
    let mut count = "--count=".to_owned();
    count.append(decimal(n).as_str());
    push_text(&mut args, count);
    push_text(&mut args, "--sort=-authordate".to_owned());
    push_text(&mut args, "--format=%(objectname)".to_owned());
    push_text(&mut args, "refs/heads".to_owned());
    assert(string_views(args@) == seq![
        "for-each-ref"@,
        "--count="@ + decimal_text(n as nat),
        "--sort=-authordate"@,
        "--format=%(objectname)"@,
        "refs/heads"@,
    ]);
    Invocation { args, env: Vec::new() }
}

/// The question for the commits of the checked-out branch that touch the
/// directory, the earliest first. Git answers with one commit on each line.
pub fn find_earliest_commit_on_folder(target: &str) -> (r: Invocation)
    ensures
        string_views(r.args@) == seq![
            "rev-list"@,
            "--reverse"@,
            "--topo-order"@,
            "HEAD"@,
            "--"@,
            target@,
        ],
        r.env@.len() == 0,
{
    let mut args: Vec<String> = Vec::new();
    push_text(&mut args, "rev-list".to_owned());
    push_text(&mut args, "--reverse".to_owned());
    push_text(&mut args, "--topo-order".to_owned());
    push_text(&mut args, "HEAD".to_owned());
    push_text(&mut args, "--".to_owned());
    push_text(&mut args, target.to_owned());
    assert(string_views(args@) == seq![
        "rev-list"@,
        "--reverse"@,
        "--topo-order"@,
        "HEAD"@,
        "--"@,
        target@,
    ]);
    Invocation { args, env: Vec::new() }
}

/// The commits that the lines name: each line that is not empty once the
/// white space round it is cut off must name a commit. Nothing where a line
/// names none.
pub open spec fn listed_commits(lines: Seq<Seq<char>>) -> Option<Seq<Oid>>
    decreases lines.len(),
{
    if lines.len() == 0 {
        Some(Seq::empty())
    } else {
        match listed_commits(lines.drop_last()) {
            None => None,
            Some(before) => {
                let text = trimmed(lines.last());
                if text.len() == 0 {
                    Some(before)
                } else {
                    match parsed(text) {
                        Some(sha) => Some(before.push(sha)),
                        None => None,
                    }
                }
            },
        }
    }
}

/// A line that names no commit spoils the list, whatever follows it.
pub proof fn lemma_listed_none_stays(lines: Seq<Seq<char>>, upto: int)
    requires
        0 <= upto <= lines.len(),
        listed_commits(lines.take(upto)) is None,
    ensures
        listed_commits(lines) is None,
    decreases lines.len() - upto,
{
    if upto < lines.len() {
        assert(lines.take(upto + 1).drop_last() == lines.take(upto));
        lemma_listed_none_stays(lines, upto + 1);
    } else {
        assert(lines.take(upto) == lines);
    }
}

/// Reads the commits that Git has printed, one on each line.
pub fn read_commits(output: &str) -> (r: Option<Vec<Oid>>)
    ensures
        r is Some <==> listed_commits(lines_of(output@)) is Some,
        r matches Some(list) ==> Some(list@) == listed_commits(lines_of(output@)),
{
    let all = lines(&to_chars(output));
    let mut out: Vec<Oid> = Vec::new();
    let mut i: usize = 0;
    proof {
        assert(views(all@).take(0).len() == 0);
    }
    while i < all.len()
        invariant
            i <= all.len(),
            views(all@) == lines_of(output@),
            listed_commits(views(all@).take(i as int)) == Some(out@),
        decreases all.len() - i,
    {
        proof {
            let upto = views(all@).take(i + 1);
            assert(upto.drop_last() == views(all@).take(i as int));
            assert(upto.last() == all@[i as int]@);
        }
        let text = trim(&all[i]);
        if text.len() > 0 {
            match Oid::from_str(from_chars(&text).as_str()) {
                Some(sha) => {
                    out.push(sha);
                },
                None => {
                    proof {
                        lemma_listed_none_stays(views(all@), i + 1);
                    }
                    return None;
                },
            }
        }
        i += 1;
    }
    proof {
        assert(views(all@).take(all.len() as int) == views(all@));
    }
    Some(out)
}

/// The commits before the first commit that touches the directory that is
/// republished: those of the walk from that commit, without the commit
/// itself, with which the walk begins.
pub fn find_safe_empty_na_commits(walk: Vec<Oid>) -> (r: Vec<Oid>)
    ensures
        r@ == (if walk@.len() == 0 {
            walk@
        } else {
            walk@.drop_first()
        }),
{
    let mut commits = walk;
    if commits.len() > 0 {
        commits.remove(0);
        assert(commits@ == walk@.drop_first());
    }
    commits
}

/// The names of the variables from which the push options are read, given
/// the text of `GIT_PUSH_OPTION_COUNT`: nothing where the text is no number.
pub open spec fn option_variables(count: Seq<char>) -> Option<Seq<Seq<char>>> {
    match parsed_u32(count) {
        Some(n) => Some(Seq::new(n as nat, |i: int| option_variable(i as nat))),
        None => None,
    }
}

/// The names of the variables from which the push options of the push that
/// runs the hook are read.
pub fn get_git_options(count: &str) -> (r: Option<Vec<String>>)
    ensures
        r is Some <==> option_variables(count@) is Some,
        r matches Some(names) ==> Some(string_views(names@)) == option_variables(count@),
{
    match parse_u32(&to_chars(count)) {
        None => None,
        Some(n) => {
            let mut names: Vec<String> = Vec::new();
            let mut i: u32 = 0;
            let ghost all = Seq::new(n as nat, |i: int| option_variable(i as nat));
            while i < n
                invariant
                    i <= n,
                    all == Seq::new(n as nat, |i: int| option_variable(i as nat)),
                    string_views(names@) == all.take(i as int),
                decreases n - i,
            {
                let mut name = "GIT_PUSH_OPTION_".to_owned();
                name.append(decimal(i as usize).as_str());
                proof {
                    assert(all.take(i + 1) == all.take(i as int).push(all[i as int]));
                }
                push_text(&mut names, name);
                i += 1;
            }
            proof {
                assert(all.take(n as int) == all);
            }
            Some(names)
        },
    }
}

/// A setting of a repository.
#[derive(Debug, PartialEq, Eq)]
pub struct ConfigEntry {
    pub key: String,
    pub value: String,
}

/// The settings that keep Git from ever collecting garbage in a working
/// clone, so that no commit of the clone is lost while no ref names it.
pub fn disable_gc() -> (r: Vec<ConfigEntry>)
    ensures
        r@.len() == 3,
        r@[0].key@ == "gc.pruneExpire"@ && r@[0].value@ == "never"@,
        r@[1].key@ == "gc.reflogExpire"@ && r@[1].value@ == "never"@,
        r@[2].key@ == "gc.auto"@ && r@[2].value@ == "0"@,
{
    vec![
        ConfigEntry { key: "gc.pruneExpire".to_owned(), value: "never".to_owned() },
        ConfigEntry { key: "gc.reflogExpire".to_owned(), value: "never".to_owned() },
        ConfigEntry { key: "gc.auto".to_owned(), value: "0".to_owned() },
    ]
}

/// The setting that lets a plain push of a working clone go to the branch of
/// the same name.
pub fn set_push_simple() -> (r: Vec<ConfigEntry>)
    ensures
        r@.len() == 1,
        r@[0].key@ == "push.default"@ && r@[0].value@ == "simple"@,
{
    vec![ConfigEntry { key: "push.default".to_owned(), value: "simple".to_owned() }]
}

} // verus!
