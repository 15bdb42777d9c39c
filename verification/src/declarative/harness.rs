//! Trying a subgit out: where a trial lies, how its subgit is set up, and who
//! works on it.

use vstd::prelude::*;
use vstd::string::StringExecFns;
use crate::action::{entry_of, join_entry};
use crate::cli::{opt_view, SetupRequest};
use crate::declarative::git::{Consumer, Version};
use crate::declarative::tree::ChangeSetGenerator;
use crate::declarative::util::{clone_url, CommandLine};
use crate::settings::LogLevel;
use crate::text::string_views;

verus! {

/// A trial: its name and the module that it belongs to.
#[derive(Clone, Debug, PartialEq, Eq)]
pub struct TestConfig {
    pub test: String,
    pub module: String,
}

/// Says where a trial lies and how its subgit is set up.
pub trait Executor {
    /// The directory of the trial.
    spec fn root(&self, harness: TestConfig) -> Seq<char>;

    fn get_root(&self, harness: &TestConfig) -> (r: String)
        ensures
            r@ == self.root(*harness),
    ;

    /// The request for the setup of the subgit of the trial: its two
    /// repositories lie in the directory of the trial.
    fn setup_args(&self, harness: &TestConfig) -> (r: SetupRequest)
        ensures
            r.upstream_git_location@ == entry_of(self.root(*harness), "upstream.git"@),
            r.subgit_git_location@ == entry_of(self.root(*harness), "subgit.git"@),
    ;
}

/// Trials that lie under `test_data` in the top directory of the project.
#[derive(Clone, Debug, PartialEq, Eq)]
pub struct DefaultExecutor {
    pub log_file: Option<String>,
    pub log_level: Option<LogLevel>,
    pub use_daemon: bool,
    /// The top directory of the project.
    pub top: String,
}

impl Executor for DefaultExecutor {
    open spec fn root(&self, harness: TestConfig) -> Seq<char> {
        entry_of(entry_of(entry_of(self.top@, "test_data"@), harness.module@), harness.test@)
    }

    fn get_root(&self, harness: &TestConfig) -> (r: String) {
        join_entry(
            join_entry(join_entry(self.top.as_str(), "test_data").as_str(), harness.module.as_str()).as_str(),
            harness.test.as_str(),
        )
    }

    fn setup_args(&self, harness: &TestConfig) -> (r: SetupRequest)
        ensures
            r.upstream_map_path@ == "subgit"@,
            r.subgit_map_path is None,
            r.log_level == self.log_level,
            opt_view(r.log_file) == (match self.log_file {
                Some(name) => Some(entry_of(self.root(*harness), name@)),
                None => None,
            }),
            r.upstream_hook_path@ == "hooks/post-receive"@,
            r.subgit_hook_path@ == "hooks/update"@,
            r.upstream_working_clone_url is None,
            r.subgit_working_clone_url is None,
            r.env_based_recursion_detection is None,
            r.disable_recursion_detection,
            r.match_ref@ == "refs/heads/,HEAD"@,
    {
        let root = self.get_root(harness);
        SetupRequest {
            upstream_git_location: join_entry(root.as_str(), "upstream.git"),
            subgit_git_location: join_entry(root.as_str(), "subgit.git"),
            upstream_map_path: "subgit".to_owned(),
            subgit_map_path: None,
            log_level: self.log_level,
            log_file: match &self.log_file {
                Some(name) => Some(join_entry(root.as_str(), name.as_str())),
                None => None,
            },
            upstream_hook_path: "hooks/post-receive".to_owned(),
            subgit_hook_path: "hooks/update".to_owned(),
            upstream_working_clone_url: None,
            subgit_working_clone_url: None,
            env_based_recursion_detection: None,
            disable_recursion_detection: true,
            match_ref: "refs/heads/,HEAD".to_owned(),
        }
    }
}

/// Something that is run as a program in a directory.
pub trait Runnable {
    /// The arguments of the program.
    spec fn arguments(&self) -> Seq<Seq<char>>;

    /// The command line that runs it in `cwd`, with the program that the
    /// build has put under the top directory `top`.
    fn run(self, cwd: &str, top: &str) -> (r: CommandLine)
        ensures
            r.dir@ == cwd@,
            r.program@ == entry_of(top@, "target/debug/subgit-sync"@),
            string_views(r.args@) == self.arguments(),
    ;
}

impl Runnable for SetupRequest {
    open spec fn arguments(&self) -> Seq<Seq<char>> {
        self.args()
    }

    fn run(self, cwd: &str, top: &str) -> (r: CommandLine) {
        CommandLine {
            dir: cwd.to_owned(),
            program: join_entry(top, "target/debug/subgit-sync"),
            args: self.to_args(),
        }
    }
}

/// A trial whose subgit is set up.
#[derive(Clone, Debug, PartialEq, Eq)]
pub struct Test {
    /// The directory of the trial, into which consumers clone.
    pub path: String,
    /// Where the upstream repository is cloned from.
    pub upstream_url: String,
    /// Where the subgit is cloned from.
    pub subgit_url: String,
    /// The directory of the upstream repository that is republished, with a
    /// slash behind it.
    pub repub_base: String,
}

/// Where a repository is cloned from: the address that the request gives, or
/// else the repository itself as a file.
pub open spec fn clone_source(url: Option<Seq<char>>, location: Seq<char>) -> Seq<char> {
    match url {
        Some(u) => u,
        None => "file://"@ + location,
    }
}

/// Where a repository is cloned from.
fn source_of(url: &Option<String>, location: &str) -> (r: String)
    ensures
        r@ == clone_source(opt_view(*url), location@),
{
    match url {
        Some(u) => u.clone(),
        None => {
            let mut out = "file://".to_owned();
            out.append(location);
            out
        },
    }
}

impl TestConfig {
    /// The trial of the name in the module.
    pub fn new(test: &str, module: &str) -> (r: TestConfig)
        ensures
            r.test@ == test@,
            r.module@ == module@,
    {
        TestConfig { test: test.to_owned(), module: module.to_owned() }
    }

    /// The trial with the subgit that the executor asks for, and the request
    /// for the setup of that subgit.
    pub fn run_setup<E: Executor>(self, executor: &E) -> (r: (Test, SetupRequest))
        ensures
            r.0.path@ == executor.root(self),
            r.0.upstream_url@ == clone_source(
                opt_view(r.1.upstream_working_clone_url),
                r.1.upstream_git_location@,
            ),
            r.0.subgit_url@ == clone_source(
                opt_view(r.1.subgit_working_clone_url),
                r.1.subgit_git_location@,
            ),
            r.0.repub_base@ == r.1.upstream_map_path@ + seq!['/'],
            r.1.upstream_git_location@ == entry_of(executor.root(self), "upstream.git"@),
            r.1.subgit_git_location@ == entry_of(executor.root(self), "subgit.git"@),
    {
        let root = executor.get_root(&self);
        let setup = executor.setup_args(&self);
        let mut repub_base = setup.upstream_map_path.clone();
        repub_base.push('/');
        let test = Test {
            path: root,
            upstream_url: source_of(
                &setup.upstream_working_clone_url,
                setup.upstream_git_location.as_str(),
            ),
            subgit_url: source_of(&setup.subgit_working_clone_url, setup.subgit_git_location.as_str()),
            repub_base,
        };
        (test, setup)
    }
}

impl Test {
    /// Someone who works on a clone of `clone_url` in the directory `name` of
    /// the trial, and the command that makes the clone.
    pub fn new_consumer(&self, name: String, clone_from: String, filter: Option<String>, git_version: Version) -> (r: (
        CommandLine,
        Consumer,
    ))
        ensures
            r.0.is_git(self.path@, seq!["clone"@, clone_from@, name@]),
            r.1.git.path@ == entry_of(self.path@, name@),
            r.1.git.git_version == git_version,
            r.1.filter == filter,
    {
        let (command, path) = clone_url(self.path.as_str(), clone_from.as_str(), name.as_str());
        (command, Consumer::new(path, filter, git_version))
    }

    /// Someone who works on a clone of the upstream repository.
    pub fn upstream_consumer(&self, name: &str, git_version: Version) -> (r: (CommandLine, Consumer))
        ensures
            r.0.is_git(self.path@, seq!["clone"@, self.upstream_url@, name@]),
            r.1.git.path@ == entry_of(self.path@, name@),
            r.1.git.git_version == git_version,
            r.1.filter is None,
    {
        self.new_consumer(name.to_owned(), self.upstream_url.clone(), None, git_version)
    }

    /// Someone who works on a clone of the subgit, and so sees the files of
    /// the republished directory without that directory before them.
    pub fn subgit_consumer(&self, name: &str, git_version: Version) -> (r: (CommandLine, Consumer))
        ensures
            r.0.is_git(self.path@, seq!["clone"@, self.subgit_url@, name@]),
            r.1.git.path@ == entry_of(self.path@, name@),
            r.1.git.git_version == git_version,
            opt_view(r.1.filter) == Some(self.repub_base@),
    {
        self.new_consumer(
            name.to_owned(),
            self.subgit_url.clone(),
            Some(self.repub_base.clone()),
            git_version,
        )
    }
}

/// The executor of the trials of the project whose top directory is `top`.
pub fn executor(top: &str) -> (r: DefaultExecutor)
    ensures
        opt_view(r.log_file) == Some("setup.log"@),
        r.log_level is None,
        r.use_daemon,
        r.top@ == top@,
{
    DefaultExecutor {
        log_file: Some("setup.log".to_owned()),
        log_level: None,
        use_daemon: true,
        top: top.to_owned(),
    }
}

/// The maker of changes and the executor for trials whose republished
/// directory is `subgit`.
pub fn target_executor(top: &str) -> (r: (ChangeSetGenerator, DefaultExecutor))
    ensures
        r.0.subgit_base@ == "subgit/"@,
        opt_view(r.1.log_file) == Some("setup.log"@),
        r.1.log_level is None,
        r.1.use_daemon,
        r.1.top@ == top@,
{
    (ChangeSetGenerator::new("subgit/"), executor(top))
}

} // verus!
