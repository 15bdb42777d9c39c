//! Commit trees, and the command lines of the trials.

use subgit_sync::cli::SetupRequest;
use subgit_sync::declarative::git::{
    get_git_version, read_commit_count, read_output, unrelated_histories_version, Consumer, Git, GitWrapper, Version,
};
use subgit_sync::declarative::harness::{
    executor, target_executor, DefaultExecutor, Executor, Runnable, Test, TestConfig,
};
use subgit_sync::declarative::tree::{
    ChangeSet, ChangeSetGenerator, ChangesForLabel, CommitTree, FileChange, FileEntry, MergeCommit, NiceGit,
    TreeRecord,
};
use subgit_sync::declarative::util::{
    assert_works, clone, clone_url, get_top, init_bare_repo, set_credentials, with_first, CommandLine,
};
use subgit_sync::settings::LogLevel;

fn s(text: &str) -> String {
    text.to_string()
}

fn strings(items: &[&str]) -> Vec<String> {
    items.iter().map(|i| i.to_string()).collect()
}

fn git() -> Git {
    Git { path: s("/work/clone"), git_version: Version { major: 2, minor: 9, dot: 0 } }
}

fn is_git(command: &CommandLine, dir: &str, args: &[&str]) {
    assert_eq!(command.program, "git");
    assert_eq!(command.dir, dir);
    assert_eq!(command.args, strings(args));
}

#[test]
fn versions_are_read_and_ordered() {
    assert_eq!(Version::parse("2.20.1"), Some(Version { major: 2, minor: 20, dot: 20 }));
    assert_eq!(Version::parse("2.9"), Some(Version { major: 2, minor: 9, dot: 9 }));
    assert_eq!(Version::parse("2"), None);
    assert_eq!(Version::parse("two.9.0"), None);
    assert_eq!(Version::parse("2.x.0"), None);
    assert_eq!(Version::parse(""), None);
    assert_eq!(get_git_version("git version 2.17.1"), Some(Version { major: 2, minor: 17, dot: 17 }));
    assert_eq!(get_git_version("git version"), None);
    let base = unrelated_histories_version();
    assert_eq!(base, Version { major: 2, minor: 9, dot: 0 });
    assert!(Version { major: 2, minor: 9, dot: 1 }.exceeds(&base));
    assert!(Version { major: 2, minor: 10, dot: 0 }.exceeds(&base));
    assert!(Version { major: 3, minor: 0, dot: 0 }.exceeds(&base));
    assert!(!base.exceeds(&base));
    assert!(!Version { major: 2, minor: 8, dot: 9 }.exceeds(&base));
    assert!(!Version { major: 1, minor: 99, dot: 99 }.exceeds(&base));
    assert!(Version { major: 2, minor: 9, dot: 1 } > base);
    assert!(Version { major: 1, minor: 99, dot: 99 } < base);
}

#[test]
fn git_commands_of_a_clone() {
    let git = git();
    assert_eq!(git.path(), "/work/clone");
    is_git(&git.commit("a message"), "/work/clone", &["commit", "-m", "a message"]);
    is_git(&git.add("."), "/work/clone", &["add", "--all", "."]);
    is_git(&git.checkout("master"), "/work/clone", &["checkout", "master"]);
    is_git(&git.pull(), "/work/clone", &["pull"]);
    is_git(&git.push(), "/work/clone", &["push"]);
    is_git(&git.branch(&strings(&["-f", "b", "HEAD"])), "/work/clone", &["branch", "-f", "b", "HEAD"]);
    is_git(&git.checkout_adv(&strings(&["--orphan", "o"])), "/work/clone", &["checkout", "--orphan", "o"]);
    is_git(&git.push_adv(&strings(&["-u", "origin", "o"])), "/work/clone", &["push", "-u", "origin", "o"]);
    is_git(&git.push_adv(&vec![]), "/work/clone", &["push"]);
    is_git(&git.commit_count("master"), "/work/clone", &["rev-list", "--count", "master"]);
    is_git(&git.get_current_commit(), "/work/clone", &["rev-parse", "HEAD"]);
    is_git(&git.command_output(strings(&["ls-remote"])), "/work/clone", &["ls-remote"]);
    is_git(&git.command(strings(&["status", "-s"])), "/work/clone", &["status", "-s"]);
    assert_eq!(with_first("x", &strings(&["y"])), strings(&["x", "y"]));
}

#[test]
fn a_later_git_is_told_to_merge_unrelated_histories() {
    let mut git = git();
    is_git(&git.merge(&strings(&["orphaned"])), "/work/clone", &["merge", "orphaned"]);
    git.git_version = Version { major: 2, minor: 9, dot: 1 };
    is_git(
        &git.merge(&strings(&["orphaned"])),
        "/work/clone",
        &["merge", "--allow-unrelated-histories", "orphaned"],
    );
    git.git_version = Version { major: 2, minor: 20, dot: 20 };
    is_git(&git.merge(&strings(&["a", "b"])), "/work/clone", &["merge", "--allow-unrelated-histories", "a", "b"]);
}

#[test]
fn what_a_command_printed_is_read() {
    assert_eq!(read_output("  abc\n"), "abc");
    assert_eq!(read_output(""), "");
    assert_eq!(read_commit_count("2\n"), Some(2));
    assert_eq!(read_commit_count(" 17 "), Some(17));
    assert_eq!(read_commit_count("two"), None);
    assert_eq!(read_commit_count(""), None);
}

#[test]
fn wrappers_and_consumers_hold_their_clone() {
    let version = Version { major: 2, minor: 1, dot: 1 };
    let wrapper = GitWrapper::new(s("/w"), version);
    assert_eq!(wrapper.git, Git { path: s("/w"), git_version: version });
    is_git(&wrapper.checkout_commit("abc"), "/w", &["checkout", "abc"]);
    let consumer = Consumer::new(s("/c"), Some(s("sub/")), version);
    assert_eq!(consumer.filter, Some(s("sub/")));
    assert_eq!(consumer.git.path, "/c");
}

#[test]
fn repositories_are_made_and_cloned() {
    let (command, path) = init_bare_repo("upstream.git", "/root");
    is_git(&command, "/root", &["init", "--bare", "upstream.git"]);
    assert_eq!(path, "/root/upstream.git");

    let (command, path) = clone("/root", "/root/upstream.git", "/cwd");
    is_git(&command, "/root", &["clone", "file:///root/upstream.git"]);
    assert_eq!(path, "/root/upstream");
    let (command, path) = clone("work", "repos/my.repo.git", "/cwd");
    is_git(&command, "work", &["clone", "file:///cwd/repos/my.repo.git"]);
    assert_eq!(path, "work/my");

    let (command, path) = clone_url("/root", "git://host/x.git", "mine");
    is_git(&command, "/root", &["clone", "git://host/x.git", "mine"]);
    assert_eq!(path, "/root/mine");

    let (name, email) = set_credentials("/root/up", "alice");
    is_git(&name, "/root/up", &["config", "user.name", "User alice"]);
    is_git(&email, "/root/up", &["config", "user.email", "alice@example.com"]);
}

#[test]
fn the_top_of_the_project_lies_above_target() {
    assert_eq!(get_top("/home/me/project/target/debug/deps/test-abc"), Some(s("/home/me/project")));
    assert_eq!(get_top("/a/target/b/target/debug/x"), Some(s("/a/target/b")));
    assert_eq!(get_top("project/target/x"), Some(s("project")));
    assert_eq!(get_top("/target/x"), Some(s("/")));
    assert_eq!(get_top("/usr/bin/tool"), None);
    assert_eq!(get_top("/a/target"), None);
    assert_eq!(get_top(""), None);
}

#[test]
fn what_works_is_run() {
    let mut ran = false;
    assert_works(|| -> Result<(), String> {
        ran = true;
        Ok(())
    });
    assert!(ran);
}

#[test]
fn change_sets_say_what_happens_to_files() {
    let mut changes = ChangeSet::new();
    assert!(changes.files.is_empty());
    assert_eq!(changes.get("a"), None);
    changes.add("a", FileChange::Content(s("one")));
    changes.add("b", FileChange::Content(s("two")));
    changes.add("a", FileChange::Deleted);
    changes.add("c", FileChange::Deleted);
    changes.add("c", FileChange::Content(s("three")));
    assert_eq!(changes.get("a"), Some(FileChange::Deleted));
    assert_eq!(changes.get("b"), Some(FileChange::Content(s("two"))));
    assert_eq!(changes.get("c"), Some(FileChange::Content(s("three"))));
    assert_eq!(changes.get("d"), None);
    assert_eq!(changes.content_of("a"), None);
    assert_eq!(changes.content_of("b"), Some(s("two")));
    assert_eq!(changes.content_of("c"), Some(s("three")));
    assert_eq!(changes.content_of("d"), None);
    assert_eq!(changes.clone(), changes);
}

#[test]
fn changes_are_made_from_labels() {
    let target = ChangeSetGenerator::new("subgit/");
    let up = FileEntry {
        path: s("up-x"),
        change: FileChange::Content(s("New content in upstream area.\nLabel: x")),
    };
    let sub = FileEntry {
        path: s("subgit/sb-x"),
        change: FileChange::Content(s("New content in subgit area.\nLabel: x")),
    };
    assert_eq!(target.upstream().construct("x").files, vec![up.clone()]);
    assert_eq!(target.subgit().construct("x").files, vec![sub.clone()]);
    assert_eq!(target.both().construct("x").files, vec![up, sub]);
    assert_eq!(target.empty().construct("x").files, vec![]);
    assert_eq!(target.for_values(true, false), target.upstream());
    assert_eq!(MergeCommit.construct("x").files, vec![]);
    let bare = ChangeSetGenerator::new("deep/dir");
    assert_eq!(bare.subgit().construct("y").files[0].path, "deep/dir/sb-y");
}

fn sample() -> (CommitTree, ChangeSetGenerator) {
    let target = ChangeSetGenerator::new("subgit/");
    let mut tree = CommitTree::new();
    let root = tree.root("root", target.empty());
    let a1 = tree.commit("a1", target.upstream(), root);
    let a2 = tree.commit("a2", target.subgit(), a1);
    let a3 = tree.commit("a3", target.both(), a1);
    let a4 = tree.merge_2("a4", a2, a3);
    let a5 = tree.commit("a5", target.upstream(), a4);
    tree.branch("master", a4);
    tree.branch("extra", a5);
    (tree, target)
}

#[test]
fn trees_are_built_commit_by_commit() {
    let (tree, _) = sample();
    assert_eq!(tree.commits.len(), 6);
    for (i, commit) in tree.commits.iter().enumerate() {
        assert_eq!(commit.id.position(), i);
    }
    assert_eq!(tree.commits[0].message, "Commit: root");
    assert_eq!(tree.commits[4].message, "Commit: a4");
    assert!(tree.commits[0].parents.is_empty());
    assert_eq!(tree.commits[2].parents, vec![tree.commits[1].id]);
    assert_eq!(tree.commits[4].parents, vec![tree.commits[2].id, tree.commits[3].id]);
    assert!(tree.commits[4].changes.files.is_empty());
    assert_eq!(tree.commits[3].changes.files.len(), 2);
    assert_eq!(tree.branches.len(), 2);
    assert_eq!(tree.branches[0].name, "master");
    assert_eq!(tree.branches[0].target, tree.commits[4].id);
    assert!(tree.holds(tree.commits[5].id));
    let empty = CommitTree::new();
    assert!(empty.commits.is_empty() && empty.branches.is_empty());
    assert!(!empty.holds(tree.commits[0].id));
    assert!(empty.reify().is_empty());
}

#[test]
fn ancestors_are_listed_level_by_level() {
    let (tree, _) = sample();
    let positions =
        |at: usize| -> Vec<usize> { tree.ancestor_path(tree.commits[at].id).iter().map(|c| c.position()).collect() };
    assert_eq!(positions(0), vec![0]);
    assert_eq!(positions(2), vec![2, 1, 0]);
    // The commit that both parents of the merge stand on is reached twice.
    assert_eq!(positions(4), vec![4, 2, 3, 1, 1, 0, 0]);
    assert_eq!(positions(5), vec![5, 4, 2, 3, 1, 1, 0, 0]);
}

#[test]
fn branches_are_reified_to_their_files() {
    let (tree, _) = sample();
    let branches = tree.reify();
    assert_eq!(branches.len(), 2);
    assert_eq!(branches[0].branch, "master");
    assert_eq!(branches[1].branch, "extra");
    let paths = |at: usize| -> Vec<String> {
        let mut paths: Vec<String> = branches[at].files.files.iter().map(|e| e.path.clone()).collect();
        paths.sort();
        paths.dedup();
        paths
    };
    assert_eq!(paths(0), strings(&["subgit/sb-a2", "subgit/sb-a3", "up-a1", "up-a3"]));
    assert_eq!(paths(1), strings(&["subgit/sb-a2", "subgit/sb-a3", "up-a1", "up-a3", "up-a5"]));
    assert_eq!(
        branches[1].files.content_of("up-a5"),
        Some(s("New content in upstream area.\nLabel: a5"))
    );
    assert_eq!(branches[0].files.content_of("up-a5"), None);
    assert_eq!(
        branches[0].files.content_of("subgit/sb-a2"),
        Some(s("New content in subgit area.\nLabel: a2"))
    );
}

struct Recorder {
    log: std::cell::RefCell<Vec<String>>,
}

impl NiceGit for Recorder {
    fn commit_orphan(&self, message: String, change_set: ChangeSet) -> String {
        let mut log = self.log.borrow_mut();
        log.push(format!("orphan {} ({})", message, change_set.files.len()));
        format!("sha{}", log.len())
    }

    fn commit_merge(&self, message: String, parents: Vec<String>) -> String {
        let mut log = self.log.borrow_mut();
        log.push(format!("merge {} of {}", message, parents.join("+")));
        format!("sha{}", log.len())
    }

    fn commit_child(&self, message: String, change_set: ChangeSet, parent: String) -> String {
        let mut log = self.log.borrow_mut();
        log.push(format!("child {} ({}) on {}", message, change_set.files.len(), parent));
        format!("sha{}", log.len())
    }

    fn make_branch(&self, branch: String, commit: String) {
        self.log.borrow_mut().push(format!("branch {} at {}", branch, commit));
    }
}

#[test]
fn a_tree_is_replayed_into_a_repository() {
    let (tree, _) = sample();
    let ids: Vec<_> = tree.commits.iter().map(|c| c.id).collect();
    let git = Recorder { log: std::cell::RefCell::new(vec![]) };
    let mut record = TreeRecord::new();
    assert_eq!(record.sha_of(ids[0]), None);
    tree.commit_tree(&git, &mut record);
    assert_eq!(
        *git.log.borrow(),
        strings(&[
            "orphan Commit: root (0)",
            "child Commit: a1 (1) on sha1",
            "child Commit: a2 (1) on sha2",
            "child Commit: a3 (2) on sha2",
            "merge Commit: a4 of sha3+sha4",
            "child Commit: a5 (1) on sha5",
            "branch master at sha5",
            "branch extra at sha6",
        ])
    );
    for (i, id) in ids.iter().enumerate() {
        assert_eq!(record.sha_of(*id), Some(format!("sha{}", i + 1)));
    }
    assert_eq!(record.branch_of(ids[4]), Some(s("master")));
    assert_eq!(record.branch_of(ids[5]), Some(s("extra")));
    assert_eq!(record.branch_of(ids[0]), None);

    // What is recorded already is not made again.
    let (tree, target) = sample();
    let mut longer = tree;
    let a6 = longer.commit("a6", target.both(), ids[5]);
    longer.branch("next", a6);
    let git = Recorder { log: std::cell::RefCell::new(vec![]) };
    longer.commit_tree(&git, &mut record);
    assert_eq!(git.log.borrow()[0], "child Commit: a6 (2) on sha6");
    assert_eq!(git.log.borrow().len(), 4);
    assert_eq!(record.sha_of(ids[0]), Some(s("sha1")));
}

#[test]
fn trials_lie_under_test_data() {
    let executor = executor("/project");
    assert_eq!(
        executor,
        DefaultExecutor { log_file: Some(s("setup.log")), log_level: None, use_daemon: true, top: s("/project") }
    );
    let config = TestConfig::new("my test", "module::path");
    assert_eq!(config, TestConfig { test: s("my test"), module: s("module::path") });
    let root = "/project/test_data/module::path/my test";
    assert_eq!(executor.get_root(&config), root);
    assert_eq!(
        executor.setup_args(&config),
        SetupRequest {
            upstream_git_location: format!("{}/upstream.git", root),
            subgit_git_location: format!("{}/subgit.git", root),
            upstream_map_path: s("subgit"),
            subgit_map_path: None,
            log_level: None,
            log_file: Some(format!("{}/setup.log", root)),
            upstream_hook_path: s("hooks/post-receive"),
            subgit_hook_path: s("hooks/update"),
            upstream_working_clone_url: None,
            subgit_working_clone_url: None,
            env_based_recursion_detection: None,
            disable_recursion_detection: true,
            match_ref: s("refs/heads/,HEAD"),
        }
    );
    let (target, same) = target_executor("/project");
    assert_eq!(target, ChangeSetGenerator::new("subgit/"));
    assert_eq!(same, executor);

    let quiet = DefaultExecutor { log_file: None, log_level: Some(LogLevel::Error), use_daemon: false, top: s("t") };
    let request = quiet.setup_args(&config);
    assert_eq!(request.log_file, None);
    assert_eq!(request.log_level, Some(LogLevel::Error));
}

#[test]
fn a_trial_is_set_up_and_consumed() {
    let executor = executor("/project");
    let (test, request) = TestConfig::new("t", "m").run_setup(&executor);
    assert_eq!(
        test,
        Test {
            path: s("/project/test_data/m/t"),
            upstream_url: s("file:///project/test_data/m/t/upstream.git"),
            subgit_url: s("file:///project/test_data/m/t/subgit.git"),
            repub_base: s("subgit/"),
        }
    );
    let command = request.clone().run("/project/test_data/m/t", "/project");
    assert_eq!(command.program, "/project/target/debug/subgit-sync");
    assert_eq!(command.dir, "/project/test_data/m/t");
    assert_eq!(command.args, request.to_args());
    assert_eq!(command.args[0], "/project/test_data/m/t/upstream.git");
    assert!(command.args.contains(&s("-w")));

    let version = Version { major: 2, minor: 30, dot: 30 };
    let (command, consumer) = test.upstream_consumer("up1", version);
    is_git(&command, "/project/test_data/m/t", &["clone", "file:///project/test_data/m/t/upstream.git", "up1"]);
    assert_eq!(consumer, Consumer::new(s("/project/test_data/m/t/up1"), None, version));
    let (command, consumer) = test.subgit_consumer("sg", version);
    is_git(&command, "/project/test_data/m/t", &["clone", "file:///project/test_data/m/t/subgit.git", "sg"]);
    assert_eq!(consumer.filter, Some(s("subgit/")));
    let (command, consumer) = test.new_consumer(s("n"), s("url"), Some(s("f")), version);
    is_git(&command, "/project/test_data/m/t", &["clone", "url", "n"]);
    assert_eq!(consumer.git.path, "/project/test_data/m/t/n");
}
