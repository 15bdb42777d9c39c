//! The parts of the library, each on its own.

use subgit_sync::action::{
    convert_ref_name, get_file_name, join_entry, sha_path, Action, EnvDetect, HookContext,
    PushListener, RecursionDetection, RefSyncRequest, RequestSync, SubGitEnv, SyncRefs,
    UpdateWhitelist,
};
use subgit_sync::hooks::Relay;
use subgit_sync::cli::{
    make_absolute, parent_dir, parse_env_base_recursion_detection, parse_requests, request_from,
    str_to_vec, subgit_of_hook, try_parse_env_detect, CliError, EnvProbe, ExecEnv, SetupRequest,
    StringError,
};
use subgit_sync::copier::{dedup_vec, flatten_parents, plan_ops, Copier, Delta, DeltaKind, FileOp, GitLocation};
use subgit_sync::engine::{CopyError, CopyStep, Stage};
use subgit_sync::filter::{is_applicable, is_standard, project_path, PathFilter, RefFilter};
use subgit_sync::git::{
    clone_remote, delete_remote_branch, disable_gc, fetch_all_ext, find_earliest_commit_on_folder,
    find_safe_empty_na_commits, get_git_options, get_n_recent_shas, push_sha_ext, read_commits,
    set_push_simple,
};
use subgit_sync::location::Location;
use subgit_sync::map::{CommitMapper, MapEntry, MapStore, ReadOnlyMapper};
use subgit_sync::oid::{no_sha, optionify_sha, Oid};
use subgit_sync::port::{GitCommand, GitQuery, GitReply};
use subgit_sync::settings::{LogLevel, Settings};
use subgit_sync::setup::SetupStep;
use subgit_sync::sync::{
    find_reference, plan_reconcile, plan_requests, BinSource, OldTip, RefEntry, SessionStage,
    SessionStep, SyncError, Workspace, WrappedSubGit,
};
use subgit_sync::text::{
    decimal, from_chars, join_chars, join_strings, lines, parse_u32, split, to_chars, to_strings, trim,
};

fn sha(n: u8) -> Oid {
    let mut raw = [0u8; 20];
    raw[19] = n;
    raw[0] = 0xab;
    Oid::from_raw(raw)
}

fn s(text: &str) -> String {
    text.to_string()
}

fn strings(items: &[&str]) -> Vec<String> {
    items.iter().map(|i| i.to_string()).collect()
}

fn chars(text: &str) -> Vec<char> {
    text.chars().collect()
}

// ---- identifiers ----

#[test]
fn oid_is_read_and_written_in_hex() {
    let text = "0123456789abcdef0123456789abcdef01234567";
    let oid = Oid::from_str(text).unwrap();
    assert_eq!(oid.to_hex(), text);
    assert_ne!(oid.to_hex(), String::from_utf8(vec![0x01, 0x23]).unwrap_or_default());
    let upper = Oid::from_str("0123456789ABCDEF0123456789ABCDEF01234567").unwrap();
    assert_eq!(upper, oid);
    assert!(upper.same(&oid));
    let mut raw = [0u8; 20];
    raw[0] = 0x01;
    raw[1] = 0x23;
    raw[2] = 0x45;
    assert_eq!(&Oid::from_raw(raw).to_hex()[..8], "01234500");
    assert_eq!(Oid::from_raw(raw).to_hex().len(), 40);
}

#[test]
fn oid_refuses_what_names_no_commit() {
    assert_eq!(Oid::from_str(""), None);
    assert_eq!(Oid::from_str("xyz"), None);
    assert_eq!(Oid::from_str("0123456789abcdef0123456789abcdef012345678"), None);
    assert_eq!(Oid::from_str("0123456789abcdef0123456789abcdef0123456g"), None);
}

#[test]
fn no_sha_is_forty_zeros() {
    assert_eq!(no_sha().to_hex(), "0000000000000000000000000000000000000000");
    assert_eq!(Oid::from_str("0000000000000000000000000000000000000000"), Some(no_sha()));
    assert_eq!(optionify_sha(no_sha()), None);
    assert_eq!(optionify_sha(sha(1)), Some(sha(1)));
    assert!(!sha(1).same(&sha(2)));
}

// ---- sides ----

#[test]
fn sides_and_their_tables() {
    assert_eq!(Location::SUBGIT.as_ref(), "local");
    assert_eq!(Location::UPSTREAM.as_ref(), "upstream");
    assert_eq!(Location::SUBGIT.as_source_table(), "from_local");
    assert_eq!(Location::UPSTREAM.as_source_table(), "from_upstream");
    assert_eq!(Location::SUBGIT.flip(), Location::UPSTREAM);
    assert_eq!(Location::UPSTREAM.flip().flip(), Location::UPSTREAM);
    assert_eq!(
        Location::UPSTREAM.create_statement(),
        "CREATE TABLE IF NOT EXISTS from_upstream (source TEXT NOT NULL, dest TEXT NOT NULL, timestamp DATETIME NOT NULL);"
    );
}

// ---- the commit map ----

#[test]
fn test_empty_sqlite_transaction() {
    let map = MapStore::new();
    let cm = CommitMapper::new(map);
    let map = cm.save_changes();
    assert_eq!(map.len(Location::UPSTREAM), 0);
    assert_eq!(map.len(Location::SUBGIT), 0);
}

#[test]
fn a_pair_reads_back_both_ways() {
    let mut mapper = CommitMapper::new(MapStore::new());
    mapper.put(Location::UPSTREAM, &sha(1), &sha(101));
    mapper.put(Location::SUBGIT, &sha(102), &sha(2));
    assert_eq!(mapper.get_translated(Some(&sha(1)), Location::UPSTREAM), Some(sha(101)));
    assert_eq!(mapper.get_translated(Some(&sha(101)), Location::SUBGIT), Some(sha(1)));
    assert_eq!(mapper.get_translated(Some(&sha(102)), Location::SUBGIT), Some(sha(2)));
    assert_eq!(mapper.get_translated(Some(&sha(2)), Location::UPSTREAM), Some(sha(102)));
    assert_eq!(mapper.get_translated(Some(&sha(3)), Location::UPSTREAM), None);
    assert_eq!(mapper.get_translated(None, Location::UPSTREAM), None);
    assert!(mapper.has_sha(&sha(1), Location::UPSTREAM));
    assert!(!mapper.has_sha(&sha(1), Location::SUBGIT));
    let map = mapper.save_changes();
    let reader = ReadOnlyMapper::new(&map);
    assert_eq!(reader.get_translated(Some(&sha(1)), Location::UPSTREAM), Some(sha(101)));
    assert!(reader.has_sha(&sha(2), Location::UPSTREAM));
    assert!(!reader.has_sha(&sha(3), Location::UPSTREAM));
}

#[test]
fn the_latest_entry_is_read() {
    let mut mapper = CommitMapper::new(MapStore::new());
    mapper.put(Location::UPSTREAM, &sha(1), &sha(101));
    mapper.put(Location::UPSTREAM, &sha(2), &sha(101));
    // Both commits are translated to the same commit, which is translated
    // back to the one that was recorded last.
    assert_eq!(mapper.get_translated(Some(&sha(1)), Location::UPSTREAM), Some(sha(101)));
    assert_eq!(mapper.get_translated(Some(&sha(2)), Location::UPSTREAM), Some(sha(101)));
    assert_eq!(mapper.get_translated(Some(&sha(101)), Location::SUBGIT), Some(sha(2)));
    mapper.set_translated(&sha(1), Location::UPSTREAM, &sha(103));
    assert_eq!(mapper.get_translated(Some(&sha(1)), Location::UPSTREAM), Some(sha(103)));
    let map = mapper.save_changes();
    assert_eq!(map.len(Location::UPSTREAM), 3);
    assert_eq!(map.len(Location::SUBGIT), 2);
    // Nothing is ever removed: the first entry is still the first.
    assert_eq!(map.row(Location::UPSTREAM, 0).source, sha(1));
    assert_eq!(map.row(Location::UPSTREAM, 0).dest, sha(101));
}

#[test]
fn timestamps_never_fall() {
    let mut mapper = CommitMapper::new(MapStore::new());
    for n in 0..50 {
        mapper.put(Location::UPSTREAM, &sha(n), &sha(100 + n));
    }
    let map = mapper.save_changes();
    for side in [Location::UPSTREAM, Location::SUBGIT] {
        for i in 1..map.len(side) {
            assert!(map.row(side, i - 1).timestamp <= map.row(side, i).timestamp);
        }
    }
    // The stamps are times of this century, in milliseconds.
    assert!(map.row(Location::UPSTREAM, 0).timestamp > 1_600_000_000_000);
}

#[test]
fn a_unit_of_work_is_kept_whole_or_dropped_whole() {
    let mut mapper = CommitMapper::new(MapStore::new());
    mapper.put(Location::UPSTREAM, &sha(1), &sha(101));
    let map = mapper.save_changes();

    let mut mapper = CommitMapper::new(map);
    mapper.put(Location::UPSTREAM, &sha(2), &sha(102));
    mapper.put(Location::UPSTREAM, &sha(3), &sha(103));
    assert_eq!(mapper.pending_len(Location::UPSTREAM), 2);
    assert_eq!(mapper.pending_len(Location::SUBGIT), 2);
    assert_eq!(mapper.pending_row(Location::UPSTREAM, 1).source, sha(3));
    assert_eq!(mapper.pending_row(Location::SUBGIT, 0).source, sha(102));
    let map = mapper.discard();
    assert_eq!(map.len(Location::UPSTREAM), 1);
    assert_eq!(map.len(Location::SUBGIT), 1);
    assert_eq!(map.find(Location::UPSTREAM, &sha(2)), None);
    assert_eq!(map.find(Location::UPSTREAM, &sha(1)), Some(sha(101)));

    let mut mapper = CommitMapper::new(map);
    mapper.put(Location::UPSTREAM, &sha(2), &sha(102));
    let map = mapper.save_changes();
    assert_eq!(map.len(Location::UPSTREAM), 2);
    assert_eq!(map.find(Location::SUBGIT, &sha(102)), Some(sha(2)));
}

#[test]
fn rows_are_restored_in_the_order_of_their_stamps() {
    let mut map = MapStore::new();
    assert!(map.restore(Location::UPSTREAM, MapEntry { source: sha(1), dest: sha(101), timestamp: 10 }));
    assert!(map.restore(Location::UPSTREAM, MapEntry { source: sha(2), dest: sha(102), timestamp: 10 }));
    assert!(map.restore(Location::UPSTREAM, MapEntry { source: sha(1), dest: sha(103), timestamp: 20 }));
    assert!(!map.restore(Location::UPSTREAM, MapEntry { source: sha(1), dest: sha(104), timestamp: 19 }));
    assert!(map.restore(Location::SUBGIT, MapEntry { source: sha(101), dest: sha(1), timestamp: 5 }));
    assert_eq!(map.len(Location::UPSTREAM), 3);
    assert_eq!(map.find(Location::UPSTREAM, &sha(1)), Some(sha(103)));
    assert_eq!(map.find(Location::UPSTREAM, &sha(2)), Some(sha(102)));
    assert_eq!(map.find(Location::SUBGIT, &sha(101)), Some(sha(1)));
    // A writer never stamps an entry below the one before it.
    let last = i64::MAX - 1;
    assert!(map.restore(Location::UPSTREAM, MapEntry { source: sha(9), dest: sha(109), timestamp: last }));
    let mut mapper = CommitMapper::new(map);
    mapper.set_translated(&sha(8), Location::UPSTREAM, &sha(108));
    assert_eq!(mapper.pending_row(Location::UPSTREAM, 0).timestamp, last);
}

// ---- the filters ----

#[test]
fn filter_takes_refs_by_their_prefix() {
    let filters = strings(&["refs/heads/", "HEAD"]);
    assert!(filters.matches("refs/heads/master"));
    assert!(filters.matches("HEAD"));
    assert!(filters.matches("refs/heads/"));
    assert!(!filters.matches("refs/heads"));
    assert!(!filters.matches("refs/test/bad"));
    assert!(!filters.matches("refs/tags/v1"));
    assert!(!filters.matches("refs/sync/empty"));
    assert!(!filters.matches(""));
    assert!(!Vec::<String>::new().matches("refs/heads/master"));
    assert!(strings(&[""]).matches("anything"));
}

#[test]
fn branches_and_head_are_standard() {
    assert!(is_applicable("refs/heads/master"));
    assert!(is_applicable("refs/heads"));
    assert!(is_applicable("HEAD"));
    assert!(!is_applicable("HEADS"));
    assert!(!is_applicable("refs/tags/v1"));
    assert!(is_standard("refs/heads/x"));
    assert!(!is_standard("head"));
}

#[test]
fn paths_are_projected_down_and_up() {
    let filter = PathFilter::new(s("sub"), s(""));
    assert_eq!(filter.project_down("sub/x.txt"), Some(s("x.txt")));
    assert_eq!(filter.project_down("sub/a/b/c.txt"), Some(s("a/b/c.txt")));
    assert_eq!(filter.project_down("other.txt"), None);
    assert_eq!(filter.project_down("subdir/x.txt"), None);
    assert_eq!(filter.project_down("a/sub/x.txt"), None);
    assert_eq!(filter.project_down("sub"), Some(s("")));
    assert_eq!(filter.project_up("x.txt"), Some(s("sub/x.txt")));
    assert_eq!(filter.project_up("a/b.txt"), Some(s("sub/a/b.txt")));
    assert_eq!(filter.project(Location::UPSTREAM, "sub/x"), Some(s("x")));
    assert_eq!(filter.project(Location::SUBGIT, "x"), Some(s("sub/x")));
}

#[test]
fn paths_are_projected_between_two_directories() {
    let filter = PathFilter::new(s("deep/sub/"), s("pre/fix"));
    assert_eq!(filter.project_down("deep/sub/x.txt"), Some(s("pre/fix/x.txt")));
    assert_eq!(filter.project_down("deep//sub/x.txt"), Some(s("pre/fix/x.txt")));
    assert_eq!(filter.project_down("deep/x.txt"), None);
    assert_eq!(filter.project_up("pre/fix/x.txt"), Some(s("deep/sub/x.txt")));
    assert_eq!(filter.project_up("pre/x.txt"), None);
    assert_eq!(filter.project_up("x.txt"), None);
    assert_eq!(project_path("", "to", "a/b"), Some(s("to/a/b")));
    // Down and up again gives the path back.
    let down = filter.project_down("deep/sub/a/b.txt").unwrap();
    assert_eq!(filter.project_up(&down), Some(s("deep/sub/a/b.txt")));
}

// ---- the copier ----

#[test]
fn dedup_keeps_the_first_of_equal_items() {
    let mut items = vec![sha(1), sha(2), sha(1), sha(3), sha(2), sha(2)];
    dedup_vec(&mut items);
    assert_eq!(items, vec![sha(1), sha(2), sha(3)]);
    let mut one = vec![sha(1)];
    dedup_vec(&mut one);
    assert_eq!(one, vec![sha(1)]);
    let mut none: Vec<Oid> = vec![];
    dedup_vec(&mut none);
    assert!(none.is_empty());
    let mut same = vec![sha(7), sha(7)];
    dedup_vec(&mut same);
    assert_eq!(same, vec![sha(7)]);
}

#[test]
fn a_merge_with_an_ancestor_is_flattened() {
    assert_eq!(flatten_parents(vec![sha(1), sha(2)], true, false), vec![sha(1)]);
    assert_eq!(flatten_parents(vec![sha(1), sha(2)], false, true), vec![sha(2)]);
    assert_eq!(flatten_parents(vec![sha(1), sha(2)], true, true), vec![sha(1)]);
    assert_eq!(flatten_parents(vec![sha(1), sha(2)], false, false), vec![sha(1), sha(2)]);
    assert_eq!(flatten_parents(vec![sha(1), sha(2), sha(3)], true, true), vec![sha(1), sha(2), sha(3)]);
    assert_eq!(flatten_parents(vec![sha(1)], true, true), vec![sha(1)]);
}

#[test]
fn differences_become_file_operations() {
    let deltas = vec![
        Delta { path: s("sub/new.txt"), kind: DeltaKind::Added, blob: sha(1) },
        Delta { path: s("other.txt"), kind: DeltaKind::Added, blob: sha(2) },
        Delta { path: s("sub/dir/changed.txt"), kind: DeltaKind::Modified, blob: sha(3) },
        Delta { path: s("subway/gone.txt"), kind: DeltaKind::Deleted, blob: no_sha() },
        Delta { path: s("sub/gone.txt"), kind: DeltaKind::Deleted, blob: no_sha() },
    ];
    assert_eq!(
        plan_ops("sub", "", &deltas),
        vec![
            FileOp::Create { path: s("new.txt"), blob: sha(1) },
            FileOp::Overwrite { path: s("dir/changed.txt"), blob: sha(3) },
            FileOp::Remove { path: s("gone.txt") },
        ]
    );
    assert_eq!(plan_ops("elsewhere", "", &deltas), vec![]);
    assert_eq!(
        plan_ops("", "sub", &deltas[1..2].to_vec()),
        vec![FileOp::Create { path: s("sub/other.txt"), blob: sha(2) }]
    );
}

fn importer(map: MapStore) -> Copier {
    Workspace { upstream_path: s("sub"), local_path: s("") }.get_importer(map)
}

fn anchored() -> MapStore {
    let mut mapper = CommitMapper::new(MapStore::new());
    mapper.put(Location::UPSTREAM, &sha(200), &sha(100));
    mapper.save_changes()
}

fn ask_of(step: CopyStep) -> (Vec<GitCommand>, GitQuery) {
    match step {
        CopyStep::Ask { commands, query } => (commands, query),
        CopyStep::Done { result, .. } => panic!("the run has ended: {:?}", result),
    }
}

fn done_of(step: CopyStep) -> (Vec<GitCommand>, Result<Option<Oid>, CopyError>) {
    match step {
        CopyStep::Done { commands, result } => (commands, result),
        CopyStep::Ask { query, .. } => panic!("the run asks: {:?}", query),
    }
}

#[test]
fn copier_translates_paths_and_commits() {
    let mut copier = importer(anchored());
    assert_eq!(copier.source, GitLocation { location: s("sub"), name: Location::UPSTREAM });
    assert_eq!(copier.dest, GitLocation { location: s(""), name: Location::SUBGIT });
    assert_eq!(copier.translate("sub/a/b"), Some(s("a/b")));
    assert_eq!(copier.translate("a/b"), None);
    assert_eq!(copier.get_dest_sha(&sha(200)), Some(sha(100)));
    assert_eq!(copier.get_source_sha(&sha(100)), Some(sha(200)));
    assert_eq!(copier.get_dest_sha(&sha(1)), None);
    assert_eq!(copier.record_sha_update(&sha(1), sha(101)), sha(101));
    assert_eq!(copier.get_dest_sha(&sha(1)), Some(sha(101)));
    assert_eq!(copier.get_source_sha(&sha(101)), Some(sha(1)));
    assert_eq!(copier.translate_all(&vec![sha(1), sha(200), sha(1)]), Some(vec![sha(101), sha(100), sha(101)]));
    assert_eq!(copier.translate_all(&vec![sha(1), sha(2)]), None);
    assert_eq!(copier.translate_back(&vec![sha(101), sha(55), sha(100)]), vec![sha(1), sha(200)]);

    let exporter = Workspace { upstream_path: s("sub"), local_path: s("") }.get_exporter(MapStore::new());
    assert_eq!(exporter.source.name, Location::SUBGIT);
    assert_eq!(exporter.translate("a/b"), Some(s("sub/a/b")));
}

#[test]
fn commits_before_the_directory_stand_on_the_anchor() {
    let mut copier = importer(anchored());
    copier.import_initial_empty_commits(&vec![sha(1), sha(2), sha(3)], sha(100));
    for n in 1..=3 {
        assert_eq!(copier.get_dest_sha(&sha(n)), Some(sha(100)));
    }
    assert_eq!(copier.get_source_sha(&sha(100)), Some(sha(1)));
    assert_eq!(copier.get_dest_sha(&sha(200)), Some(sha(100)));

    let mut copier = importer(anchored());
    copier.import_initial_empty_commits(&vec![], sha(100));
    assert_eq!(copier.get_source_sha(&sha(100)), Some(sha(200)));
}

#[test]
fn a_linear_commit_without_changes_is_not_copied() {
    let (mut run, step) = importer(anchored()).copy_commit(&sha(1));
    let (commands, query) = ask_of(step);
    assert!(commands.is_empty());
    assert_eq!(query, GitQuery::FindCommit { side: Location::UPSTREAM, sha: sha(1) });
    let (_, query) = ask_of(run.resume(GitReply::Parents(vec![sha(200)])));
    assert_eq!(query, GitQuery::Diff { side: Location::UPSTREAM, base: Some(sha(200)), target: sha(1) });
    let deltas = vec![Delta { path: s("other.txt"), kind: DeltaKind::Added, blob: sha(9) }];
    let (commands, result) = done_of(run.resume(GitReply::Deltas(deltas)));
    assert!(commands.is_empty());
    assert_eq!(result, Ok(Some(sha(100))));
    assert_eq!(run.stage, Stage::Finished);
    assert!(run.is_over());
    let map = run.finish();
    assert_eq!(map.find(Location::UPSTREAM, &sha(1)), Some(sha(100)));
    assert_eq!(map.find(Location::SUBGIT, &sha(100)), Some(sha(1)));
}

#[test]
fn a_linear_commit_with_changes_is_copied() {
    let (mut run, _) = importer(anchored()).copy_commit(&sha(1));
    let (commands, _) = ask_of(run.resume(GitReply::Parents(vec![sha(200)])));
    assert_eq!(commands, vec![GitCommand::Checkout { side: Location::SUBGIT, head: sha(100) }]);
    let deltas = vec![Delta { path: s("sub/x.txt"), kind: DeltaKind::Added, blob: sha(9) }];
    let (commands, query) = ask_of(run.resume(GitReply::Deltas(deltas)));
    assert_eq!(
        commands,
        vec![GitCommand::Apply {
            side: Location::SUBGIT,
            ops: vec![FileOp::Create { path: s("x.txt"), blob: sha(9) }]
        }]
    );
    assert_eq!(query, GitQuery::Commit { side: Location::SUBGIT, parents: vec![sha(100)], like: sha(1) });
    let (_, result) = done_of(run.resume(GitReply::Created(sha(101))));
    assert_eq!(result, Ok(Some(sha(101))));
    let map = run.finish();
    assert_eq!(map.find(Location::UPSTREAM, &sha(1)), Some(sha(101)));
    assert_eq!(map.find(Location::SUBGIT, &sha(101)), Some(sha(1)));
}

#[test]
fn a_root_commit_stands_on_the_empty_anchor() {
    let (mut run, _) = importer(anchored()).copy_commit(&sha(1));
    let (_, query) = ask_of(run.resume(GitReply::Parents(vec![])));
    assert_eq!(
        query,
        GitQuery::FindReference { side: Location::SUBGIT, working: true, name: s("refs/sync/empty") }
    );
    let (commands, query) = ask_of(run.resume(GitReply::Reference(Some(sha(100)))));
    assert_eq!(commands, vec![GitCommand::Checkout { side: Location::SUBGIT, head: sha(100) }]);
    assert_eq!(query, GitQuery::Diff { side: Location::UPSTREAM, base: None, target: sha(1) });
}

fn merge_run() -> subgit_sync::engine::RefCopy {
    let mut mapper = CommitMapper::new(anchored());
    mapper.put(Location::UPSTREAM, &sha(1), &sha(101));
    mapper.put(Location::UPSTREAM, &sha(2), &sha(102));
    mapper.put(Location::UPSTREAM, &sha(3), &sha(101));
    let (run, _) = importer(mapper.save_changes()).copy_commit(&sha(9));
    run
}

#[test]
fn a_merge_of_unrelated_parents_stays_a_merge() {
    let mut run = merge_run();
    let (_, query) = ask_of(run.resume(GitReply::Parents(vec![sha(1), sha(2), sha(3)])));
    assert_eq!(query, GitQuery::DescendantOf { side: Location::SUBGIT, commit: sha(101), ancestor: sha(102) });
    let (_, query) = ask_of(run.resume(GitReply::Flag(false)));
    assert_eq!(query, GitQuery::DescendantOf { side: Location::SUBGIT, commit: sha(102), ancestor: sha(101) });
    let (commands, query) = ask_of(run.resume(GitReply::Flag(false)));
    assert_eq!(commands, vec![GitCommand::Checkout { side: Location::SUBGIT, head: sha(101) }]);
    // The first destination parent is translated back to the commit that
    // was recorded for it last.
    assert_eq!(query, GitQuery::Diff { side: Location::UPSTREAM, base: Some(sha(3)), target: sha(9) });
    let (commands, query) = ask_of(run.resume(GitReply::Deltas(vec![])));
    assert!(commands.is_empty());
    assert_eq!(
        query,
        GitQuery::Commit { side: Location::SUBGIT, parents: vec![sha(101), sha(102)], like: sha(9) }
    );
}

#[test]
fn a_merge_on_one_line_becomes_a_plain_step() {
    let mut run = merge_run();
    ask_of(run.resume(GitReply::Parents(vec![sha(1), sha(2)])));
    let (commands, _) = ask_of(run.resume(GitReply::Flag(true)));
    assert_eq!(commands, vec![GitCommand::Checkout { side: Location::SUBGIT, head: sha(101) }]);
    let (_, result) = done_of(run.resume(GitReply::Deltas(vec![])));
    assert_eq!(result, Ok(Some(sha(101))));

    let mut run = merge_run();
    ask_of(run.resume(GitReply::Parents(vec![sha(1), sha(2)])));
    ask_of(run.resume(GitReply::Flag(false)));
    let (commands, _) = ask_of(run.resume(GitReply::Flag(true)));
    assert_eq!(commands, vec![GitCommand::Checkout { side: Location::SUBGIT, head: sha(102) }]);
    let deltas = vec![Delta { path: s("sub/x"), kind: DeltaKind::Modified, blob: sha(7) }];
    let (_, query) = ask_of(run.resume(GitReply::Deltas(deltas)));
    assert_eq!(query, GitQuery::Commit { side: Location::SUBGIT, parents: vec![sha(102)], like: sha(9) });
}

#[test]
fn a_run_fails_on_what_it_cannot_go_on_with() {
    let (mut run, _) = importer(anchored()).copy_commit(&sha(1));
    assert_eq!(done_of(run.resume(GitReply::Flag(true))).1, Err(CopyError::Unexpected));
    assert_eq!(run.stage, Stage::Failed);
    assert_eq!(done_of(run.resume(GitReply::Parents(vec![]))).1, Err(CopyError::Unexpected));

    let (mut run, _) = importer(anchored()).copy_commit(&sha(1));
    assert_eq!(done_of(run.resume(GitReply::Parents(vec![sha(200), sha(5)]))).1, Err(CopyError::MissingParent));

    let (mut run, _) = importer(anchored()).copy_commit(&sha(1));
    ask_of(run.resume(GitReply::Parents(vec![])));
    assert_eq!(done_of(run.resume(GitReply::Reference(None))).1, Err(CopyError::MissingAnchor));

    let mut store = anchored();
    let stamp = store.row(Location::UPSTREAM, 0).timestamp;
    assert!(store.restore(Location::UPSTREAM, MapEntry { source: sha(1), dest: sha(101), timestamp: stamp }));
    assert!(store.restore(Location::UPSTREAM, MapEntry { source: sha(2), dest: sha(102), timestamp: stamp }));
    let (mut run, _) = importer(store).copy_commit(&sha(9));
    ask_of(run.resume(GitReply::Parents(vec![sha(1), sha(2)])));
    assert_eq!(done_of(run.resume(GitReply::Flag(true))).1, Err(CopyError::MissingBase));
    let map = run.finish();
    assert_eq!(map.len(Location::UPSTREAM), 3);
}

#[test]
fn a_ref_is_walked_copied_and_pushed() {
    let listener = RecursionDetection::UpdateWhitelist(UpdateWhitelist { path: s("/data/whitelist") });
    let (mut run, step) = importer(anchored()).copy_ref_unchecked(
        "refs/heads/master",
        None,
        Some(sha(2)),
        true,
        Some(strings(&["IGNORE_SUBGIT_UPDATE"])),
        Some(listener),
    );
    assert_eq!(ask_of(step).1, GitQuery::RecentHeads { side: Location::SUBGIT, count: 10 });
    let (_, query) = ask_of(run.resume(GitReply::Commits(vec![sha(100), sha(77)])));
    assert_eq!(query, GitQuery::RevList { side: Location::UPSTREAM, hide: vec![sha(200)], tip: sha(2) });
    let (_, query) = ask_of(run.resume(GitReply::Commits(vec![sha(200), sha(1), sha(2)])));
    // The anchor has its translation and is passed over.
    assert_eq!(query, GitQuery::FindCommit { side: Location::UPSTREAM, sha: sha(1) });
    ask_of(run.resume(GitReply::Parents(vec![])));
    ask_of(run.resume(GitReply::Reference(Some(sha(100)))));
    let (_, query) = ask_of(run.resume(GitReply::Deltas(vec![])));
    assert_eq!(query, GitQuery::FindCommit { side: Location::UPSTREAM, sha: sha(2) });
    ask_of(run.resume(GitReply::Parents(vec![sha(1)])));
    let deltas = vec![Delta { path: s("sub/x"), kind: DeltaKind::Added, blob: sha(7) }];
    ask_of(run.resume(GitReply::Deltas(deltas)));
    let (commands, query) = ask_of(run.resume(GitReply::Created(sha(102))));
    let marker = format!("/data/whitelist/refs:heads:master-{}", sha(102).to_hex());
    assert_eq!(
        commands,
        vec![
            GitCommand::Reset { side: Location::SUBGIT, sha: sha(102) },
            GitCommand::CreateMarker { path: marker.clone() }
        ]
    );
    assert_eq!(
        query,
        GitQuery::Push {
            side: Location::SUBGIT,
            ref_name: s("refs/heads/master"),
            force: true,
            options: Some(strings(&["IGNORE_SUBGIT_UPDATE"])),
        }
    );
    let (commands, result) = done_of(run.resume(GitReply::Pushed(true)));
    assert_eq!(commands, vec![GitCommand::RemoveMarker { path: marker }]);
    assert_eq!(result, Ok(Some(sha(102))));
    let map = run.finish();
    assert_eq!(map.find(Location::UPSTREAM, &sha(1)), Some(sha(100)));
    assert_eq!(map.find(Location::UPSTREAM, &sha(2)), Some(sha(102)));
}

#[test]
fn a_refused_push_drops_what_the_run_recorded() {
    let (mut run, step) = importer(anchored()).copy_ref_unchecked(
        "refs/heads/master",
        Some(sha(200)),
        Some(sha(1)),
        false,
        None,
        None,
    );
    assert_eq!(ask_of(step).1, GitQuery::RevList { side: Location::UPSTREAM, hide: vec![sha(200)], tip: sha(1) });
    ask_of(run.resume(GitReply::Commits(vec![sha(1)])));
    ask_of(run.resume(GitReply::Parents(vec![sha(200)])));
    let (commands, query) = ask_of(run.resume(GitReply::Deltas(vec![])));
    assert_eq!(commands, vec![GitCommand::Reset { side: Location::SUBGIT, sha: sha(100) }]);
    assert_eq!(
        query,
        GitQuery::Push { side: Location::SUBGIT, ref_name: s("refs/heads/master"), force: false, options: None }
    );
    assert_eq!(done_of(run.resume(GitReply::Pushed(false))), (vec![], Err(CopyError::PushRejected)));
    let map = run.finish();
    assert_eq!(map.find(Location::UPSTREAM, &sha(1)), None);
    assert_eq!(map.len(Location::UPSTREAM), 1);
}

#[test]
fn a_walk_that_misses_the_tip_fails() {
    let (mut run, _) =
        importer(anchored()).copy_ref_unchecked("refs/heads/master", Some(sha(200)), Some(sha(1)), true, None, None);
    assert_eq!(done_of(run.resume(GitReply::Commits(vec![]))).1, Err(CopyError::Unmapped));
}

#[test]
fn an_unknown_old_tip_is_looked_up_on_the_destination() {
    let (mut run, step) =
        importer(anchored()).copy_ref_unchecked("refs/heads/master", Some(sha(5)), Some(sha(200)), true, None, None);
    assert_eq!(
        ask_of(step).1,
        GitQuery::FindReference { side: Location::SUBGIT, working: false, name: s("refs/heads/master") }
    );
    // The ref names the anchor there, which is translated back to the new
    // tip: nothing is left to do.
    assert_eq!(done_of(run.resume(GitReply::Reference(Some(sha(100))))), (vec![], Ok(Some(sha(100)))));

    let (mut run, _) =
        importer(anchored()).copy_ref_unchecked("refs/heads/master", Some(sha(5)), Some(sha(200)), true, None, None);
    assert_eq!(ask_of(run.resume(GitReply::Reference(None))).1, GitQuery::RecentHeads { side: Location::SUBGIT, count: 10 });
}

#[test]
fn a_deleted_ref_is_deleted_on_the_destination() {
    let listener = RecursionDetection::UpdateWhitelist(UpdateWhitelist { path: s("wl/") });
    let (mut run, step) =
        importer(anchored()).copy_ref_unchecked("refs/heads/gone", Some(sha(200)), None, true, None, Some(listener));
    let (commands, query) = ask_of(step);
    let marker = s("wl/refs:heads:gone-0000000000000000000000000000000000000000");
    assert_eq!(commands, vec![GitCommand::CreateMarker { path: marker.clone() }]);
    assert_eq!(query, GitQuery::DeleteRef { side: Location::SUBGIT, ref_name: s("refs/heads/gone"), options: None });
    assert_eq!(
        done_of(run.resume(GitReply::Pushed(true))),
        (vec![GitCommand::RemoveMarker { path: marker }], Ok(None))
    );
}

// ---- the recursion guard ----

#[test]
fn ref_names_stand_in_file_names() {
    assert_eq!(convert_ref_name("refs/heads/feature/x"), "refs:heads:feature:x");
    assert_eq!(convert_ref_name("HEAD"), "HEAD");
    assert_eq!(convert_ref_name(""), "");
    let oid = Oid::from_str("00112233445566778899aabbccddeeff00112233").unwrap();
    assert_eq!(get_file_name("refs/heads/master", oid), "refs:heads:master-00112233445566778899aabbccddeeff00112233");
    let whitelist = UpdateWhitelist { path: s("/srv/subgit.git/data/whitelist") };
    assert_eq!(
        whitelist.get_handle("refs/heads/master", oid),
        "/srv/subgit.git/data/whitelist/refs:heads:master-00112233445566778899aabbccddeeff00112233"
    );
    assert_eq!(join_entry("a/", "b"), "a/b");
    assert_eq!(join_entry("a", "b"), "a/b");
    assert_eq!(join_entry("", "b"), "b");
}

fn context(args: &[&str]) -> HookContext {
    HookContext { args: strings(args), push_options: None, env_value: None, marker_exists: false }
}

#[test]
fn recursion_is_never_detected_when_disabled() {
    let mut ctx = context(&["hook", "refs/heads/master", "0", "1"]);
    ctx.push_options = Some(strings(&["IGNORE_SUBGIT_UPDATE"]));
    ctx.marker_exists = true;
    ctx.env_value = Some(s("git"));
    let status = RecursionDetection::Disabled.detect_recursion(&ctx);
    assert!(!status.is_recursing);
    assert_eq!(status.reason, "Disabled");
    assert_eq!(RecursionDetection::Disabled.get_push_opts(), None);
}

#[test]
fn recursion_is_detected_by_push_option() {
    let guard = RecursionDetection::UsePushOptions;
    assert_eq!(guard.get_push_opts(), Some(strings(&["IGNORE_SUBGIT_UPDATE"])));
    let mut ctx = context(&["hook"]);
    let status = guard.detect_recursion(&ctx);
    assert!(!status.is_recursing);
    assert_eq!(status.reason, "Didn't find 'IGNORE_SUBGIT_UPDATE' as a git push option env variable value");
    ctx.push_options = Some(strings(&["other"]));
    assert!(!guard.detect_recursion(&ctx).is_recursing);
    ctx.push_options = Some(strings(&["other", "IGNORE_SUBGIT_UPDATE"]));
    let status = guard.detect_recursion(&ctx);
    assert!(status.is_recursing);
    assert_eq!(status.reason, "Found 'IGNORE_SUBGIT_UPDATE' as a git push option env variable value");
    assert_eq!(guard.watched_variable(), None);
    assert_eq!(guard.watched_marker(&ctx.args), None);
}

#[test]
fn recursion_is_detected_by_environment() {
    let guard = RecursionDetection::EnvBased(EnvDetect { name: s("GL_USERNAME"), value: s("git") });
    assert_eq!(guard.get_push_opts(), None);
    assert_eq!(guard.watched_variable(), Some(s("GL_USERNAME")));
    let mut ctx = context(&["hook"]);
    let status = guard.detect_recursion(&ctx);
    assert!(!status.is_recursing);
    assert_eq!(status.reason, "Didn't find an env variable named GL_USERNAME");
    ctx.env_value = Some(s("alice"));
    let status = guard.detect_recursion(&ctx);
    assert!(!status.is_recursing);
    assert_eq!(status.reason, "Found variable GL_USERNAME with value alice (needed git as the value)");
    ctx.env_value = Some(s("git"));
    let status = guard.detect_recursion(&ctx);
    assert!(status.is_recursing);
    assert_eq!(status.reason, "Found variable GL_USERNAME with value git");
}

#[test]
fn recursion_is_detected_by_marker_file() {
    let guard = RecursionDetection::UpdateWhitelist(UpdateWhitelist { path: s("/wl") });
    assert_eq!(guard.get_push_opts(), None);
    let new = "00112233445566778899aabbccddeeff00112233";
    let mut ctx = context(&["update", "refs/heads/master", "0000000000000000000000000000000000000000", new]);
    let path = format!("/wl/refs:heads:master-{}", new);
    assert_eq!(guard.watched_marker(&ctx.args), Some(path.clone()));
    let status = guard.detect_recursion(&ctx);
    assert!(!status.is_recursing);
    assert_eq!(status.reason, format!("Could not find file {} matching update request", path));
    ctx.marker_exists = true;
    let status = guard.detect_recursion(&ctx);
    assert!(status.is_recursing);
    assert_eq!(status.reason, format!("Found file {} matching update request", path));

    // Outside of an update hook nothing is looked for.
    let mut ctx = context(&["post-receive"]);
    ctx.marker_exists = true;
    assert_eq!(guard.watched_marker(&ctx.args), None);
    let status = guard.detect_recursion(&ctx);
    assert!(!status.is_recursing);
    assert_eq!(status.reason, "No update hook detected.");

    // A new commit that cannot be read counts as no commit.
    let ctx = context(&["update", "refs/heads/x", "0", "not a sha"]);
    assert_eq!(
        guard.watched_marker(&ctx.args),
        Some(s("/wl/refs:heads:x-0000000000000000000000000000000000000000"))
    );
}

#[test]
fn listeners_mark_their_pushes() {
    let guard = RecursionDetection::UpdateWhitelist(UpdateWhitelist { path: s("/wl") });
    let path = format!("/wl/refs:heads:m-{}", sha(1).to_hex());
    assert_eq!(guard.pre_push("refs/heads/m", sha(1)), Some(GitCommand::CreateMarker { path: path.clone() }));
    assert_eq!(guard.post_push("refs/heads/m", sha(1)), Some(GitCommand::RemoveMarker { path }));
    assert_eq!(RecursionDetection::UsePushOptions.pre_push("refs/heads/m", sha(1)), None);
    assert_eq!(RecursionDetection::Disabled.post_push("refs/heads/m", sha(1)), None);
}

// ---- the dispatcher ----

#[test]
fn it_works() {
    assert_eq!(
        parse_env_base_recursion_detection(&"GL_USERNAME:git"),
        EnvDetect { name: "GL_USERNAME".to_string(), value: "git".to_string() }
    );
}

#[test]
fn name_and_value_part_at_the_first_colon() {
    assert_eq!(try_parse_env_detect("A:b:c"), Some(EnvDetect { name: s("A"), value: s("b:c") }));
    assert_eq!(try_parse_env_detect(":"), Some(EnvDetect { name: s(""), value: s("") }));
    assert_eq!(try_parse_env_detect("A:"), Some(EnvDetect { name: s("A"), value: s("") }));
    assert_eq!(try_parse_env_detect("no colon"), None);
    assert_eq!(try_parse_env_detect(""), None);
}

#[test]
fn lists_are_cut_at_commas() {
    assert_eq!(str_to_vec(s("refs/heads/,HEAD")), strings(&["refs/heads/", "HEAD"]));
    assert_eq!(str_to_vec(s("one")), strings(&["one"]));
    assert_eq!(str_to_vec(s("")), strings(&[""]));
    assert_eq!(str_to_vec(s("a,,b,")), strings(&["a", "", "b", ""]));
}

fn env() -> SubGitEnv {
    SubGitEnv { git_dir: s("/srv/subgit.git"), hook_path: s("/srv/subgit.git/data/hook") }
}

const A: &str = "00112233445566778899aabbccddeeff00112233";
const B: &str = "aabbccddeeff00112233445566778899aabbccdd";
const ZERO: &str = "0000000000000000000000000000000000000000";

#[test]
fn the_post_receive_hook_reads_its_input() {
    let input = format!("{} {} refs/heads/master\n  {} {} refs/heads/gone \r\n", ZERO, A, A, ZERO);
    let action = ExecEnv::Upstream(env()).parse_command(&strings(&["hook"]), &input, None, "/").unwrap();
    assert_eq!(
        action,
        Action::SyncRefs(SyncRefs {
            env: env(),
            requests: vec![
                RefSyncRequest {
                    ref_name: s("refs/heads/master"),
                    old_upstream_sha: no_sha(),
                    new_upstream_sha: Oid::from_str(A).unwrap(),
                },
                RefSyncRequest {
                    ref_name: s("refs/heads/gone"),
                    old_upstream_sha: Oid::from_str(A).unwrap(),
                    new_upstream_sha: no_sha(),
                },
            ],
        })
    );
    assert_eq!(parse_requests(""), Ok(vec![]));
    assert_eq!(parse_requests(&format!("{} {}", A, B)), Err(CliError::BadArgs));
    assert_eq!(parse_requests(&format!("{} {} a b", A, B)), Err(CliError::BadArgs));
    assert_eq!(parse_requests(&format!("{}  {} ref", A, B)), Err(CliError::BadArgs));
    assert_eq!(parse_requests("\n"), Err(CliError::BadArgs));
    assert_eq!(parse_requests(&format!("nothing {} ref", B)), Err(CliError::BadSha(s("nothing"))));
    assert_eq!(parse_requests(&format!("{} zz ref", A)), Err(CliError::BadSha(s("zz"))));
    // The first line that is refused decides.
    assert_eq!(
        parse_requests(&format!("{} {} ref\nbad\n{} zz ref", A, B, A)),
        Err(CliError::BadArgs)
    );
    assert_eq!(CliError::BadArgs.message(), "Bad args");
}

#[test]
fn the_hooks_of_the_subgit_are_told_apart_by_their_arguments() {
    let parse = |args: &[&str]| ExecEnv::Subgit(env()).parse_command(&strings(args), "", None, "/");
    assert_eq!(parse(&["hook", "sync-all"]), Ok(Action::SyncAll(subgit_sync::action::SyncAll { env: env() })));
    let error = parse(&["hook", "sync-some"]).unwrap_err();
    assert_eq!(error, CliError::InvalidArgument(s("sync-some")));
    assert_eq!(error.message(), "Invalid argument: 'sync-some'");
    assert_eq!(
        parse(&["hook", "refs/heads/master", A, B]),
        Ok(Action::UpdateHook(subgit_sync::action::UpdateHook {
            env: env(),
            ref_name: s("refs/heads/master"),
            old_sha: Oid::from_str(A).unwrap(),
            new_sha: Oid::from_str(B).unwrap(),
        }))
    );
    assert_eq!(parse(&["hook", "refs/heads/master", "q", B]), Err(CliError::BadSha(s("q"))));
    assert_eq!(parse(&["hook", "refs/heads/master", A, ""]), Err(CliError::BadSha(s(""))));
    let error = parse(&["hook", "a", "b"]).unwrap_err();
    assert_eq!(error, CliError::UnknownArguments(s("hook a b")));
    assert_eq!(error.message(), "Unknown argument structure: 'hook a b'");
    assert_eq!(parse(&["hook"]), Err(CliError::UnknownArguments(s("hook"))));
    assert_eq!(parse(&[]), Err(CliError::UnknownArguments(s(""))));
}

fn request() -> SetupRequest {
    SetupRequest {
        upstream_git_location: s("up.git"),
        subgit_git_location: s("sub.git"),
        upstream_map_path: s("sub"),
        subgit_map_path: None,
        log_level: None,
        log_file: None,
        upstream_hook_path: s("hooks/post-receive"),
        subgit_hook_path: s("hooks/update"),
        upstream_working_clone_url: None,
        subgit_working_clone_url: None,
        env_based_recursion_detection: None,
        disable_recursion_detection: false,
        match_ref: s("refs/heads/,HEAD"),
    }
}

#[test]
fn a_setup_request_becomes_a_setup() {
    let action = ExecEnv::Setup(s("/bin/tool")).parse_command(&vec![], "", Some(request()), "/srv").unwrap();
    let setup = match action {
        Action::Setup(setup) => setup,
        other => panic!("{:?}", other),
    };
    assert_eq!(setup.copy_from, "/bin/tool");
    assert_eq!(setup.upstream_git_location, "up.git");
    assert_eq!(setup.subgit_git_location, "sub.git");
    assert_eq!(setup.upstream_map_path, "sub");
    assert_eq!(setup.subgit_map_path, None);
    assert_eq!(setup.log_level, LogLevel::Debug);
    assert_eq!(setup.log_file, "git_subgit_setup.log");
    assert_eq!(setup.recursion_detection, RecursionDetection::UsePushOptions);
    assert_eq!(setup.filters, strings(&["refs/heads/", "HEAD"]));

    let mut asked = request();
    asked.disable_recursion_detection = true;
    asked.log_level = Some(LogLevel::Warn);
    asked.log_file = Some(s("my.log"));
    asked.subgit_map_path = Some(s("inner"));
    match asked.convert(s("/bin/tool"), "/srv").unwrap() {
        Action::Setup(setup) => {
            assert_eq!(
                setup.recursion_detection,
                RecursionDetection::UpdateWhitelist(UpdateWhitelist { path: s("/srv/sub.git/data/whitelist") })
            );
            assert_eq!(setup.log_level, LogLevel::Warn);
            assert_eq!(setup.log_file, "my.log");
            assert_eq!(setup.subgit_map_path, Some(s("inner")));
        }
        other => panic!("{:?}", other),
    }

    let mut asked = request();
    asked.subgit_git_location = s("/abs/sub.git");
    asked.disable_recursion_detection = true;
    match asked.convert(s("/bin/tool"), "/srv").unwrap() {
        Action::Setup(setup) => assert_eq!(
            setup.recursion_detection,
            RecursionDetection::UpdateWhitelist(UpdateWhitelist { path: s("/abs/sub.git/data/whitelist") })
        ),
        other => panic!("{:?}", other),
    }

    let mut asked = request();
    asked.env_based_recursion_detection = Some(EnvDetect { name: s("N"), value: s("v") });
    match asked.clone().convert(s("/bin/tool"), "/srv").unwrap() {
        Action::Setup(setup) => assert_eq!(
            setup.recursion_detection,
            RecursionDetection::EnvBased(EnvDetect { name: s("N"), value: s("v") })
        ),
        other => panic!("{:?}", other),
    }
    asked.disable_recursion_detection = true;
    assert_eq!(asked.convert(s("/bin/tool"), "/srv"), Err(CliError::Configuration));
    assert_eq!(
        ExecEnv::Setup(s("/bin/tool")).parse_command(&vec![], "", None, "/srv"),
        Err(CliError::MissingRequest)
    );
}

#[test]
fn a_setup_request_is_written_as_arguments() {
    assert_eq!(
        request().to_args(),
        strings(&["up.git", "sub.git", "sub", "-H", "hooks/post-receive", "-h", "hooks/update", "-m", "refs/heads/,HEAD"])
    );
    let full = SetupRequest {
        upstream_git_location: s("up.git"),
        subgit_git_location: s("sub.git"),
        upstream_map_path: s("sub"),
        subgit_map_path: Some(s("inner")),
        log_level: Some(LogLevel::Trace),
        log_file: Some(s("f.log")),
        upstream_hook_path: s("H"),
        subgit_hook_path: s("h"),
        upstream_working_clone_url: Some(s("U")),
        subgit_working_clone_url: Some(s("u")),
        env_based_recursion_detection: Some(EnvDetect { name: s("GL_USERNAME"), value: s("git") }),
        disable_recursion_detection: true,
        match_ref: s("refs/"),
    };
    assert_eq!(
        full.to_args(),
        strings(&[
            "up.git", "sub.git", "sub", "-p", "inner", "-l", "TRACE", "-f", "f.log", "-H", "H", "-h", "h", "-U",
            "U", "-u", "u", "-r", "GL_USERNAME:git", "-w", "-m", "refs/"
        ])
    );
}

fn probe() -> EnvProbe {
    EnvProbe {
        git_dir: None,
        gl_username: false,
        current_dir: s("/cwd"),
        settings_in_git_dir: false,
        hook_path: s("/srv/subgit.git/data/hook"),
        settings_beside_hook: true,
        current_exe: s("/bin/tool"),
    }
}

#[test]
fn the_surroundings_decide_what_the_program_is() {
    assert_eq!(ExecEnv::detect(&probe()), Ok(ExecEnv::Setup(s("/bin/tool"))));

    let mut p = probe();
    p.git_dir = Some(s("/srv/subgit.git"));
    p.settings_in_git_dir = true;
    assert_eq!(ExecEnv::detect(&p), Ok(ExecEnv::Subgit(env())));

    let mut p = probe();
    p.gl_username = true;
    p.settings_in_git_dir = true;
    assert_eq!(
        ExecEnv::detect(&p),
        Ok(ExecEnv::Subgit(SubGitEnv { git_dir: s("/cwd"), hook_path: s("/cwd/data/hook") }))
    );

    let mut p = probe();
    p.git_dir = Some(s("/srv/upstream.git"));
    assert_eq!(ExecEnv::detect(&p), Ok(ExecEnv::Upstream(env())));

    p.settings_beside_hook = false;
    assert_eq!(ExecEnv::detect(&p), Err(CliError::NoSubgit));
    p.settings_beside_hook = true;
    p.hook_path = s("hook");
    assert_eq!(ExecEnv::detect(&p), Err(CliError::NoSubgit));
    assert_eq!(CliError::NoSubgit.message(), "Cannot find subgit path!");
}

#[test]
fn paths_have_parents() {
    assert_eq!(parent_dir("/a/b/c"), Some(s("/a/b")));
    assert_eq!(parent_dir("a/b/"), Some(s("a")));
    assert_eq!(parent_dir("a"), Some(s("")));
    assert_eq!(parent_dir("/a"), Some(s("/")));
    assert_eq!(parent_dir("/"), None);
    assert_eq!(parent_dir(""), None);
    assert_eq!(subgit_of_hook("/srv/subgit.git/data/hook"), Some(s("/srv/subgit.git")));
    assert_eq!(subgit_of_hook("hook"), None);
    assert_eq!(make_absolute("/cwd", "rel/path"), "/cwd/rel/path");
    assert_eq!(make_absolute("/cwd", "/abs/path"), "/abs/path");
    assert_eq!(make_absolute("/cwd/", ""), "/cwd/");
}

// ---- settings and setup ----

fn settings() -> Settings {
    Settings::generate(
        "/srv/subgit.git/data",
        s("sub"),
        s(""),
        LogLevel::Info,
        RecursionDetection::UsePushOptions,
        strings(&["refs/heads/", "HEAD"]),
    )
}

#[test]
fn settings_give_what_was_set() {
    let settings = settings();
    assert_eq!(settings.upstream_path(), "sub");
    assert_eq!(settings.local_path(), "");
    assert_eq!(settings.filters(), strings(&["refs/heads/", "HEAD"]));
    assert_eq!(settings.recursion_detection(), RecursionDetection::UsePushOptions);
    assert_eq!(settings.file_log_level(), LogLevel::Info);
    assert_eq!(settings.settings_file(), "/srv/subgit.git/data/settings.json");
    assert_eq!(settings.log_file(), "/srv/subgit.git/data/logs/sync.log");
    let mut ctx = context(&["hook"]);
    assert!(!settings.should_abort_hook(&ctx));
    ctx.push_options = Some(strings(&["IGNORE_SUBGIT_UPDATE"]));
    assert!(settings.should_abort_hook(&ctx));
    assert_eq!(LogLevel::Off.as_str(), "OFF");
    assert_eq!(LogLevel::Error.as_str(), "ERROR");
}

#[test]
fn a_hook_that_recurses_opens_nothing() {
    let settings = settings();
    let mut ctx = context(&["hook"]);
    let wrapped = WrappedSubGit::open("/srv/subgit.git", &settings, &ctx).unwrap();
    assert_eq!(wrapped.location, "/srv/subgit.git");
    assert_eq!(wrapped.filters, strings(&["refs/heads/", "HEAD"]));
    assert_eq!(wrapped.workspace, Workspace { upstream_path: s("sub"), local_path: s("") });
    assert_eq!(wrapped.map.len(Location::UPSTREAM), 0);
    assert!(!wrapped.should_abort_hook(&ctx));
    assert_eq!(
        wrapped.update_self(),
        vec![GitCommand::FetchAll { side: Location::SUBGIT }, GitCommand::FetchAll { side: Location::UPSTREAM }]
    );
    ctx.push_options = Some(strings(&["IGNORE_SUBGIT_UPDATE"]));
    assert!(WrappedSubGit::open("/srv/subgit.git", &settings, &ctx).is_none());
}

#[test]
fn setup_is_planned_step_by_step() {
    let plan = WrappedSubGit::run_creation(
        "sub.git",
        "/srv/up.git",
        "sub",
        Some("inner"),
        LogLevel::Warn,
        "setup.log",
        BinSource { location: s("bin/tool"), symlink: true },
        "hooks/update",
        None,
        "hooks/post-receive",
        Some(s("git://host/up.git")),
        RecursionDetection::Disabled,
        strings(&["refs/"]),
        "/cwd",
    );
    let link = |name: &str| SetupStep::Symlink {
        target: format!("/cwd/sub.git/{}", name),
        link: format!("/cwd/sub.git/data/local.git/{}", name),
    };
    let anchor = |side| SetupStep::CreateAnchor {
        side,
        ref_name: s("refs/sync/empty"),
        message: s("Empty base commit - autogenerated"),
    };
    let expected = vec![
        SetupStep::InitLog { path: s("setup.log") },
        SetupStep::CreateDirAll { path: s("sub.git/data") },
        SetupStep::CreateDirAll { path: s("sub.git/data/logs") },
        SetupStep::CreateDirAll { path: s("sub.git/data/whitelist") },
        SetupStep::CreateFile { path: s("sub.git/data/lock") },
        SetupStep::OpenBare { path: s("/srv/up.git") },
        SetupStep::InitBare { path: s("sub.git") },
        SetupStep::Symlink { target: s("/srv/up.git"), link: s("sub.git/data/upstream.git") },
        SetupStep::CreateDir { path: s("/cwd/sub.git/data/local.git") },
        link("config"),
        link("description"),
        link("info"),
        link("logs"),
        link("objects"),
        link("refs"),
        link("packed-refs"),
        SetupStep::CopyFile { from: s("sub.git/HEAD"), to: s("/cwd/sub.git/data/local.git/HEAD") },
        SetupStep::CreateDir { path: s("/cwd/sub.git/data/local.git/hooks") },
        SetupStep::CloneWorking { url: s("git://host/up.git"), parent: s("sub.git/data"), name: s("upstream") },
        SetupStep::CloneWorking {
            url: s("/cwd/sub.git/data/local.git"),
            parent: s("sub.git/data"),
            name: s("local"),
        },
        SetupStep::CreateMap {
            path: s("sub.git/data/map.sqlite"),
            upstream_table: Location::UPSTREAM.create_statement(),
            subgit_table: Location::SUBGIT.create_statement(),
        },
        anchor(Location::SUBGIT),
        anchor(Location::UPSTREAM),
        SetupStep::RecordAnchors,
        SetupStep::WriteSettings { path: s("sub.git/data/settings.json") },
        SetupStep::Lock { path: s("sub.git/data/lock") },
        SetupStep::Symlink { target: s("/cwd/bin/tool"), link: s("sub.git/data/hook") },
        SetupStep::Symlink { target: s("/cwd/sub.git/data/hook"), link: s("sub.git/hooks/update") },
        SetupStep::Symlink { target: s("/cwd/sub.git/data/hook"), link: s("/srv/up.git/hooks/post-receive") },
    ];
    assert_eq!(plan.steps, expected);
    assert_eq!(plan.settings.data_dir, "sub.git/data");
    assert_eq!(plan.settings.upstream_path(), "sub");
    assert_eq!(plan.settings.local_path(), "inner");
    assert_eq!(plan.settings.file_log_level(), LogLevel::Warn);
    assert_eq!(plan.wrapped.workspace, Workspace { upstream_path: s("sub"), local_path: s("inner") });
    assert_eq!(plan.wrapped.filters, strings(&["refs/"]));
    assert_eq!(plan.wrapped.recursion_detection, RecursionDetection::Disabled);

    let copied = WrappedSubGit::run_creation(
        "sub.git",
        "up.git",
        "sub",
        None,
        LogLevel::Warn,
        "setup.log",
        BinSource { location: s("/bin/tool"), symlink: false },
        "hooks/update",
        Some(s("ssh://sub")),
        "hooks/post-receive",
        None,
        RecursionDetection::Disabled,
        vec![],
        "/cwd",
    );
    assert_eq!(copied.steps[26], SetupStep::CopyFile { from: s("/bin/tool"), to: s("sub.git/data/hook") });
    assert_eq!(
        copied.steps[18],
        SetupStep::CloneWorking { url: s("/cwd/up.git"), parent: s("sub.git/data"), name: s("upstream") }
    );
    assert_eq!(
        copied.steps[19],
        SetupStep::CloneWorking { url: s("ssh://sub"), parent: s("sub.git/data"), name: s("local") }
    );
    assert_eq!(copied.settings.local_path(), "");
}

#[test]
fn the_anchors_are_recorded_as_a_pair() {
    let mut wrapped = WrappedSubGit::open("/srv/subgit.git", &settings(), &context(&[])).unwrap();
    wrapped.record_anchor(sha(200), sha(100));
    assert_eq!(wrapped.map.find(Location::UPSTREAM, &sha(200)), Some(sha(100)));
    assert_eq!(wrapped.map.find(Location::SUBGIT, &sha(100)), Some(sha(200)));
    wrapped.import_initial_empty_commits(&vec![sha(1), sha(2)], sha(100));
    assert_eq!(wrapped.map.find(Location::UPSTREAM, &sha(2)), Some(sha(100)));
    assert_eq!(wrapped.map.find(Location::SUBGIT, &sha(100)), Some(sha(1)));
    assert_eq!(wrapped.map.row(Location::UPSTREAM, 0).source, sha(200));
}

#[test]
fn the_commit_map_is_written_in_pairs() {
    let mut wrapped = WrappedSubGit::open("/srv/subgit.git", &settings(), &context(&[])).unwrap();
    wrapped.record_anchor(sha(200), sha(100));
    wrapped.import_initial_empty_commits(&vec![sha(1), sha(2), sha(3)], sha(100));
    let rows = wrapped.map.len(Location::UPSTREAM);
    assert_eq!(rows, 4);
    assert_eq!(wrapped.map.len(Location::SUBGIT), rows);
    for i in 0..rows {
        let up = wrapped.map.row(Location::UPSTREAM, i);
        let sub = wrapped.map.row(Location::SUBGIT, i);
        assert_eq!(up.source, sub.dest);
        assert_eq!(up.dest, sub.source);
    }
    for n in 1..=3 {
        assert_eq!(wrapped.map.find(Location::UPSTREAM, &sha(n)), Some(sha(100)));
    }
    assert_eq!(wrapped.map.find(Location::SUBGIT, &sha(100)), Some(sha(1)));
}

// ---- jobs and sessions ----

fn refs(items: &[(&str, u8)]) -> Vec<RefEntry> {
    items.iter().map(|(name, n)| RefEntry { name: s(name), target: sha(*n) }).collect()
}

#[test]
fn a_reconciliation_imports_what_passes_and_deletes_what_is_gone() {
    let filters = strings(&["refs/heads/", "HEAD"]);
    let local = refs(&[("refs/heads/gone", 103), ("refs/heads/master", 101), ("refs/sync/empty", 100)]);
    let upstream = refs(&[("refs/heads/master", 1), ("refs/heads/new", 2), ("refs/test/bad", 3), ("refs/tags/v", 4)]);
    let jobs = plan_reconcile(&filters, &local, &upstream);
    let summary: Vec<(String, OldTip, Option<Oid>)> =
        jobs.iter().map(|j| (j.ref_name.clone(), j.old, j.new)).collect();
    assert_eq!(
        summary,
        vec![
            (s("refs/heads/master"), OldTip::BackOf(Some(sha(101))), Some(sha(1))),
            (s("refs/heads/new"), OldTip::BackOf(None), Some(sha(2))),
            (s("refs/heads/gone"), OldTip::BackOf(Some(sha(103))), None),
        ]
    );
    for job in &jobs {
        assert_eq!(job.source, Location::UPSTREAM);
        assert!(job.force_push);
        assert!(job.listen);
        assert_eq!(job.expect, None);
    }
    assert_eq!(find_reference(&local, "refs/heads/master"), Some(sha(101)));
    assert_eq!(find_reference(&local, "refs/heads/none"), None);
    assert!(plan_reconcile(&vec![], &local, &upstream).is_empty());
}

#[test]
fn requests_become_imports_of_what_passes() {
    let filters = strings(&["refs/heads/"]);
    let requests = vec![
        RefSyncRequest { ref_name: s("refs/heads/a"), old_upstream_sha: no_sha(), new_upstream_sha: sha(1) },
        RefSyncRequest { ref_name: s("refs/tags/t"), old_upstream_sha: no_sha(), new_upstream_sha: sha(2) },
        RefSyncRequest { ref_name: s("refs/heads/b"), old_upstream_sha: sha(3), new_upstream_sha: no_sha() },
    ];
    let jobs = plan_requests(&filters, &requests);
    assert_eq!(jobs.len(), 2);
    assert_eq!((jobs[0].ref_name.as_str(), jobs[0].old, jobs[0].new), ("refs/heads/a", OldTip::Known(None), Some(sha(1))));
    assert_eq!((jobs[1].ref_name.as_str(), jobs[1].old, jobs[1].new), ("refs/heads/b", OldTip::Known(Some(sha(3))), None));
    let sync = SyncRefs { requests, env: env() };
    assert_eq!(sync.announce(&filters), strings(&["refs/heads/a", "refs/heads/b"]));
}

fn opened() -> WrappedSubGit {
    let mut wrapped = WrappedSubGit::open("/srv/subgit.git", &settings(), &context(&[])).unwrap();
    wrapped.record_anchor(sha(200), sha(100));
    wrapped
}

#[test]
fn an_export_of_a_ref_that_fails_the_filter_does_nothing() {
    let (session, step) = opened().push_ref_change_upstream("refs/tags/v1", no_sha(), sha(1));
    assert_eq!(step, SessionStep::Done { commands: vec![], result: Ok(()) });
    assert_eq!(session.stage, SessionStage::Finished);
    let wrapped = session.finish();
    assert_eq!(wrapped.map.len(Location::UPSTREAM), 1);

    let (session, step) = opened().import_upstream_commits("refs/tags/v1", None, Some(sha(1)));
    assert_eq!(step, SessionStep::Continue { commands: vec![], result: None });
    assert!(session.jobs.is_empty());
    let (session, _) = opened().export_local_commits("refs/heads/x", None, Some(sha(1)));
    assert_eq!(session.jobs.len(), 1);
    assert_eq!(session.jobs[0].source, Location::SUBGIT);
    assert!(!session.jobs[0].force_push);
}

#[test]
fn an_export_is_refused_when_the_sides_are_out_of_step() {
    // The subgit is at 101, which stands for 1; a push moves it to 102.
    let mut wrapped = opened();
    let mut mapper = CommitMapper::new(std::mem::replace(&mut wrapped.map, MapStore::new()));
    mapper.put(Location::UPSTREAM, &sha(1), &sha(101));
    wrapped.map = mapper.save_changes();

    let (mut session, step) = wrapped.push_ref_change_upstream("refs/heads/master", sha(101), sha(102));
    assert_eq!(
        step,
        SessionStep::Ask {
            commands: vec![],
            query: GitQuery::FindReference { side: Location::UPSTREAM, working: false, name: s("refs/heads/master") }
        }
    );
    // Meanwhile the upstream repository has moved on to 2.
    assert_eq!(
        session.resume(GitReply::Reference(Some(sha(2)))),
        SessionStep::Continue { commands: vec![], result: None }
    );
    assert_eq!(session.jobs.len(), 2);
    assert_eq!(session.jobs[0].expect, Some(Some(sha(101))));
    let step = session.advance();
    assert_eq!(
        step,
        SessionStep::Ask {
            commands: vec![],
            query: GitQuery::RevList { side: Location::UPSTREAM, hide: vec![sha(1)], tip: sha(2) }
        }
    );
    session.resume(GitReply::Commits(vec![sha(2)]));
    session.resume(GitReply::Parents(vec![sha(1)]));
    let deltas = vec![Delta { path: s("sub/x"), kind: DeltaKind::Added, blob: sha(7) }];
    session.resume(GitReply::Deltas(deltas));
    let step = session.resume(GitReply::Created(sha(103)));
    assert!(matches!(step, SessionStep::Ask { query: GitQuery::Push { force: true, .. }, .. }));
    let step = session.resume(GitReply::Pushed(true));
    assert_eq!(
        step,
        SessionStep::Done {
            commands: vec![],
            result: Err(SyncError::OutOfSync { expected: Some(sha(101)), found: Some(sha(103)) })
        }
    );
    assert_eq!(session.stage, SessionStage::Failed);
    // What the import recorded is kept: it ended well.
    let wrapped = session.finish();
    assert_eq!(wrapped.map.find(Location::UPSTREAM, &sha(2)), Some(sha(103)));
}

#[test]
fn a_failed_job_ends_the_session() {
    let (mut session, _) = opened().import_upstream_commits("refs/heads/master", None, Some(sha(1)));
    session.advance();
    session.resume(GitReply::Commits(vec![]));
    session.resume(GitReply::Commits(vec![sha(1)]));
    let step = session.resume(GitReply::Parents(vec![sha(9)]));
    assert_eq!(step, SessionStep::Done { commands: vec![], result: Err(SyncError::Copy(CopyError::MissingParent)) });
    let step = session.resume(GitReply::Flag(true));
    assert_eq!(step, SessionStep::Done { commands: vec![], result: Err(SyncError::Copy(CopyError::Unexpected)) });
    assert_eq!(session.finish().map.len(Location::UPSTREAM), 1);
}

// ---- Git on the command line ----

#[test]
fn git_is_asked_on_its_command_line() {
    let push = push_sha_ext("refs/heads/master", false, &None);
    assert_eq!(push.args, strings(&["push", "origin", "HEAD:refs/heads/master"]));
    assert!(push.env.is_empty());
    let push = push_sha_ext("refs/heads/master", true, &Some(strings(&["A", "B"])));
    assert_eq!(push.args, strings(&["push", "--push-option=A", "--push-option=B", "origin", "+HEAD:refs/heads/master"]));
    let delete = delete_remote_branch("refs/heads/gone", &Some(strings(&["X", "Y"])));
    assert_eq!(delete.args, strings(&["push", "origin", ":refs/heads/gone"]));
    let env: Vec<(String, String)> = delete.env.into_iter().map(|v| (v.name, v.value)).collect();
    assert_eq!(
        env,
        vec![
            (s("GIT_PUSH_OPTION_COUNT"), s("2")),
            (s("GIT_PUSH_OPTION_0"), s("X")),
            (s("GIT_PUSH_OPTION_1"), s("Y"))
        ]
    );
    assert!(delete_remote_branch("refs/heads/gone", &None).env.is_empty());
    assert_eq!(delete_remote_branch("r", &Some(vec![])).env.len(), 1);
    assert_eq!(fetch_all_ext().args, strings(&["fetch", "--all"]));
    assert_eq!(clone_remote("url", "name").args, strings(&["clone", "url", "name"]));
    assert_eq!(
        get_n_recent_shas(10).args,
        strings(&["for-each-ref", "--count=10", "--sort=-authordate", "--format=%(objectname)", "refs/heads"])
    );
    assert_eq!(
        find_earliest_commit_on_folder("sub").args,
        strings(&["rev-list", "--reverse", "--topo-order", "HEAD", "--", "sub"])
    );
    let gc: Vec<(String, String)> = disable_gc().into_iter().map(|e| (e.key, e.value)).collect();
    assert_eq!(gc, vec![(s("gc.pruneExpire"), s("never")), (s("gc.reflogExpire"), s("never")), (s("gc.auto"), s("0"))]);
    let simple: Vec<(String, String)> = set_push_simple().into_iter().map(|e| (e.key, e.value)).collect();
    assert_eq!(simple, vec![(s("push.default"), s("simple"))]);
}

#[test]
fn what_git_prints_is_read() {
    let output = format!("{}\n\n  {}  \n", A, B);
    assert_eq!(read_commits(&output), Some(vec![Oid::from_str(A).unwrap(), Oid::from_str(B).unwrap()]));
    assert_eq!(read_commits(""), Some(vec![]));
    assert_eq!(read_commits("\n \n"), Some(vec![]));
    assert_eq!(read_commits(&format!("{}\nnot a commit\n{}", A, B)), None);
    assert_eq!(find_safe_empty_na_commits(vec![sha(3), sha(2), sha(1)]), vec![sha(2), sha(1)]);
    assert_eq!(find_safe_empty_na_commits(vec![]), vec![]);
    assert_eq!(get_git_options("0"), Some(vec![]));
    assert_eq!(get_git_options("3"), Some(strings(&["GIT_PUSH_OPTION_0", "GIT_PUSH_OPTION_1", "GIT_PUSH_OPTION_2"])));
    assert_eq!(get_git_options("12").unwrap()[11], "GIT_PUSH_OPTION_11");
    assert_eq!(get_git_options("many"), None);
    assert_eq!(get_git_options(""), None);
}

// ---- text ----

#[test]
fn texts_are_split_and_joined() {
    let parts = split(&chars("a,b,,c,"), ',');
    assert_eq!(to_strings(&parts), strings(&["a", "b", "", "c", ""]));
    assert_eq!(from_chars(&join_chars(&parts, ',')), "a,b,,c,");
    assert_eq!(to_strings(&split(&chars(""), ',')), strings(&[""]));
    assert_eq!(to_strings(&split(&chars(","), ',')), strings(&["", ""]));
    assert_eq!(to_strings(&split(&chars("abc"), ',')), strings(&["abc"]));
    assert_eq!(join_strings(&strings(&["a", "b", "c"]), ' '), "a b c");
    assert_eq!(join_strings(&strings(&[]), ' '), "");
    assert_eq!(join_strings(&strings(&["only"]), ' '), "only");
    assert_eq!(to_chars("héllo"), chars("héllo"));
    assert_eq!(from_chars(&chars("héllo")), "héllo");
}

#[test]
fn texts_are_trimmed_and_cut_into_lines() {
    assert_eq!(from_chars(&trim(&chars("  a b \t\r\n"))), "a b");
    assert_eq!(from_chars(&trim(&chars(" \n "))), "");
    assert_eq!(from_chars(&trim(&chars(""))), "");
    assert_eq!(from_chars(&trim(&chars("x"))), "x");
    assert_eq!(to_strings(&lines(&chars("a\nb\n"))), strings(&["a", "b"]));
    assert_eq!(to_strings(&lines(&chars("a\nb"))), strings(&["a", "b"]));
    assert_eq!(to_strings(&lines(&chars("a\n\nb"))), strings(&["a", "", "b"]));
    assert_eq!(to_strings(&lines(&chars(""))), strings(&[]));
    assert_eq!(to_strings(&lines(&chars("\n"))), strings(&[""]));
}

#[test]
fn numbers_are_read_and_written_in_decimal() {
    assert_eq!(parse_u32(&chars("0")), Some(0));
    assert_eq!(parse_u32(&chars("007")), Some(7));
    assert_eq!(parse_u32(&chars("+42")), Some(42));
    assert_eq!(parse_u32(&chars("4294967295")), Some(u32::MAX));
    assert_eq!(parse_u32(&chars("4294967296")), None);
    assert_eq!(parse_u32(&chars("99999999999999999999")), None);
    assert_eq!(parse_u32(&chars("")), None);
    assert_eq!(parse_u32(&chars("+")), None);
    assert_eq!(parse_u32(&chars("-1")), None);
    assert_eq!(parse_u32(&chars("1 ")), None);
    assert_eq!(parse_u32(&chars("1a")), None);
    assert_eq!(decimal(0), "0");
    assert_eq!(decimal(9), "9");
    assert_eq!(decimal(10), "10");
    assert_eq!(decimal(4096), "4096");
    for n in [0usize, 1, 19, 100, 65535, 123456789] {
        assert_eq!(parse_u32(&chars(&decimal(n))), Some(n as u32));
    }
}

#[test]
fn errors_are_said_in_words() {
    assert_eq!(SyncError::OutOfSync { expected: None, found: Some(sha(1)) }.message(), "Out of sync with the upstream repo!");
    assert_eq!(SyncError::Copy(CopyError::PushRejected).message(), "Could not push");
    assert_eq!(CopyError::MissingAnchor.message(), "An empty commit should exist");
    assert_eq!(
        SyncError::Copy(CopyError::Unmapped).to_string_error(),
        StringError { message: s("The new tip has no translation") }
    );
    let error = CliError::BadSha(s("xyz")).to_string_error();
    assert_eq!(error.description(), "Not a commit: 'xyz'");
    assert_eq!(CliError::Configuration.message(), "Both ways of recursion detection were chosen");
    assert_eq!(CliError::MissingRequest.message(), "No setup request");
    assert_eq!(CliError::UnknownArguments(s("a b")).to_string_error().message, "Unknown argument structure: 'a b'");
}

#[test]
fn a_request_needs_both_commits() {
    let ok = request_from(s("refs/heads/x"), s("old"), Some(sha(1)), s("new"), Some(sha(2)));
    assert_eq!(
        ok,
        Ok(RefSyncRequest { ref_name: s("refs/heads/x"), old_upstream_sha: sha(1), new_upstream_sha: sha(2) })
    );
    assert_eq!(request_from(s("r"), s("old"), None, s("new"), Some(sha(2))), Err(CliError::BadSha(s("old"))));
    assert_eq!(request_from(s("r"), s("old"), Some(sha(1)), s("new"), None), Err(CliError::BadSha(s("new"))));
    assert_eq!(request_from(s("r"), s("old"), None, s("new"), None), Err(CliError::BadSha(s("old"))));
    let whitelist = UpdateWhitelist { path: s("/wl") };
    assert_eq!(
        whitelist.handle_of_update("refs/heads/x", None),
        "/wl/refs:heads:x-0000000000000000000000000000000000000000"
    );
    assert_eq!(whitelist.handle_of_update("a/b", Some(sha(3))), whitelist.get_handle("a/b", sha(3)));
}

#[test]
fn a_commit_has_its_place_in_a_tree_of_directories() {
    let oid = Oid::from_str("00112233445566778899aabbccddeeff00112233").unwrap();
    assert_eq!(sha_path(&oid), "0/0/1/1/223344556677 8899aabbccddeeff00112233".replace(' ', ""));
    assert_eq!(sha_path(&no_sha()).len(), 44);
    assert_eq!(&sha_path(&no_sha())[..9], "0/0/0/0/0");
}

#[test]
fn the_input_of_the_upstream_hook_is_handed_on() {
    let request = RequestSync { env: env(), stdin: b"old new ref\n".to_vec() };
    assert_eq!(
        request.run(),
        Some(Relay {
            program: s("/srv/subgit.git/data/hook"),
            git_dir: s("/srv/subgit.git"),
            args: strings(&["sync-refs"]),
            stdin: b"old new ref\n".to_vec(),
        })
    );
    let lost = RequestSync { env: SubGitEnv { git_dir: s("x"), hook_path: s("hook") }, stdin: vec![] };
    assert_eq!(lost.run(), None);
}
