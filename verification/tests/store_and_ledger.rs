//! Work directories, the store, the build cache, the ledger, and what is taken away from them.

use std::sync::Arc;

use chariot::buildcache::{BuildCache, BuildDirectory};
use chariot::cache;
use chariot::config::package::{Package, PackagePlatform};
use chariot::config::script::Script;
use chariot::config::source::{LocalSource, Source, SourceBase};
use chariot::config::{Config, Dependencies, GlobalEnvironment};
use chariot::hashes::{
    collect_all_hashes, get_outcome_hash, needs_lookup, resolve_effective_hashes, RecipeHashes,
};
use chariot::ledger::{ledger_key, read_hash, Ledger, LedgerAnswer, LedgerUnreadable};
use chariot::lock::{next_removal_step, LockOutcome, RemovalStep};
use chariot::store::{
    format_entry_name, is_live_entry, EntryLockFailed, RenameOutcome, Store, StoreEntry, StoreStep,
};
use chariot::util::names::{NameMap, NameSet};
use chariot::util::path::UnixPath;
use chariot::workdir::{CreateStep, WorkDirectory, WorkDirectoryParent};
use std::hash::Hasher;
use xxhash_rust::xxh3::Xxh3;

fn path(text: &str) -> UnixPath {
    UnixPath::from_text(text)
}

fn as_text(path: &UnixPath) -> String {
    String::from_utf8(path.bytes.clone()).unwrap()
}

fn hashes(items: &[(&str, u128)]) -> RecipeHashes {
    let mut set = RecipeHashes::new();
    for (category, hash) in items {
        set.insert(category, *hash);
    }
    set
}

fn file_names(names: &[&str]) -> Vec<Vec<u8>> {
    names.iter().map(|n| n.as_bytes().to_vec()).collect()
}

fn texts(paths: &[UnixPath]) -> Vec<String> {
    paths.iter().map(as_text).collect()
}

#[test]
fn directories_are_removed_only_under_their_lock() {
    for fine in [false, true] {
        assert_eq!(next_removal_step(LockOutcome::Acquired, fine), RemovalStep::Remove);
        assert_eq!(next_removal_step(LockOutcome::Blocked, fine), RemovalStep::Skip);
        assert_eq!(next_removal_step(LockOutcome::Failed, fine), RemovalStep::Fail);
    }
    assert_eq!(next_removal_step(LockOutcome::Missing, true), RemovalStep::Skip);
    assert_eq!(next_removal_step(LockOutcome::Missing, false), RemovalStep::Fail);
}

fn parent() -> Arc<WorkDirectoryParent> {
    Arc::new(WorkDirectoryParent::get(path("/cache/work")))
}

#[test]
fn work_directories_are_named_by_their_numbers() {
    let parent = parent();
    assert_eq!(as_text(&parent.child_path(0xbeef)), "/cache/work/beef");
    assert_ne!(parent.child_path(1).bytes, parent.child_path(2).bytes);
    match WorkDirectory::create(&parent, 0xbeef, LockOutcome::Acquired) {
        CreateStep::Created(mut dir) => {
            assert_eq!(as_text(&dir.path()), "/cache/work/beef");
            assert_eq!(as_text(&dir.removed_on_drop().unwrap()), "/cache/work/beef");
            dir.persist();
            assert!(dir.removed_on_drop().is_none());
        }
        _ => panic!("not created"),
    }
    assert!(matches!(WorkDirectory::create(&parent, 1, LockOutcome::Blocked), CreateStep::Retry));
    assert!(matches!(WorkDirectory::create(&parent, 1, LockOutcome::Missing), CreateStep::Retry));
    assert!(matches!(WorkDirectory::create(&parent, 1, LockOutcome::Failed), CreateStep::Fail));
}

#[test]
fn store_entries_are_named_by_category_and_hash() {
    let store = Arc::new(Store::get(path("/cache/store")));
    assert_eq!(format_entry_name("pkg", 0xabc), format!("{}-{:x}", "pkg", 0xabc));
    assert_eq!(as_text(&store.entry_path("source.base", 255)), "/cache/store/source.base-ff");
    let entry = StoreEntry::get(&store, "pkg", 16, LockOutcome::Acquired).unwrap().unwrap();
    assert_eq!(as_text(&entry.path()), "/cache/store/pkg-10");
    assert!(StoreEntry::get(&store, "pkg", 16, LockOutcome::Missing).unwrap().is_none());
    assert_eq!(StoreEntry::get(&store, "pkg", 16, LockOutcome::Failed).unwrap_err(), EntryLockFailed);
    assert_eq!(StoreEntry::get(&store, "pkg", 16, LockOutcome::Blocked).unwrap_err(), EntryLockFailed);
}

#[test]
fn a_work_directory_becomes_an_entry() {
    let store = Arc::new(Store::get(path("/s")));
    let dir = WorkDirectory {
        parent: parent(),
        id: 1,
        locked: true,
    };
    match StoreEntry::from_workdir(&store, &dir, "pkg", 2, None, None) {
        StoreStep::Rename { from, to } => {
            assert_eq!(as_text(&from), "/cache/work/1");
            assert_eq!(as_text(&to), "/s/pkg-2");
        }
        _ => panic!("no rename"),
    }
    match StoreEntry::from_workdir(&store, &dir, "pkg", 2, Some(RenameOutcome::Done), None) {
        StoreStep::Keep(entry) => assert_eq!(as_text(&entry.path()), "/s/pkg-2"),
        _ => panic!("not kept"),
    }
    let busy = Some(RenameOutcome::NotEmpty);
    assert!(matches!(StoreEntry::from_workdir(&store, &dir, "pkg", 2, busy, None), StoreStep::Reopen));
    assert!(matches!(
        StoreEntry::from_workdir(&store, &dir, "pkg", 2, busy, Some(true)),
        StoreStep::Yield(_)
    ));
    assert!(matches!(
        StoreEntry::from_workdir(&store, &dir, "pkg", 2, busy, Some(false)),
        StoreStep::Fail
    ));
    assert!(matches!(
        StoreEntry::from_workdir(&store, &dir, "pkg", 2, Some(RenameOutcome::Failed), None),
        StoreStep::Fail
    ));
}

#[test]
fn pruning_keeps_just_what_is_live() {
    let store = Store::get(path("/s"));
    let live = hashes(&[("pkg", 1), ("install", 0xa)]);
    let names = file_names(&["pkg-1", "pkg-2", "install-a", "install-1", "stray"]);
    assert_eq!(
        texts(&store.prune_store(&names, &live)),
        vec!["/s/pkg-2", "/s/install-1", "/s/stray"]
    );
    assert!(is_live_entry(b"pkg-1", &live));
    assert!(!is_live_entry(b"pkg-10", &live));
    assert_eq!(store.prune_store(&names, &RecipeHashes::new()).len(), names.len());
}

#[test]
fn hashes_form_a_set() {
    let mut set = hashes(&[("a", 1), ("a", 1), ("b", 1)]);
    assert_eq!(set.items.len(), 2);
    assert!(set.contains("b", 1));
    assert!(!set.contains("b", 2));
    set.insert_all(&hashes(&[("b", 2), ("a", 1)]));
    assert_eq!(set.items.len(), 3);
}

fn config() -> Config {
    let global_env = Arc::new(GlobalEnvironment {
        rootfs_manifest_hash: "m".to_string(),
        global_environment_variables: NameMap::new(),
        global_native_packages: NameSet::new(),
        target_arch: "riscv64".to_string(),
        target_prefix: "/usr".to_string(),
    });
    let package = Package {
        global_env: global_env.clone(),
        platform: PackagePlatform::Target,
        name: "p".to_string(),
        version: "1".to_string(),
        revision: 0,
        dependencies: Dependencies::default(),
        runtime_dependencies: Vec::new(),
        environment_variables: NameMap::new(),
        configure: None,
        build: None,
        install: Script::bash("true"),
    };
    let source = Source {
        base: SourceBase::Local(LocalSource {
            path: path("/src"),
            hash: 7,
        }),
        patches: Vec::new(),
        prepare: None,
    };
    Config {
        global_env,
        packages: vec![Arc::new(package)],
        sources: vec![Arc::new(source)],
    }
}

#[test]
fn a_configuration_has_five_kinds_of_hashes() {
    let config = config();
    let all = collect_all_hashes(&config);
    let package = &config.packages[0];
    let source = &config.sources[0];
    let base = source.get_base_hash();
    let patch = source.get_patch_hash(base);
    assert_eq!(all.items.len(), 5);
    assert!(all.contains("install", package.get_content_hash()));
    assert!(all.contains("pkg", package.get_package_hash()));
    assert!(all.contains("source.base", base));
    assert!(all.contains("source.patch", patch));
    assert!(all.contains("source.prepare", source.get_hash()));
}

#[test]
fn live_recipes_survive_pruning() {
    let config = config();
    let live = collect_all_hashes(&config);
    let lookups: Vec<Option<u128>> = live
        .items
        .iter()
        .map(|(category, hash)| if needs_lookup(category) { Some(hash ^ 1) } else { None })
        .collect();
    let kept = resolve_effective_hashes(&live.items, &lookups);
    let store = Store::get(path("/s"));
    let mut names = Vec::new();
    for (category, hash) in &live.items {
        let effective = if needs_lookup(category) { hash ^ 1 } else { *hash };
        names.push(format_entry_name(category, effective).into_bytes());
    }
    assert!(store.prune_store(&names, &kept).is_empty());
}

#[test]
fn effective_hashes_come_from_the_ledger() {
    let unresolved = vec![
        ("install".to_string(), 1),
        ("pkg".to_string(), 2),
        ("source.prepare".to_string(), 3),
        ("source.base".to_string(), 4),
        ("source.patch".to_string(), 5),
    ];
    let lookups = vec![Some(10), None, Some(30), Some(99), None];
    let resolved = resolve_effective_hashes(&unresolved, &lookups);
    assert_eq!(resolved.items.len(), 4);
    assert!(resolved.contains("install", 10));
    assert!(resolved.contains("source.prepare", 30));
    assert!(resolved.contains("source.base", 4));
    assert!(resolved.contains("source.patch", 5));
}

#[test]
fn outcomes_are_hashed_from_recipe_and_dependencies() {
    let mut expected = Xxh3::new();
    expected.write_u128(11);
    expected.write_u128(22);
    assert_eq!(get_outcome_hash(11, 22), expected.digest128());
    assert_ne!(get_outcome_hash(11, 22), get_outcome_hash(22, 11));
}

#[test]
fn ledger_rows_hold_hashes_highest_byte_first() {
    let row = Ledger::record("pkg", 0x0102, 0xff);
    assert_eq!(row.key.category, "pkg");
    assert_eq!(row.key.hash, 0x0102u128.to_be_bytes().to_vec());
    assert_eq!(row.effective_hash, 0xffu128.to_be_bytes().to_vec());
    assert_eq!(ledger_key("pkg", 0x0102).hash, row.key.hash);
}

#[test]
fn a_lookup_reads_back_what_was_recorded() {
    for effective in [0u128, 1, 0xdead_beef, u128::MAX] {
        let row = Ledger::record("install", 5, effective);
        assert_eq!(Ledger::lookup(&LedgerAnswer::Row(row.effective_hash)), Ok(Some(effective)));
    }
    assert_eq!(Ledger::lookup(&LedgerAnswer::NoRow), Ok(None));
    assert_eq!(Ledger::lookup(&LedgerAnswer::Failed), Err(LedgerUnreadable));
    assert_eq!(Ledger::lookup(&LedgerAnswer::Row(vec![1, 2, 3])), Err(LedgerUnreadable));
    assert_eq!(read_hash(&[0; 15]), None);
}

#[test]
fn pruning_the_ledger_keeps_live_recipes() {
    let records = vec![("pkg".to_string(), 1), ("pkg".to_string(), 2), ("install".to_string(), 1)];
    let dropped = Ledger::prune(&records, &hashes(&[("pkg", 1)]));
    let keys: Vec<(String, Vec<u8>)> = dropped.into_iter().map(|k| (k.category, k.hash)).collect();
    assert_eq!(
        keys,
        vec![
            ("pkg".to_string(), 2u128.to_be_bytes().to_vec()),
            ("install".to_string(), 1u128.to_be_bytes().to_vec()),
        ]
    );
    assert_eq!(Ledger::prune(&records, &RecipeHashes::new()).len(), 3);
}

#[test]
fn build_directories_are_named_by_platform_name_and_arch() {
    let cache = Arc::new(BuildCache::get(path("/b")));
    let dir = BuildDirectory::get(&cache, PackagePlatform::Host, "x86_64", "gcc");
    assert!(dir.exclusive);
    assert_eq!(
        as_text(&dir.path()),
        format!("/b/{}.gcc.x86_64/content", PackagePlatform::Host.to_string())
    );
    assert_eq!(as_text(&dir.dir_path()), as_text(&cache.dir_path(PackagePlatform::Host, "x86_64", "gcc")));
    assert!(!BuildDirectory::get_read_only(&cache, PackagePlatform::Host, "x86_64", "gcc").exclusive);
}

#[test]
fn pruning_the_build_cache_keeps_enabled_packages() {
    let cache = BuildCache::get(path("/b"));
    let host = PackagePlatform::Host.to_string();
    let target = PackagePlatform::Target.to_string();
    let names = vec![
        format!("{}.gcc.x86_64", host),
        format!("{}.gcc.riscv64", target),
        format!("{}.gcc-libs.x86_64", host),
        "stray".to_string(),
    ];
    let enabled = vec![(PackagePlatform::Host, "gcc".to_string())];
    assert_eq!(cache.prune(&names, &enabled), vec![false, true, true, true]);
    assert_eq!(cache.prune(&names, &Vec::new()), vec![true; 4]);
}

#[test]
fn a_cache_holds_work_directories_and_a_store() {
    let held = Arc::new(cache::Cache::get(path("/c")));
    let (work, store) = held.subdirectories();
    assert_eq!(as_text(&work), "/c/work");
    assert_eq!(as_text(&store), "/c/store");
    assert_eq!(as_text(&held.path_work_directory(10)), "/c/work/a");
    assert_eq!(as_text(&held.path_store_entry("pkg", 17)), "/c/store/pkg-11");
    assert_eq!(
        texts(&held.prune_store(&file_names(&["pkg-11", "pkg-12"]), &vec![("pkg".to_string(), 17)])),
        vec!["/c/store/pkg-12"]
    );
    let entry = cache::StoreEntry::get(&held, "pkg", 17, LockOutcome::Acquired).unwrap().unwrap();
    assert_eq!(entry.hash(), 17);
    assert_eq!(as_text(&entry.path()), "/c/store/pkg-11");
    match cache::WorkDirectory::create(&held, 10, LockOutcome::Acquired) {
        cache::CreateStep::Created(dir) => assert_eq!(as_text(&dir.path()), "/c/work/a"),
        _ => panic!("not created"),
    }
}

#[test]
fn a_work_directory_of_a_cache_moves_to_its_store() {
    let held = Arc::new(cache::Cache::get(path("/c")));
    let dir = cache::WorkDirectory {
        cache: held,
        id: 1,
    };
    match dir.move_to_store("pkg", 2, None, None) {
        cache::MoveStep::Rename { from, to } => {
            assert_eq!(as_text(&from), "/c/work/1");
            assert_eq!(as_text(&to), "/c/store/pkg-2");
        }
        _ => panic!("no rename"),
    }
    let done = Some(RenameOutcome::Done);
    let busy = Some(RenameOutcome::NotEmpty);
    assert!(matches!(dir.move_to_store("pkg", 2, done, None), cache::MoveStep::Keep(_)));
    assert!(matches!(dir.move_to_store("pkg", 2, busy, None), cache::MoveStep::Reopen));
    assert!(matches!(dir.move_to_store("pkg", 2, busy, Some(true)), cache::MoveStep::Yield(_)));
    assert!(matches!(dir.move_to_store("pkg", 2, busy, Some(false)), cache::MoveStep::Fail));
    assert!(matches!(
        dir.move_to_store("pkg", 2, Some(RenameOutcome::Failed), None),
        cache::MoveStep::Fail
    ));
}
