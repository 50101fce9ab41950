//! What the command line tool decides.

use std::sync::Arc;

use chariot::cli::config::{CliConfig, PackageConfig};
use chariot::cli::layout::CacheLayout;
use chariot::cli::options::parse_kv;
use chariot::cli::profile::{InputState, ProfileStep, State};
use chariot::cli::progress::ProgressBarWriter;
use chariot::cli::prune::{kept_recipes, run_store, PruneReplies, PruneStep, StoreCommand};
use chariot::cli::run::{run_install, InstallRequest, RootFSIdentity, RunReplies, RunStep};
use chariot::cli::select::{get_required_binary, require_binary, select_packages};
use chariot::cli::table::format_ledger;
use chariot::config::base::{BaseConfig, RootFSConfig, RootFSVerdict};
use chariot::config::package::{Package, PackagePlatform};
use chariot::config::script::Script;
use chariot::config::{Config, Dependencies, GlobalEnvironment};
use chariot::hashes::RecipeHashes;
use chariot::install::InstallFailure;
use chariot::util::names::{NameMap, NameSet};
use chariot::util::path::UnixPath;
use chariot::xbps::XBPSPackageInstallError;

fn path(text: &str) -> UnixPath {
    UnixPath::from_text(text)
}

fn as_text(path: &UnixPath) -> String {
    String::from_utf8(path.bytes.clone()).unwrap()
}

#[test]
fn options_are_cut_at_the_first_equals_sign() {
    assert_eq!(parse_kv("a=b"), Ok(("a".to_string(), "b".to_string())));
    assert_eq!(parse_kv("a=b=c"), Ok(("a".to_string(), "b=c".to_string())));
    assert_eq!(parse_kv("="), Ok(("".to_string(), "".to_string())));
    assert_eq!(parse_kv("\u{e9}=\u{1f600}"), Ok(("\u{e9}".to_string(), "\u{1f600}".to_string())));
    assert_eq!(parse_kv("ab"), Err("invalid KEY=VALUE: no `=` found in `ab`".to_string()));
}

#[test]
fn lines_are_shown_when_they_end() {
    let mut writer = ProgressBarWriter::init();
    assert!(writer.write(b"one").is_empty());
    assert_eq!(writer.write(b" line\ntwo\n\nthr"), vec!["one line", "two", ""]);
    assert_eq!(writer.buffer, b"thr".to_vec());
    assert_eq!(writer.write(&[0xe9, b'\n']), vec!["thr\u{e9}".to_string()]);
    assert!(writer.buffer.is_empty());
}

#[test]
fn pieces_make_no_difference() {
    let text = b"first\nsecond line\n\nlast";
    let mut whole = ProgressBarWriter::init();
    let expected = whole.write(text);
    for cut in 0..=text.len() {
        let mut writer = ProgressBarWriter::init();
        let mut messages = writer.write(&text[..cut]);
        messages.extend(writer.write(&text[cut..]));
        assert_eq!(messages, expected);
        assert_eq!(writer.buffer, whole.buffer);
    }
}

#[test]
fn the_ledger_is_listed_in_columns() {
    let records = vec![
        ("pkg".to_string(), 0x1u128, u128::MAX),
        ("source.prepare".to_string(), 0xabcdef, 0),
    ];
    let lines = format_ledger(&records);
    let width = 14;
    assert_eq!(
        lines[0],
        format!("{:<width$} {:<32} {:<32}", "category", "input_hash", "effective_hash", width = width)
    );
    assert_eq!(lines[1], "-".repeat(width + 66));
    for (line, (category, hash, effective)) in lines[2..].iter().zip(&records) {
        assert_eq!(
            line,
            &format!("{:<width$} {:<32x} {:<32x}", category, hash, effective, width = width)
        );
    }
    for line in &lines {
        assert_eq!(line.chars().count(), width + 66);
    }
    let empty = format_ledger(&vec![]);
    assert_eq!(empty.len(), 2);
    assert_eq!(empty[1], "-".repeat(74));
}

fn global_env() -> Arc<GlobalEnvironment> {
    Arc::new(GlobalEnvironment {
        rootfs_manifest_hash: "m".to_string(),
        global_environment_variables: NameMap::new(),
        global_native_packages: NameSet::new(),
        target_arch: "riscv64".to_string(),
        target_prefix: "/usr".to_string(),
    })
}

fn package(name: &str, platform: PackagePlatform, version: &str) -> Arc<Package> {
    Arc::new(Package {
        global_env: global_env(),
        platform,
        name: name.to_string(),
        version: version.to_string(),
        revision: 0,
        dependencies: Dependencies::default(),
        runtime_dependencies: vec![],
        environment_variables: NameMap::new(),
        configure: None,
        build: None,
        install: Script::bash("true"),
    })
}

fn strings(items: &[&str]) -> Vec<String> {
    items.iter().map(|s| s.to_string()).collect()
}

#[test]
fn packages_are_selected_by_name_and_platform() {
    let packages = vec![
        package("a", PackagePlatform::Host, "1"),
        package("a", PackagePlatform::Target, "2"),
        package("b", PackagePlatform::Target, "3"),
        package("a", PackagePlatform::Target, "4"),
    ];
    let versions = |found: Vec<Arc<Package>>| -> Vec<String> { found.iter().map(|p| p.version.clone()).collect() };
    assert_eq!(
        versions(select_packages(&packages, &strings(&["b", "a", "b"]), false).unwrap()),
        vec!["3", "2", "3"]
    );
    assert_eq!(versions(select_packages(&packages, &strings(&["a"]), true).unwrap()), vec!["1"]);
    assert_eq!(
        select_packages(&packages, &strings(&["a", "b", "c"]), true).unwrap_err(),
        "Could not find a tool with the name `b`"
    );
    assert_eq!(
        select_packages(&packages, &strings(&["c"]), false).unwrap_err(),
        "Could not find a package with the name `c`"
    );
}

#[test]
fn required_programs_need_packages() {
    let names: Vec<&str> = (0..5).map(get_required_binary).collect();
    assert_eq!(names, vec!["bsdtar", "git", "patch", "sha256sum", "wget"]);
    assert_eq!(require_binary(1, Some("git-core".to_string())), Ok("git-core".to_string()));
    assert_eq!(
        require_binary(3, None),
        Err("This rootfs manifest is missing a required package mapping for the `sha256sum` binary".to_string())
    );
}

fn base_config() -> BaseConfig {
    BaseConfig {
        lua_root: None,
        target_prefix: None,
        global_native_packages: NameSet::new(),
        global_environment_variables: NameMap::new(),
        rootfs: RootFSConfig {
            version: "2024".to_string(),
            hash: "abc".to_string(),
            url: None,
        },
    }
}

#[test]
fn a_base_configuration_has_defaults() {
    let mut base = base_config();
    assert_eq!(as_text(&base.lua_path()), "./chariot.lua");
    let env = base.global_environment("riscv64");
    assert_eq!(env.target_prefix, "/usr");
    assert_eq!(env.target_arch, "riscv64");
    assert_eq!(env.rootfs_manifest_hash, "abc");
    assert!(env.global_environment_variables.entries.is_empty());
    base.lua_root = Some(path("x.lua"));
    base.target_prefix = Some("/opt".to_string());
    assert_eq!(as_text(&base.lua_path()), "x.lua");
    assert_eq!(base.global_environment("r").target_prefix, "/opt");
}

#[test]
fn a_root_file_system_is_accepted_by_its_hash() {
    let wanted = base_config().rootfs;
    assert!(matches!(wanted.check("2024", "abc"), RootFSVerdict::Match));
    assert!(matches!(wanted.check("2023", "abc"), RootFSVerdict::Suspicious));
    assert!(matches!(
        wanted.check("2023", "xyz"),
        RootFSVerdict::Refuse(m)
            if m == "Rootfs version mismatch (current `xyz`, wanted `abc). Delete current rootfs at convenience"
    ));
    assert!(matches!(
        wanted.check("2024", "xyz"),
        RootFSVerdict::Refuse(m) if m == "Rootfs hash mismatch, expected `abc`, got `xyz`"
    ));
}

#[test]
fn a_cache_has_its_parts_in_their_places() {
    let layout = CacheLayout::of(&path("/c"));
    let parts: Vec<String> = [
        &layout.store,
        &layout.build_cache,
        &layout.workdirs,
        &layout.local_sources,
        &layout.ledger,
        &layout.state,
        &layout.gitignore,
    ]
    .iter()
    .map(|p| as_text(p))
    .collect();
    assert_eq!(
        parts,
        vec![
            "/c/store",
            "/c/builddirs",
            "/c/workdirs",
            "/c/localsrc",
            "/c/ledger.db",
            "/c/state.json",
            "/c/.gitignore",
        ]
    );
}

fn profile(arch: &str, options: &[(&str, &str)]) -> InputState {
    let mut map = NameMap::new();
    for (name, value) in options {
        map.set(name, value);
    }
    InputState {
        arch: arch.to_string(),
        options: map,
    }
}

#[test]
fn profiles_are_the_same_if_they_say_the_same() {
    let a = profile("x", &[("k", "v"), ("l", "w")]);
    assert!(a.same(&profile("x", &[("l", "w"), ("k", "v")])));
    assert!(!a.same(&profile("y", &[("l", "w"), ("k", "v")])));
    assert!(!a.same(&profile("x", &[("l", "w")])));
    assert!(!profile("x", &[("l", "w")]).same(&a));
    assert!(!a.same(&profile("x", &[("l", "w"), ("k", "other")])));
}

#[test]
fn a_new_profile_is_asked_about_once() {
    let mut state = State::default();
    assert_eq!(state.choose_profile(profile("x", &[]), None), ProfileStep::Ask);
    assert_eq!(state.choose_profile(profile("x", &[]), Some(false)), ProfileStep::Cancel);
    assert!(state.known_input_states.is_empty());
    assert_eq!(state.choose_profile(profile("x", &[]), Some(true)), ProfileStep::Use(0));
    assert_eq!(state.choose_profile(profile("y", &[("a", "b")]), Some(true)), ProfileStep::Use(1));
    assert_eq!(state.choose_profile(profile("x", &[]), None), ProfileStep::Use(0));
    assert_eq!(state.choose_profile(profile("y", &[("a", "b")]), Some(false)), ProfileStep::Use(1));
    assert_eq!(state.known_input_states.len(), 2);
}

fn hashes(items: &[(&str, u128)]) -> RecipeHashes {
    let mut set = RecipeHashes::new();
    for (category, hash) in items {
        set.insert(category, *hash);
    }
    set
}

#[test]
fn the_hashes_of_all_profiles_are_live() {
    let mut state = State::default();
    state.cache_hashes(0, hashes(&[("pkg", 1)]));
    state.cache_hashes(3, hashes(&[("pkg", 2)]));
    state.cache_hashes(0, hashes(&[("pkg", 5), ("install", 5)]));
    let live = state.live_recipe_hashes();
    assert_eq!(live.items.len(), 3);
    assert!(live.contains("pkg", 2));
    assert!(live.contains("pkg", 5));
    assert!(live.contains("install", 5));
    assert!(!live.contains("pkg", 1));
}

#[test]
fn a_local_configuration_says_what_is_different() {
    let mut overrides = NameMap::new();
    overrides.insert("src".to_string(), path("/my/src"));
    let mut config = CliConfig::default();
    config.pkgs.insert(
        "a".to_string(),
        PackageConfig {
            enable_build_cache: true,
            source_overrides: overrides,
        },
    );
    config.pkgs.insert("b".to_string(), PackageConfig::default());
    config.tools.insert(
        "b".to_string(),
        PackageConfig {
            enable_build_cache: true,
            source_overrides: NameMap::new(),
        },
    );
    let map = config.get_source_override_map();
    let found = map.get("a", PackagePlatform::Target).unwrap();
    assert_eq!(as_text(found.get("src").unwrap()), "/my/src");
    assert!(map.get("a", PackagePlatform::Host).is_none());
    assert!(map.get("b", PackagePlatform::Target).unwrap().entries.is_empty());
    assert!(map.get("b", PackagePlatform::Host).is_some());
    assert_eq!(
        config.build_cache_enabled(),
        vec![
            (PackagePlatform::Target, "a".to_string()),
            (PackagePlatform::Host, "b".to_string()),
        ]
    );
}

fn run_replies() -> RunReplies {
    RunReplies {
        cache_prepared: false,
        state: None,
        profile: None,
        base_config: None,
        config: None,
        live: None,
        state_saved: false,
        rootfs: None,
        rootfs_made: false,
        binaries: vec![],
        package_sets: 0,
        dest_made: false,
        installed: vec![],
        lookups: vec![],
        store_pruned: false,
        ledger_pruned: false,
        build_cache_pruned: false,
    }
}

fn install_request(tool: bool) -> InstallRequest {
    InstallRequest {
        tool,
        packages: strings(&["a"]),
        dest: path("/dest"),
        force: true,
        profile: profile("x", &[("k", "v")]),
        build_cache_enabled: vec![(PackagePlatform::Target, "a".to_string())],
    }
}

fn config_of(name: &str) -> Config {
    Config {
        global_env: global_env(),
        packages: vec![package(name, PackagePlatform::Target, "1")],
        sources: vec![],
    }
}

#[test]
fn a_run_goes_from_the_profile_to_pruning() {
    let request = install_request(false);
    let mut replies = run_replies();
    assert!(matches!(run_install(&request, &replies), RunStep::PrepareCache));
    replies.cache_prepared = true;
    assert!(matches!(run_install(&request, &replies), RunStep::ChooseProfile));
    let mut known = State::default();
    known.cache_hashes(0, hashes(&[("source.base", 7)]));
    known.known_input_states.push(profile("old", &[]));
    replies.state = Some(known);
    replies.note_profile(&request, None);
    assert!(matches!(run_install(&request, &replies), RunStep::AskUser));
    replies.note_profile(&request, Some(false));
    assert!(matches!(run_install(&request, &replies), RunStep::Fail(m) if m == "Canceled by user"));
    replies.note_profile(&request, Some(true));
    assert_eq!(replies.profile, Some(ProfileStep::Use(1)));
    assert!(matches!(run_install(&request, &replies), RunStep::ReadBaseConfig));
    replies.base_config = Some(base_config());
    match run_install(&request, &replies) {
        RunStep::Evaluate(evaluation) => {
            assert_eq!(as_text(&evaluation.path), "./chariot.lua");
            assert_eq!(evaluation.environment.target_arch, "x");
            assert_eq!(evaluation.environment.rootfs_manifest_hash, base_config().rootfs.hash);
            assert_eq!(evaluation.options.get("k").unwrap(), "v");
        }
        _ => panic!("nothing evaluated"),
    }
    replies.note_config(config_of("a"));
    assert!(matches!(run_install(&request, &replies), RunStep::SaveState));
    replies.state_saved = true;
    assert!(matches!(run_install(&request, &replies), RunStep::FindRootFS));
    replies.rootfs = Some(Some(RootFSIdentity {
        version: "2024".to_string(),
        hash: "other".to_string(),
    }));
    assert!(matches!(run_install(&request, &replies), RunStep::Fail(_)));
    replies.rootfs = Some(None);
    assert!(matches!(run_install(&request, &replies), RunStep::MakeRootFS));
    replies.rootfs_made = true;
    for number in 0..5usize {
        assert!(matches!(run_install(&request, &replies), RunStep::LookUpBinary(n) if n == number));
        replies.binaries.push(None);
        assert!(matches!(run_install(&request, &replies), RunStep::Fail(_)));
        replies.binaries[number] = Some(format!("pkg{}", number));
        assert!(matches!(
            run_install(&request, &replies),
            RunStep::GetPackageSet(name) if name == format!("pkg{}", number)
        ));
        replies.package_sets += 1;
    }
    assert!(matches!(run_install(&request, &replies), RunStep::MakeDestination));
    assert!(matches!(run_install(&install_request(true), &replies), RunStep::Fail(_)));
    replies.dest_made = true;
    match run_install(&request, &replies) {
        RunStep::Install(order) => {
            assert_eq!(order.package.name, "a");
            assert_eq!(order.arch, order.package.get_arch());
            assert_eq!(as_text(&order.dest_dir), "/dest");
            assert!(!order.dest_root_overlay);
            assert!(order.force);
        }
        _ => panic!("nothing installed"),
    }
    replies.installed = vec![Err(InstallFailure::Install(XBPSPackageInstallError::Error(1)))];
    assert!(matches!(
        run_install(&request, &replies),
        RunStep::Fail(m) if m == "xbps-install exited with non-zero exit code 1"
    ));
    replies.installed = vec![Ok(())];
    let recipe = config_of("a").packages[0].clone();
    let mut asked = Vec::new();
    while let RunStep::Lookup { category, hash } = run_install(&request, &replies) {
        replies.lookups.push(if category == "pkg" { Some(5) } else { None });
        asked.push((category, hash));
    }
    assert_eq!(asked.len(), 2);
    assert!(asked.contains(&("install".to_string(), recipe.get_content_hash())));
    assert!(asked.contains(&("pkg".to_string(), recipe.get_package_hash())));
    match run_install(&request, &replies) {
        RunStep::PruneStore(keep) => {
            assert_eq!(keep.items.len(), 2);
            assert!(keep.contains("pkg", 5));
            assert!(keep.contains("source.base", 7));
        }
        _ => panic!("nothing taken away"),
    }
    replies.store_pruned = true;
    match run_install(&request, &replies) {
        RunStep::PruneLedger(keep) => {
            assert_eq!(keep.items.len(), 3);
            assert!(keep.contains("pkg", recipe.get_package_hash()));
            assert!(keep.contains("install", recipe.get_content_hash()));
            assert!(keep.contains("source.base", 7));
        }
        _ => panic!("nothing taken away"),
    }
    replies.ledger_pruned = true;
    match run_install(&request, &replies) {
        RunStep::PruneBuildCache(keep) => assert_eq!(keep, request.build_cache_enabled),
        _ => panic!("nothing taken away"),
    }
    replies.build_cache_pruned = true;
    assert!(matches!(run_install(&request, &replies), RunStep::Done));
}

fn prune_replies() -> PruneReplies {
    PruneReplies {
        local_sources_removed: false,
        base_config: None,
        state: None,
        evaluated: 0,
        live: None,
        lookups: vec![],
        store_pruned: false,
        ledger_pruned: false,
        state_saved: false,
    }
}

#[test]
fn pruning_waits_for_every_profile_and_keeps_their_recipes() {
    let mut replies = prune_replies();
    let next = |replies: &PruneReplies| run_store(StoreCommand::Prune, replies);
    assert!(matches!(next(&replies), PruneStep::RemoveLocalSources));
    replies.local_sources_removed = true;
    assert!(matches!(next(&replies), PruneStep::ReadBaseConfig));
    replies.base_config = Some(base_config());
    assert!(matches!(next(&replies), PruneStep::LoadState));
    let mut state = State::default();
    state.known_input_states.push(profile("x", &[]));
    state.known_input_states.push(profile("y", &[]));
    state.cache_hashes(0, hashes(&[("pkg", 1)]));
    replies.state = Some(state);
    for (number, arch) in ["x", "y"].iter().enumerate() {
        match next(&replies) {
            PruneStep::Evaluate { number: n, evaluation } => {
                assert_eq!(n, number);
                assert_eq!(evaluation.environment.target_arch, *arch);
            }
            _ => panic!("nothing evaluated"),
        }
        replies.note_evaluated(&config_of(arch));
    }
    assert!(matches!(next(&replies), PruneStep::CollectLive));
    replies.note_live(StoreCommand::Prune);
    let mut asked = 0u128;
    while let PruneStep::Lookup { category, hash: _ } = next(&replies) {
        replies.lookups.push(if category == "install" { Some(asked) } else { None });
        asked += 1;
    }
    // the packages of the two profiles differ in their names alone: they share what is installed
    let shared = config_of("x").packages[0].get_content_hash();
    assert_eq!(shared, config_of("y").packages[0].get_content_hash());
    assert_eq!(asked, 3);
    match next(&replies) {
        PruneStep::PruneStore(keep) => {
            assert_eq!(keep.items.len(), 1);
            assert!(keep.items.iter().all(|(category, _)| category == "install"));
        }
        _ => panic!("nothing taken away"),
    }
    replies.store_pruned = true;
    match next(&replies) {
        PruneStep::PruneLedger(keep) => {
            assert_eq!(keep.items.len(), 3);
            for arch in ["x", "y"] {
                let recipe = config_of(arch).packages[0].clone();
                assert!(keep.contains("pkg", recipe.get_package_hash()));
            }
            assert!(keep.contains("install", shared));
            assert!(!keep.contains("pkg", 1));
        }
        _ => panic!("nothing taken away"),
    }
    replies.ledger_pruned = true;
    assert!(matches!(next(&replies), PruneStep::SaveState));
    replies.state_saved = true;
    assert!(matches!(next(&replies), PruneStep::Done));
}

#[test]
fn purging_asks_no_profile_and_keeps_nothing() {
    let mut replies = prune_replies();
    replies.local_sources_removed = true;
    let mut state = State::default();
    state.cache_hashes(0, hashes(&[("pkg", 1)]));
    assert!(kept_recipes(StoreCommand::Purge, &state).items.is_empty());
    assert_eq!(kept_recipes(StoreCommand::Prune, &state).items.len(), 1);
    let next = |replies: &PruneReplies| run_store(StoreCommand::Purge, replies);
    assert!(matches!(next(&replies), PruneStep::CollectLive));
    replies.note_live(StoreCommand::Purge);
    assert!(matches!(next(&replies), PruneStep::PruneStore(keep) if keep.items.is_empty()));
    replies.store_pruned = true;
    assert!(matches!(next(&replies), PruneStep::PruneLedger(keep) if keep.items.is_empty()));
    replies.ledger_pruned = true;
    assert!(matches!(next(&replies), PruneStep::Done));
}
