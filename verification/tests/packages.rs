//! Environments and packages.

use std::sync::Arc;

use chariot::config::package::{Package, PackagePlatform};
use chariot::config::script::{Script, BASH_PREPROCESS};
use chariot::config::source::{LocalSource, Source, SourceBase};
use chariot::config::{Dependencies, GlobalEnvironment};
use chariot::dependencies::{
    resolve_dependencies, resolve_repos_for_pkg, PackageOptions, ResolveDependenciesError,
    ResolveStep,
};
use chariot::execenv::ExecEnv;
use chariot::execenv_create::{check_all_for, CreateExecEnvError, EnvReplies, EnvStep};
use chariot::hashes::get_outcome_hash;
use chariot::install::{install_ordered, InstallFailure, InstallOrder, OrderReplies, OrderStep};
use chariot::mount::{bind, MountKind, OverlayUpperDirectory};
use chariot::package::{
    get_package_install, process_package, InstallReplies, InstallStep, PackageReplies, PackageStep,
    ProcessPackageError, Search,
};
use chariot::request::{PkgSet, StderrTarget};
use chariot::runtime_deps::{check_platforms, resolve_package_runtime_dependencies};
use chariot::source::fetch::SourceFetchError;
use chariot::store::Store;
use chariot::util::names::{NameMap, NameSet};
use chariot::util::path::UnixPath;
use chariot::xbps::{
    format_code, package_create, package_install, validate_arch, validate_package_name,
    validate_package_version, PackageCreateStep, PackageInstallStep, XBPSPackageCreateError,
    XBPSPackageInstallError, XBPSValidationError,
};

fn path(text: &str) -> UnixPath {
    UnixPath::from_text(text)
}

fn as_text(path: &UnixPath) -> String {
    String::from_utf8(path.bytes.clone()).unwrap()
}

fn pair(name: &str, value: &str) -> (String, String) {
    (name.to_string(), value.to_string())
}

fn value<'a>(map: &'a NameMap<String>, name: &str) -> Option<&'a str> {
    map.get(name).map(|v| v.as_str())
}

fn bash(text: &str) -> Vec<String> {
    vec![
        "bash".to_string(),
        "-e".to_string(),
        "-c".to_string(),
        format!("{}{}", BASH_PREPROCESS, text),
    ]
}

fn global_env() -> Arc<GlobalEnvironment> {
    let mut variables = NameMap::new();
    variables.set("CFLAGS", "global");
    variables.set("LDFLAGS", "global");
    variables.set("PREFIX", "wrong");
    let mut native = NameSet::new();
    native.insert("binutils".to_string());
    Arc::new(GlobalEnvironment {
        rootfs_manifest_hash: "m".to_string(),
        global_environment_variables: variables,
        global_native_packages: native,
        target_arch: "riscv64".to_string(),
        target_prefix: "/opt".to_string(),
    })
}

fn package_with(name: &str, platform: PackagePlatform, needs: Vec<Arc<Package>>) -> Package {
    let mut own = NameMap::new();
    own.set("CFLAGS", "own");
    Package {
        global_env: global_env(),
        platform,
        name: name.to_string(),
        version: "1.2".to_string(),
        revision: 3,
        dependencies: Dependencies::default(),
        runtime_dependencies: needs,
        environment_variables: own,
        configure: Some(Script::bash("configure")),
        build: Some(Script::bash("make")),
        install: Script::bash("make install"),
    }
}

fn package(name: &str, platform: PackagePlatform) -> Arc<Package> {
    Arc::new(package_with(name, platform, vec![]))
}

fn source() -> Arc<Source> {
    Arc::new(Source {
        base: SourceBase::Local(LocalSource {
            path: path("/src"),
            hash: 1,
        }),
        patches: vec![],
        prepare: None,
    })
}

// ---------------------------------------------------------------------------
// xbps
// ---------------------------------------------------------------------------

#[test]
fn names_versions_and_archs_are_validated() {
    assert!(validate_package_name("gcc-libs_2").is_ok());
    assert!(matches!(validate_package_name("a b"), Err(XBPSValidationError::PackageName(n)) if n == "a b"));
    assert!(validate_package_version("1.2.3").is_ok());
    for bad in ["1 2", "1_2", "1-2", "1\u{2003}2"] {
        assert!(matches!(
            validate_package_version(bad),
            Err(XBPSValidationError::PackageVersion(v)) if v == bad
        ));
    }
    assert!(validate_arch("x86_64").is_ok());
    assert!(matches!(validate_arch("x\t"), Err(XBPSValidationError::Arch(_))));
}

#[test]
fn errors_of_xbps_in_words() {
    assert_eq!(
        XBPSValidationError::PackageName("a b".to_string()).message(),
        "Package name `a b` cannot contain whitespace"
    );
    assert_eq!(
        XBPSValidationError::PackageVersion("1-2".to_string()).message(),
        "Package version `1-2` cannot contain whitespace, `_`, or `-`"
    );
    assert_eq!(
        XBPSValidationError::Arch("x ".to_string()).message(),
        "Arch `x ` cannot contain whitespace"
    );
    assert_eq!(
        XBPSValidationError::RuntimeDependency("d ".to_string()).copy().message(),
        "Runtime dependency `d ` cannot contain whitespace"
    );
    assert_eq!(
        XBPSPackageCreateError::CreateError(-3).message(),
        "xbps-create exited with non-zero exit code -3"
    );
    assert_eq!(
        XBPSPackageCreateError::RepoIndexError(4).copy().message(),
        "xbps-rindex exited with non-zero exit code 4"
    );
    assert_eq!(
        XBPSPackageInstallError::Error(5).copy().message(),
        "xbps-install exited with non-zero exit code 5"
    );
    for code in [0, 7, -1, i32::MIN, i32::MAX] {
        assert_eq!(format_code(code), format!("{}", code));
    }
}

fn create(name: &str, version: &str, arch: &str, deps: &[&str], codes: Vec<i32>) -> PackageCreateStep {
    let deps: Vec<String> = deps.iter().map(|d| d.to_string()).collect();
    package_create(name, version, 7, arch, &deps, &path("/from"), &path("/to"), &codes)
}

#[test]
fn a_wrongly_described_package_is_refused_before_anything_runs() {
    let error = |step| match step {
        PackageCreateStep::Fail(XBPSPackageCreateError::Validation(error)) => error.message(),
        _ => panic!("not refused"),
    };
    assert!(error(create("a b", "1-2", "x ", &["d "], vec![])).starts_with("Package name"));
    assert!(error(create("a", "1-2", "x ", &["d "], vec![])).starts_with("Package version"));
    assert!(error(create("a", "1", "x ", &["d "], vec![])).starts_with("Arch"));
    assert!(error(create("a", "1", "x", &["ok", "d ", "e "], vec![0, 0])).contains("`d `"));
}

#[test]
fn a_package_is_made_and_indexed() {
    match create("zlib", "1.3", "riscv64", &["a>=1_1", "b>=2_0"], vec![]) {
        PackageCreateStep::Run(request) => {
            assert_eq!(as_text(&request.cwd), "/chariot/xbps/dest");
            assert_eq!(
                request.environment.entries,
                vec![
                    pair("PKG_NAME", "zlib"),
                    pair("PKG_RDEPS", "a>=1_1 b>=2_0"),
                    pair("PKG_REV", "7"),
                    pair("PKG_VER", "1.3"),
                    pair("XBPS_ARCH", "invalid"),
                    pair("XBPS_TARGET_ARCH", "riscv64"),
                ]
            );
            assert_eq!(request.args[0], "bash");
            assert_eq!(request.args[1], "-c");
            assert_eq!(
                request.args[2],
                "xbps-create --built-with chariot --architecture \"$XBPS_TARGET_ARCH\" --pkgver \"$PKG_NAME-${PKG_VER}_$PKG_REV\" --desc \"Package $PKG_NAME built by chariot\" --dependencies \"$PKG_RDEPS\" /chariot/xbps/package"
            );
            assert_eq!(as_text(&request.mounts[0].dest), "/chariot/xbps/dest");
            assert_eq!(as_text(&request.mounts[1].dest), "/chariot/xbps/package");
            assert!(matches!(&request.mounts[1].kind, MountKind::Bind { read_only: true, .. }));
            let words: Vec<&str> = value(&request.environment, "PKG_RDEPS").unwrap().split(' ').collect();
            assert_eq!(words, vec!["a>=1_1", "b>=2_0"]);
        }
        _ => panic!("nothing run"),
    }
    match create("zlib", "1.3", "riscv64", &[], vec![0]) {
        PackageCreateStep::Run(request) => {
            assert_eq!(as_text(&request.cwd), "/chariot/xbps/repo");
            assert_eq!(
                request.args[2],
                "xbps-rindex -f -a \"$PKG_NAME-${PKG_VER}_$PKG_REV.$XBPS_TARGET_ARCH.xbps\""
            );
            assert_eq!(value(&request.environment, "PKG_RDEPS"), None);
        }
        _ => panic!("nothing run"),
    }
    assert!(matches!(create("z", "1", "r", &[], vec![0, 0]), PackageCreateStep::Done));
    assert!(matches!(
        create("z", "1", "r", &[], vec![9]),
        PackageCreateStep::Fail(XBPSPackageCreateError::CreateError(9))
    ));
    assert!(matches!(
        create("z", "1", "r", &[], vec![0, 8]),
        PackageCreateStep::Fail(XBPSPackageCreateError::RepoIndexError(8))
    ));
}

fn install(overlay: bool, work: Option<&str>, code: Option<i32>) -> PackageInstallStep {
    install_with(false, overlay, work, code)
}

fn install_with(force: bool, overlay: bool, work: Option<&str>, code: Option<i32>) -> PackageInstallStep {
    let work = work.map(path);
    package_install(
        PkgSet::Root,
        "zlib",
        "1.3",
        7,
        "riscv64",
        &vec![path("/r0"), path("/r1")],
        &path("/dest"),
        overlay,
        force,
        &work,
        code,
    )
}

#[test]
fn a_package_is_installed_into_a_directory() {
    match install(false, None, None) {
        PackageInstallStep::Run(request) => {
            assert_eq!(
                request.args[2],
                "xbps-install --reproducible --yes --rootdir /chariot/xbps/install --repository /chariot/xbps/repo0 --repository /chariot/xbps/repo1 \"$PKG_NAME-${PKG_VER}_$PKG_REV\""
            );
            let dests: Vec<String> = request.mounts.iter().map(|m| as_text(&m.dest)).collect();
            assert_eq!(
                dests,
                vec!["/chariot/xbps/repo0", "/chariot/xbps/repo1", "/chariot/xbps/install"]
            );
            assert!(request.root_overlay.is_none());
            assert_eq!(request.pkgset, PkgSet::Root);
        }
        _ => panic!("nothing run"),
    }
    match install_with(true, false, None, None) {
        PackageInstallStep::Run(request) => assert_eq!(
            request.args[2],
            "xbps-install --reproducible --yes --force --rootdir /chariot/xbps/install --repository /chariot/xbps/repo0 --repository /chariot/xbps/repo1 \"$PKG_NAME-${PKG_VER}_$PKG_REV\""
        ),
        _ => panic!("nothing run"),
    }
    assert!(matches!(install(false, None, Some(0)), PackageInstallStep::Done));
    assert!(matches!(
        install(false, None, Some(6)),
        PackageInstallStep::Fail(XBPSPackageInstallError::Error(6))
    ));
}

#[test]
fn a_tool_is_installed_into_a_layer_over_the_root() {
    assert!(matches!(install(true, None, None), PackageInstallStep::MakeWorkDirectory));
    match install(true, Some("/w"), None) {
        PackageInstallStep::Run(request) => {
            assert!(request.args[2].starts_with("xbps-install --reproducible --yes --rootdir / --repository"));
            assert_eq!(request.mounts.len(), 2);
            let overlay = request.root_overlay.unwrap();
            assert_eq!(as_text(&overlay.upper_directory), "/dest");
            assert_eq!(as_text(&overlay.work_directory), "/w");
        }
        _ => panic!("nothing run"),
    }
    assert!(matches!(
        package_install(PkgSet::Root, "a b", "1", 0, "x", &vec![], &path("/d"), true, false, &None, None),
        PackageInstallStep::Fail(XBPSPackageInstallError::Validation(XBPSValidationError::PackageName(_)))
    ));
}

// ---------------------------------------------------------------------------
// Runtime dependencies
// ---------------------------------------------------------------------------

#[test]
fn runtime_dependencies_are_listed_depth_first() {
    let target = PackagePlatform::Target;
    let d = package("d", target);
    let b = Arc::new(package_with("b", target, vec![d.clone()]));
    let c = Arc::new(package_with("c", target, vec![d]));
    let a = Arc::new(package_with("a", target, vec![b, c]));
    assert!(check_platforms(&a));
    let names: Vec<String> = resolve_package_runtime_dependencies(&a).iter().map(|p| p.name.clone()).collect();
    assert_eq!(names, vec!["a", "b", "d", "c", "d"]);
    let again: Vec<String> = resolve_repos_for_pkg(&a).iter().map(|p| p.name.clone()).collect();
    assert_eq!(again, names);
}

#[test]
fn a_dependency_for_another_platform_is_noticed() {
    let host = package("tool", PackagePlatform::Host);
    let middle = Arc::new(package_with("m", PackagePlatform::Target, vec![host]));
    let top = Arc::new(package_with("t", PackagePlatform::Target, vec![middle.clone()]));
    assert!(!check_platforms(&middle));
    assert!(!check_platforms(&top));
    assert!(check_all_for(&vec![top.clone(), middle.clone()], PackagePlatform::Target));
    assert!(!check_all_for(&vec![top, middle], PackagePlatform::Host));
}

// ---------------------------------------------------------------------------
// Environments
// ---------------------------------------------------------------------------

fn environment() -> ExecEnv {
    let mut sources = NameMap::new();
    sources.insert("one".to_string(), vec![path("/s/base")]);
    sources.insert("many".to_string(), vec![path("/s/base"), path("/s/patch")]);
    ExecEnv {
        parallelism: 8,
        sources,
        sysroot: path("/w/sys"),
        tool_overlay: Some(path("/w/tools")),
        root_readonly: true,
        root_rw_overlay: Some(OverlayUpperDirectory {
            upper_directory: path("/u"),
            work_directory: path("/v"),
        }),
    }
}

#[test]
fn a_program_sees_what_its_environment_holds() {
    let mut own = NameMap::new();
    own.set("PARALLELISM", "1");
    own.set("X", "y");
    let request = environment().exec(
        path("/chariot/build"),
        vec![bind("/chariot/build", path("/b"), false, false)],
        &own,
        true,
        StderrTarget::Capture,
        vec!["true".to_string()],
    );
    let dests: Vec<String> = request.mounts.iter().map(|m| as_text(&m.dest)).collect();
    assert_eq!(
        dests,
        vec![
            "/chariot",
            "/chariot/sources/many",
            "/chariot/sources/one",
            "/chariot/sysroot",
            "/chariot/build",
            "/chariot",
        ]
    );
    match &request.mounts[1].kind {
        MountKind::OverlayFS(overlay) => {
            let lower: Vec<String> = overlay.lower_directories.iter().map(as_text).collect();
            assert_eq!(lower, vec!["/s/patch", "/s/base"]);
            assert!(overlay.upper_directory.is_none());
        }
        _ => panic!("no overlay"),
    }
    assert!(matches!(&request.mounts[2].kind, MountKind::Bind { read_only: true, is_file: false, .. }));
    assert!(matches!(&request.mounts[5].kind, MountKind::Remount { readonly: true }));
    assert_eq!(
        request.environment.entries,
        vec![
            pair("PARALLELISM", "1"),
            pair("SOURCES_DIR", "/chariot/sources"),
            pair("SYSROOT_DIR", "/chariot/sysroot"),
            pair("X", "y"),
        ]
    );
    assert_eq!(request.pkgset, PkgSet::Environment);
    assert!(request.stdin);
    assert_eq!(request.stderr, StderrTarget::Capture);
    assert!(!request.root_writable);
    assert_eq!(as_text(&request.root_overlay.unwrap().upper_directory), "/u");
    assert_eq!(request.root_layers.len(), 1);
    assert_eq!(as_text(&request.root_layers[0]), "/w/tools");
}

#[test]
fn the_hash_of_an_environment_walks_its_directories() {
    let mut deps = environment().compute_deps_hash();
    let mut visited = Vec::new();
    while let Some(dir) = &deps.directory {
        visited.push(as_text(dir));
        deps.walk.listing(vec![]);
        deps.next_directory();
    }
    assert_eq!(visited, vec!["/s/base", "/s/patch", "/s/base", "/w/sys", "/w/tools"]);
    let with_tools = deps.digest128();

    let mut without = environment();
    without.tool_overlay = None;
    let mut deps = without.compute_deps_hash();
    while deps.directory.is_some() {
        deps.walk.listing(vec![]);
        deps.next_directory();
    }
    let mut expected = xxhash_rust::xxh3::Xxh3::new();
    expected.update(b"many\xffone\xff\x00");
    assert_eq!(deps.digest128(), expected.digest128());
    assert_ne!(with_tools, deps.digest128());
}

fn env_replies() -> EnvReplies {
    EnvReplies {
        sources: vec![],
        sysroot: None,
        packages: vec![],
        tool_overlay: None,
        tools: vec![],
    }
}

#[test]
fn an_environment_is_made_step_by_step() {
    let mut sources = NameMap::new();
    sources.insert("s".to_string(), source());
    let packages = vec![package("lib", PackagePlatform::Target)];
    let tools = vec![package("gcc", PackagePlatform::Host)];
    let next = |replies: &EnvReplies| ExecEnv::create(&sources, &packages, &tools, 4, false, &None, replies);
    let mut replies = env_replies();
    assert!(matches!(next(&replies), EnvStep::FetchSource(_)));
    replies.sources = vec![Err(SourceFetchError::Patch)];
    match next(&replies) {
        EnvStep::Fail(error) => {
            assert_eq!(error.message(), "Failed to fetch source `s`");
            assert!(matches!(
                error,
                CreateExecEnvError::FetchSource { source: SourceFetchError::Patch, .. }
            ));
        }
        _ => panic!("no error"),
    }
    replies.sources = vec![Ok(vec![path("/s/1")])];
    assert!(matches!(next(&replies), EnvStep::MakeSysroot));
    replies.sysroot = Some(path("/w/sys"));
    match next(&replies) {
        EnvStep::Install(order) => {
            assert_eq!(order.package.name, "lib");
            assert_eq!(order.arch, "riscv64");
            assert_eq!(order.pkgset, PkgSet::Root);
            assert_eq!(as_text(&order.dest_dir), "/w/sys");
            assert!(!order.dest_root_overlay);
        }
        _ => panic!("nothing installed"),
    }
    replies.packages = vec![Err(InstallFailure::Install(XBPSPackageInstallError::Error(1)))];
    match next(&replies) {
        EnvStep::Fail(error) => assert_eq!(
            error.message(),
            format!("Failed to install {} package `lib`", PackagePlatform::Target.to_string())
        ),
        _ => panic!("no error"),
    }
    replies.packages = vec![Err(InstallFailure::Process(Arc::new(ProcessPackageError::Build(2))))];
    match next(&replies) {
        EnvStep::Fail(error) => {
            assert_eq!(error.message(), "Build failed with the exit code 2");
            assert!(matches!(error, CreateExecEnvError::ProcessPackage(_)));
        }
        _ => panic!("no error"),
    }
    replies.packages = vec![Ok(())];
    assert!(matches!(next(&replies), EnvStep::MakeToolOverlay));
    replies.tool_overlay = Some(path("/w/tools"));
    match next(&replies) {
        EnvStep::Install(order) => {
            assert_eq!(order.package.name, "gcc");
            assert_eq!(order.arch, "x86_64");
            assert_eq!(order.pkgset, PkgSet::Environment);
            assert!(order.dest_root_overlay);
        }
        _ => panic!("nothing installed"),
    }
    replies.tools = vec![Ok(())];
    match next(&replies) {
        EnvStep::Done(env) => {
            assert_eq!(env.parallelism, 4);
            assert_eq!(as_text(&env.sources.get("s").unwrap()[0]), "/s/1");
            assert_eq!(as_text(&env.sysroot), "/w/sys");
            assert_eq!(as_text(&env.tool_overlay.unwrap()), "/w/tools");
        }
        _ => panic!("not done"),
    }
}

#[test]
fn an_environment_without_tools_has_no_layer() {
    let sources = NameMap::new();
    let mut replies = env_replies();
    replies.sysroot = Some(path("/w"));
    match ExecEnv::create(&sources, &vec![], &vec![], 1, true, &None, &replies) {
        EnvStep::Done(env) => {
            assert!(env.tool_overlay.is_none());
            assert!(env.root_readonly);
        }
        _ => panic!("not done"),
    }
}

#[test]
fn dependencies_are_resolved_with_the_arch_of_the_options() {
    let mut sources = NameMap::new();
    sources.insert("s".to_string(), source());
    let dependencies = Dependencies {
        native: NameSet::new(),
        sources,
        tools: vec![package("gcc", PackagePlatform::Host)],
        packages: vec![
            package("one", PackagePlatform::Target),
            package("two", PackagePlatform::Target),
            package("three", PackagePlatform::Target),
        ],
    };
    let options = vec![
        PackageOptions {
            subscribes_to_arch: true,
            arch: Some("arm".to_string()),
        },
        PackageOptions {
            subscribes_to_arch: false,
            arch: Some("arm".to_string()),
        },
        PackageOptions {
            subscribes_to_arch: true,
            arch: None,
        },
    ];
    let next = |ready: bool, replies: &EnvReplies| resolve_dependencies(&dependencies, &options, 2, ready, replies);
    let mut replies = env_replies();
    assert!(matches!(next(false, &replies), ResolveStep::FetchSource(_)));
    replies.sources = vec![Err(SourceFetchError::Prepare)];
    match next(false, &replies) {
        ResolveStep::Fail(error) => {
            assert_eq!(error.message(), "Failed to fetch source `s`");
            assert!(matches!(
                error,
                ResolveDependenciesError::ProcessPackage(ProcessPackageError::SourceFetch { .. })
            ));
        }
        _ => panic!("no error"),
    }
    replies.sources = vec![Ok(vec![])];
    assert!(matches!(next(false, &replies), ResolveStep::GetPackageSet));
    assert!(matches!(next(true, &replies), ResolveStep::MakeSysroot));
    replies.sysroot = Some(path("/w"));
    for arch in ["arm", "noarch", "noarch"] {
        match next(true, &replies) {
            ResolveStep::Install(order) => assert_eq!(order.arch, arch),
            _ => panic!("nothing installed"),
        }
        replies.packages.push(Ok(()));
    }
    assert!(matches!(next(true, &replies), ResolveStep::MakeToolOverlay));
    replies.tool_overlay = Some(path("/t"));
    match next(true, &replies) {
        ResolveStep::Install(order) => {
            assert_eq!(order.arch, "x86_64");
            assert_eq!(order.pkgset, PkgSet::Root);
        }
        _ => panic!("nothing installed"),
    }
    replies.tools = vec![Err(InstallFailure::Install(XBPSPackageInstallError::Error(3)))];
    match next(true, &replies) {
        ResolveStep::Fail(error) => {
            assert_eq!(error.message(), "xbps-install exited with non-zero exit code 3")
        }
        _ => panic!("no error"),
    }
    replies.tools = vec![Err(InstallFailure::Process(Arc::new(ProcessPackageError::Configure(4))))];
    match next(true, &replies) {
        ResolveStep::Fail(error) => {
            assert_eq!(error.message(), "Configure failed with the exit code 4");
            assert!(matches!(
                error,
                ResolveDependenciesError::ProcessPackage(ProcessPackageError::Configure(4))
            ));
        }
        _ => panic!("no error"),
    }
    replies.tools = vec![Ok(())];
    assert!(matches!(next(true, &replies), ResolveStep::Done(_)));
}

// ---------------------------------------------------------------------------
// Packages
// ---------------------------------------------------------------------------

fn install_replies() -> InstallReplies {
    InstallReplies {
        lookup: None,
        cached: None,
        deps_hash: None,
        found: None,
        build_dir: None,
        configure_code: None,
        build_code: None,
        install_dir: None,
        install_code: None,
        stored: false,
        recorded: false,
    }
}

#[test]
fn a_known_recipe_is_only_searched() {
    let package = package("p", PackagePlatform::Target);
    let mut replies = install_replies();
    assert!(matches!(
        get_package_install(&vec![], &package, &replies),
        InstallStep::Lookup { category: "install", hash } if hash == package.get_content_hash()
    ));
    replies.lookup = Some(Some(12));
    assert!(matches!(
        get_package_install(&vec![], &package, &replies),
        InstallStep::Find { search: Search::Known, category: "install", hash: 12 }
    ));
    replies.note_found(Search::Known, true);
    assert!(matches!(get_package_install(&vec![], &package, &replies), InstallStep::Done(12)));
}

#[test]
fn a_recipe_is_configured_built_and_installed() {
    let mut package = package_with("p", PackagePlatform::Target, vec![]);
    package.dependencies.sources.insert("p".to_string(), source());
    let enabled = vec![(PackagePlatform::Target, "p".to_string())];
    let mut replies = install_replies();
    replies.lookup = Some(None);
    package.dependencies.native.insert("make".to_string());
    match get_package_install(&enabled, &package, &replies) {
        InstallStep::MakeEnvironment(order) => {
            assert_eq!(order.root_native.unwrap().names, vec!["binutils".to_string()]);
            assert_eq!(order.dependencies.native.names, vec!["make".to_string()]);
            assert!(order.dependencies.sources.get("p").is_some());
        }
        _ => panic!("no environment"),
    }
    replies.deps_hash = Some(Err(Arc::new(CreateExecEnvError::ProcessPackage(Arc::new(
        ProcessPackageError::Install(9),
    )))));
    match get_package_install(&enabled, &package, &replies) {
        InstallStep::Fail(error) => {
            assert_eq!(error.message(), "Install failed with the exit code 9");
            assert!(matches!(error, ProcessPackageError::ResolveDependencies(_)));
        }
        _ => panic!("no error"),
    }
    replies.deps_hash = Some(Ok(4));
    let effective = get_outcome_hash(package.get_content_base_hash(), 4);
    assert!(matches!(
        get_package_install(&enabled, &package, &replies),
        InstallStep::Find { search: Search::Outcome, category: "install", hash } if hash == effective
    ));
    replies.found = Some(false);
    assert!(matches!(
        get_package_install(&enabled, &package, &replies),
        InstallStep::GetBuildDirectory { cached: true }
    ));
    assert!(matches!(
        get_package_install(&vec![(PackagePlatform::Host, "p".to_string())], &package, &replies),
        InstallStep::GetBuildDirectory { cached: false }
    ));
    replies.build_dir = Some(path("/b"));
    match get_package_install(&enabled, &package, &replies) {
        InstallStep::Configure(request) => {
            assert_eq!(as_text(&request.cwd), "/chariot/build");
            assert_eq!(request.args, bash("configure"));
            assert_eq!(
                request.environment.entries,
                vec![
                    pair("ARCH", "riscv64"),
                    pair("BUILD_DIR", "/chariot/build"),
                    pair("CFLAGS", "own"),
                    pair("LDFLAGS", "global"),
                    pair("PREFIX", "/opt"),
                    pair("SOURCE_DIR", "/chariot/sources/p"),
                ]
            );
        }
        _ => panic!("not configured"),
    }
    replies.configure_code = Some(1);
    assert!(matches!(
        get_package_install(&enabled, &package, &replies),
        InstallStep::Fail(ProcessPackageError::Configure(1))
    ));
    replies.configure_code = Some(0);
    assert!(matches!(
        get_package_install(&enabled, &package, &replies),
        InstallStep::Build(request) if request.args == bash("make")
    ));
    replies.build_code = Some(2);
    assert!(matches!(
        get_package_install(&enabled, &package, &replies),
        InstallStep::Fail(ProcessPackageError::Build(2))
    ));
    replies.build_code = Some(0);
    assert!(matches!(
        get_package_install(&enabled, &package, &replies),
        InstallStep::MakeInstallDirectory
    ));
    replies.install_dir = Some(path("/i"));
    match get_package_install(&enabled, &package, &replies) {
        InstallStep::Install(request) => {
            assert_eq!(value(&request.environment, "INSTALL_DIR"), Some("/chariot/install"));
            assert_eq!(as_text(&request.mounts[1].dest), "/chariot/install");
            assert_eq!(request.args, bash("make install"));
        }
        _ => panic!("not installed"),
    }
    replies.install_code = Some(3);
    assert!(matches!(
        get_package_install(&enabled, &package, &replies),
        InstallStep::Fail(ProcessPackageError::Install(3))
    ));
    replies.install_code = Some(0);
    match get_package_install(&enabled, &package, &replies) {
        InstallStep::Put { from, category, hash } => {
            assert_eq!(as_text(&from), "/i");
            assert_eq!((category, hash), ("install", effective));
        }
        _ => panic!("nothing put"),
    }
    replies.stored = true;
    assert!(matches!(
        get_package_install(&enabled, &package, &replies),
        InstallStep::Record { category: "install", hash, effective_hash }
            if hash == package.get_content_hash() && effective_hash == effective
    ));
    replies.recorded = true;
    assert!(matches!(
        get_package_install(&enabled, &package, &replies),
        InstallStep::Done(hash) if hash == effective
    ));
}

#[test]
fn scripts_that_are_absent_are_left_out() {
    let mut package = package_with("p", PackagePlatform::Host, vec![]);
    package.configure = None;
    package.build = None;
    let mut replies = install_replies();
    replies.lookup = Some(Some(1));
    replies.cached = Some(false);
    replies.deps_hash = Some(Ok(4));
    replies.found = Some(false);
    replies.build_dir = Some(path("/b"));
    assert!(matches!(
        get_package_install(&vec![], &package, &replies),
        InstallStep::MakeInstallDirectory
    ));
    replies.install_dir = Some(path("/i"));
    match get_package_install(&vec![], &package, &replies) {
        InstallStep::Install(request) => {
            assert_eq!(value(&request.environment, "SOURCE_DIR"), None);
            assert_eq!(value(&request.environment, "PREFIX"), Some("/usr/local"));
            assert_eq!(value(&request.environment, "ARCH"), Some("x86_64"));
        }
        _ => panic!("not installed"),
    }
    replies.found = Some(true);
    assert!(matches!(
        get_package_install(&vec![], &package, &replies),
        InstallStep::Record { category: "install", .. }
    ));
}

fn package_replies() -> PackageReplies {
    PackageReplies {
        lookup: None,
        cached: None,
        install_hash: None,
        effective_hash: None,
        found: None,
        workdir: None,
        create_codes: vec![],
        stored: false,
        recorded: false,
    }
}

#[test]
fn a_package_is_made_of_what_its_recipe_installs() {
    let target = PackagePlatform::Target;
    let package = package_with("p", target, vec![package("q", target)]);
    let store = Store::get(path("/s"));
    let mut replies = package_replies();
    assert!(matches!(
        process_package(&store, &package, &replies),
        PackageStep::Lookup { category: "pkg", hash } if hash == package.get_package_hash()
    ));
    replies.lookup = Some(None);
    assert!(matches!(process_package(&store, &package, &replies), PackageStep::GetInstall));
    replies.install_hash = Some(Err(ProcessPackageError::Build(7)));
    assert!(matches!(
        process_package(&store, &package, &replies),
        PackageStep::Fail(ProcessPackageError::Build(7))
    ));
    replies.install_hash = Some(Ok(0xab));
    match process_package(&store, &package, &replies) {
        PackageStep::HashInstall(path) => assert_eq!(as_text(&path), "/s/install-ab"),
        _ => panic!("nothing hashed"),
    }
    replies.effective_hash = Some(99);
    assert!(matches!(
        process_package(&store, &package, &replies),
        PackageStep::Find { search: Search::Outcome, category: "pkg", hash: 99 }
    ));
    replies.note_found(Search::Outcome, false);
    assert!(matches!(process_package(&store, &package, &replies), PackageStep::MakeDirectory));
    replies.workdir = Some(path("/w"));
    match process_package(&store, &package, &replies) {
        PackageStep::Run(request) => {
            assert_eq!(value(&request.environment, "PKG_RDEPS"), Some("q>=1.2_3"));
            assert_eq!(value(&request.environment, "PKG_NAME"), Some("p"));
            assert_eq!(value(&request.environment, "XBPS_TARGET_ARCH"), Some("riscv64"));
            match &request.mounts[1].kind {
                MountKind::Bind { from, .. } => assert_eq!(as_text(from), "/s/install-ab"),
                _ => panic!("not bound"),
            }
        }
        _ => panic!("nothing run"),
    }
    replies.create_codes = vec![0, 5];
    match process_package(&store, &package, &replies) {
        PackageStep::Fail(error) => {
            assert_eq!(error.message(), "xbps-rindex exited with non-zero exit code 5")
        }
        _ => panic!("no error"),
    }
    replies.create_codes = vec![0, 0];
    assert!(matches!(
        process_package(&store, &package, &replies),
        PackageStep::Put { category: "pkg", hash: 99, .. }
    ));
    replies.stored = true;
    assert!(matches!(
        process_package(&store, &package, &replies),
        PackageStep::Record { category: "pkg", effective_hash: 99, .. }
    ));
    replies.recorded = true;
    assert!(matches!(process_package(&store, &package, &replies), PackageStep::Done(99)));
}

#[test]
fn a_known_package_is_only_searched() {
    let package = package("p", PackagePlatform::Target);
    let store = Store::get(path("/s"));
    let mut replies = package_replies();
    replies.lookup = Some(Some(8));
    assert!(matches!(
        process_package(&store, &package, &replies),
        PackageStep::Find { search: Search::Known, category: "pkg", hash: 8 }
    ));
    replies.cached = Some(true);
    assert!(matches!(process_package(&store, &package, &replies), PackageStep::Done(8)));
}

#[test]
fn errors_of_building_in_words() {
    assert_eq!(
        ProcessPackageError::Configure(1).message(),
        "Configure failed with the exit code 1"
    );
    assert_eq!(ProcessPackageError::Build(-2).message(), "Build failed with the exit code -2");
    assert_eq!(ProcessPackageError::Install(3).message(), "Install failed with the exit code 3");
    assert_eq!(
        ProcessPackageError::ResolveDependencies(Arc::new(CreateExecEnvError::FetchSource {
            name: "n".to_string(),
            source: SourceFetchError::Patch,
        }))
        .message(),
        "Failed to fetch source `n`"
    );
}

#[test]
fn a_package_is_installed_with_all_that_it_needs() {
    let target = PackagePlatform::Target;
    let inner = package("inner", target);
    let middle = Arc::new(package_with("middle", target, vec![inner]));
    let top = Arc::new(package_with("top", target, vec![middle]));
    let store = Store::get(path("/s"));
    let order = InstallOrder {
        pkgset: PkgSet::Root,
        package: top,
        arch: "riscv64".to_string(),
        dest_dir: path("/dest"),
        dest_root_overlay: true,
        force: true,
    };
    let mut replies = OrderReplies {
        processed: vec![],
        overlay_workdir: None,
        code: None,
    };
    for (name, hash) in [("top", 1u128), ("middle", 2), ("inner", 3)] {
        match install_ordered(&store, &order, &replies) {
            OrderStep::Process(package) => assert_eq!(package.name, name),
            _ => panic!("nothing built"),
        }
        replies.processed.push(Ok(hash));
    }
    assert!(matches!(install_ordered(&store, &order, &replies), OrderStep::MakeWorkDirectory));
    replies.overlay_workdir = Some(path("/w"));
    match install_ordered(&store, &order, &replies) {
        OrderStep::Run(request) => {
            let from: Vec<String> = request
                .mounts
                .iter()
                .map(|m| match &m.kind {
                    MountKind::Bind { from, .. } => as_text(from),
                    _ => panic!("not bound"),
                })
                .collect();
            assert_eq!(from, vec!["/s/pkg-1", "/s/pkg-2", "/s/pkg-3"]);
            assert!(request.args[2].contains(" --force "));
            assert_eq!(value(&request.environment, "PKG_NAME"), Some("top"));
            assert_eq!(value(&request.environment, "XBPS_TARGET_ARCH"), Some("riscv64"));
        }
        _ => panic!("nothing run"),
    }
    replies.code = Some(2);
    match install_ordered(&store, &order, &replies) {
        OrderStep::Fail(failure) => assert_eq!(failure.message(), "xbps-install exited with non-zero exit code 2"),
        _ => panic!("no error"),
    }
    replies.code = Some(0);
    assert!(matches!(install_ordered(&store, &order, &replies), OrderStep::Done));
    replies.processed[1] = Err(Arc::new(ProcessPackageError::Build(5)));
    match install_ordered(&store, &order, &replies) {
        OrderStep::Fail(failure) => {
            assert_eq!(failure.message(), "Build failed with the exit code 5");
            assert!(matches!(failure, InstallFailure::Process(_)));
        }
        _ => panic!("no error"),
    }
}

#[test]
fn environments_that_hold_the_same_have_the_same_hash() {
    let digest = |env: &ExecEnv| {
        let mut deps = env.compute_deps_hash();
        while deps.directory.is_some() {
            deps.walk.listing(vec![]);
            deps.next_directory();
        }
        deps.digest128()
    };
    let mut moved = environment();
    moved.sysroot = path("/elsewhere");
    moved.parallelism = 77;
    assert!(moved.sources.check_order());
    assert_eq!(digest(&environment()), digest(&moved));
    moved.sources.entries.swap(0, 1);
    assert!(!moved.sources.check_order());
}
