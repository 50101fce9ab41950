//! Building packages: a recipe is run in its environment, what it installs becomes an entry of the
//! store, and a package is made of that.

use crate::config::package::{Package, PackagePlatform};
use crate::config::script::{command_line, Script};
use crate::environment::{
    environment_of_package, order_for_package, EnvironmentOrder, EnvironmentSpec,
};
use crate::execenv::{source_mount, EXECENV_SOURCES_DIRECTORY_PATH};
use crate::execenv_create::{create_env_text, CreateExecEnvError};
use crate::hashes::{get_outcome_hash, outcome_hash};
use crate::mount::{bind, bind_spec, mounts_of, Mount, MountSpec};
use crate::request::{plain_env_exec, plain_env_request, EnvRequest, EnvSpec, ExecRequest, ExecSpec};
use crate::source::fetch::SourceFetchError;
use crate::store::{entry_path_in, Store};
use crate::util::feed::{enc_u128, feed_u128};
use crate::util::hash::{hash_directory, DirectoryHash, WalkState, Want};
use crate::util::names::{env_of, NameMap};
use crate::util::path::{join_names, join_text, lemma_join_text, path_of, UnixPath};
use crate::util::text::{decimal, decimal_text, str_eq, texts};
use crate::util::tree::{answers, enc_entries, first_turn, is_tree, lemma_walk_feeds_tree, Node, Turn};
use crate::util::tree_exact::{is_real, lemma_tree_bytes_are_exact, paths_fit};
use crate::util::unambiguous::lemma_u128_cut;
use crate::util::xxh3::{xxh3_128, xxh3_fed, Xxh3Hasher};
use crate::xbps::{
    code_text, create_error_text, create_step, format_code, lemma_created_only_when_indexed,
    package_create, CreateErrorSpec, PackageCreateStep, PackageCreateStepSpec,
    XBPSPackageCreateError,
};
use std::sync::Arc;
use vstd::prelude::*;

verus! {

pub const CATEGORY_PACKAGE: &'static str = "pkg";

pub const CATEGORY_INSTALL: &'static str = "install";

// ---------------------------------------------------------------------------
// Errors
// ---------------------------------------------------------------------------

/// Why a package could not be built.
#[derive(Debug)]
pub enum ProcessPackageError {
    ResolveDependencies(Arc<CreateExecEnvError>),
    PackageCreate(XBPSPackageCreateError),
    SourceFetch { name: String, source: SourceFetchError },
    Configure(i32),
    Build(i32),
    Install(i32),
}

/// [`ProcessPackageError`] by its texts.
pub enum ProcessErrorSpec {
    ResolveDependencies(Arc<CreateExecEnvError>),
    PackageCreate(CreateErrorSpec),
    SourceFetch { name: Seq<char>, source: SourceFetchError },
    Configure(i32),
    Build(i32),
    Install(i32),
}

impl View for ProcessPackageError {
    type V = ProcessErrorSpec;

    open spec fn view(&self) -> ProcessErrorSpec {
        match self {
            ProcessPackageError::ResolveDependencies(error) =>
                ProcessErrorSpec::ResolveDependencies(*error),
            ProcessPackageError::PackageCreate(error) => ProcessErrorSpec::PackageCreate(error@),
            ProcessPackageError::SourceFetch { name, source } => ProcessErrorSpec::SourceFetch {
                name: name@,
                source: *source,
            },
            ProcessPackageError::Configure(code) => ProcessErrorSpec::Configure(*code),
            ProcessPackageError::Build(code) => ProcessErrorSpec::Build(*code),
            ProcessPackageError::Install(code) => ProcessErrorSpec::Install(*code),
        }
    }
}

/// An error of building a package in words.
pub open spec fn process_text(error: ProcessPackageError) -> Seq<char>
    decreases error,
{
    match error {
        ProcessPackageError::ResolveDependencies(error) => create_env_text(*error),
        ProcessPackageError::PackageCreate(error) => create_error_text(error@),
        ProcessPackageError::SourceFetch { name, source } => "Failed to fetch source `"@ + name@
            + "`"@,
        ProcessPackageError::Configure(code) => "Configure failed with the exit code "@
            + code_text(code),
        ProcessPackageError::Build(code) => "Build failed with the exit code "@ + code_text(code),
        ProcessPackageError::Install(code) => "Install failed with the exit code "@ + code_text(
            code,
        ),
    }
}

/// Errors that tell the same are the same in words.
pub proof fn lemma_same_error_same_text(a: ProcessPackageError, b: ProcessPackageError)
    requires
        a@ == b@,
    ensures
        process_text(a) == process_text(b),
{
}

impl ProcessPackageError {
    /// A copy of this error.
    pub fn copy(&self) -> (r: ProcessPackageError)
        ensures
            r@ == self@,
    {
        match self {
            ProcessPackageError::ResolveDependencies(error) =>
                ProcessPackageError::ResolveDependencies(error.clone()),
            ProcessPackageError::PackageCreate(error) => ProcessPackageError::PackageCreate(
                error.copy(),
            ),
            ProcessPackageError::SourceFetch { name, source } => ProcessPackageError::SourceFetch {
                name: name.clone(),
                source: source.copy(),
            },
            ProcessPackageError::Configure(code) => ProcessPackageError::Configure(*code),
            ProcessPackageError::Build(code) => ProcessPackageError::Build(*code),
            ProcessPackageError::Install(code) => ProcessPackageError::Install(*code),
        }
    }

    /// The error in words.
    pub fn message(&self) -> (r: String)
        ensures
            r@ == process_text(*self),
        decreases self,
    {
        match self {
            ProcessPackageError::ResolveDependencies(error) => error.message(),
            ProcessPackageError::PackageCreate(error) => error.message(),
            ProcessPackageError::SourceFetch { name, source } => {
                let mut out: String = "Failed to fetch source `".to_string();
                out.append(name.as_str());
                out.append("`");
                out
            },
            ProcessPackageError::Configure(code) =>
                "Configure failed with the exit code ".to_string().concat(
                format_code(*code).as_str(),
            ),
            ProcessPackageError::Build(code) => "Build failed with the exit code ".to_string().concat(
                format_code(*code).as_str(),
            ),
            ProcessPackageError::Install(code) =>
                "Install failed with the exit code ".to_string().concat(
                format_code(*code).as_str(),
            ),
        }
    }
}

// ---------------------------------------------------------------------------
// Installing what a recipe builds
// ---------------------------------------------------------------------------

/// What is looked for in the store.
#[derive(Debug, Clone, Copy, PartialEq, Eq, Structural)]
pub enum Search {
    /// what the ledger has on a recipe
    Known,
    /// the outcome of the recipe as it is now
    Outcome,
}

/// What has come back so far from running a recipe.
#[derive(Debug)]
pub struct InstallReplies {
    /// what the ledger has on the recipe
    pub lookup: Option<Option<u128>>,
    /// whether the store holds what the ledger has
    pub cached: Option<bool>,
    /// the environment has been made, and this is the hash of what is in it; or why it could not be
    /// made
    pub deps_hash: Option<Result<u128, Arc<CreateExecEnvError>>>,
    /// whether the store holds the outcome in that environment
    pub found: Option<bool>,
    /// the directory to build in
    pub build_dir: Option<UnixPath>,
    pub configure_code: Option<i32>,
    pub build_code: Option<i32>,
    /// the work directory to install into
    pub install_dir: Option<UnixPath>,
    pub install_code: Option<i32>,
    /// the outcome has been put into the store
    pub stored: bool,
    /// the outcome has been recorded in the ledger
    pub recorded: bool,
}

/// What to do next to run a recipe.
#[derive(Debug)]
pub enum InstallStep {
    /// look up what the ledger has on a recipe
    Lookup { category: &'static str, hash: u128 },
    /// look whether the store holds an entry
    Find { search: Search, category: &'static str, hash: u128 },
    /// make an environment, and compute the hash of what is in it
    MakeEnvironment(EnvironmentOrder),
    /// get the directory to build in: one that outlives the build, or a work directory
    GetBuildDirectory { cached: bool },
    /// run a program in the environment and hand back its exit code
    Configure(EnvRequest),
    /// run a program in the environment and hand back its exit code
    Build(EnvRequest),
    /// make a work directory to install into
    MakeInstallDirectory,
    /// run a program in the environment and hand back its exit code
    Install(EnvRequest),
    /// make a work directory an entry of the store
    Put { from: UnixPath, category: &'static str, hash: u128 },
    /// record the outcome of a recipe in the ledger
    Record { category: &'static str, hash: u128, effective_hash: u128 },
    /// stop
    Fail(ProcessPackageError),
    /// the outcome is in the store under this hash
    Done(u128),
}

/// [`InstallStep`] by its paths and texts.
pub enum InstallStepSpec {
    Lookup { category: Seq<char>, hash: u128 },
    Find { search: Search, category: Seq<char>, hash: u128 },
    MakeEnvironment(EnvironmentSpec),
    GetBuildDirectory { cached: bool },
    Configure(EnvSpec),
    Build(EnvSpec),
    MakeInstallDirectory,
    Install(EnvSpec),
    Put { from: Seq<u8>, category: Seq<char>, hash: u128 },
    Record { category: Seq<char>, hash: u128, effective_hash: u128 },
    Fail(ProcessErrorSpec),
    Done(u128),
}

impl View for InstallStep {
    type V = InstallStepSpec;

    open spec fn view(&self) -> InstallStepSpec {
        match self {
            InstallStep::Lookup { category, hash } => InstallStepSpec::Lookup {
                category: category@,
                hash: *hash,
            },
            InstallStep::Find { search, category, hash } => InstallStepSpec::Find {
                search: *search,
                category: category@,
                hash: *hash,
            },
            InstallStep::MakeEnvironment(order) => InstallStepSpec::MakeEnvironment(order@),
            InstallStep::GetBuildDirectory { cached } => InstallStepSpec::GetBuildDirectory {
                cached: *cached,
            },
            InstallStep::Configure(request) => InstallStepSpec::Configure(request@),
            InstallStep::Build(request) => InstallStepSpec::Build(request@),
            InstallStep::MakeInstallDirectory => InstallStepSpec::MakeInstallDirectory,
            InstallStep::Install(request) => InstallStepSpec::Install(request@),
            InstallStep::Put { from, category, hash } => InstallStepSpec::Put {
                from: from@,
                category: category@,
                hash: *hash,
            },
            InstallStep::Record { category, hash, effective_hash } => InstallStepSpec::Record {
                category: category@,
                hash: *hash,
                effective_hash: *effective_hash,
            },
            InstallStep::Fail(error) => InstallStepSpec::Fail(error@),
            InstallStep::Done(hash) => InstallStepSpec::Done(*hash),
        }
    }
}

/// The build directory of a package is to be kept.
pub open spec fn keeps_build_directory(
    enabled: Seq<(PackagePlatform, String)>,
    package: Package,
) -> bool {
    exists|i: int|
        0 <= i < enabled.len() && (#[trigger] enabled[i]).0 == package.platform && enabled[i].1@
            == package.name@
}

/// The variables of the programs that build a package. The global ones come first, over them those
/// of the package, over those the ones that say where things are; `SOURCE_DIR` is there just when
/// one of the sources has the name of the package.
pub open spec fn build_env(package: Package) -> Map<Seq<char>, Seq<char>> {
    let variables = env_of(package.global_env.global_environment_variables).union_prefer_right(
        env_of(package.environment_variables),
    ).insert("BUILD_DIR"@, "/chariot/build"@).insert("PREFIX"@, package.prefix()).insert(
        "ARCH"@,
        package.arch(),
    );
    if package.dependencies.sources@.contains_key(package.name@) {
        variables.insert(
            "SOURCE_DIR"@,
            join_text(EXECENV_SOURCES_DIRECTORY_PATH@, package.name@),
        )
    } else {
        variables
    }
}

/// The mount of the directory to build in.
pub open spec fn build_mount(build_dir: Seq<u8>) -> MountSpec {
    bind_spec("/chariot/build"@, build_dir, false, false)
}

/// The program that runs a script to configure or build a package.
pub open spec fn build_program(package: Package, build_dir: Seq<u8>, script: Script) -> EnvSpec {
    plain_env_exec(
        "/chariot/build"@,
        seq![build_mount(build_dir)],
        build_env(package),
        command_line(script.language, script.text@),
    )
}

/// The program that installs what has been built.
pub open spec fn install_program(
    package: Package,
    build_dir: Seq<u8>,
    install_dir: Seq<u8>,
) -> EnvSpec {
    plain_env_exec(
        "/chariot/build"@,
        seq![
            build_mount(build_dir),
            bind_spec("/chariot/install"@, install_dir, false, false),
        ],
        build_env(package).insert("INSTALL_DIR"@, "/chariot/install"@),
        command_line(package.install.language, package.install.text@),
    )
}

/// What is left to build a package in a directory: configure if it has a script for that, build if
/// it has one for that, then install. Nothing if the outcome is in the store under the hash.
pub open spec fn build_stage(
    package: Package,
    hash: u128,
    build_dir: Seq<u8>,
    replies: InstallReplies,
) -> Option<InstallStepSpec> {
    if package.configure is Some && replies.configure_code is None {
        Some(
            InstallStepSpec::Configure(build_program(package, build_dir, package.configure->0)),
        )
    } else if package.configure is Some && replies.configure_code != Some(0i32) {
        Some(
            InstallStepSpec::Fail(ProcessErrorSpec::Configure(replies.configure_code->0)),
        )
    } else if package.build is Some && replies.build_code is None {
        Some(InstallStepSpec::Build(build_program(package, build_dir, package.build->0)))
    } else if package.build is Some && replies.build_code != Some(0i32) {
        Some(InstallStepSpec::Fail(ProcessErrorSpec::Build(replies.build_code->0)))
    } else {
        match replies.install_dir {
            None => Some(InstallStepSpec::MakeInstallDirectory),
            Some(install_dir) => match replies.install_code {
                None => Some(
                    InstallStepSpec::Install(install_program(package, build_dir, install_dir@)),
                ),
                Some(code) => if code != 0 {
                    Some(InstallStepSpec::Fail(ProcessErrorSpec::Install(code)))
                } else if replies.stored {
                    None
                } else {
                    Some(
                        InstallStepSpec::Put {
                            from: install_dir@,
                            category: CATEGORY_INSTALL@,
                            hash,
                        },
                    )
                },
            },
        }
    }
}

/// What is left before the outcome of a recipe is in the store under the hash: it is looked for
/// there, and if it is not there, the recipe is run in a directory. Nothing if it is.
pub open spec fn outcome_stage(
    enabled: Seq<(PackagePlatform, String)>,
    package: Package,
    hash: u128,
    replies: InstallReplies,
) -> Option<InstallStepSpec> {
    match replies.found {
        None => Some(
            InstallStepSpec::Find {
                search: Search::Outcome,
                category: CATEGORY_INSTALL@,
                hash,
            },
        ),
        Some(true) => None,
        Some(false) => match replies.build_dir {
            None => Some(
                InstallStepSpec::GetBuildDirectory {
                    cached: keeps_build_directory(enabled, package),
                },
            ),
            Some(build_dir) => build_stage(package, hash, build_dir@, replies),
        },
    }
}

/// What to do next to run a recipe whose outcome neither the ledger nor the store has: the
/// environment is made, and if the store does not have the outcome under the hash that follows
/// from what is in the environment, the recipe is run. Either way the outcome is recorded.
pub open spec fn make_install_step(
    enabled: Seq<(PackagePlatform, String)>,
    package: Package,
    replies: InstallReplies,
) -> InstallStepSpec {
    match replies.deps_hash {
        None => InstallStepSpec::MakeEnvironment(environment_of_package(package)),
        Some(Err(error)) => InstallStepSpec::Fail(ProcessErrorSpec::ResolveDependencies(error)),
        Some(Ok(deps_hash)) => {
            let hash = outcome_hash(package.content_base_hash(), deps_hash);
            match outcome_stage(enabled, package, hash, replies) {
                Some(step) => step,
                None => if replies.recorded {
                    InstallStepSpec::Done(hash)
                } else {
                    InstallStepSpec::Record {
                        category: CATEGORY_INSTALL@,
                        hash: package.content_hash(),
                        effective_hash: hash,
                    }
                },
            }
        },
    }
}

/// What to do next to run a recipe.
pub open spec fn package_install_step(
    enabled: Seq<(PackagePlatform, String)>,
    package: Package,
    replies: InstallReplies,
) -> InstallStepSpec {
    match replies.lookup {
        None => InstallStepSpec::Lookup {
            category: CATEGORY_INSTALL@,
            hash: package.content_hash(),
        },
        Some(None) => make_install_step(enabled, package, replies),
        Some(Some(known_hash)) => match replies.cached {
            None => InstallStepSpec::Find {
                search: Search::Known,
                category: CATEGORY_INSTALL@,
                hash: known_hash,
            },
            Some(true) => InstallStepSpec::Done(known_hash),
            Some(false) => make_install_step(enabled, package, replies),
        },
    }
}

fn check_keeps_build_directory(
    enabled: &Vec<(PackagePlatform, String)>,
    package: &Package,
) -> (r: bool)
    ensures
        r == keeps_build_directory(enabled@, *package),
{
    let mut i: usize = 0;
    while i < enabled.len()
        invariant
            0 <= i <= enabled@.len(),
            forall|k: int|
                0 <= k < i ==> (#[trigger] enabled@[k]).0 != package.platform || enabled@[k].1@
                    != package.name@,
        decreases enabled@.len() - i,
    {
        if enabled[i].0 == package.platform && str_eq(
            enabled[i].1.as_str(),
            package.name.as_str(),
        ) {
            return true;
        }
        i = i + 1;
    }
    false
}

fn make_build_env(package: &Package) -> (r: NameMap<String>)
    ensures
        env_of(r) == build_env(*package),
{
    let mut variables: NameMap<String> = package.global_env.global_environment_variables.copy();
    variables.set_all(&package.environment_variables);
    variables.set("BUILD_DIR", "/chariot/build");
    variables.set("PREFIX", package.get_prefix());
    variables.set("ARCH", package.get_arch());
    if package.dependencies.sources.get(package.name.as_str()).is_some() {
        variables.set(
            "SOURCE_DIR",
            join_names(EXECENV_SOURCES_DIRECTORY_PATH, package.name.as_str()).as_str(),
        );
    }
    variables
}

fn make_build_request(package: &Package, build_dir: &UnixPath, script: &Script) -> (r: EnvRequest)
    ensures
        r@ == build_program(*package, build_dir@, *script),
{
    let mut mounts: Vec<Mount> = Vec::new();
    mounts.push(bind("/chariot/build", build_dir.copy(), false, false));
    assert(mounts_of(mounts@) =~= seq![build_mount(build_dir@)]);
    plain_env_request("/chariot/build", mounts, make_build_env(package), script.command())
}

fn next_for_build(package: &Package, hash: u128, build_dir: &UnixPath, replies: &InstallReplies) -> (r:
    Option<InstallStep>)
    ensures
        match build_stage(*package, hash, build_dir@, *replies) {
            Some(step) => r matches Some(s) && s@ == step,
            None => r is None,
        },
{
    if let Some(configure) = &package.configure {
        match replies.configure_code {
            None => return Some(
                InstallStep::Configure(make_build_request(package, build_dir, configure)),
            ),
            Some(code) => {
                if code != 0 {
                    return Some(InstallStep::Fail(ProcessPackageError::Configure(code)));
                }
            },
        }
    }
    if let Some(build) = &package.build {
        match replies.build_code {
            None => return Some(InstallStep::Build(make_build_request(package, build_dir, build))),
            Some(code) => {
                if code != 0 {
                    return Some(InstallStep::Fail(ProcessPackageError::Build(code)));
                }
            },
        }
    }
    let install_dir: &UnixPath = match &replies.install_dir {
        None => return Some(InstallStep::MakeInstallDirectory),
        Some(install_dir) => install_dir,
    };
    match replies.install_code {
        None => {
            let mut mounts: Vec<Mount> = Vec::new();
            mounts.push(bind("/chariot/build", build_dir.copy(), false, false));
            mounts.push(bind("/chariot/install", install_dir.copy(), false, false));
            assert(mounts_of(mounts@) =~= seq![
                build_mount(build_dir@),
                bind_spec("/chariot/install"@, install_dir@, false, false),
            ]);
            let mut variables: NameMap<String> = make_build_env(package);
            variables.set("INSTALL_DIR", "/chariot/install");
            Some(
                InstallStep::Install(
                    plain_env_request(
                        "/chariot/build",
                        mounts,
                        variables,
                        package.install.command(),
                    ),
                ),
            )
        },
        Some(code) => if code != 0 {
            Some(InstallStep::Fail(ProcessPackageError::Install(code)))
        } else if replies.stored {
            None
        } else {
            Some(
                InstallStep::Put { from: install_dir.copy(), category: CATEGORY_INSTALL, hash },
            )
        },
    }
}

fn next_for_outcome(
    build_cache_enabled: &Vec<(PackagePlatform, String)>,
    package: &Package,
    hash: u128,
    replies: &InstallReplies,
) -> (r: Option<InstallStep>)
    ensures
        match outcome_stage(build_cache_enabled@, *package, hash, *replies) {
            Some(step) => r matches Some(s) && s@ == step,
            None => r is None,
        },
{
    match replies.found {
        None => Some(
            InstallStep::Find { search: Search::Outcome, category: CATEGORY_INSTALL, hash },
        ),
        Some(true) => None,
        Some(false) => match &replies.build_dir {
            None => Some(
                InstallStep::GetBuildDirectory {
                    cached: check_keeps_build_directory(build_cache_enabled, package),
                },
            ),
            Some(build_dir) => next_for_build(package, hash, build_dir, replies),
        },
    }
}

#[verifier::spinoff_prover]
fn make_install(
    build_cache_enabled: &Vec<(PackagePlatform, String)>,
    package: &Package,
    replies: &InstallReplies,
) -> (r: InstallStep)
    ensures
        r@ == make_install_step(build_cache_enabled@, *package, *replies),
{
    let deps_hash: u128 = match &replies.deps_hash {
        None => return InstallStep::MakeEnvironment(order_for_package(package)),
        Some(Err(error)) => return InstallStep::Fail(
            ProcessPackageError::ResolveDependencies(error.clone()),
        ),
        Some(Ok(deps_hash)) => *deps_hash,
    };
    let hash: u128 = get_outcome_hash(package.get_content_base_hash(), deps_hash);
    match next_for_outcome(build_cache_enabled, package, hash, replies) {
        Some(step) => step,
        None => if replies.recorded {
            InstallStep::Done(hash)
        } else {
            InstallStep::Record {
                category: CATEGORY_INSTALL,
                hash: package.get_content_hash(),
                effective_hash: hash,
            }
        },
    }
}

/// What to do next to run the recipe of a package, where the packages in `build_cache_enabled` keep
/// their build directories.
#[verifier::spinoff_prover]
pub fn get_package_install(
    build_cache_enabled: &Vec<(PackagePlatform, String)>,
    package: &Package,
    replies: &InstallReplies,
) -> (r: InstallStep)
    ensures
        r@ == package_install_step(build_cache_enabled@, *package, *replies),
{
    match replies.lookup {
        None => InstallStep::Lookup {
            category: CATEGORY_INSTALL,
            hash: package.get_content_hash(),
        },
        Some(None) => make_install(build_cache_enabled, package, replies),
        Some(Some(known_hash)) => match replies.cached {
            None => InstallStep::Find {
                search: Search::Known,
                category: CATEGORY_INSTALL,
                hash: known_hash,
            },
            Some(true) => InstallStep::Done(known_hash),
            Some(false) => make_install(build_cache_enabled, package, replies),
        },
    }
}

/// What has come back, and that a search found something or not.
pub open spec fn install_search_noted(
    replies: InstallReplies,
    search: Search,
    found: bool,
) -> InstallReplies {
    match search {
        Search::Known => InstallReplies { cached: Some(found), ..replies },
        Search::Outcome => InstallReplies { found: Some(found), ..replies },
    }
}

impl InstallReplies {
    /// Takes note of whether a search found something.
    pub fn note_found(&mut self, search: Search, found: bool)
        ensures
            *final(self) == install_search_noted(*old(self), search, found),
    {
        match search {
            Search::Known => {
                self.cached = Some(found);
            },
            Search::Outcome => {
                self.found = Some(found);
            },
        }
    }
}

// ---------------------------------------------------------------------------
// Making the package
// ---------------------------------------------------------------------------

/// How a package names another one that it needs at run time: that version or a later one.
pub open spec fn dependency_text(pkg: Package) -> Seq<char> {
    pkg.name@ + ">="@ + pkg.version@ + "_"@ + decimal_text(pkg.revision as nat)
}

/// How a package names all that it needs at run time.
pub open spec fn dependency_texts(pkg: Package) -> Seq<Seq<char>> {
    pkg.runtime_dependencies@.map_values(|p: Arc<Package>| dependency_text(*p))
}

/// What has come back so far from making a package.
#[derive(Debug)]
pub struct PackageReplies {
    /// what the ledger has on the package
    pub lookup: Option<Option<u128>>,
    /// whether the store holds what the ledger has
    pub cached: Option<bool>,
    /// the hash under which the store has what the recipe installs, or why it could not be run
    pub install_hash: Option<Result<u128, ProcessPackageError>>,
    /// the hash of the package, made of its description and of what the recipe installs
    pub effective_hash: Option<u128>,
    /// whether the store holds the package under that hash
    pub found: Option<bool>,
    /// the work directory for the package
    pub workdir: Option<UnixPath>,
    /// the exit codes of the programs that make the package
    pub create_codes: Vec<i32>,
    /// the package has been put into the store
    pub stored: bool,
    /// the package has been recorded in the ledger
    pub recorded: bool,
}

/// What to do next to make a package.
#[derive(Debug)]
pub enum PackageStep {
    /// look up what the ledger has on a recipe
    Lookup { category: &'static str, hash: u128 },
    /// look whether the store holds an entry
    Find { search: Search, category: &'static str, hash: u128 },
    /// run the recipe
    GetInstall,
    /// compute the hash of the package, as [`begin_package_hash`] does, from the files in a
    /// directory
    HashInstall(UnixPath),
    /// make a work directory for the package
    MakeDirectory,
    /// run a program and hand back its exit code
    Run(ExecRequest),
    /// make a work directory an entry of the store
    Put { from: UnixPath, category: &'static str, hash: u128 },
    /// record the outcome of a recipe in the ledger
    Record { category: &'static str, hash: u128, effective_hash: u128 },
    /// stop
    Fail(ProcessPackageError),
    /// the package is in the store under this hash
    Done(u128),
}

/// [`PackageStep`] by its paths and texts.
pub enum PackageStepSpec {
    Lookup { category: Seq<char>, hash: u128 },
    Find { search: Search, category: Seq<char>, hash: u128 },
    GetInstall,
    HashInstall(Seq<u8>),
    MakeDirectory,
    Run(ExecSpec),
    Put { from: Seq<u8>, category: Seq<char>, hash: u128 },
    Record { category: Seq<char>, hash: u128, effective_hash: u128 },
    Fail(ProcessErrorSpec),
    Done(u128),
}

impl View for PackageStep {
    type V = PackageStepSpec;

    open spec fn view(&self) -> PackageStepSpec {
        match self {
            PackageStep::Lookup { category, hash } => PackageStepSpec::Lookup {
                category: category@,
                hash: *hash,
            },
            PackageStep::Find { search, category, hash } => PackageStepSpec::Find {
                search: *search,
                category: category@,
                hash: *hash,
            },
            PackageStep::GetInstall => PackageStepSpec::GetInstall,
            PackageStep::HashInstall(path) => PackageStepSpec::HashInstall(path@),
            PackageStep::MakeDirectory => PackageStepSpec::MakeDirectory,
            PackageStep::Run(request) => PackageStepSpec::Run(request@),
            PackageStep::Put { from, category, hash } => PackageStepSpec::Put {
                from: from@,
                category: category@,
                hash: *hash,
            },
            PackageStep::Record { category, hash, effective_hash } => PackageStepSpec::Record {
                category: category@,
                hash: *hash,
                effective_hash: *effective_hash,
            },
            PackageStep::Fail(error) => PackageStepSpec::Fail(error@),
            PackageStep::Done(hash) => PackageStepSpec::Done(*hash),
        }
    }
}

/// What is left to make a package of what its recipe installs. Nothing if it is in the store under
/// the hash.
pub open spec fn create_stage(
    store: Seq<u8>,
    package: Package,
    install_hash: u128,
    hash: u128,
    replies: PackageReplies,
) -> Option<PackageStepSpec> {
    match replies.workdir {
        None => Some(PackageStepSpec::MakeDirectory),
        Some(workdir) => match create_step(
            package.name@,
            package.version@,
            package.revision as nat,
            package.arch(),
            dependency_texts(package),
            entry_path_in(store, CATEGORY_INSTALL@, install_hash as nat),
            workdir@,
            replies.create_codes@,
        ) {
            PackageCreateStepSpec::Run(request) => Some(PackageStepSpec::Run(request)),
            PackageCreateStepSpec::Fail(error) => Some(
                PackageStepSpec::Fail(ProcessErrorSpec::PackageCreate(error)),
            ),
            PackageCreateStepSpec::Done => if replies.stored {
                None
            } else {
                Some(
                    PackageStepSpec::Put {
                        from: workdir@,
                        category: CATEGORY_PACKAGE@,
                        hash,
                    },
                )
            },
        },
    }
}

/// What to do next to make a package that neither the ledger nor the store has: its recipe is run,
/// and if the store does not have the package under the hash that follows from what that
/// installs, it is made. Either way it is recorded.
pub open spec fn make_package_step(
    store: Seq<u8>,
    package: Package,
    replies: PackageReplies,
) -> PackageStepSpec {
    match replies.install_hash {
        None => PackageStepSpec::GetInstall,
        Some(Err(error)) => PackageStepSpec::Fail(error@),
        Some(Ok(install_hash)) => match replies.effective_hash {
            None => PackageStepSpec::HashInstall(
                entry_path_in(store, CATEGORY_INSTALL@, install_hash as nat),
            ),
            Some(hash) => {
                let missing = match replies.found {
                    None => Some(
                        PackageStepSpec::Find {
                            search: Search::Outcome,
                            category: CATEGORY_PACKAGE@,
                            hash,
                        },
                    ),
                    Some(true) => None,
                    Some(false) => create_stage(store, package, install_hash, hash, replies),
                };
                match missing {
                    Some(step) => step,
                    None => if replies.recorded {
                        PackageStepSpec::Done(hash)
                    } else {
                        PackageStepSpec::Record {
                            category: CATEGORY_PACKAGE@,
                            hash: package.package_hash(),
                            effective_hash: hash,
                        }
                    },
                }
            },
        },
    }
}

/// What to do next to make a package.
pub open spec fn package_step(
    store: Seq<u8>,
    package: Package,
    replies: PackageReplies,
) -> PackageStepSpec {
    match replies.lookup {
        None => PackageStepSpec::Lookup {
            category: CATEGORY_PACKAGE@,
            hash: package.package_hash(),
        },
        Some(None) => make_package_step(store, package, replies),
        Some(Some(known_hash)) => match replies.cached {
            None => PackageStepSpec::Find {
                search: Search::Known,
                category: CATEGORY_PACKAGE@,
                hash: known_hash,
            },
            Some(true) => PackageStepSpec::Done(known_hash),
            Some(false) => make_package_step(store, package, replies),
        },
    }
}

fn make_dependency_text(pkg: &Package) -> (r: String)
    ensures
        r@ == dependency_text(*pkg),
{
    let mut out: String = pkg.name.clone();
    out.append(">=");
    out.append(pkg.version.as_str());
    out.append("_");
    out.append(decimal(pkg.revision as u128).as_str());
    out
}

fn list_dependency_texts(pkg: &Package) -> (r: Vec<String>)
    ensures
        texts(r@) == dependency_texts(*pkg),
{
    let mut out: Vec<String> = Vec::new();
    let mut i: usize = 0;
    let ghost all = dependency_texts(*pkg);
    assert(texts(out@) =~= all.take(0));
    while i < pkg.runtime_dependencies.len()
        invariant
            0 <= i <= pkg.runtime_dependencies@.len(),
            all == dependency_texts(*pkg),
            texts(out@) == all.take(i as int),
        decreases pkg.runtime_dependencies@.len() - i,
    {
        let ghost before = texts(out@);
        let text: String = make_dependency_text(&pkg.runtime_dependencies[i]);
        let ghost chars = text@;
        out.push(text);
        assert(texts(out@) =~= before.push(chars));
        assert(all.take(i + 1) =~= all.take(i as int).push(all[i as int]));
        i = i + 1;
    }
    assert(all.take(i as int) =~= all);
    out
}

/// Starts to compute the hash of a package, made of its description and of the files that its
/// recipe installs.
pub fn begin_package_hash(package: &Package) -> (r: DirectoryHash)
    ensures
        r@ == (WalkState {
            fed: enc_u128(package.package_meta_hash()),
            tasks: Seq::empty(),
            want: Want::List(Seq::empty()),
        }),
{
    let mut hasher: Xxh3Hasher = Xxh3Hasher::new();
    let meta_hash: u128 = package.get_package_meta_hash();
    feed_u128(&mut hasher, meta_hash);
    assert(xxh3_fed(hasher) =~= enc_u128(meta_hash));
    hash_directory(hasher)
}

fn next_for_create(
    store: &Store,
    package: &Package,
    install_hash: u128,
    hash: u128,
    replies: &PackageReplies,
) -> (r: Option<PackageStep>)
    ensures
        match create_stage(store.path@, *package, install_hash, hash, *replies) {
            Some(step) => r matches Some(s) && s@ == step,
            None => r is None,
        },
{
    let workdir: &UnixPath = match &replies.workdir {
        None => return Some(PackageStep::MakeDirectory),
        Some(workdir) => workdir,
    };
    match package_create(
        package.name.as_str(),
        package.version.as_str(),
        package.revision,
        package.get_arch(),
        &list_dependency_texts(package),
        &store.entry_path(CATEGORY_INSTALL, install_hash),
        workdir,
        &replies.create_codes,
    ) {
        PackageCreateStep::Run(request) => Some(PackageStep::Run(request)),
        PackageCreateStep::Fail(error) => Some(
            PackageStep::Fail(ProcessPackageError::PackageCreate(error)),
        ),
        PackageCreateStep::Done => if replies.stored {
            None
        } else {
            Some(PackageStep::Put { from: workdir.copy(), category: CATEGORY_PACKAGE, hash })
        },
    }
}

/// What to do next to make a package.
pub fn process_package(store: &Store, package: &Package, replies: &PackageReplies) -> (r:
    PackageStep)
    ensures
        r@ == package_step(store.path@, *package, *replies),
{
    match replies.lookup {
        None => return PackageStep::Lookup {
            category: CATEGORY_PACKAGE,
            hash: package.get_package_hash(),
        },
        Some(None) => {},
        Some(Some(known_hash)) => match replies.cached {
            None => return PackageStep::Find {
                search: Search::Known,
                category: CATEGORY_PACKAGE,
                hash: known_hash,
            },
            Some(true) => return PackageStep::Done(known_hash),
            Some(false) => {},
        },
    }
    let install_hash: u128 = match &replies.install_hash {
        None => return PackageStep::GetInstall,
        Some(Err(error)) => return PackageStep::Fail(error.copy()),
        Some(Ok(install_hash)) => *install_hash,
    };
    let hash: u128 = match replies.effective_hash {
        None => return PackageStep::HashInstall(store.entry_path(CATEGORY_INSTALL, install_hash)),
        Some(hash) => hash,
    };
    match replies.found {
        None => return PackageStep::Find {
            search: Search::Outcome,
            category: CATEGORY_PACKAGE,
            hash,
        },
        Some(true) => {},
        Some(false) => {
            if let Some(step) = next_for_create(store, package, install_hash, hash, replies) {
                return step;
            }
        },
    }
    if replies.recorded {
        PackageStep::Done(hash)
    } else {
        PackageStep::Record {
            category: CATEGORY_PACKAGE,
            hash: package.get_package_hash(),
            effective_hash: hash,
        }
    }
}

/// What has come back, and that a search found something or not.
pub open spec fn package_search_noted(
    replies: PackageReplies,
    search: Search,
    found: bool,
) -> PackageReplies {
    match search {
        Search::Known => PackageReplies { cached: Some(found), ..replies },
        Search::Outcome => PackageReplies { found: Some(found), ..replies },
    }
}

impl PackageReplies {
    /// Takes note of whether a search found something.
    pub fn note_found(&mut self, search: Search, found: bool)
        ensures
            *final(self) == package_search_noted(*old(self), search, found),
    {
        match search {
            Search::Known => {
                self.cached = Some(found);
            },
            Search::Outcome => {
                self.found = Some(found);
            },
        }
    }
}

// ---------------------------------------------------------------------------
// Laws
// ---------------------------------------------------------------------------

/// The hash of what is in the environment, if it could be made.
pub open spec fn known_deps(replies: InstallReplies) -> Option<u128> {
    match replies.deps_hash {
        Some(Ok(deps_hash)) => Some(deps_hash),
        _ => None,
    }
}

/// Every script of a recipe that it has to run has run and succeeded.
pub open spec fn scripts_succeeded(package: Package, replies: InstallReplies) -> bool {
    &&& package.configure is Some ==> replies.configure_code == Some(0i32)
    &&& package.build is Some ==> replies.build_code == Some(0i32)
    &&& replies.install_code == Some(0i32)
}

/// What a recipe installs is put into the store only when every script has succeeded, under the
/// hash that follows from the recipe and from what is in its environment.
pub proof fn lemma_install_stored_only_when_succeeded(
    enabled: Seq<(PackagePlatform, String)>,
    package: Package,
    replies: InstallReplies,
)
    ensures
        package_install_step(enabled, package, replies) matches InstallStepSpec::Put {
            from,
            category,
            hash,
        } ==> {
            &&& scripts_succeeded(package, replies)
            &&& category == CATEGORY_INSTALL@
            &&& replies.install_dir matches Some(dir) && from == dir@
            &&& known_deps(replies) is Some
            &&& hash == outcome_hash(package.content_base_hash(), known_deps(replies)->0)
        },
{
}

/// The ledger is told of the outcome of a recipe only when the store holds it, and the outcome is
/// answered only when the ledger has it.
pub proof fn lemma_install_recorded_only_when_stored(
    enabled: Seq<(PackagePlatform, String)>,
    package: Package,
    replies: InstallReplies,
)
    ensures
        package_install_step(enabled, package, replies) matches InstallStepSpec::Record {
            category,
            hash,
            effective_hash,
        } ==> {
            &&& category == CATEGORY_INSTALL@
            &&& hash == package.content_hash()
            &&& known_deps(replies) is Some
            &&& effective_hash == outcome_hash(
                package.content_base_hash(),
                known_deps(replies)->0,
            )
            &&& replies.found == Some(true) || (scripts_succeeded(package, replies)
                && replies.stored)
        },
        package_install_step(enabled, package, replies) matches InstallStepSpec::Done(hash) ==> {
            ||| replies.lookup == Some(Some(hash)) && replies.cached == Some(true)
            ||| {
                &&& replies.recorded
                &&& known_deps(replies) is Some
                &&& hash == outcome_hash(package.content_base_hash(), known_deps(replies)->0)
                &&& replies.found == Some(true) || (scripts_succeeded(package, replies)
                    && replies.stored)
            }
        },
{
}

/// The scripts of a recipe run in their order: what is built has been configured, and what is
/// installed has been configured and built.
pub proof fn lemma_scripts_run_in_order(
    enabled: Seq<(PackagePlatform, String)>,
    package: Package,
    replies: InstallReplies,
)
    ensures
        package_install_step(enabled, package, replies) is Build ==> (package.configure is Some
            ==> replies.configure_code == Some(0i32)),
        package_install_step(enabled, package, replies) is Install ==> {
            &&& package.configure is Some ==> replies.configure_code == Some(0i32)
            &&& package.build is Some ==> replies.build_code == Some(0i32)
        },
{
}

/// As long as no search has come back empty, a recipe costs only searches.
pub proof fn lemma_known_recipe_is_only_searched(
    enabled: Seq<(PackagePlatform, String)>,
    package: Package,
    replies: InstallReplies,
)
    requires
        replies.lookup != Some(None::<u128>),
        replies.cached != Some(false),
    ensures
        package_install_step(enabled, package, replies) is Lookup || package_install_step(
            enabled,
            package,
            replies,
        ) is Find || package_install_step(enabled, package, replies) is Done,
{
}

/// An environment that cannot be made ends the work on a recipe, and a recipe that cannot be run
/// that on its package: the error is the answer.
pub proof fn lemma_failed_dependencies_are_final(
    enabled: Seq<(PackagePlatform, String)>,
    store: Seq<u8>,
    package: Package,
    replies: InstallReplies,
    package_replies: PackageReplies,
)
    ensures
        (replies.lookup == Some(None::<u128>) || (replies.lookup is Some && replies.cached == Some(
            false,
        ))) && replies.deps_hash is Some && (replies.deps_hash->0) is Err ==> package_install_step(
            enabled,
            package,
            replies,
        ) == InstallStepSpec::Fail(
            ProcessErrorSpec::ResolveDependencies((replies.deps_hash->0)->Err_0),
        ),
        (package_replies.lookup == Some(None::<u128>) || (package_replies.lookup is Some
            && package_replies.cached == Some(false))) && package_replies.install_hash is Some && (
        package_replies.install_hash->0) is Err ==> package_step(store, package, package_replies)
            == PackageStepSpec::Fail(((package_replies.install_hash->0)->Err_0)@),
{
}

/// A package is put into the store only when it has been made and indexed, and recorded only when
/// the store holds it.
pub proof fn lemma_package_recorded_only_when_stored(
    store: Seq<u8>,
    package: Package,
    replies: PackageReplies,
)
    ensures
        package_step(store, package, replies) matches PackageStepSpec::Put { from, category, hash }
            ==> {
            &&& category == CATEGORY_PACKAGE@
            &&& replies.effective_hash == Some(hash)
            &&& replies.create_codes@.len() >= 2
            &&& replies.create_codes@[0] == 0
            &&& replies.create_codes@[1] == 0
        },
        package_step(store, package, replies) matches PackageStepSpec::Record {
            category,
            hash,
            effective_hash,
        } ==> {
            &&& category == CATEGORY_PACKAGE@
            &&& hash == package.package_hash()
            &&& replies.effective_hash == Some(effective_hash)
            &&& replies.found == Some(true) || replies.stored
        },
        package_step(store, package, replies) matches PackageStepSpec::Done(hash) ==> {
            ||| replies.lookup == Some(Some(hash)) && replies.cached == Some(true)
            ||| {
                &&& replies.recorded
                &&& replies.effective_hash == Some(hash)
                &&& replies.found == Some(true) || replies.stored
            }
        },
{
    if let (Some(Ok(install_hash)), Some(workdir)) = (replies.install_hash, replies.workdir) {
        lemma_created_only_when_indexed(
            package.name@,
            package.version@,
            package.revision as nat,
            package.arch(),
            dependency_texts(package),
            entry_path_in(store, CATEGORY_INSTALL@, install_hash as nat),
            workdir@,
            replies.create_codes@,
        );
    }
}

/// As long as no search has come back empty, a package costs only searches.
pub proof fn lemma_known_package_is_only_searched(
    store: Seq<u8>,
    package: Package,
    replies: PackageReplies,
)
    requires
        replies.lookup != Some(None::<u128>),
        replies.cached != Some(false),
    ensures
        package_step(store, package, replies) is Lookup || package_step(
            store,
            package,
            replies,
        ) is Find || package_step(store, package, replies) is Done,
{
}

/// The hash of a package depends on its description and on the files that its recipe installs, on
/// nothing else: a walk over those files that starts as [`begin_package_hash`] does, is answered
/// truly and comes to its end gives the digest of just these.
pub proof fn lemma_package_hash_of_files(
    package: Package,
    turns: Seq<Turn>,
    entries: Seq<(Seq<u8>, Node)>,
)
    requires
        is_tree(Node::Directory(entries)),
        turns.len() > 0,
        turns[0] == first_turn(enc_u128(package.package_meta_hash()), entries),
        forall|i: int| 0 <= i < turns.len() - 1 ==> answers(#[trigger] turns[i], turns[i + 1]),
        turns.last().state.want is Finished,
    ensures
        xxh3_128(turns.last().state.fed) == xxh3_128(
            enc_u128(package.package_meta_hash()) + enc_entries(Seq::empty(), entries),
        ),
{
    lemma_walk_feeds_tree(turns, enc_u128(package.package_meta_hash()), entries);
}

/// Packages have the same bytes behind their hashes only if their descriptions have the same hash
/// and their recipes install the same files.
pub proof fn lemma_package_bytes_are_exact(
    a_meta: u128,
    a: Seq<(Seq<u8>, Node)>,
    b_meta: u128,
    b: Seq<(Seq<u8>, Node)>,
)
    requires
        is_tree(Node::Directory(a)),
        is_tree(Node::Directory(b)),
        is_real(Node::Directory(a)),
        is_real(Node::Directory(b)),
        paths_fit(a),
        paths_fit(b),
        enc_u128(a_meta) + enc_entries(Seq::empty(), a) == enc_u128(b_meta) + enc_entries(
            Seq::empty(),
            b,
        ),
    ensures
        a_meta == b_meta,
        a == b,
{
    lemma_u128_cut(
        a_meta,
        enc_entries(Seq::empty(), a),
        b_meta,
        enc_entries(Seq::empty(), b),
    );
    lemma_tree_bytes_are_exact(a, b);
}

/// The variables that say where things are cannot be set by a recipe or globally: the programs
/// always get the places where things really are.
pub proof fn lemma_places_cannot_be_overridden(package: Package)
    ensures
        build_env(package).contains_pair("BUILD_DIR"@, "/chariot/build"@),
        build_env(package).contains_pair("PREFIX"@, package.prefix()),
        build_env(package).contains_pair("ARCH"@, package.arch()),
{
    reveal_strlit("BUILD_DIR");
    reveal_strlit("PREFIX");
    reveal_strlit("ARCH");
    reveal_strlit("SOURCE_DIR");
    assert("BUILD_DIR"@[0] != "PREFIX"@[0]);
    assert("BUILD_DIR"@[0] != "ARCH"@[0]);
    assert("PREFIX"@[0] != "ARCH"@[0]);
    assert("SOURCE_DIR"@[0] != "BUILD_DIR"@[0]);
    assert("SOURCE_DIR"@[0] != "PREFIX"@[0]);
    assert("SOURCE_DIR"@[0] != "ARCH"@[0]);
}

/// `SOURCE_DIR` names the place where the source with the name of the package is mounted.
pub proof fn lemma_source_dir_is_where_it_is_mounted(package: Package, paths: Seq<Seq<u8>>)
    requires
        package.dependencies.sources@.contains_key(package.name@),
    ensures
        build_env(package).contains_key("SOURCE_DIR"@),
        path_of(build_env(package)["SOURCE_DIR"@]) == source_mount(package.name@, paths).dest,
{
    reveal_strlit("/chariot/sources");
    lemma_join_text(EXECENV_SOURCES_DIRECTORY_PATH@, package.name@);
}

} // verus!
