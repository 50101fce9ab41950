//! Building packages: the scripts of a recipe run where their environment says, what they install is
//! what is kept, and the hashes under which it is asked for, kept and recorded are the same.

use crate::config::package::{Package, PackagePlatform};
use crate::hashes::outcome_hash;
use crate::laws::sight::{
    lemma_found_alone, lemma_found_last, lemma_found_still, lemma_lies_elsewhere, lies_in,
    runs_script, writes_into,
};
use crate::mount::{bind_spec, MountKindSpec};
use crate::package::{
    build_mount, install_search_noted, package_install_step, InstallReplies, InstallStepSpec,
    ProcessErrorSpec, Search,
};
use crate::request::{EnvSpec, StderrTarget};
use crate::util::names::env_of;
use crate::util::path::{join_path, lemma_join_text, path_of};
use crate::{HOST_ARCH, HOST_PREFIX};
use vstd::prelude::*;

verus! {

/// The request of a step that runs a script of a recipe.
pub open spec fn script_request(step: InstallStepSpec) -> Option<EnvSpec> {
    match step {
        InstallStepSpec::Configure(request) => Some(request),
        InstallStepSpec::Build(request) => Some(request),
        InstallStepSpec::Install(request) => Some(request),
        _ => None,
    }
}

proof fn lemma_places_are_apart()
    ensures
        !lies_in(path_of("/chariot/build"@), path_of("/chariot/install"@)),
{
    reveal_strlit("/chariot/build");
    reveal_strlit("/chariot/install");
    lemma_lies_elsewhere("/chariot/build"@, "/chariot/install"@, 9);
}

/// What a recipe installs is what is kept of it. The script is told a directory to install into; what
/// it writes there goes into the work directory for that, and whenever the outcome is put into the
/// store, then from that work directory.
pub proof fn lemma_what_is_installed_is_kept(
    enabled: Seq<(PackagePlatform, String)>,
    package: Package,
    replies: InstallReplies,
    later: InstallReplies,
)
    ensures
        package_install_step(enabled, package, replies) matches InstallStepSpec::Install(request)
            ==> {
            &&& request.environment.contains_key("INSTALL_DIR"@)
            &&& replies.install_dir is Some
            &&& writes_into(
                request.mounts,
                path_of(request.environment["INSTALL_DIR"@]),
                (replies.install_dir->0)@,
            )
            &&& later.install_dir == replies.install_dir ==> (package_install_step(
                enabled,
                package,
                later,
            ) matches InstallStepSpec::Put { from, category, hash } ==> writes_into(
                request.mounts,
                path_of(request.environment["INSTALL_DIR"@]),
                from,
            ))
        },
{
    if let InstallStepSpec::Install(request) = package_install_step(enabled, package, replies) {
        lemma_found_last(
            seq![build_mount((replies.build_dir->0)@)],
            bind_spec("/chariot/install"@, (replies.install_dir->0)@, false, false),
        );
        assert(request.mounts =~= seq![build_mount((replies.build_dir->0)@)].push(
            bind_spec("/chariot/install"@, (replies.install_dir->0)@, false, false),
        ));
    }
}

/// Every script of a recipe runs in the directory that its environment names as the one to build in,
/// and what it writes there goes into the directory that was got for the build; it reads nothing from
/// the user, and prints everything to one place.
pub proof fn lemma_scripts_run_in_the_build_directory(
    enabled: Seq<(PackagePlatform, String)>,
    package: Package,
    replies: InstallReplies,
)
    ensures
        script_request(package_install_step(enabled, package, replies)) matches Some(request) ==> {
            &&& replies.build_dir is Some
            &&& request.environment.contains_key("BUILD_DIR"@)
            &&& request.cwd == path_of(request.environment["BUILD_DIR"@])
            &&& writes_into(request.mounts, request.cwd, (replies.build_dir->0)@)
            &&& !request.stdin
            &&& request.stderr == StderrTarget::Merge
        },
{
    if let Some(request) = script_request(package_install_step(enabled, package, replies)) {
        let build = build_mount((replies.build_dir->0)@);
        lemma_distinct_variables();
        lemma_found_alone(build);
        if package_install_step(enabled, package, replies) is Install {
            let install = bind_spec(
                "/chariot/install"@,
                (replies.install_dir->0)@,
                false,
                false,
            );
            lemma_places_are_apart();
            lemma_found_still(seq![build], install, build.dest, build.kind);
            assert(request.mounts =~= seq![build].push(install));
        }
    }
}

proof fn lemma_distinct_variables()
    ensures
        "BUILD_DIR"@ != "PREFIX"@,
        "BUILD_DIR"@ != "ARCH"@,
        "BUILD_DIR"@ != "SOURCE_DIR"@,
        "BUILD_DIR"@ != "INSTALL_DIR"@,
        "PREFIX"@ != "ARCH"@,
        "PREFIX"@ != "SOURCE_DIR"@,
        "PREFIX"@ != "INSTALL_DIR"@,
        "ARCH"@ != "SOURCE_DIR"@,
        "ARCH"@ != "INSTALL_DIR"@,
        "SOURCE_DIR"@ != "INSTALL_DIR"@,
{
    reveal_strlit("BUILD_DIR");
    reveal_strlit("PREFIX");
    reveal_strlit("ARCH");
    reveal_strlit("SOURCE_DIR");
    reveal_strlit("INSTALL_DIR");
    assert("BUILD_DIR"@[0] == 'B');
    assert("PREFIX"@[0] == 'P');
    assert("ARCH"@[0] == 'A');
    assert("SOURCE_DIR"@[0] == 'S');
    assert("INSTALL_DIR"@[0] == 'I');
}

/// Of the host the scripts of a recipe find, beside what is in their environment, only the directory
/// to build in and, while something is installed, the one to install into.
pub proof fn lemma_scripts_find_nothing_else(
    enabled: Seq<(PackagePlatform, String)>,
    package: Package,
    replies: InstallReplies,
    i: int,
)
    ensures
        script_request(package_install_step(enabled, package, replies)) matches Some(request)
            ==> (0 <= i < request.mounts.len() ==> match request.mounts[i].kind {
            MountKindSpec::Bind { from, read_only, is_file } => {
                ||| replies.build_dir is Some && from == (replies.build_dir->0)@
                ||| package_install_step(enabled, package, replies) is Install
                    && replies.install_dir is Some && from == (replies.install_dir->0)@
            },
            _ => false,
        }),
{
}

/// Each step runs its own script of the recipe, and runs it only if the recipe has it.
pub proof fn lemma_every_step_runs_its_script(
    enabled: Seq<(PackagePlatform, String)>,
    package: Package,
    replies: InstallReplies,
)
    ensures
        package_install_step(enabled, package, replies) matches InstallStepSpec::Configure(request)
            ==> package.configure is Some && runs_script(request.args, package.configure->0),
        package_install_step(enabled, package, replies) matches InstallStepSpec::Build(request)
            ==> package.build is Some && runs_script(request.args, package.build->0),
        package_install_step(enabled, package, replies) matches InstallStepSpec::Install(request)
            ==> runs_script(request.args, package.install),
{
}

/// One of the variables that say where things are, and for what: that of the directory to install
/// into is one only while something is installed, and that of the source only if there is one.
pub open spec fn is_place(package: Package, step: InstallStepSpec, name: Seq<char>) -> bool {
    ||| name == "BUILD_DIR"@
    ||| name == "PREFIX"@
    ||| name == "ARCH"@
    ||| name == "INSTALL_DIR"@ && step is Install
    ||| name == "SOURCE_DIR"@ && package.dependencies.sources@.contains_key(package.name@)
}

/// The variables of the scripts of a recipe. They are told the prefix and the architecture of the
/// platform that the package is for; every other variable is the one that the recipe sets or, if it
/// sets none of that name, the one that is set globally, and there are no others.
pub proof fn lemma_variables_of_scripts(
    enabled: Seq<(PackagePlatform, String)>,
    package: Package,
    replies: InstallReplies,
    name: Seq<char>,
)
    ensures
        script_request(package_install_step(enabled, package, replies)) matches Some(request) ==> {
            &&& request.environment.contains_pair(
                "PREFIX"@,
                if package.platform == PackagePlatform::Host {
                    HOST_PREFIX@
                } else {
                    package.global_env.target_prefix@
                },
            )
            &&& request.environment.contains_pair(
                "ARCH"@,
                if package.platform == PackagePlatform::Host {
                    HOST_ARCH@
                } else {
                    package.global_env.target_arch@
                },
            )
            &&& !is_place(package, package_install_step(enabled, package, replies), name) ==> {
                let own = env_of(package.environment_variables);
                let global = env_of(package.global_env.global_environment_variables);
                &&& request.environment.contains_key(name) <==> own.contains_key(name)
                    || global.contains_key(name)
                &&& own.contains_key(name) ==> request.environment[name] == own[name]
                &&& !own.contains_key(name) && global.contains_key(name)
                    ==> request.environment[name] == global[name]
            }
        },
{
    lemma_distinct_variables();
}

/// A recipe is known under the same hashes all the way. What is looked up is what is recorded, what
/// the ledger has is what the store is searched for, and what the store is searched for in an
/// environment is what is put there, what the ledger is told, and what is answered. The hash of the
/// outcome follows from the recipe and from what is in the environment.
pub proof fn lemma_outcome_is_known_under_one_hash(
    enabled: Seq<(PackagePlatform, String)>,
    package: Package,
    replies: InstallReplies,
)
    ensures
        match package_install_step(enabled, package, replies) {
            InstallStepSpec::Lookup { category, hash } => category == "install"@ && hash
                == package.content_hash(),
            InstallStepSpec::Find { search: Search::Known, category, hash } => category
                == "install"@ && replies.lookup == Some(Some(hash)),
            InstallStepSpec::Find { search: Search::Outcome, category, hash } => category
                == "install"@ && (replies.deps_hash matches Some(Ok(deps_hash)) && hash
                == outcome_hash(package.content_base_hash(), deps_hash)),
            InstallStepSpec::Put { from, category, hash } => category == "install"@ && (
            replies.deps_hash matches Some(Ok(deps_hash)) && hash == outcome_hash(
                package.content_base_hash(),
                deps_hash,
            )),
            InstallStepSpec::Record { category, hash, effective_hash } => category == "install"@
                && hash == package.content_hash() && (replies.deps_hash matches Some(Ok(deps_hash))
                && effective_hash == outcome_hash(package.content_base_hash(), deps_hash)),
            InstallStepSpec::Done(hash) => (replies.lookup == Some(Some(hash)) && replies.cached
                == Some(true)) || (replies.deps_hash matches Some(Ok(deps_hash)) && hash
                == outcome_hash(package.content_base_hash(), deps_hash)),
            _ => true,
        },
{
}

/// The environment of a recipe is made of all that the recipe depends on, over the global native
/// packages.
pub proof fn lemma_environment_of_a_recipe(
    enabled: Seq<(PackagePlatform, String)>,
    package: Package,
    replies: InstallReplies,
)
    ensures
        package_install_step(enabled, package, replies) matches InstallStepSpec::MakeEnvironment(
            order,
        ) ==> {
            &&& order.root_native == Some(package.global_env.global_native_packages.names@)
            &&& order.native == package.dependencies.native.names@
            &&& order.sources == package.dependencies.sources.entries@
            &&& order.tools == package.dependencies.tools@
            &&& order.packages == package.dependencies.packages@
        },
{
}

/// A build directory outlives the build just when that is enabled for the package: for its name and
/// its platform.
pub proof fn lemma_build_directory_is_kept_if_enabled(
    enabled: Seq<(PackagePlatform, String)>,
    package: Package,
    replies: InstallReplies,
)
    ensures
        package_install_step(enabled, package, replies) matches InstallStepSpec::GetBuildDirectory {
            cached,
        } ==> (cached <==> exists|i: int|
            0 <= i < enabled.len() && (#[trigger] enabled[i]).1@ == package.name@ && enabled[i].0
                == package.platform),
{
    if exists|i: int|
        0 <= i < enabled.len() && (#[trigger] enabled[i]).1@ == package.name@ && enabled[i].0
            == package.platform {
        let i = choose|i: int|
            0 <= i < enabled.len() && (#[trigger] enabled[i]).1@ == package.name@ && enabled[i].0
                == package.platform;
        assert(enabled[i].0 == package.platform);
    }
}

/// A recipe fails only because of what failed: an environment that could not be made, or a script
/// that ended with the exit code that the error tells of.
pub proof fn lemma_recipe_fails_of_what_failed(
    enabled: Seq<(PackagePlatform, String)>,
    package: Package,
    replies: InstallReplies,
)
    ensures
        package_install_step(enabled, package, replies) matches InstallStepSpec::Fail(error)
            ==> match error {
            ProcessErrorSpec::ResolveDependencies(cause) => replies.deps_hash matches Some(
                Err(given),
            ) && given == cause,
            ProcessErrorSpec::Configure(code) => package.configure is Some && code != 0
                && replies.configure_code == Some(code),
            ProcessErrorSpec::Build(code) => package.build is Some && code != 0
                && replies.build_code == Some(code),
            ProcessErrorSpec::Install(code) => code != 0 && replies.install_code == Some(code),
            _ => false,
        },
{
}

/// Nothing is asked for that has come back already, so that every answer brings the work on a recipe
/// further; and a script is run only if the recipe has it and the ones before it have succeeded.
pub proof fn lemma_recipe_asks_once(
    enabled: Seq<(PackagePlatform, String)>,
    package: Package,
    replies: InstallReplies,
)
    ensures
        match package_install_step(enabled, package, replies) {
            InstallStepSpec::Lookup { category, hash } => replies.lookup is None,
            InstallStepSpec::Find { search: Search::Known, category, hash } =>
                replies.cached is None,
            InstallStepSpec::MakeEnvironment(order) => replies.deps_hash is None,
            InstallStepSpec::Find { search: Search::Outcome, category, hash } =>
                replies.found is None,
            InstallStepSpec::GetBuildDirectory { cached } => replies.build_dir is None
                && replies.found == Some(false),
            InstallStepSpec::Configure(request) => package.configure is Some
                && replies.configure_code is None && replies.found == Some(false),
            InstallStepSpec::Build(request) => package.build is Some && replies.build_code is None
                && replies.found == Some(false) && (package.configure is Some
                ==> replies.configure_code == Some(0i32)),
            InstallStepSpec::MakeInstallDirectory => replies.install_dir is None && replies.found
                == Some(false),
            InstallStepSpec::Install(request) => replies.install_code is None && replies.found
                == Some(false) && (package.configure is Some ==> replies.configure_code == Some(
                0i32,
            )) && (package.build is Some ==> replies.build_code == Some(0i32)),
            InstallStepSpec::Put { from, category, hash } => !replies.stored && replies.found
                == Some(false),
            InstallStepSpec::Record { category, hash, effective_hash } => !replies.recorded,
            _ => true,
        },
{
}

/// The directory that a package's scripts are told as that of its source is where the environment
/// mounts the source with the name of the package, and they are told of one only if there is such a
/// source.
pub proof fn lemma_scripts_find_their_source(
    enabled: Seq<(PackagePlatform, String)>,
    package: Package,
    replies: InstallReplies,
)
    ensures
        script_request(package_install_step(enabled, package, replies)) matches Some(request)
            ==> (package.dependencies.sources@.contains_key(package.name@)
            ==> request.environment.contains_key("SOURCE_DIR"@) && path_of(
            request.environment["SOURCE_DIR"@],
        ) == join_path(path_of("/chariot/sources"@), path_of(package.name@))),
{
    lemma_distinct_variables();
    reveal_strlit("/chariot/sources");
    lemma_join_text("/chariot/sources"@, package.name@);
}

/// What a search of the store found answers that very search, and changes nothing else that has come
/// back.
pub proof fn lemma_searches_of_a_recipe_are_answered(
    replies: InstallReplies,
    search: Search,
    found: bool,
)
    ensures
        ({
            let after = install_search_noted(replies, search, found);
            &&& search == Search::Known ==> after.cached == Some(found) && after.found
                == replies.found
            &&& search == Search::Outcome ==> after.found == Some(found) && after.cached
                == replies.cached
            &&& after == (InstallReplies { cached: after.cached, found: after.found, ..replies })
        }),
{
}

} // verus!
