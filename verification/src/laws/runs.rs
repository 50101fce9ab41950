//! Whole runs: what was asked for on the command line is what is evaluated, built and installed, and
//! what builds have recorded survives the cleaning up.

use crate::buildcache::{dir_name, is_kept, lemma_kept_directory};
use crate::cli::evaluate::EvaluationSpec;
use crate::cli::keep::{
    answered_by, kept_entries, keep_step, lemma_kept_entries, recorded_items, KeepStepSpec,
};
use crate::cli::profile::{ProfileSpec, ProfileStep};
use crate::cli::prune::{prune_step, state_so_far, PruneReplies, PruneStepSpec, StoreCommand};
use crate::cli::run::{run_step, InstallRequest, RunReplies, RunStepSpec};
use crate::cli::select::{find_package, first_unknown, lemma_found_package, required_binary};
use crate::config::base::BaseConfig;
use crate::config::package::{Package, PackagePlatform};
use crate::config::Config;
use crate::execenv_create::lemma_first_error;
use crate::hashes::{hashes_of_config, is_hash_of_package, is_hash_of_source, RecipeHashes};
use crate::install::{install_failure_text, order_step, OrderReplies, OrderStepSpec};
use crate::laws::building::{
    lemma_build_directory_is_kept_if_enabled, lemma_outcome_is_known_under_one_hash,
};
use crate::laws::installing::lemma_order_is_carried_out;
use crate::laws::packaging::{
    arch_of, lemma_package_is_known_under_one_hash, lemma_package_is_made_of_what_is_installed,
};
use crate::laws::sources::lemma_stages_are_known_under_one_hash;
use crate::ledger::lookup_in;
use crate::package::{
    package_install_step, package_step, InstallReplies, InstallStepSpec, PackageReplies,
    PackageStepSpec,
};
use crate::request::PkgSet;
use crate::source::fetch::{source_step, SourceReplies, SourceStepSpec};
use crate::util::path::path_of;
use std::sync::Arc;
use vstd::prelude::*;

verus! {

/// The platform of what is asked for: tools run on the host, packages on the target.
pub open spec fn asked_platform(tool: bool) -> PackagePlatform {
    if tool {
        PackagePlatform::Host
    } else {
        PackagePlatform::Target
    }
}

/// What is installed is what was asked for: one after the other the packages with the given names, for
/// the platform that is meant, out of the configuration; each for the architecture of its platform, into
/// the destination that was given, and over an existing installation just if that was asked for.
pub proof fn lemma_installed_as_asked_for(request: InstallRequest, replies: RunReplies)
    ensures
        run_step(request, replies) matches RunStepSpec::Install(order) ==> {
            let number = replies.installed@.len() as int;
            &&& number < request.packages@.len()
            &&& order.package.name@ == request.packages@[number]@
            &&& order.package.platform == asked_platform(request.tool)
            &&& replies.config is Some
            &&& (replies.config->0).packages@.contains(order.package)
            &&& order.arch == arch_of(*order.package)
            &&& order.dest_dir == request.dest@
            &&& !order.dest_root_overlay
            &&& order.force == request.force
            &&& order.pkgset == PkgSet::Root
            &&& replies.dest_made
            &&& forall|k: int| 0 <= k < number ==> replies.installed@[k] is Ok
        },
{
    if let RunStepSpec::Install(order) = run_step(request, replies) {
        let number = replies.installed@.len() as int;
        let packages = (replies.config->0).packages@;
        lemma_first_error(replies.installed@);
        lemma_first_unknown(packages, request.packages@, request.tool);
        lemma_found_package(packages, request.packages@[number]@, request.tool);
    }
}

/// A package is installed for the architecture that its package file is made for: the programs that make
/// and index the file of the ordered package, and the one that installs it, are told the same one.
pub proof fn lemma_installed_for_the_arch_it_is_made_for(
    request: InstallRequest,
    replies: RunReplies,
    store: Seq<u8>,
    package_replies: PackageReplies,
    order_replies: OrderReplies,
)
    ensures
        run_step(request, replies) matches RunStepSpec::Install(order) ==> {
            &&& package_step(
                store,
                *order.package,
                package_replies,
            ) matches PackageStepSpec::Run(made) ==> made.environment.contains_pair(
                "XBPS_TARGET_ARCH"@,
                order.arch,
            )
            &&& order_step(store, order, order_replies) matches OrderStepSpec::Run(installed)
                ==> installed.environment.contains_pair("XBPS_TARGET_ARCH"@, order.arch)
        },
{
    lemma_installed_as_asked_for(request, replies);
    let order = run_step(request, replies)->Install_0;
    let package = *run_step(request, replies)->Install_0.package;
    lemma_package_is_made_of_what_is_installed(store, package, package_replies);
    lemma_order_is_carried_out(store, order, order_replies, 0);
}

/// What is found under a name is the first package in the configuration that has the name and is for the
/// platform that is meant.
pub proof fn lemma_first_package_is_found(packages: Seq<Arc<Package>>, name: Seq<char>, tool: bool)
    ensures
        match find_package(packages, name, tool) {
            Some(package) => exists|i: int|
                {
                    &&& 0 <= i < packages.len()
                    &&& #[trigger] packages[i] == package
                    &&& package.name@ == name
                    &&& package.platform == asked_platform(tool)
                    &&& forall|k: int|
                        0 <= k < i ==> (#[trigger] packages[k]).name@ != name
                            || packages[k].platform != asked_platform(tool)
                },
            None => forall|k: int|
                0 <= k < packages.len() ==> (#[trigger] packages[k]).name@ != name
                    || packages[k].platform != asked_platform(tool),
        },
    decreases packages.len(),
{
    if packages.len() > 0 {
        let front = packages.drop_last();
        lemma_first_package_is_found(front, name, tool);
        assert forall|k: int| 0 <= k < front.len() implies front[k] == #[trigger] packages[k] by {}
        assert(packages[packages.len() - 1] == packages.last());
        if let Some(package) = find_package(front, name, tool) {
            let i = choose|i: int|
                {
                    &&& 0 <= i < front.len()
                    &&& #[trigger] front[i] == package
                    &&& package.name@ == name
                    &&& package.platform == asked_platform(tool)
                    &&& forall|k: int|
                        0 <= k < i ==> (#[trigger] front[k]).name@ != name || front[k].platform
                            != asked_platform(tool)
                };
            assert(packages[i] == package);
        }
    }
}

/// The first name that no package has is one of the names, none of the packages for the platform that is
/// meant has it, and all names before it are those of such packages; there is none only if all names are.
pub proof fn lemma_first_unknown(packages: Seq<Arc<Package>>, names: Seq<String>, tool: bool)
    ensures
        match first_unknown(packages, names, tool) {
            None => forall|i: int|
                0 <= i < names.len() ==> find_package(
                    packages,
                    (#[trigger] names[i])@,
                    tool,
                ) is Some,
            Some(name) => exists|i: int|
                {
                    &&& 0 <= i < names.len()
                    &&& (#[trigger] names[i])@ == name
                    &&& forall|k: int|
                        0 <= k < packages.len() ==> (#[trigger] packages[k]).name@ != name
                            || packages[k].platform != asked_platform(tool)
                    &&& forall|k: int|
                        0 <= k < i ==> find_package(
                            packages,
                            (#[trigger] names[k])@,
                            tool,
                        ) is Some
                },
        },
    decreases names.len(),
{
    if names.len() > 0 {
        let front = names.drop_last();
        lemma_first_unknown(packages, front, tool);
        match first_unknown(packages, front, tool) {
            Some(name) => {
                let i = choose|i: int|
                    {
                        &&& 0 <= i < front.len()
                        &&& (#[trigger] front[i])@ == name
                        &&& forall|k: int|
                            0 <= k < packages.len() ==> (#[trigger] packages[k]).name@ != name
                                || packages[k].platform != asked_platform(tool)
                        &&& forall|k: int|
                            0 <= k < i ==> find_package(
                                packages,
                                (#[trigger] front[k])@,
                                tool,
                            ) is Some
                    };
                assert(names[i]@ == name);
                assert forall|k: int| 0 <= k < i implies find_package(
                    packages,
                    (#[trigger] names[k])@,
                    tool,
                ) is Some by {
                    assert(front[k] == names[k]);
                }
            },
            None => {
                assert forall|k: int| 0 <= k < front.len() implies find_package(
                    packages,
                    (#[trigger] names[k])@,
                    tool,
                ) is Some by {
                    assert(front[k] == names[k]);
                }
                lemma_found_package(packages, names.last()@, tool);
                assert(names[names.len() - 1] == names.last());
            },
        }
    }
}

/// An evaluation is that of a profile with a base configuration: it runs the script of the base
/// configuration, or the one at the usual place, for the architecture and with the options of the
/// profile, with the root file system and the prefix of the base configuration, and with no variables
/// and native packages set globally.
pub open spec fn evaluates(evaluation: EvaluationSpec, base: BaseConfig, profile: ProfileSpec) -> bool {
    &&& evaluation.target_arch == profile.arch
    &&& evaluation.options == profile.options
    &&& evaluation.rootfs_manifest_hash == base.rootfs.hash@
    &&& base.target_prefix is Some ==> evaluation.target_prefix == (base.target_prefix->0)@
    &&& base.target_prefix is None ==> evaluation.target_prefix == "/usr"@
    &&& base.lua_root is Some ==> evaluation.path == (base.lua_root->0)@
    &&& base.lua_root is None ==> evaluation.path == path_of("./chariot.lua"@)
    &&& evaluation.variables == Map::<Seq<char>, Seq<char>>::empty()
    &&& evaluation.native_packages == Set::<Seq<char>>::empty()
}

/// A run evaluates the profile that it was asked to build for; a prune evaluates each of the known
/// profiles in turn.
pub proof fn lemma_profiles_are_evaluated(
    request: InstallRequest,
    replies: RunReplies,
    command: StoreCommand,
    prune_replies: PruneReplies,
)
    ensures
        run_step(request, replies) matches RunStepSpec::Evaluate(evaluation)
            ==> replies.base_config is Some && evaluates(
            evaluation,
            replies.base_config->0,
            request.profile@,
        ),
        prune_step(command, prune_replies) matches PruneStepSpec::Evaluate { number, evaluation }
            ==> {
            &&& command == StoreCommand::Prune
            &&& number == prune_replies.evaluated
            &&& number < state_so_far(prune_replies).profiles.len()
            &&& prune_replies.base_config is Some
            &&& evaluates(
                evaluation,
                prune_replies.base_config->0,
                state_so_far(prune_replies).profiles[number as int],
            )
        },
{
}

/// A run asks for nothing that has come back already, and for each thing only when all that comes before
/// it is there; the required programs are looked up by their numbers, and the set of native packages is
/// got for the package that was found.
pub proof fn lemma_run_asks_once(request: InstallRequest, replies: RunReplies)
    ensures
        match run_step(request, replies) {
            RunStepSpec::PrepareCache => !replies.cache_prepared,
            RunStepSpec::ChooseProfile => replies.cache_prepared && replies.profile is None,
            RunStepSpec::AskUser => replies.profile == Some(ProfileStep::Ask),
            RunStepSpec::ReadBaseConfig => replies.base_config is None && (
            replies.profile matches Some(ProfileStep::Use(_))),
            RunStepSpec::Evaluate(evaluation) => replies.config is None || replies.live is None,
            RunStepSpec::SaveState => !replies.state_saved,
            RunStepSpec::FindRootFS => replies.rootfs is None && replies.state_saved,
            RunStepSpec::MakeRootFS => (replies.rootfs matches Some(None)) && !replies.rootfs_made,
            RunStepSpec::LookUpBinary(number) => number < 5 && number == replies.package_sets
                && replies.binaries@.len() <= number,
            RunStepSpec::GetPackageSet(name) => replies.package_sets < 5 && replies.package_sets
                < replies.binaries@.len() && (
            replies.binaries@[replies.package_sets as int] matches Some(found) && found@ == name),
            RunStepSpec::MakeDestination => !replies.dest_made && replies.package_sets >= 5,
            RunStepSpec::Install(order) => replies.installed@.len() < request.packages@.len(),
            RunStepSpec::Lookup { category, hash } => !replies.store_pruned
                && replies.installed@.len() >= request.packages@.len(),
            RunStepSpec::PruneStore(keep) => !replies.store_pruned,
            RunStepSpec::PruneLedger(keep) => !replies.ledger_pruned,
            RunStepSpec::PruneBuildCache(keep) => !replies.build_cache_pruned,
            RunStepSpec::Fail(message) => true,
            RunStepSpec::Done => replies.build_cache_pruned,
        },
{
    if let RunStepSpec::Install(order) = run_step(request, replies) {
        lemma_installed_as_asked_for(request, replies);
    }
}

/// A prune and a purge ask for nothing that has come back already, and take nothing away before it is
/// known what is to stay.
pub proof fn lemma_prune_asks_once(command: StoreCommand, replies: PruneReplies)
    ensures
        match prune_step(command, replies) {
            PruneStepSpec::RemoveLocalSources => !replies.local_sources_removed,
            PruneStepSpec::ReadBaseConfig => command == StoreCommand::Prune
                && replies.base_config is None,
            PruneStepSpec::LoadState => command == StoreCommand::Prune && replies.state is None,
            PruneStepSpec::Evaluate { number, evaluation } => command == StoreCommand::Prune
                && number == replies.evaluated && number < state_so_far(replies).profiles.len(),
            PruneStepSpec::CollectLive => replies.live is None,
            PruneStepSpec::Lookup { category, hash } => !replies.store_pruned
                && replies.live is Some && (replies.live->0)@.contains((category, hash)),
            PruneStepSpec::PruneStore(keep) => !replies.store_pruned && replies.live is Some,
            PruneStepSpec::PruneLedger(keep) => !replies.ledger_pruned && replies.store_pruned
                && replies.live is Some && keep == (replies.live->0)@,
            PruneStepSpec::SaveState => !replies.state_saved && command == StoreCommand::Prune,
            PruneStepSpec::Done => replies.store_pruned && replies.ledger_pruned && (command
                == StoreCommand::Prune ==> replies.state_saved),
        },
{
    if replies.live is Some {
        lemma_only_live_recipes_are_looked_up(replies.live->0, replies.lookups@);
    }
}

/// A run stops with a message only for a reason: the user does not want the new profile, the root file
/// system is another one, a required program is missing, a name is that of no package, or an
/// installation failed.
pub proof fn lemma_run_fails_for_a_reason(request: InstallRequest, replies: RunReplies)
    ensures
        run_step(request, replies) matches RunStepSpec::Fail(message) ==> {
            ||| replies.profile == Some(ProfileStep::Cancel) && message == "Canceled by user"@
            ||| replies.rootfs matches Some(Some(found)) && {
                let wanted = (replies.base_config->0).rootfs;
                &&& found.hash@ != wanted.hash@
                &&& message == (if found.version@ == wanted.version@ {
                    "Rootfs hash mismatch, expected `"@ + wanted.hash@ + "`, got `"@ + found.hash@
                        + "`"@
                } else {
                    "Rootfs version mismatch (current `"@ + found.hash@ + "`, wanted `"@
                        + wanted.hash@ + "). Delete current rootfs at convenience"@
                })
            }
            ||| {
                &&& replies.package_sets < 5
                &&& replies.package_sets < replies.binaries@.len()
                &&& replies.binaries@[replies.package_sets as int] is None
                &&& message
                    == "This rootfs manifest is missing a required package mapping for the `"@
                    + required_binary(replies.package_sets as int) + "` binary"@
            }
            ||| exists|i: int|
                {
                    let name = (#[trigger] request.packages@[i])@;
                    &&& 0 <= i < request.packages@.len()
                    &&& message == "Could not find a "@ + (if request.tool {
                        "tool"@
                    } else {
                        "package"@
                    }) + " with the name `"@ + name + "`"@
                    &&& forall|k: int|
                        0 <= k < (replies.config->0).packages@.len() ==> (#[trigger] (
                        replies.config->0).packages@[k]).name@ != name || (
                        replies.config->0).packages@[k].platform != asked_platform(request.tool)
                }
            ||| exists|i: int|
                0 <= i < replies.installed@.len() && (#[trigger] replies.installed@[i]) is Err
                    && message == install_failure_text((replies.installed@[i]->Err_0)@)
        },
{
    lemma_first_error(replies.installed@);
    if replies.config is Some {
        lemma_first_unknown((replies.config->0).packages@, request.packages@, request.tool);
    }
}

/// What is kept of the store, told directly. Of what is made in environments, the outcome that the ledger
/// has on a live recipe is kept; everything else is kept under the hash of the live recipe itself; and
/// nothing besides.
pub proof fn lemma_kept_is_what_live_recipes_stand_for(
    live: RecipeHashes,
    lookups: Seq<Option<u128>>,
    table: Map<(Seq<char>, Seq<u8>), Seq<u8>>,
    category: Seq<char>,
    hash: u128,
)
    requires
        answered_by(live, lookups, table),
    ensures
        ({
            let is_outcome = category == "install"@ || category == "pkg"@ || category
                == "source.prepare"@;
            &&& is_outcome ==> (kept_entries(live, lookups).contains((category, hash))
                <==> exists|recipe: u128|
                #[trigger] live@.contains((category, recipe)) && lookup_in(table, category, recipe)
                    == Some(hash))
            &&& !is_outcome ==> (kept_entries(live, lookups).contains((category, hash))
                <==> live@.contains((category, hash)))
        }),
{
    lemma_kept_entries(live, lookups, table, category, hash);
}

/// The ledger is asked about live recipes only, in the course of a run and of a prune.
pub proof fn lemma_only_live_recipes_are_looked_up(
    live: RecipeHashes,
    lookups: Seq<Option<u128>>,
)
    ensures
        keep_step(live, lookups) matches KeepStepSpec::Lookup { category, hash } ==> live@.contains(
            (category, hash),
        ) && (category == "install"@ || category == "pkg"@ || category == "source.prepare"@),
{
    let asked = recorded_items(live.items@);
    if lookups.len() < asked.len() {
        let k = lookups.len() as int;
        lemma_recorded_item(live.items@, k);
        let i = choose|i: int| 0 <= i < live.items@.len() && live.items@[i] == asked[k];
        assert(live.items@[i].0@ == asked[k].0@);
    }
}

proof fn lemma_recorded_item(items: Seq<(String, u128)>, k: int)
    requires
        0 <= k < recorded_items(items).len(),
    ensures
        items.contains(recorded_items(items)[k]),
        recorded_items(items)[k].0@ == "install"@ || recorded_items(items)[k].0@ == "pkg"@
            || recorded_items(items)[k].0@ == "source.prepare"@,
    decreases items.len(),
{
    let front = items.drop_last();
    if k < recorded_items(front).len() {
        lemma_recorded_item(front, k);
        let i = choose|i: int| 0 <= i < front.len() && front[i] == recorded_items(front)[k];
        assert(items[i] == recorded_items(items)[k]);
    } else {
        assert(items[items.len() - 1] == items.last());
    }
}

/// The recipes of a configuration: of each package what it installs and the package itself, and of each
/// source its base, its patches and its preparation; and there are no others.
pub proof fn lemma_recipes_of_a_configuration(config: Config, category: Seq<char>, hash: u128)
    ensures
        hashes_of_config(config).contains((category, hash)) <==> {
            ||| exists|i: int|
                0 <= i < config.packages@.len() && ((category == "install"@ && hash == (
                #[trigger] config.packages@[i]).content_hash()) || (category == "pkg"@ && hash
                    == config.packages@[i].package_hash()))
            ||| exists|i: int|
                0 <= i < config.sources@.len() && ((category == "source.base"@ && hash == (
                #[trigger] config.sources@[i]).base_hash()) || (category == "source.patch"@ && hash
                    == config.sources@[i].patch_hash(config.sources@[i].base_hash())) || (category
                    == "source.prepare"@ && hash == config.sources@[i].hash()))
        },
{
    let x = (category, hash);
    if hashes_of_config(config).contains(x) {
        if exists|i: int|
            0 <= i < config.packages@.len() && is_hash_of_package(
                *(#[trigger] config.packages@[i]),
                x,
            ) {
            let i = choose|i: int|
                0 <= i < config.packages@.len() && is_hash_of_package(
                    *(#[trigger] config.packages@[i]),
                    x,
                );
            assert(config.packages@[i].content_hash() == config.packages@[i].content_hash());
        } else {
            let i = choose|i: int|
                0 <= i < config.sources@.len() && is_hash_of_source(
                    *(#[trigger] config.sources@[i]),
                    x,
                );
            assert(config.sources@[i].base_hash() == config.sources@[i].base_hash());
        }
    }
}

/// What the work on a recipe looks up and records is known to the cleaning up: for a package of a
/// configuration, the recipe that the ledger is asked about and told of is one of the recipes of the
/// configuration.
#[verifier::spinoff_prover]
pub proof fn lemma_recipes_are_known_to_the_cleaning(
    config: Config,
    i: int,
    enabled: Seq<(PackagePlatform, String)>,
    replies: InstallReplies,
)
    requires
        0 <= i < config.packages@.len(),
    ensures
        match package_install_step(enabled, *config.packages@[i], replies) {
            InstallStepSpec::Lookup { category, hash } => hashes_of_config(config).contains(
                (category, hash),
            ),
            InstallStepSpec::Record { category, hash, effective_hash } => hashes_of_config(
                config,
            ).contains((category, hash)),
            _ => true,
        },
{
    let package = *config.packages@[i];
    lemma_outcome_is_known_under_one_hash(enabled, package, replies);
    assert(is_hash_of_package(*config.packages@[i], ("install"@, package.content_hash())));
}

/// So it is with what the work on a package looks up and records.
#[verifier::spinoff_prover]
pub proof fn lemma_packages_are_known_to_the_cleaning(
    config: Config,
    i: int,
    store: Seq<u8>,
    replies: PackageReplies,
)
    requires
        0 <= i < config.packages@.len(),
    ensures
        match package_step(store, *config.packages@[i], replies) {
            PackageStepSpec::Lookup { category, hash } => hashes_of_config(config).contains(
                (category, hash),
            ),
            PackageStepSpec::Record { category, hash, effective_hash } => hashes_of_config(
                config,
            ).contains((category, hash)),
            _ => true,
        },
{
    let package = *config.packages@[i];
    lemma_package_is_known_under_one_hash(store, package, replies);
    assert(is_hash_of_package(*config.packages@[i], ("pkg"@, package.package_hash())));
}

/// And so it is with what the work on a source looks up and records, and with what it puts into the store
/// under the hash of a recipe.
#[verifier::spinoff_prover]
pub proof fn lemma_sources_are_known_to_the_cleaning(
    config: Config,
    i: int,
    store: Seq<u8>,
    replies: SourceReplies,
)
    requires
        0 <= i < config.sources@.len(),
    ensures
        match source_step(store, *config.sources@[i], replies) {
            SourceStepSpec::Lookup { category, hash } => hashes_of_config(config).contains(
                (category, hash),
            ),
            SourceStepSpec::Record { category, hash, effective_hash } => hashes_of_config(
                config,
            ).contains((category, hash)),
            SourceStepSpec::Put { stage, from, category, hash } => category == "source.base"@
                || category == "source.patch"@ ==> hashes_of_config(config).contains(
                (category, hash),
            ),
            _ => true,
        },
{
    let source = *config.sources@[i];
    lemma_stages_are_known_under_one_hash(store, source, replies);
    lemma_prepare_is_another_category();
    assert(is_hash_of_source(*config.sources@[i], ("source.base"@, source.base_hash())));
    assert(is_hash_of_source(
        *config.sources@[i],
        ("source.patch"@, source.patch_hash(source.base_hash())),
    ));
    assert(is_hash_of_source(*config.sources@[i], ("source.prepare"@, source.hash())));
}

proof fn lemma_prepare_is_another_category()
    ensures
        "source.prepare"@ != "source.base"@,
        "source.prepare"@ != "source.patch"@,
{
    reveal_strlit("source.prepare");
    reveal_strlit("source.base");
    reveal_strlit("source.patch");
    assert("source.prepare"@.len() == 14);
    assert("source.base"@.len() == 11);
    assert("source.patch"@.len() == 12);
}

proof fn lemma_enabled_build_directories_are_kept(request: InstallRequest, replies: RunReplies)
    ensures
        run_step(request, replies) matches RunStepSpec::PruneBuildCache(keep) ==> keep
            == request.build_cache_enabled@,
{
}

/// The build directory of a package that outlives the build is not taken away by the run that keeps the
/// build directories of the same packages.
#[verifier::spinoff_prover]
pub proof fn lemma_kept_build_directories_stay(
    request: InstallRequest,
    replies: RunReplies,
    package: Package,
    install_replies: InstallReplies,
    arch: Seq<char>,
)
    requires
        package_install_step(request.build_cache_enabled@, package, install_replies) == (
        InstallStepSpec::GetBuildDirectory { cached: true }),
    ensures
        run_step(request, replies) matches RunStepSpec::PruneBuildCache(keep) ==> is_kept(
            dir_name(package.platform, arch, package.name@),
            keep,
        ),
{
    let enabled = request.build_cache_enabled@;
    lemma_enabled_build_directories_are_kept(request, replies);
    lemma_build_directory_is_kept_if_enabled(enabled, package, install_replies);
    let i = choose|i: int|
        0 <= i < enabled.len() && (#[trigger] enabled[i]).1@ == package.name@ && enabled[i].0
            == package.platform;
    lemma_kept_directory(enabled, i, arch);
}

} // verus!
