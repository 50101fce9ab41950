//! The course of a run that builds packages and installs them.

use crate::cli::evaluate::{evaluation_of, order_evaluation, Evaluation, EvaluationSpec};
use crate::cli::keep::{
    answered_by, copy_hashes, is_stored_for, keep_step, lemma_prune_leaves_the_live, next_for_keep,
    note_evaluation, KeepStep, KeepStepSpec,
};
use crate::cli::profile::{
    live_hashes, profile_step, profiles_after, InputState, ProfileStep, State, StateSpec,
};
use crate::cli::select::{
    first_unknown, found_packages, missing_binary_text, not_found_text, require_binary,
    required_binary, select_packages, REQUIRED_BINARY_COUNT,
};
use crate::config::base::{
    hash_mismatch_text, version_mismatch_text, BaseConfig, RootFSConfig, RootFSVerdict,
};
use crate::config::package::{Package, PackagePlatform};
use crate::config::Config;
use crate::execenv_create::{find_error, first_error, lemma_first_error};
use crate::hashes::{hashes_of_config, RecipeHashes};
use crate::install::{install_failure_text, InstallFailure, InstallOrder, OrderSpec};
use crate::ledger::{key_of, pruned_keys};
use crate::request::PkgSet;
use crate::store::{entry_name, is_live};
use crate::util::path::UnixPath;
use std::sync::Arc;
use vstd::prelude::*;
use vstd::utf8::encode_utf8;

verus! {

/// What is said when the user does not want to go on.
pub const CANCELED: &'static str = "Canceled by user";

/// What is to be installed.
#[derive(Debug)]
pub struct InstallRequest {
    /// the names are those of tools
    pub tool: bool,
    pub packages: Vec<String>,
    /// where to install them
    pub dest: UnixPath,
    /// install them even if they are already installed
    pub force: bool,
    /// the profile to build for
    pub profile: InputState,
    /// the packages that keep their build directories
    pub build_cache_enabled: Vec<(PackagePlatform, String)>,
}

/// The version and the hash of a root file system.
#[derive(Debug)]
pub struct RootFSIdentity {
    pub version: String,
    pub hash: String,
}

/// What has come back so far from a run.
pub struct RunReplies {
    /// the directories of the cache are there
    pub cache_prepared: bool,
    /// what is known of profiles
    pub state: Option<State>,
    /// what was decided last about the profile
    pub profile: Option<ProfileStep>,
    pub base_config: Option<BaseConfig>,
    pub config: Option<Config>,
    /// the recipes of all profiles
    pub live: Option<RecipeHashes>,
    /// the profiles have been written down
    pub state_saved: bool,
    /// the root file system that is there, if there is one
    pub rootfs: Option<Option<RootFSIdentity>>,
    /// there was none, and one has been made
    pub rootfs_made: bool,
    /// the packages of the required programs, in the order of the programs
    pub binaries: Vec<Option<String>>,
    /// for so many of them the sets of native packages are there
    pub package_sets: usize,
    /// the directory to install into is there
    pub dest_made: bool,
    /// how the installation of each package went, in their order
    pub installed: Vec<Result<(), InstallFailure>>,
    /// what the ledger has on the recipes that it was asked about
    pub lookups: Vec<Option<u128>>,
    pub store_pruned: bool,
    pub ledger_pruned: bool,
    pub build_cache_pruned: bool,
}

/// What to do next in a run.
#[derive(Debug)]
pub enum RunStep {
    /// make the directories of the cache, and take away the copies of local sources
    PrepareCache,
    /// read what is known of profiles, and decide about the profile with [`RunReplies::note_profile`]
    ChooseProfile,
    /// ask whether to go on with a new profile, and decide about it with
    /// [`RunReplies::note_profile`]
    AskUser,
    ReadBaseConfig,
    /// evaluate the configuration of the profile, and take note of it with
    /// [`RunReplies::note_config`]
    Evaluate(Evaluation),
    /// write down what is known of profiles
    SaveState,
    /// look for a root file system
    FindRootFS,
    /// make the root file system that is wanted
    MakeRootFS,
    /// look for the package of a required program
    LookUpBinary(usize),
    /// get the set of native packages that consists of this one
    GetPackageSet(String),
    /// make the directory to install into
    MakeDestination,
    /// build and install a package
    Install(InstallOrder),
    /// look up what the ledger has on a recipe
    Lookup { category: String, hash: u128 },
    /// take away from the store all but these
    PruneStore(RecipeHashes),
    /// take away from the ledger all but the rows of these recipes
    PruneLedger(RecipeHashes),
    /// take away all build directories but those of these packages
    PruneBuildCache(Vec<(PackagePlatform, String)>),
    /// stop with this message
    Fail(String),
    Done,
}

/// [`RunStep`] by its paths and texts.
pub enum RunStepSpec {
    PrepareCache,
    ChooseProfile,
    AskUser,
    ReadBaseConfig,
    Evaluate(EvaluationSpec),
    SaveState,
    FindRootFS,
    MakeRootFS,
    LookUpBinary(usize),
    GetPackageSet(Seq<char>),
    MakeDestination,
    Install(OrderSpec),
    Lookup { category: Seq<char>, hash: u128 },
    PruneStore(Set<(Seq<char>, u128)>),
    PruneLedger(Set<(Seq<char>, u128)>),
    PruneBuildCache(Seq<(PackagePlatform, String)>),
    Fail(Seq<char>),
    Done,
}

impl View for RunStep {
    type V = RunStepSpec;

    open spec fn view(&self) -> RunStepSpec {
        match self {
            RunStep::PrepareCache => RunStepSpec::PrepareCache,
            RunStep::ChooseProfile => RunStepSpec::ChooseProfile,
            RunStep::AskUser => RunStepSpec::AskUser,
            RunStep::ReadBaseConfig => RunStepSpec::ReadBaseConfig,
            RunStep::Evaluate(evaluation) => RunStepSpec::Evaluate(evaluation@),
            RunStep::SaveState => RunStepSpec::SaveState,
            RunStep::FindRootFS => RunStepSpec::FindRootFS,
            RunStep::MakeRootFS => RunStepSpec::MakeRootFS,
            RunStep::LookUpBinary(number) => RunStepSpec::LookUpBinary(*number),
            RunStep::GetPackageSet(name) => RunStepSpec::GetPackageSet(name@),
            RunStep::MakeDestination => RunStepSpec::MakeDestination,
            RunStep::Install(order) => RunStepSpec::Install(order@),
            RunStep::Lookup { category, hash } => RunStepSpec::Lookup {
                category: category@,
                hash: *hash,
            },
            RunStep::PruneStore(keep) => RunStepSpec::PruneStore(keep@),
            RunStep::PruneLedger(keep) => RunStepSpec::PruneLedger(keep@),
            RunStep::PruneBuildCache(keep) => RunStepSpec::PruneBuildCache(keep@),
            RunStep::Fail(message) => RunStepSpec::Fail(message@),
            RunStep::Done => RunStepSpec::Done,
        }
    }
}

/// What is known of profiles: nothing, unless it has been read.
pub open spec fn state_so_far(replies: RunReplies) -> StateSpec {
    match replies.state {
        Some(state) => state@,
        None => StateSpec { profiles: Seq::empty(), hashes: Map::empty() },
    }
}

impl RunReplies {
    /// What is known of profiles is valid.
    pub open spec fn wf(self) -> bool {
        self.state matches Some(state) ==> state.wf()
    }

    /// Decides about the profile of the run, given what the answer was if there was one.
    pub fn note_profile(&mut self, request: &InstallRequest, confirmed: Option<bool>)
        requires
            old(self).wf(),
            old(self).state is Some,
        ensures
            final(self).wf(),
            final(self).state is Some,
            state_so_far(*final(self)) == profiles_after(
                state_so_far(*old(self)),
                request.profile@,
                confirmed,
            ),
            final(self).profile == Some(
                profile_step(state_so_far(*old(self)), request.profile@, confirmed),
            ),
            *final(self) == (RunReplies {
                state: final(self).state,
                profile: final(self).profile,
                ..*old(self)
            }),
    {
        if let Some(state) = self.state.take() {
            let mut state: State = state;
            let step: ProfileStep = state.choose_profile(request.profile.copy(), confirmed);
            self.state = Some(state);
            self.profile = Some(step);
        }
    }

    /// Takes note of what the profile has been evaluated to, and of the recipes of all profiles.
    pub fn note_config(&mut self, config: Config)
        requires
            old(self).wf(),
            old(self).state is Some,
            old(self).profile matches Some(ProfileStep::Use(_)),
        ensures
            final(self).wf(),
            final(self).state is Some,
            state_so_far(*final(self)) == (StateSpec {
                hashes: state_so_far(*old(self)).hashes.insert(
                    old(self).profile->0->Use_0,
                    hashes_of_config(config),
                ),
                ..state_so_far(*old(self))
            }),
            final(self).config == Some(config),
            final(self).live is Some,
            (final(self).live->0)@ == live_hashes(state_so_far(*final(self))),
            *final(self) == (RunReplies {
                state: final(self).state,
                config: final(self).config,
                live: final(self).live,
                ..*old(self)
            }),
    {
        if let (Some(state), Some(ProfileStep::Use(number))) = (self.state.take(), self.profile) {
            let mut state: State = state;
            note_evaluation(&mut state, number, &config);
            self.live = Some(state.live_recipe_hashes());
            self.state = Some(state);
        }
        self.config = Some(config);
    }
}

/// What the configuration still needs, before its profile has been written down. Nothing if it has.
pub open spec fn config_stage(request: InstallRequest, replies: RunReplies) -> Option<RunStepSpec> {
    match replies.profile {
        None => Some(RunStepSpec::ChooseProfile),
        Some(ProfileStep::Ask) => Some(RunStepSpec::AskUser),
        Some(ProfileStep::Cancel) => Some(RunStepSpec::Fail(CANCELED@)),
        Some(ProfileStep::Use(_)) => match replies.base_config {
            None => Some(RunStepSpec::ReadBaseConfig),
            Some(base) => if replies.config is None || replies.live is None {
                Some(RunStepSpec::Evaluate(evaluation_of(base, request.profile@)))
            } else if !replies.state_saved {
                Some(RunStepSpec::SaveState)
            } else {
                None
            },
        },
    }
}

/// What the root file system still needs: if there is one, it has to have the wanted hash, and if
/// there is none, it is made. Nothing if it is there.
pub open spec fn rootfs_stage(wanted: RootFSConfig, replies: RunReplies) -> Option<RunStepSpec> {
    match replies.rootfs {
        None => Some(RunStepSpec::FindRootFS),
        Some(None) => if replies.rootfs_made {
            None
        } else {
            Some(RunStepSpec::MakeRootFS)
        },
        Some(Some(found)) => if found.hash@ == wanted.hash@ {
            None
        } else if found.version@ == wanted.version@ {
            Some(RunStepSpec::Fail(hash_mismatch_text(found.hash@, wanted.hash@)))
        } else {
            Some(RunStepSpec::Fail(version_mismatch_text(found.hash@, wanted.hash@)))
        },
    }
}

/// What the required programs still need: for each one its package is looked up, and then the set
/// of native packages with it is got. Nothing if all are there.
pub open spec fn binaries_stage(replies: RunReplies) -> Option<RunStepSpec> {
    let looked_up = replies.binaries@.len();
    let sets = replies.package_sets as int;
    if sets >= REQUIRED_BINARY_COUNT {
        None
    } else if looked_up <= sets {
        Some(RunStepSpec::LookUpBinary(replies.package_sets))
    } else {
        match replies.binaries@[sets] {
            None => Some(RunStepSpec::Fail(missing_binary_text(required_binary(sets)))),
            Some(package) => Some(RunStepSpec::GetPackageSet(package@)),
        }
    }
}

/// The installation of a package that was asked for: for its own architecture, where it was asked
/// for, and even if it is already installed if that was asked for.
pub open spec fn requested_order(request: InstallRequest, package: Arc<Package>) -> OrderSpec {
    OrderSpec {
        pkgset: PkgSet::Root,
        package,
        arch: package.arch(),
        dest_dir: request.dest@,
        dest_root_overlay: false,
        force: request.force,
    }
}

/// How what is not needed any more is taken away: from the store all but what the recipes of all
/// profiles were built into, from the ledger all but those recipes, and all build directories but
/// those that are to be kept.
pub open spec fn cleaning_step(request: InstallRequest, replies: RunReplies) -> RunStepSpec {
    if !replies.store_pruned {
        match keep_step(replies.live->0, replies.lookups@) {
            KeepStepSpec::Lookup { category, hash } => RunStepSpec::Lookup { category, hash },
            KeepStepSpec::Keep(keep) => RunStepSpec::PruneStore(keep),
        }
    } else if !replies.ledger_pruned {
        RunStepSpec::PruneLedger((replies.live->0)@)
    } else if !replies.build_cache_pruned {
        RunStepSpec::PruneBuildCache(request.build_cache_enabled@)
    } else {
        RunStepSpec::Done
    }
}

/// What the packages still need: all of them have to be known, then the place for them is made,
/// then they are installed one after the other, and then what is not needed any more is taken
/// away.
pub open spec fn packages_step(
    request: InstallRequest,
    packages: Seq<Arc<Package>>,
    replies: RunReplies,
) -> RunStepSpec {
    match first_unknown(packages, request.packages@, request.tool) {
        Some(name) => RunStepSpec::Fail(not_found_text(name, request.tool)),
        None => {
            let selected = found_packages(packages, request.packages@, request.tool);
            if !replies.dest_made {
                RunStepSpec::MakeDestination
            } else {
                match first_error(replies.installed@) {
                    Some(i) => RunStepSpec::Fail(
                        install_failure_text((replies.installed@[i]->Err_0)@),
                    ),
                    None => if replies.installed@.len() < selected.len() {
                        RunStepSpec::Install(
                            requested_order(request, selected[replies.installed@.len() as int]),
                        )
                    } else {
                        cleaning_step(request, replies)
                    },
                }
            }
        },
    }
}

/// What to do next in a run.
pub open spec fn run_step(request: InstallRequest, replies: RunReplies) -> RunStepSpec {
    if !replies.cache_prepared {
        RunStepSpec::PrepareCache
    } else {
        match config_stage(request, replies) {
            Some(step) => step,
            None => match rootfs_stage((replies.base_config->0).rootfs, replies) {
                Some(step) => step,
                None => match binaries_stage(replies) {
                    Some(step) => step,
                    None => packages_step(request, (replies.config->0).packages@, replies),
                },
            },
        }
    }
}

fn next_for_binaries(replies: &RunReplies) -> (r: Option<RunStep>)
    ensures
        match binaries_stage(*replies) {
            Some(step) => r matches Some(s) && s@ == step,
            None => r is None,
        },
{
    let number: usize = replies.package_sets;
    if number >= REQUIRED_BINARY_COUNT {
        return None;
    }
    if replies.binaries.len() <= number {
        return Some(RunStep::LookUpBinary(number));
    }
    let package: Option<String> = match &replies.binaries[number] {
        None => None,
        Some(package) => Some(package.clone()),
    };
    match require_binary(number, package) {
        Ok(package) => Some(RunStep::GetPackageSet(package)),
        Err(message) => Some(RunStep::Fail(message)),
    }
}

fn order_installation(request: &InstallRequest, package: Arc<Package>) -> (r: InstallOrder)
    ensures
        r@ == requested_order(*request, package),
{
    let arch: String = package.get_arch().to_string();
    InstallOrder {
        pkgset: PkgSet::Root,
        package,
        arch,
        dest_dir: request.dest.copy(),
        dest_root_overlay: false,
        force: request.force,
    }
}

fn copy_enabled(list: &Vec<(PackagePlatform, String)>) -> (r: Vec<(PackagePlatform, String)>)
    ensures
        r@ == list@,
{
    let mut out: Vec<(PackagePlatform, String)> = Vec::new();
    let mut i: usize = 0;
    while i < list.len()
        invariant
            0 <= i <= list@.len(),
            out@ == list@.take(i as int),
        decreases list@.len() - i,
    {
        out.push((list[i].0, list[i].1.clone()));
        assert(list@.take(i + 1) =~= list@.take(i as int).push(list@[i as int]));
        i = i + 1;
    }
    assert(list@.take(i as int) =~= list@);
    out
}

fn next_for_cleaning(request: &InstallRequest, live: &RecipeHashes, replies: &RunReplies) -> (r:
    RunStep)
    requires
        replies.live == Some(*live),
    ensures
        r@ == cleaning_step(*request, *replies),
{
    if !replies.store_pruned {
        match next_for_keep(live, &replies.lookups) {
            KeepStep::Lookup { category, hash } => RunStep::Lookup { category, hash },
            KeepStep::Keep(keep) => RunStep::PruneStore(keep),
        }
    } else if !replies.ledger_pruned {
        RunStep::PruneLedger(copy_hashes(live))
    } else if !replies.build_cache_pruned {
        RunStep::PruneBuildCache(copy_enabled(&request.build_cache_enabled))
    } else {
        RunStep::Done
    }
}

/// What to do next in a run that builds packages and installs them.
pub fn run_install(request: &InstallRequest, replies: &RunReplies) -> (r: RunStep)
    ensures
        r@ == run_step(*request, *replies),
{
    if !replies.cache_prepared {
        return RunStep::PrepareCache;
    }
    match replies.profile {
        None => return RunStep::ChooseProfile,
        Some(ProfileStep::Ask) => return RunStep::AskUser,
        Some(ProfileStep::Cancel) => return RunStep::Fail(CANCELED.to_string()),
        Some(ProfileStep::Use(_)) => {},
    }
    let base: &BaseConfig = match &replies.base_config {
        None => return RunStep::ReadBaseConfig,
        Some(base) => base,
    };
    let (config, live): (&Config, &RecipeHashes) = match (&replies.config, &replies.live) {
        (Some(config), Some(live)) => (config, live),
        _ => return RunStep::Evaluate(order_evaluation(base, &request.profile)),
    };
    if !replies.state_saved {
        return RunStep::SaveState;
    }
    match &replies.rootfs {
        None => return RunStep::FindRootFS,
        Some(None) => {
            if !replies.rootfs_made {
                return RunStep::MakeRootFS;
            }
        },
        Some(Some(found)) => {
            if let RootFSVerdict::Refuse(message) = base.rootfs.check(
                found.version.as_str(),
                found.hash.as_str(),
            ) {
                return RunStep::Fail(message);
            }
        },
    }
    if let Some(step) = next_for_binaries(replies) {
        return step;
    }
    match select_packages(&config.packages, &request.packages, request.tool) {
        Err(message) => RunStep::Fail(message),
        Ok(selected) => {
            if !replies.dest_made {
                return RunStep::MakeDestination;
            }
            if let Some(i) = find_error(&replies.installed) {
                if let Err(failure) = &replies.installed[i] {
                    return RunStep::Fail(failure.message());
                }
            }
            if replies.installed.len() < selected.len() {
                let package: Arc<Package> = selected[replies.installed.len()].clone();
                return RunStep::Install(order_installation(request, package));
            }
            next_for_cleaning(request, live, replies)
        },
    }
}

// ---------------------------------------------------------------------------
// Laws
// ---------------------------------------------------------------------------

/// Nothing is taken away before every package that was asked for has been installed, and a run is
/// over only when all of that has been done.
pub proof fn lemma_pruned_only_after_install(request: InstallRequest, replies: RunReplies)
    ensures
        ({
            let step = run_step(request, replies);
            &&& (step is PruneStore || step is PruneLedger || step is PruneBuildCache
                || step is Done) ==> replies.installed@.len() >= request.packages@.len() && forall|
                i: int,
            |
                0 <= i < replies.installed@.len() ==> replies.installed@[i] is Ok
            &&& step is PruneLedger ==> replies.store_pruned
            &&& step is Done ==> replies.store_pruned && replies.ledger_pruned
                && replies.build_cache_pruned
        }),
{
    lemma_first_error(replies.installed@);
}

/// Nothing is built before the profile is one that is known or has been confirmed and has been
/// written down, the root file system is the wanted one, the required programs are there, and every
/// name that was given is that of a package.
pub proof fn lemma_built_only_when_checked(request: InstallRequest, replies: RunReplies)
    ensures
        run_step(request, replies) matches RunStepSpec::Install(order) ==> {
            &&& replies.profile matches Some(ProfileStep::Use(_))
            &&& replies.state_saved
            &&& match replies.rootfs {
                Some(None) => replies.rootfs_made,
                Some(Some(found)) => found.hash@ == (replies.base_config->0).rootfs.hash@,
                None => false,
            }
            &&& replies.package_sets >= REQUIRED_BINARY_COUNT
            &&& first_unknown(
                (replies.config->0).packages@,
                request.packages@,
                request.tool,
            ) is None
            &&& order == requested_order(
                request,
                found_packages(
                    (replies.config->0).packages@,
                    request.packages@,
                    request.tool,
                )[replies.installed@.len() as int],
            )
        },
{
}

/// What is known of profiles is written down only when the configuration of the profile could be
/// evaluated, and never for a profile that the user does not want.
pub proof fn lemma_state_saved_only_when_evaluated(request: InstallRequest, replies: RunReplies)
    ensures
        run_step(request, replies) is SaveState ==> replies.config is Some && (
        replies.profile matches Some(ProfileStep::Use(_))),
        replies.cache_prepared && replies.profile == Some(ProfileStep::Cancel) ==> run_step(
            request,
            replies,
        ) == RunStepSpec::Fail(CANCELED@),
{
}

/// What a run leaves. Let `table` be what the ledger held when it was asked. The store keeps just
/// what is stored for a recipe of one of the profiles, and the ledger just the rows of such recipes.
pub proof fn lemma_what_an_install_leaves(
    request: InstallRequest,
    replies: RunReplies,
    table: Map<(Seq<char>, Seq<u8>), Seq<u8>>,
    records: Seq<(String, u128)>,
    category: Seq<char>,
    hash: u128,
)
    requires
        replies.live is Some,
        (replies.live->0)@ == live_hashes(state_so_far(replies)),
        answered_by(replies.live->0, replies.lookups@, table),
    ensures
        run_step(request, replies) matches RunStepSpec::PruneStore(keep) ==> (is_live(
            encode_utf8(entry_name(category, hash as nat)),
            keep,
        ) <==> is_stored_for(live_hashes(state_so_far(replies)), table, category, hash)),
        run_step(request, replies) matches RunStepSpec::PruneLedger(keep) ==> ((exists|i: int|
            0 <= i < records.len() && (#[trigger] records[i]).0@ == category && records[i].1
                == hash) ==> (!pruned_keys(records, keep).contains(key_of(category, hash))
            <==> live_hashes(state_so_far(replies)).contains((category, hash)))),
        run_step(request, replies) matches RunStepSpec::PruneBuildCache(keep) ==> keep
            == request.build_cache_enabled@,
{
    lemma_prune_leaves_the_live(
        replies.live->0,
        replies.lookups@,
        table,
        records,
        category,
        hash,
    );
}

} // verus!
