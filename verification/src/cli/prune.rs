//! The course of a run that takes away what is not needed any more.

use crate::cli::evaluate::{evaluation_of, order_evaluation, Evaluation, EvaluationSpec};
use crate::cli::keep::{
    all_recipes, answered_by, copy_hashes, evaluated_state, hashes_are_of_profiles, is_stored_for,
    keep_step, lemma_live_are_all_recipes, lemma_prune_leaves_the_live,
    next_for_keep, note_evaluation, KeepStep, KeepStepSpec,
};
use crate::cli::profile::{live_hashes, State, StateSpec};
use crate::config::base::BaseConfig;
use crate::config::Config;
use crate::hashes::{hashes_of_config, RecipeHashes};
use crate::ledger::{key_of, pruned_keys};
use crate::store::{entry_name, is_live};
use vstd::prelude::*;
use vstd::utf8::encode_utf8;

verus! {

/// What is to be taken away.
#[derive(Debug, Clone, Copy, PartialEq, Eq, Structural)]
pub enum StoreCommand {
    /// what no profile needs
    Prune,
    /// everything
    Purge,
}

/// What has come back so far.
#[derive(Debug)]
pub struct PruneReplies {
    /// the copies of local sources have been taken away
    pub local_sources_removed: bool,
    pub base_config: Option<BaseConfig>,
    /// what is known of profiles
    pub state: Option<State>,
    /// so many of them have been evaluated anew
    pub evaluated: usize,
    /// the recipes that are to stay
    pub live: Option<RecipeHashes>,
    /// what the ledger has on those that it was asked about
    pub lookups: Vec<Option<u128>>,
    pub store_pruned: bool,
    pub ledger_pruned: bool,
    pub state_saved: bool,
}

/// What to do next.
#[derive(Debug)]
pub enum PruneStep {
    /// take away the copies of local sources
    RemoveLocalSources,
    ReadBaseConfig,
    /// read what is known of profiles
    LoadState,
    /// evaluate the configuration of the profile with a number, and take note of it with
    /// [`PruneReplies::note_evaluated`]
    Evaluate { number: usize, evaluation: Evaluation },
    /// find out which recipes are to stay, with [`PruneReplies::note_live`]
    CollectLive,
    /// look up what the ledger has on a recipe
    Lookup { category: String, hash: u128 },
    /// take away from the store all but these
    PruneStore(RecipeHashes),
    /// take away from the ledger all but the rows of these recipes
    PruneLedger(RecipeHashes),
    /// write down what is known of profiles
    SaveState,
    Done,
}

/// [`PruneStep`] by its paths and texts.
pub enum PruneStepSpec {
    RemoveLocalSources,
    ReadBaseConfig,
    LoadState,
    Evaluate { number: usize, evaluation: EvaluationSpec },
    CollectLive,
    Lookup { category: Seq<char>, hash: u128 },
    PruneStore(Set<(Seq<char>, u128)>),
    PruneLedger(Set<(Seq<char>, u128)>),
    SaveState,
    Done,
}

impl View for PruneStep {
    type V = PruneStepSpec;

    open spec fn view(&self) -> PruneStepSpec {
        match self {
            PruneStep::RemoveLocalSources => PruneStepSpec::RemoveLocalSources,
            PruneStep::ReadBaseConfig => PruneStepSpec::ReadBaseConfig,
            PruneStep::LoadState => PruneStepSpec::LoadState,
            PruneStep::Evaluate { number, evaluation } => PruneStepSpec::Evaluate {
                number: *number,
                evaluation: evaluation@,
            },
            PruneStep::CollectLive => PruneStepSpec::CollectLive,
            PruneStep::Lookup { category, hash } => PruneStepSpec::Lookup {
                category: category@,
                hash: *hash,
            },
            PruneStep::PruneStore(keep) => PruneStepSpec::PruneStore(keep@),
            PruneStep::PruneLedger(keep) => PruneStepSpec::PruneLedger(keep@),
            PruneStep::SaveState => PruneStepSpec::SaveState,
            PruneStep::Done => PruneStepSpec::Done,
        }
    }
}

/// The recipes that are to stay: those of all profiles, or none.
pub open spec fn recipes_to_keep(command: StoreCommand, state: StateSpec) -> Set<(Seq<char>, u128)> {
    match command {
        StoreCommand::Prune => live_hashes(state),
        StoreCommand::Purge => Set::empty(),
    }
}

/// The recipes that are to stay.
pub fn kept_recipes(command: StoreCommand, state: &State) -> (r: RecipeHashes)
    requires
        state.wf(),
    ensures
        r.wf(),
        r@ == recipes_to_keep(command, state@),
{
    match command {
        StoreCommand::Prune => state.live_recipe_hashes(),
        StoreCommand::Purge => RecipeHashes::new(),
    }
}

/// What is known of profiles: nothing, unless it has been read.
pub open spec fn state_so_far(replies: PruneReplies) -> StateSpec {
    match replies.state {
        Some(state) => state@,
        None => StateSpec { profiles: Seq::empty(), hashes: Map::empty() },
    }
}

impl PruneReplies {
    /// What is known of profiles is valid.
    pub open spec fn wf(self) -> bool {
        self.state matches Some(state) ==> state.wf()
    }

    /// Takes note of what the next profile has been evaluated to.
    pub fn note_evaluated(&mut self, config: &Config)
        requires
            old(self).wf(),
            old(self).state is Some,
            old(self).evaluated < usize::MAX,
        ensures
            final(self).wf(),
            final(self).state is Some,
            state_so_far(*final(self)) == (StateSpec {
                hashes: state_so_far(*old(self)).hashes.insert(
                    old(self).evaluated,
                    hashes_of_config(*config),
                ),
                ..state_so_far(*old(self))
            }),
            *final(self) == (PruneReplies {
                state: final(self).state,
                evaluated: (old(self).evaluated + 1) as usize,
                ..*old(self)
            }),
    {
        if let Some(state) = self.state.take() {
            let mut state: State = state;
            note_evaluation(&mut state, self.evaluated, config);
            self.state = Some(state);
        }
        self.evaluated = self.evaluated + 1;
    }

    /// Takes note of which recipes are to stay.
    pub fn note_live(&mut self, command: StoreCommand)
        requires
            old(self).wf(),
        ensures
            final(self).live is Some,
            (final(self).live->0)@ == recipes_to_keep(command, state_so_far(*old(self))),
            *final(self) == (PruneReplies { live: final(self).live, ..*old(self) }),
    {
        let live: RecipeHashes = match &self.state {
            Some(state) => kept_recipes(command, state),
            None => {
                let none: RecipeHashes = RecipeHashes::new();
                assert(none@ =~= recipes_to_keep(command, state_so_far(*self)));
                none
            },
        };
        self.live = Some(live);
    }
}

/// What is still to be evaluated before anything may be taken away. Nothing if all is.
pub open spec fn evaluation_stage(replies: PruneReplies) -> Option<PruneStepSpec> {
    match replies.base_config {
        None => Some(PruneStepSpec::ReadBaseConfig),
        Some(base) => match replies.state {
            None => Some(PruneStepSpec::LoadState),
            Some(state) => if replies.evaluated < state@.profiles.len() {
                Some(
                    PruneStepSpec::Evaluate {
                        number: replies.evaluated,
                        evaluation: evaluation_of(base, state@.profiles[replies.evaluated as int]),
                    },
                )
            } else {
                None
            },
        },
    }
}

/// How the recipes that are to stay are found, and then everything else is taken away: from the
/// store first, and from the ledger then.
pub open spec fn removal_step(command: StoreCommand, replies: PruneReplies) -> PruneStepSpec {
    match replies.live {
        None => PruneStepSpec::CollectLive,
        Some(live) => if !replies.store_pruned {
            match keep_step(live, replies.lookups@) {
                KeepStepSpec::Lookup { category, hash } => PruneStepSpec::Lookup { category, hash },
                KeepStepSpec::Keep(keep) => PruneStepSpec::PruneStore(keep),
            }
        } else if !replies.ledger_pruned {
            PruneStepSpec::PruneLedger(live@)
        } else if command == StoreCommand::Prune && !replies.state_saved {
            PruneStepSpec::SaveState
        } else {
            PruneStepSpec::Done
        },
    }
}

/// What to do next.
pub open spec fn prune_step(command: StoreCommand, replies: PruneReplies) -> PruneStepSpec {
    let missing = match command {
        StoreCommand::Prune => evaluation_stage(replies),
        StoreCommand::Purge => None,
    };
    if !replies.local_sources_removed {
        PruneStepSpec::RemoveLocalSources
    } else {
        match missing {
            Some(step) => step,
            None => removal_step(command, replies),
        }
    }
}

/// What to do next in a run that takes away what is not needed any more.
pub fn run_store(command: StoreCommand, replies: &PruneReplies) -> (r: PruneStep)
    ensures
        r@ == prune_step(command, *replies),
{
    if !replies.local_sources_removed {
        return PruneStep::RemoveLocalSources;
    }
    if command == StoreCommand::Prune {
        let base: &BaseConfig = match &replies.base_config {
            None => return PruneStep::ReadBaseConfig,
            Some(base) => base,
        };
        let state: &State = match &replies.state {
            None => return PruneStep::LoadState,
            Some(state) => state,
        };
        if replies.evaluated < state.known_input_states.len() {
            assert(state@.profiles[replies.evaluated as int]
                == state.known_input_states@[replies.evaluated as int]@);
            return PruneStep::Evaluate {
                number: replies.evaluated,
                evaluation: order_evaluation(base, &state.known_input_states[replies.evaluated]),
            };
        }
    }
    let live: &RecipeHashes = match &replies.live {
        None => return PruneStep::CollectLive,
        Some(live) => live,
    };
    if !replies.store_pruned {
        match next_for_keep(live, &replies.lookups) {
            KeepStep::Lookup { category, hash } => PruneStep::Lookup { category, hash },
            KeepStep::Keep(keep) => PruneStep::PruneStore(keep),
        }
    } else if !replies.ledger_pruned {
        PruneStep::PruneLedger(copy_hashes(live))
    } else if command == StoreCommand::Prune && !replies.state_saved {
        PruneStep::SaveState
    } else {
        PruneStep::Done
    }
}

// ---------------------------------------------------------------------------
// Laws
// ---------------------------------------------------------------------------

/// Unless everything is to go, nothing is taken away before every known profile has been evaluated
/// anew; and the ledger is touched only after the store.
pub proof fn lemma_pruned_only_after_evaluation(command: StoreCommand, replies: PruneReplies)
    ensures
        ({
            let step = prune_step(command, replies);
            &&& (step is PruneStore || step is PruneLedger) && command == StoreCommand::Prune
                ==> replies.state is Some && replies.evaluated >= state_so_far(
                replies,
            ).profiles.len()
            &&& step is PruneLedger ==> replies.store_pruned
            &&& step is Done ==> replies.store_pruned && replies.ledger_pruned
        }),
{
}

/// What a run leaves. Let `configs` be what the known profiles were evaluated to, and `table` what
/// the ledger held when it was asked. A prune leaves in the store just what is stored for a recipe of
/// one of these configurations, and in the ledger just the rows of such recipes; a purge leaves
/// nothing in either.
pub proof fn lemma_what_a_run_leaves(
    command: StoreCommand,
    replies: PruneReplies,
    before: StateSpec,
    configs: Seq<Config>,
    table: Map<(Seq<char>, Seq<u8>), Seq<u8>>,
    records: Seq<(String, u128)>,
    category: Seq<char>,
    hash: u128,
)
    requires
        replies.live is Some,
        (replies.live->0)@ == recipes_to_keep(command, state_so_far(replies)),
        answered_by(replies.live->0, replies.lookups@, table),
        command == StoreCommand::Prune ==> {
            &&& state_so_far(replies) == evaluated_state(before, configs)
            &&& configs.len() == before.profiles.len()
            &&& configs.len() <= usize::MAX
            &&& hashes_are_of_profiles(before)
        },
    ensures
        prune_step(command, replies) matches PruneStepSpec::PruneStore(keep) ==> (is_live(
            encode_utf8(entry_name(category, hash as nat)),
            keep,
        ) <==> command == StoreCommand::Prune && is_stored_for(
            all_recipes(configs),
            table,
            category,
            hash,
        )),
        prune_step(command, replies) matches PruneStepSpec::PruneLedger(keep) ==> ((exists|i: int|
            0 <= i < records.len() && (#[trigger] records[i]).0@ == category && records[i].1
                == hash) ==> (!pruned_keys(records, keep).contains(key_of(category, hash))
            <==> command == StoreCommand::Prune && all_recipes(configs).contains(
            (category, hash),
        ))),
{
    let live = replies.live->0;
    if command == StoreCommand::Prune {
        lemma_live_are_all_recipes(before, configs);
    }
    lemma_prune_leaves_the_live(live, replies.lookups@, table, records, category, hash);
}

/// Taking note of evaluations one after the other gives the state in which every profile has been
/// evaluated to its configuration.
pub proof fn lemma_evaluations_add_up(before: StateSpec, configs: Seq<Config>, config: Config)
    ensures
        evaluated_state(before, configs.push(config)) == (StateSpec {
            hashes: evaluated_state(before, configs).hashes.insert(
                configs.len() as usize,
                hashes_of_config(config),
            ),
            ..evaluated_state(before, configs)
        }),
{
    assert(configs.push(config).drop_last() =~= configs);
}

} // verus!
