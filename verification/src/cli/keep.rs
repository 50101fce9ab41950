//! What a prune keeps: of the recipes those that are live, and of the store what they were built
//! into.

use crate::cli::profile::{
    lemma_used_profile_is_known, live_hashes, profile_step, profiles_after, ProfileSpec,
    ProfileStep, State, StateSpec,
};
use crate::config::Config;
use crate::hashes::{
    collect_all_hashes, effective_hash, effective_hashes, hashes_of_config, is_recorded_category,
    needs_lookup, resolve_effective_hashes, RecipeHashes,
};
use crate::ledger::{key_of, lemma_pruned_keys, lookup_in, pruned_keys};
use crate::store::{entry_name, is_live, lemma_prune_keeps_just_the_live};
use vstd::prelude::*;
use vstd::utf8::encode_utf8;

verus! {

/// The things that the ledger has to be asked about, in their order.
pub open spec fn recorded_items(items: Seq<(String, u128)>) -> Seq<(String, u128)>
    decreases items.len(),
{
    if items.len() == 0 {
        Seq::empty()
    } else if is_recorded_category(items.last().0@) {
        recorded_items(items.drop_last()).push(items.last())
    } else {
        recorded_items(items.drop_last())
    }
}

/// What the store is to keep for recipes, given what the ledger has on those that it has to be asked
/// about: what those were built into, and all others under their own hashes.
pub open spec fn kept_entries(
    live: RecipeHashes,
    lookups: Seq<Option<u128>>,
) -> Set<(Seq<char>, u128)> {
    effective_hashes(recorded_items(live.items@), lookups).union(
        live@.filter(|x: (Seq<char>, u128)| !is_recorded_category(x.0)),
    )
}

/// What to do next to find out what the store is to keep.
#[derive(Debug)]
pub enum KeepStep {
    /// look up what the ledger has on a recipe
    Lookup { category: String, hash: u128 },
    /// keep these
    Keep(RecipeHashes),
}

/// [`KeepStep`] by its texts.
pub enum KeepStepSpec {
    Lookup { category: Seq<char>, hash: u128 },
    Keep(Set<(Seq<char>, u128)>),
}

impl View for KeepStep {
    type V = KeepStepSpec;

    open spec fn view(&self) -> KeepStepSpec {
        match self {
            KeepStep::Lookup { category, hash } => KeepStepSpec::Lookup {
                category: category@,
                hash: *hash,
            },
            KeepStep::Keep(hashes) => KeepStepSpec::Keep(hashes@),
        }
    }
}

/// What to do next to find out what the store is to keep for recipes.
pub open spec fn keep_step(live: RecipeHashes, lookups: Seq<Option<u128>>) -> KeepStepSpec {
    let asked = recorded_items(live.items@);
    if lookups.len() < asked.len() {
        KeepStepSpec::Lookup {
            category: asked[lookups.len() as int].0@,
            hash: asked[lookups.len() as int].1,
        }
    } else {
        KeepStepSpec::Keep(kept_entries(live, lookups))
    }
}

fn list_recorded_items(items: &Vec<(String, u128)>) -> (r: Vec<(String, u128)>)
    ensures
        r@ == recorded_items(items@),
{
    let mut out: Vec<(String, u128)> = Vec::new();
    let mut i: usize = 0;
    assert(out@ =~= recorded_items(items@.take(0)));
    while i < items.len()
        invariant
            0 <= i <= items@.len(),
            out@ == recorded_items(items@.take(i as int)),
        decreases items@.len() - i,
    {
        assert(items@.take(i + 1).drop_last() =~= items@.take(i as int));
        if needs_lookup(items[i].0.as_str()) {
            out.push((items[i].0.clone(), items[i].1));
        }
        i = i + 1;
    }
    assert(items@.take(i as int) =~= items@);
    out
}

fn insert_unrecorded(kept: &mut RecipeHashes, live: &RecipeHashes)
    ensures
        final(kept)@ == old(kept)@.union(
            live@.filter(|x: (Seq<char>, u128)| !is_recorded_category(x.0)),
        ),
        old(kept).wf() ==> final(kept).wf(),
{
    let ghost base = kept@;
    let mut i: usize = 0;
    assert(kept@ =~= base.union(unrecorded_up_to(live.items@, 0)));
    while i < live.items.len()
        invariant
            0 <= i <= live.items@.len(),
            kept@ == base.union(unrecorded_up_to(live.items@, i as int)),
            old(kept).wf() ==> kept.wf(),
        decreases live.items@.len() - i,
    {
        let ghost before = unrecorded_up_to(live.items@, i as int);
        let ghost after = unrecorded_up_to(live.items@, i + 1);
        if !needs_lookup(live.items[i].0.as_str()) {
            kept.insert(live.items[i].0.as_str(), live.items[i].1);
            assert(after =~= before.insert((live.items@[i as int].0@, live.items@[i as int].1)));
        } else {
            assert(after =~= before);
        }
        assert(kept@ =~= base.union(after));
        i = i + 1;
    }
    assert(unrecorded_up_to(live.items@, live.items@.len() as int) =~= live@.filter(
        |x: (Seq<char>, u128)| !is_recorded_category(x.0),
    ));
}

spec fn unrecorded_up_to(items: Seq<(String, u128)>, n: int) -> Set<(Seq<char>, u128)> {
    Set::new(
        |x: (Seq<char>, u128)|
            !is_recorded_category(x.0) && exists|i: int|
                0 <= i < n && (#[trigger] items[i]).0@ == x.0 && items[i].1 == x.1,
    )
}

/// What to do next to find out what the store is to keep for recipes. `lookups` holds what the ledger
/// has on those that it was asked about so far.
pub fn next_for_keep(live: &RecipeHashes, lookups: &Vec<Option<u128>>) -> (r: KeepStep)
    ensures
        r@ == keep_step(*live, lookups@),
        r matches KeepStep::Keep(kept) ==> kept.wf(),
{
    let asked: Vec<(String, u128)> = list_recorded_items(&live.items);
    if lookups.len() < asked.len() {
        return KeepStep::Lookup {
            category: asked[lookups.len()].0.clone(),
            hash: asked[lookups.len()].1,
        };
    }
    let mut kept: RecipeHashes = resolve_effective_hashes(&asked, lookups);
    insert_unrecorded(&mut kept, live);
    KeepStep::Keep(kept)
}

/// A copy of a set of hashes.
pub fn copy_hashes(hashes: &RecipeHashes) -> (r: RecipeHashes)
    ensures
        r@ == hashes@,
        r.wf(),
{
    let mut out: RecipeHashes = RecipeHashes::new();
    out.insert_all(hashes);
    assert(Set::<(Seq<char>, u128)>::empty().union(hashes@) =~= hashes@);
    out
}

// ---------------------------------------------------------------------------
// Evaluations
// ---------------------------------------------------------------------------

/// The state after profiles have been evaluated to configurations, beginning with the first one.
pub open spec fn evaluated_state(state: StateSpec, configs: Seq<Config>) -> StateSpec
    decreases configs.len(),
{
    if configs.len() == 0 {
        state
    } else {
        let before = evaluated_state(state, configs.drop_last());
        StateSpec {
            hashes: before.hashes.insert(
                (configs.len() - 1) as usize,
                hashes_of_config(configs.last()),
            ),
            ..before
        }
    }
}

/// Takes note of what a profile has been evaluated to.
pub fn note_evaluation(state: &mut State, number: usize, config: &Config)
    requires
        old(state).wf(),
    ensures
        final(state).wf(),
        final(state)@ == (StateSpec {
            hashes: old(state)@.hashes.insert(number, hashes_of_config(*config)),
            ..old(state)@
        }),
{
    state.cache_hashes(number, collect_all_hashes(config));
}

// ---------------------------------------------------------------------------
// Laws
// ---------------------------------------------------------------------------

proof fn lemma_evaluated_hashes(state: StateSpec, configs: Seq<Config>, number: usize)
    requires
        configs.len() <= usize::MAX,
    ensures
        evaluated_state(state, configs).profiles == state.profiles,
        number < configs.len() ==> {
            &&& evaluated_state(state, configs).hashes.contains_key(number)
            &&& evaluated_state(state, configs).hashes[number] == hashes_of_config(
                configs[number as int],
            )
        },
        number >= configs.len() ==> evaluated_state(state, configs).hashes.contains_key(number)
            == state.hashes.contains_key(number),
    decreases configs.len(),
{
    if configs.len() > 0 {
        lemma_evaluated_hashes(state, configs.drop_last(), number);
        if number < configs.len() - 1 {
            assert(configs.drop_last()[number as int] == configs[number as int]);
        }
    }
}

/// The recipes of configurations, taken together.
pub open spec fn all_recipes(configs: Seq<Config>) -> Set<(Seq<char>, u128)> {
    Set::new(
        |x: (Seq<char>, u128)|
            exists|p: int|
                0 <= p < configs.len() && hashes_of_config(#[trigger] configs[p]).contains(x),
    )
}

/// Hashes are held only for profiles that are known.
pub open spec fn hashes_are_of_profiles(state: StateSpec) -> bool {
    forall|number: usize| #[trigger]
        state.hashes.contains_key(number) ==> number < state.profiles.len()
}

/// That stays so: a profile only ever gets hashes once it is known.
pub proof fn lemma_hashes_stay_of_profiles(
    state: StateSpec,
    profile: ProfileSpec,
    confirmed: Option<bool>,
    hashes: Set<(Seq<char>, u128)>,
)
    requires
        hashes_are_of_profiles(state),
        state.profiles.len() < usize::MAX,
    ensures
        ({
            let after = profiles_after(state, profile, confirmed);
            &&& hashes_are_of_profiles(after)
            &&& profile_step(state, profile, confirmed) matches ProfileStep::Use(number)
                ==> hashes_are_of_profiles(
                StateSpec { hashes: after.hashes.insert(number, hashes), ..after },
            )
        }),
{
    lemma_used_profile_is_known(state, profile, confirmed);
}

/// Once every known profile has been evaluated, the live recipes are just those of the
/// configurations of all known profiles, taken together.
pub proof fn lemma_live_are_all_recipes(state: StateSpec, configs: Seq<Config>)
    requires
        configs.len() == state.profiles.len(),
        configs.len() <= usize::MAX,
        hashes_are_of_profiles(state),
    ensures
        live_hashes(evaluated_state(state, configs)) == all_recipes(configs),
{
    let after = evaluated_state(state, configs);
    assert forall|x: (Seq<char>, u128)| live_hashes(after).contains(x) <==> all_recipes(
        configs,
    ).contains(x) by {
        if live_hashes(after).contains(x) {
            let number = choose|number: usize|
                #[trigger] after.hashes.contains_key(number) && after.hashes[number].contains(x);
            lemma_evaluated_hashes(state, configs, number);
            assert(hashes_of_config(configs[number as int]).contains(x));
        }
        if all_recipes(configs).contains(x) {
            let p = choose|p: int|
                0 <= p < configs.len() && hashes_of_config(#[trigger] configs[p]).contains(x);
            lemma_evaluated_hashes(state, configs, p as usize);
            assert(after.hashes.contains_key(p as usize));
        }
    }
    assert(live_hashes(after) =~= all_recipes(configs));
}

proof fn lemma_recorded_items(items: Seq<(String, u128)>, x: (String, u128))
    ensures
        recorded_items(items).contains(x) <==> is_recorded_category(x.0@) && items.contains(x),
    decreases items.len(),
{
    if items.len() > 0 {
        let front = items.drop_last();
        lemma_recorded_items(front, x);
        let all = recorded_items(items);
        let less = recorded_items(front);
        if items.contains(x) {
            let k = choose|k: int| 0 <= k < items.len() && items[k] == x;
            if k < front.len() {
                assert(front[k] == x);
            }
        }
        if front.contains(x) {
            let k = choose|k: int| 0 <= k < front.len() && front[k] == x;
            assert(items[k] == x);
        }
        if less.contains(x) {
            let k = choose|k: int| 0 <= k < less.len() && less[k] == x;
            assert(all[k] == x);
        }
        if is_recorded_category(items.last().0@) {
            assert(all[less.len() as int] == items.last());
            assert(items[items.len() - 1] == items.last());
            if all.contains(x) {
                let k = choose|k: int| 0 <= k < all.len() && all[k] == x;
                if k < less.len() {
                    assert(less[k] == x);
                }
            }
        }
    }
}

/// The answers are what a ledger with the given table has on the recipes that were asked about.
pub open spec fn answered_by(
    live: RecipeHashes,
    lookups: Seq<Option<u128>>,
    table: Map<(Seq<char>, Seq<u8>), Seq<u8>>,
) -> bool {
    let asked = recorded_items(live.items@);
    &&& lookups.len() >= asked.len()
    &&& forall|i: int|
        0 <= i < asked.len() ==> lookups[i] == lookup_in(
            table,
            (#[trigger] asked[i]).0@,
            asked[i].1,
        )
}

/// Something is stored for one of the recipes, as the ledger has it.
pub open spec fn is_stored_for(
    live: Set<(Seq<char>, u128)>,
    table: Map<(Seq<char>, Seq<u8>), Seq<u8>>,
    category: Seq<char>,
    hash: u128,
) -> bool {
    exists|recipe: u128|
        #[trigger] live.contains((category, recipe)) && effective_hash(
            category,
            recipe,
            lookup_in(table, category, recipe),
        ) == Some(hash)
}

/// What is kept is just what is stored for one of the live recipes, as the ledger has it.
pub proof fn lemma_kept_entries(
    live: RecipeHashes,
    lookups: Seq<Option<u128>>,
    table: Map<(Seq<char>, Seq<u8>), Seq<u8>>,
    category: Seq<char>,
    hash: u128,
)
    requires
        answered_by(live, lookups, table),
    ensures
        kept_entries(live, lookups).contains((category, hash)) <==> is_stored_for(
            live@,
            table,
            category,
            hash,
        ),
{
    let asked = recorded_items(live.items@);
    if effective_hashes(asked, lookups).contains((category, hash)) {
        let i = choose|i: int|
            0 <= i < asked.len() && (#[trigger] asked[i]).0@ == category && effective_hash(
                asked[i].0@,
                asked[i].1,
                lookups[i],
            ) == Some(hash);
        assert(asked.contains(asked[i]));
        lemma_recorded_items(live.items@, asked[i]);
        let k = choose|k: int| 0 <= k < live.items@.len() && live.items@[k] == asked[i];
        assert(live.items@[k].0@ == category);
        assert(live@.contains((category, asked[i].1)));
    }
    if live@.contains((category, hash)) && !is_recorded_category(category) {
        assert(effective_hash(category, hash, lookup_in(table, category, hash)) == Some(hash));
    }
    if is_stored_for(live@, table, category, hash) {
        let recipe = choose|recipe: u128|
            #[trigger] live@.contains((category, recipe)) && effective_hash(
                category,
                recipe,
                lookup_in(table, category, recipe),
            ) == Some(hash);
        if is_recorded_category(category) {
            let k = choose|k: int|
                0 <= k < live.items@.len() && (#[trigger] live.items@[k]).0@ == category
                    && live.items@[k].1 == recipe;
            assert(live.items@.contains(live.items@[k]));
            lemma_recorded_items(live.items@, live.items@[k]);
            let i = choose|i: int| 0 <= i < asked.len() && asked[i] == live.items@[k];
            assert(asked[i].0@ == category);
        }
    }
}

/// What a prune of the store and the ledger leaves. An entry of the store stays just when it is
/// stored for one of the live recipes, as the ledger had it before; a row of the ledger stays just
/// when its recipe is live.
pub proof fn lemma_prune_leaves_the_live(
    live: RecipeHashes,
    lookups: Seq<Option<u128>>,
    table: Map<(Seq<char>, Seq<u8>), Seq<u8>>,
    records: Seq<(String, u128)>,
    category: Seq<char>,
    hash: u128,
)
    requires
        answered_by(live, lookups, table),
    ensures
        is_live(encode_utf8(entry_name(category, hash as nat)), kept_entries(live, lookups))
            <==> is_stored_for(live@, table, category, hash),
        (exists|i: int|
            0 <= i < records.len() && (#[trigger] records[i]).0@ == category && records[i].1
                == hash) ==> (pruned_keys(records, live@).contains(key_of(category, hash))
            <==> !live@.contains((category, hash))),
{
    lemma_prune_keeps_just_the_live(category, hash, kept_entries(live, lookups));
    lemma_kept_entries(live, lookups, table, category, hash);
    lemma_pruned_keys(records, live@, category, hash);
}

/// With no live recipe, nothing stays in the store and in the ledger.
pub proof fn lemma_purge_leaves_nothing(
    live: RecipeHashes,
    lookups: Seq<Option<u128>>,
    file_name: Seq<u8>,
    records: Seq<(String, u128)>,
    i: int,
)
    requires
        live@ == Set::<(Seq<char>, u128)>::empty(),
    ensures
        !is_live(file_name, kept_entries(live, lookups)),
        0 <= i < records.len() ==> pruned_keys(records, live@).contains(
            key_of(records[i].0@, records[i].1),
        ),
{
    assert forall|x: (Seq<char>, u128)| !kept_entries(live, lookups).contains(x) by {
        let asked = recorded_items(live.items@);
        if effective_hashes(asked, lookups).contains(x) {
            let k = choose|k: int|
                0 <= k < asked.len() && (#[trigger] asked[k]).0@ == x.0 && effective_hash(
                    asked[k].0@,
                    asked[k].1,
                    lookups[k],
                ) == Some(x.1);
            assert(asked.contains(asked[k]));
            lemma_recorded_items(live.items@, asked[k]);
            let m = choose|m: int| 0 <= m < live.items@.len() && live.items@[m] == asked[k];
            assert(live@.contains((live.items@[m].0@, live.items@[m].1)));
        }
    }
    lemma_pruned_keys(records, live@, records[i].0@, records[i].1);
}

} // verus!
