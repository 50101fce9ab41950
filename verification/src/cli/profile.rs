//! The profiles that have been used: architecture and options, and for each the hashes of its
//! recipes when it was last evaluated.

use crate::hashes::RecipeHashes;
use crate::util::names::{env_of, lemma_find_some, NameMap};
use crate::util::text::str_eq;
use vstd::prelude::*;

verus! {

/// A profile: an architecture and options.
#[derive(Debug)]
pub struct InputState {
    pub arch: String,
    pub options: NameMap<String>,
}

/// [`InputState`] by its texts.
#[verifier::ext_equal]
pub struct ProfileSpec {
    pub arch: Seq<char>,
    pub options: Map<Seq<char>, Seq<char>>,
}

impl View for InputState {
    type V = ProfileSpec;

    open spec fn view(&self) -> ProfileSpec {
        ProfileSpec { arch: self.arch@, options: env_of(self.options) }
    }
}

/// All that one map says is what another says, too.
spec fn is_part_of(a: Map<Seq<char>, Seq<char>>, b: Map<Seq<char>, Seq<char>>) -> bool {
    forall|name: Seq<char>| #[trigger]
        a.contains_key(name) ==> b.contains_key(name) && a[name] == b[name]
}

fn is_contained(a: &NameMap<String>, b: &NameMap<String>) -> (r: bool)
    ensures
        r == is_part_of(env_of(*a), env_of(*b)),
{
    let mut i: usize = 0;
    while i < a.entries.len()
        invariant
            0 <= i <= a.entries@.len(),
            forall|k: int|
                0 <= k < i ==> env_of(*b).contains_key((#[trigger] a.entries@[k]).0@) && env_of(
                    *b,
                )[a.entries@[k].0@] == env_of(*a)[a.entries@[k].0@],
        decreases a.entries@.len() - i,
    {
        let name: &str = a.entries[i].0.as_str();
        proof {
            lemma_find_some(a.entries@, name@);
        }
        match (a.get(name), b.get(name)) {
            (Some(x), Some(y)) => {
                if !str_eq(x.as_str(), y.as_str()) {
                    assert(env_of(*a).contains_key(name@));
                    return false;
                }
            },
            _ => {
                assert(env_of(*a).contains_key(name@));
                return false;
            },
        }
        i = i + 1;
    }
    proof {
        assert forall|name: Seq<char>| #[trigger] env_of(*a).contains_key(name) implies env_of(
            *b,
        ).contains_key(name) && env_of(*a)[name] == env_of(*b)[name] by {
            lemma_find_some(a.entries@, name);
        }
    }
    true
}

impl InputState {
    /// A copy of this profile.
    pub fn copy(&self) -> (r: InputState)
        ensures
            r@ == self@,
    {
        InputState { arch: self.arch.clone(), options: self.options.copy() }
    }

    /// Whether two profiles are the same: the same architecture and the same options.
    pub fn same(&self, other: &InputState) -> (r: bool)
        ensures
            r == (self@ == other@),
    {
        if !str_eq(self.arch.as_str(), other.arch.as_str()) {
            return false;
        }
        let r = is_contained(&self.options, &other.options) && is_contained(
            &other.options,
            &self.options,
        );
        proof {
            if r {
                assert(self@.options =~= other@.options);
            }
        }
        r
    }
}

/// Profiles by their texts.
pub open spec fn profiles_of(s: Seq<InputState>) -> Seq<ProfileSpec> {
    s.map_values(|p: InputState| p@)
}

/// What is known of profiles.
#[derive(Debug)]
pub struct State {
    pub known_input_states: Vec<InputState>,
    /// the hashes of the recipes of profiles, by the numbers of the profiles
    pub cached_hashes: Vec<(usize, RecipeHashes)>,
}

/// [`State`] by its texts.
#[verifier::ext_equal]
pub struct StateSpec {
    pub profiles: Seq<ProfileSpec>,
    pub hashes: Map<usize, Set<(Seq<char>, u128)>>,
}

/// The place of a number in a list of entries.
pub open spec fn entry_at(entries: Seq<(usize, RecipeHashes)>, number: usize) -> Option<int>
    decreases entries.len(),
{
    if entries.len() == 0 {
        None
    } else {
        match entry_at(entries.drop_last(), number) {
            Some(i) => Some(i),
            None => if entries.last().0 == number {
                Some(entries.len() - 1)
            } else {
                None
            },
        }
    }
}

impl View for State {
    type V = StateSpec;

    open spec fn view(&self) -> StateSpec {
        StateSpec {
            profiles: profiles_of(self.known_input_states@),
            hashes: Map::new(
                |number: usize| entry_at(self.cached_hashes@, number) is Some,
                |number: usize|
                    self.cached_hashes@[entry_at(self.cached_hashes@, number)->0].1@,
            ),
        }
    }
}

proof fn lemma_entry_at(entries: Seq<(usize, RecipeHashes)>, number: usize)
    ensures
        match entry_at(entries, number) {
            Some(i) => 0 <= i < entries.len() && entries[i].0 == number && forall|k: int|
                0 <= k < i ==> (#[trigger] entries[k]).0 != number,
            None => forall|k: int| 0 <= k < entries.len() ==> (#[trigger] entries[k]).0 != number,
        },
    decreases entries.len(),
{
    if entries.len() > 0 {
        lemma_entry_at(entries.drop_last(), number);
        assert forall|k: int| 0 <= k < entries.len() - 1 implies entries.drop_last()[k]
            == #[trigger] entries[k] by {}
    }
}

/// The number of the first of the profiles that is the given one.
pub open spec fn position_of(profiles: Seq<ProfileSpec>, profile: ProfileSpec) -> Option<int>
    decreases profiles.len(),
{
    if profiles.len() == 0 {
        None
    } else {
        match position_of(profiles.drop_last(), profile) {
            Some(i) => Some(i),
            None => if profiles.last() == profile {
                Some(profiles.len() - 1)
            } else {
                None
            },
        }
    }
}

/// A number is in the set of a profile that is known.
pub open spec fn live_hashes(state: StateSpec) -> Set<(Seq<char>, u128)> {
    Set::new(
        |x: (Seq<char>, u128)|
            exists|number: usize|
                #[trigger] state.hashes.contains_key(number) && state.hashes[number].contains(x),
    )
}

/// What to do about the profile of a command.
#[derive(Debug, Clone, Copy, PartialEq, Eq, Structural)]
pub enum ProfileStep {
    /// go on with the profile with this number
    Use(usize),
    /// the profile is new: ask whether to go on
    Ask,
    /// stop
    Cancel,
}

/// What to do about a profile, given what the answer was if there was one.
pub open spec fn profile_step(
    state: StateSpec,
    profile: ProfileSpec,
    confirmed: Option<bool>,
) -> ProfileStep {
    match position_of(state.profiles, profile) {
        Some(i) => ProfileStep::Use(i as usize),
        None => match confirmed {
            None => ProfileStep::Ask,
            Some(false) => ProfileStep::Cancel,
            Some(true) => ProfileStep::Use(state.profiles.len() as usize),
        },
    }
}

/// The profiles after that: a new profile comes behind the others, once it is confirmed.
pub open spec fn profiles_after(
    state: StateSpec,
    profile: ProfileSpec,
    confirmed: Option<bool>,
) -> StateSpec {
    if position_of(state.profiles, profile) is None && confirmed == Some(true) {
        StateSpec { profiles: state.profiles.push(profile), ..state }
    } else {
        state
    }
}

impl Default for State {
    /// Nothing is known.
    fn default() -> (r: State)
        ensures
            r.wf(),
            r@.profiles == Seq::<ProfileSpec>::empty(),
            r@.hashes == Map::<usize, Set<(Seq<char>, u128)>>::empty(),
    {
        let r = State { known_input_states: Vec::new(), cached_hashes: Vec::new() };
        assert(r@.profiles =~= Seq::<ProfileSpec>::empty());
        assert(r@.hashes =~= Map::<usize, Set<(Seq<char>, u128)>>::empty());
        r
    }
}

impl State {
    /// No profile has two sets of hashes.
    pub open spec fn wf(self) -> bool {
        forall|i: int, j: int|
            0 <= i < j < self.cached_hashes@.len() ==> (#[trigger] self.cached_hashes@[i]).0 != (
            #[trigger] self.cached_hashes@[j]).0
    }

    fn position(&self, input_state: &InputState) -> (r: Option<usize>)
        ensures
            match (r, position_of(self@.profiles, input_state@)) {
                (None, None) => true,
                (Some(i), Some(at)) => i == at && i < self.known_input_states@.len(),
                _ => false,
            },
    {
        let mut found: Option<usize> = None;
        let mut i: usize = 0;
        let ghost all = profiles_of(self.known_input_states@);
        while i < self.known_input_states.len()
            invariant
                0 <= i <= self.known_input_states@.len(),
                all == profiles_of(self.known_input_states@),
                match (found, position_of(all.take(i as int), input_state@)) {
                    (None, None) => true,
                    (Some(k), Some(at)) => k == at && k < i,
                    _ => false,
                },
            decreases self.known_input_states@.len() - i,
        {
            assert(all.take(i + 1).drop_last() =~= all.take(i as int));
            let same: bool = self.known_input_states[i].same(input_state);
            if found.is_none() && same {
                found = Some(i);
            }
            i = i + 1;
        }
        assert(all.take(i as int) =~= all);
        found
    }

    /// What to do about the profile of a command, given what the answer was if there was one.
    pub fn choose_profile(&mut self, input_state: InputState, confirmed: Option<bool>) -> (r:
        ProfileStep)
        ensures
            r == profile_step(old(self)@, input_state@, confirmed),
            final(self)@ == profiles_after(old(self)@, input_state@, confirmed),
            old(self).wf() ==> final(self).wf(),
    {
        if let Some(i) = self.position(&input_state) {
            return ProfileStep::Use(i);
        }
        match confirmed {
            None => ProfileStep::Ask,
            Some(false) => ProfileStep::Cancel,
            Some(true) => {
                let number: usize = self.known_input_states.len();
                let ghost before = profiles_of(self.known_input_states@);
                let ghost profile = input_state@;
                self.known_input_states.push(input_state);
                assert(profiles_of(self.known_input_states@) =~= before.push(profile));
                assert(self@.hashes =~= old(self)@.hashes);
                ProfileStep::Use(number)
            },
        }
    }

    /// Puts the hashes of the recipes of a profile in the place of those that it had.
    pub fn cache_hashes(&mut self, number: usize, hashes: RecipeHashes)
        requires
            old(self).wf(),
        ensures
            final(self).wf(),
            final(self)@.profiles == old(self)@.profiles,
            final(self)@.hashes == old(self)@.hashes.insert(number, hashes@),
    {
        let ghost before = self.cached_hashes@;
        let mut i: usize = 0;
        while i < self.cached_hashes.len() && self.cached_hashes[i].0 != number
            invariant
                0 <= i <= self.cached_hashes@.len(),
                self.cached_hashes@ == before,
                self@.profiles == old(self)@.profiles,
                forall|k: int| 0 <= k < i ==> (#[trigger] self.cached_hashes@[k]).0 != number,
            decreases self.cached_hashes@.len() - i,
        {
            i = i + 1;
        }
        let ghost set = hashes@;
        if i < self.cached_hashes.len() {
            self.cached_hashes.set(i, (number, hashes));
        } else {
            self.cached_hashes.push((number, hashes));
        }
        proof {
            let after = self.cached_hashes@;
            assert forall|n: usize| entry_at(after, n) is Some <==> (entry_at(before, n) is Some
                || n == number) by {
                lemma_entry_at(before, n);
                lemma_entry_at(after, n);
                if let Some(k) = entry_at(before, n) {
                    assert(after[k].0 == n);
                }
                if n == number {
                    assert(after[i as int].0 == n);
                }
                if let Some(k) = entry_at(after, n) {
                    if n != number {
                        assert(before[k].0 == n);
                    }
                }
            }
            assert forall|n: usize| entry_at(after, n) is Some implies (#[trigger] self@.hashes[n])
                == old(self)@.hashes.insert(number, set)[n] by {
                lemma_entry_at(before, n);
                lemma_entry_at(after, n);
                let k = entry_at(after, n)->0;
                if n == number {
                    assert(after[i as int].0 == number);
                    assert(k == i);
                } else {
                    assert(before[k].0 == n);
                    let b = entry_at(before, n)->0;
                    assert(after[b].0 == n);
                    assert(k == b);
                }
            }
            assert(self@.hashes =~= old(self)@.hashes.insert(number, set));
        }
    }

    /// The hashes of the recipes of all profiles.
    pub fn live_recipe_hashes(&self) -> (r: RecipeHashes)
        requires
            self.wf(),
        ensures
            r.wf(),
            r@ == live_hashes(self@),
    {
        let mut live: RecipeHashes = RecipeHashes::new();
        let mut i: usize = 0;
        assert(live@ =~= hashes_up_to(self.cached_hashes@, 0));
        while i < self.cached_hashes.len()
            invariant
                0 <= i <= self.cached_hashes@.len(),
                live.wf(),
                live@ == hashes_up_to(self.cached_hashes@, i as int),
            decreases self.cached_hashes@.len() - i,
        {
            live.insert_all(&self.cached_hashes[i].1);
            proof {
                let s = self.cached_hashes@;
                assert forall|x: (Seq<char>, u128)| hashes_up_to(s, i + 1).contains(x) <==> (
                hashes_up_to(s, i as int).contains(x) || s[i as int].1@.contains(x)) by {
                    if hashes_up_to(s, i as int).contains(x) {
                        let k = choose|k: int| 0 <= k < i && (#[trigger] s[k]).1@.contains(x);
                        assert(s[k].1@.contains(x));
                    }
                    if s[i as int].1@.contains(x) {
                        assert(hashes_up_to(s, i + 1).contains(x));
                    }
                }
                assert(live@ =~= hashes_up_to(s, i + 1));
            }
            i = i + 1;
        }
        proof {
            let s = self.cached_hashes@;
            assert forall|x: (Seq<char>, u128)| live@.contains(x) <==> live_hashes(
                self@,
            ).contains(x) by {
                if live@.contains(x) {
                    let k = choose|k: int| 0 <= k < s.len() && (#[trigger] s[k]).1@.contains(x);
                    lemma_entry_at(s, s[k].0);
                    assert(self@.hashes.contains_key(s[k].0));
                }
                if live_hashes(self@).contains(x) {
                    let n = choose|n: usize|
                        #[trigger] self@.hashes.contains_key(n) && self@.hashes[n].contains(x);
                    lemma_entry_at(s, n);
                    let k = entry_at(s, n)->0;
                    assert(s[k].1@.contains(x));
                }
            }
            assert(live@ =~= live_hashes(self@));
        }
        live
    }
}

spec fn hashes_up_to(s: Seq<(usize, RecipeHashes)>, n: int) -> Set<(Seq<char>, u128)> {
    Set::new(|x: (Seq<char>, u128)| exists|k: int| 0 <= k < n && (#[trigger] s[k]).1@.contains(x))
}

// ---------------------------------------------------------------------------
// Laws
// ---------------------------------------------------------------------------

proof fn lemma_position_of(profiles: Seq<ProfileSpec>, profile: ProfileSpec)
    ensures
        match position_of(profiles, profile) {
            Some(i) => 0 <= i < profiles.len() && profiles[i] == profile,
            None => !profiles.contains(profile),
        },
    decreases profiles.len(),
{
    if profiles.len() > 0 {
        lemma_position_of(profiles.drop_last(), profile);
        if position_of(profiles, profile) is None {
            assert forall|i: int| 0 <= i < profiles.len() implies profiles[i] != profile by {
                if i < profiles.len() - 1 {
                    assert(profiles.drop_last()[i] == profiles[i]);
                }
            }
        }
    }
}

/// A profile is used only if it was known before or has been confirmed, and then it is the one
/// with that number; no known profile ever changes its number.
pub proof fn lemma_used_profile_is_known(
    state: StateSpec,
    profile: ProfileSpec,
    confirmed: Option<bool>,
)
    requires
        state.profiles.len() < usize::MAX,
    ensures
        profile_step(state, profile, confirmed) matches ProfileStep::Use(number) ==> {
            let after = profiles_after(state, profile, confirmed);
            &&& number < after.profiles.len()
            &&& after.profiles[number as int] == profile
            &&& state.profiles.contains(profile) || confirmed == Some(true)
        },
        ({
            let after = profiles_after(state, profile, confirmed);
            &&& state.profiles.len() <= after.profiles.len()
            &&& after.profiles.take(state.profiles.len() as int) == state.profiles
        }),
{
    lemma_position_of(state.profiles, profile);
    let after = profiles_after(state, profile, confirmed);
    assert(after.profiles.take(state.profiles.len() as int) =~= state.profiles);
}

/// A profile is asked about at most once: after it has been confirmed it is known, with the same
/// number.
pub proof fn lemma_profile_is_asked_about_once(state: StateSpec, profile: ProfileSpec, again: Option<bool>)
    requires
        state.profiles.len() < usize::MAX,
    ensures
        profile_step(profiles_after(state, profile, Some(true)), profile, again) == profile_step(
            state,
            profile,
            Some(true),
        ),
{
    let after = profiles_after(state, profile, Some(true));
    if position_of(state.profiles, profile) is None {
        assert(after.profiles.drop_last() =~= state.profiles);
    }
}

/// A profile that is refused leaves everything as it was.
pub proof fn lemma_refused_profile_changes_nothing(state: StateSpec, profile: ProfileSpec)
    ensures
        profiles_after(state, profile, Some(false)) == state,
        profiles_after(state, profile, None) == state,
{
}

/// Everything that a profile was last evaluated to is live, whichever profile is used now: an
/// evaluation of one profile takes away no hash of another.
pub proof fn lemma_other_profiles_stay_live(
    state: StateSpec,
    number: usize,
    hashes: Set<(Seq<char>, u128)>,
    other: usize,
    x: (Seq<char>, u128),
)
    requires
        number != other,
        state.hashes.contains_key(other),
        state.hashes[other].contains(x),
    ensures
        live_hashes(StateSpec { hashes: state.hashes.insert(number, hashes), ..state }).contains(x),
        forall|y: (Seq<char>, u128)|
            hashes.contains(y) ==> live_hashes(
                StateSpec { hashes: state.hashes.insert(number, hashes), ..state },
            ).contains(y),
{
    let after = StateSpec { hashes: state.hashes.insert(number, hashes), ..state };
    assert(after.hashes.contains_key(other));
    assert(after.hashes.contains_key(number));
}

} // verus!
