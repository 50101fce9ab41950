//! The hashes by which built things are known, each with its category.

use crate::config::package::Package;
use crate::config::source::Source;
use crate::config::Config;
use crate::util::feed::{enc_u128, feed_u128};
use crate::util::text::str_eq;
use crate::util::xxh3::{xxh3_128, xxh3_fed, Xxh3Hasher};
use vstd::prelude::*;

verus! {

/// A set of hashes, each with its category.
#[derive(Debug)]
pub struct RecipeHashes {
    pub items: Vec<(String, u128)>,
}

impl View for RecipeHashes {
    type V = Set<(Seq<char>, u128)>;

    open spec fn view(&self) -> Set<(Seq<char>, u128)> {
        Set::new(
            |x: (Seq<char>, u128)|
                exists|i: int|
                    0 <= i < self.items@.len() && (#[trigger] self.items@[i]).0@ == x.0
                        && self.items@[i].1 == x.1,
        )
    }
}

impl RecipeHashes {
    /// Nothing occurs twice.
    pub open spec fn wf(self) -> bool {
        forall|i: int, j: int|
            0 <= i < j < self.items@.len() ==> (#[trigger] self.items@[i]).0@ != (
            #[trigger] self.items@[j]).0@ || self.items@[i].1 != self.items@[j].1
    }

    /// The set without hashes.
    pub fn new() -> (r: RecipeHashes)
        ensures
            r.wf(),
            r@ == Set::<(Seq<char>, u128)>::empty(),
    {
        let r = RecipeHashes { items: Vec::new() };
        assert(r@ =~= Set::<(Seq<char>, u128)>::empty());
        r
    }

    /// Whether a hash is in the set.
    pub fn contains(&self, category: &str, hash: u128) -> (r: bool)
        ensures
            r == self@.contains((category@, hash)),
    {
        let mut i: usize = 0;
        while i < self.items.len()
            invariant
                0 <= i <= self.items@.len(),
                forall|j: int|
                    0 <= j < i ==> (#[trigger] self.items@[j]).0@ != category@ || self.items@[j].1
                        != hash,
            decreases self.items@.len() - i,
        {
            if self.items[i].1 == hash && str_eq(self.items[i].0.as_str(), category) {
                return true;
            }
            i = i + 1;
        }
        false
    }

    /// Puts a hash into the set.
    pub fn insert(&mut self, category: &str, hash: u128)
        ensures
            final(self)@ == old(self)@.insert((category@, hash)),
            old(self).wf() ==> final(self).wf(),
    {
        if self.contains(category, hash) {
            assert(self@ =~= old(self)@.insert((category@, hash)));
            return;
        }
        let ghost before = self.items@;
        self.items.push((category.to_string(), hash));
        proof {
            let after = self.items@;
            assert forall|x: (Seq<char>, u128)| self@.contains(x) == old(self)@.insert(
                (category@, hash),
            ).contains(x) by {
                if old(self)@.contains(x) {
                    let i = choose|i: int|
                        0 <= i < before.len() && (#[trigger] before[i]).0@ == x.0 && before[i].1
                            == x.1;
                    assert(after[i] == before[i]);
                }
                if x == (category@, hash) {
                    assert(after[before.len() as int].0@ == x.0);
                }
                if self@.contains(x) {
                    let i = choose|i: int|
                        0 <= i < after.len() && (#[trigger] after[i]).0@ == x.0 && after[i].1
                            == x.1;
                    if i < before.len() {
                        assert(before[i] == after[i]);
                    }
                }
            }
            assert(self@ =~= old(self)@.insert((category@, hash)));
            assert forall|i: int| 0 <= i < before.len() implies (#[trigger] before[i]).0@
                != category@ || before[i].1 != hash by {
                assert(!old(self)@.contains((category@, hash)));
            }
        }
    }

    /// Puts all hashes of another set into this one.
    pub fn insert_all(&mut self, other: &RecipeHashes)
        ensures
            final(self)@ == old(self)@.union(other@),
            old(self).wf() ==> final(self).wf(),
    {
        let mut i: usize = 0;
        let ghost base = self@;
        assert(self@ =~= base.union(prefix_set(other.items@, 0)));
        while i < other.items.len()
            invariant
                0 <= i <= other.items@.len(),
                self@ == base.union(prefix_set(other.items@, i as int)),
                old(self).wf() ==> self.wf(),
            decreases other.items@.len() - i,
        {
            self.insert(other.items[i].0.as_str(), other.items[i].1);
            proof {
                let x = (other.items@[i as int].0@, other.items@[i as int].1);
                assert(prefix_set(other.items@, i + 1) =~= prefix_set(
                    other.items@,
                    i as int,
                ).insert(x));
                assert(self@ =~= base.union(prefix_set(other.items@, i + 1)));
            }
            i = i + 1;
        }
        assert(prefix_set(other.items@, other.items@.len() as int) =~= other@);
    }
}

spec fn prefix_set(items: Seq<(String, u128)>, n: int) -> Set<(Seq<char>, u128)> {
    Set::new(
        |x: (Seq<char>, u128)|
            exists|i: int|
                0 <= i < n && (#[trigger] items[i]).0@ == x.0 && items[i].1 == x.1,
    )
}

// ---------------------------------------------------------------------------
// The hashes of a configuration
// ---------------------------------------------------------------------------

/// `x` is one of the hashes by which a package is known.
pub open spec fn is_hash_of_package(pkg: Package, x: (Seq<char>, u128)) -> bool {
    ||| x == ("install"@, pkg.content_hash())
    ||| x == ("pkg"@, pkg.package_hash())
}

/// `x` is one of the hashes by which a source is known.
pub open spec fn is_hash_of_source(source: Source, x: (Seq<char>, u128)) -> bool {
    ||| x == ("source.base"@, source.base_hash())
    ||| x == ("source.patch"@, source.patch_hash(source.base_hash()))
    ||| x == ("source.prepare"@, source.hash())
}

/// All hashes by which the packages and sources of a configuration are known.
pub open spec fn hashes_of_config(config: Config) -> Set<(Seq<char>, u128)> {
    Set::new(
        |x: (Seq<char>, u128)|
            {
                ||| exists|i: int|
                    0 <= i < config.packages@.len() && is_hash_of_package(
                        *(#[trigger] config.packages@[i]),
                        x,
                    )
                ||| exists|i: int|
                    0 <= i < config.sources@.len() && is_hash_of_source(
                        *(#[trigger] config.sources@[i]),
                        x,
                    )
            },
    )
}

spec fn partial_hashes(config: Config, packages: int, sources: int) -> Set<(Seq<char>, u128)> {
    Set::new(
        |x: (Seq<char>, u128)|
            {
                ||| exists|i: int|
                    0 <= i < packages && is_hash_of_package(*(#[trigger] config.packages@[i]), x)
                ||| exists|i: int|
                    0 <= i < sources && is_hash_of_source(*(#[trigger] config.sources@[i]), x)
            },
    )
}

/// All hashes by which the packages and sources of a configuration are known.
pub fn collect_all_hashes(config: &Config) -> (r: RecipeHashes)
    ensures
        r@ == hashes_of_config(*config),
        r.wf(),
{
    let mut hashes: RecipeHashes = RecipeHashes::new();
    let mut i: usize = 0;
    assert(hashes@ =~= partial_hashes(*config, 0, 0));
    while i < config.packages.len()
        invariant
            0 <= i <= config.packages@.len(),
            hashes@ == partial_hashes(*config, i as int, 0),
            hashes.wf(),
        decreases config.packages@.len() - i,
    {
        let content_hash: u128 = config.packages[i].get_content_hash();
        let package_hash: u128 = config.packages[i].get_package_hash();
        hashes.insert("install", content_hash);
        hashes.insert("pkg", package_hash);
        proof {
            let pkg = *config.packages@[i as int];
            let before = partial_hashes(*config, i as int, 0);
            let after = partial_hashes(*config, i + 1, 0);
            assert forall|x: (Seq<char>, u128)| #[trigger] after.contains(x) == (before.contains(x)
                || is_hash_of_package(pkg, x)) by {
                if is_hash_of_package(pkg, x) {
                    assert(is_hash_of_package(*config.packages@[i as int], x));
                }
            }
            assert(hashes@ =~= after);
        }
        i = i + 1;
    }
    let mut j: usize = 0;
    while j < config.sources.len()
        invariant
            0 <= j <= config.sources@.len(),
            hashes@ == partial_hashes(*config, config.packages@.len() as int, j as int),
            hashes.wf(),
        decreases config.sources@.len() - j,
    {
        let base_hash: u128 = config.sources[j].get_base_hash();
        let patch_hash: u128 = config.sources[j].get_patch_hash(base_hash);
        let prepare_hash: u128 = config.sources[j].get_prepare_hash(
            config.sources[j].get_prepare_base_hash(patch_hash),
        );
        hashes.insert("source.base", base_hash);
        hashes.insert("source.patch", patch_hash);
        hashes.insert("source.prepare", prepare_hash);
        proof {
            let source = *config.sources@[j as int];
            let n = config.packages@.len() as int;
            let before = partial_hashes(*config, n, j as int);
            let after = partial_hashes(*config, n, j + 1);
            assert forall|x: (Seq<char>, u128)| #[trigger] after.contains(x) == (before.contains(x)
                || is_hash_of_source(source, x)) by {
                if is_hash_of_source(source, x) {
                    assert(is_hash_of_source(*config.sources@[j as int], x));
                }
            }
            assert(hashes@ =~= after);
        }
        j = j + 1;
    }
    assert(hashes@ =~= hashes_of_config(*config));
    hashes
}

// ---------------------------------------------------------------------------
// Effective hashes
// ---------------------------------------------------------------------------

/// Things of these categories are stored under a hash of what went into them, which the ledger
/// knows by the hash of their recipe. All others are stored under the hash of their recipe.
pub open spec fn is_recorded_category(category: Seq<char>) -> bool {
    category == "install"@ || category == "pkg"@ || category == "source.prepare"@
}

/// The hash under which something is stored, if it is, given what the ledger has on it.
pub open spec fn effective_hash(category: Seq<char>, hash: u128, lookup: Option<u128>) -> Option<
    u128,
> {
    if is_recorded_category(category) {
        lookup
    } else {
        Some(hash)
    }
}

/// The hashes under which things are stored, given what the ledger has on each of them.
pub open spec fn effective_hashes(
    unresolved: Seq<(String, u128)>,
    lookups: Seq<Option<u128>>,
) -> Set<(Seq<char>, u128)> {
    Set::new(
        |x: (Seq<char>, u128)|
            exists|i: int|
                0 <= i < unresolved.len() && (#[trigger] unresolved[i]).0@ == x.0 && effective_hash(
                    unresolved[i].0@,
                    unresolved[i].1,
                    lookups[i],
                ) == Some(x.1),
    )
}

/// Whether things of a category are stored under the hash that the ledger has on them.
pub fn needs_lookup(category: &str) -> (r: bool)
    ensures
        r == is_recorded_category(category@),
{
    str_eq(category, "install") || str_eq(category, "pkg") || str_eq(category, "source.prepare")
}

/// The hashes under which things are stored. `lookups` holds, for each of them that the ledger
/// has to be asked about, what it has.
pub fn resolve_effective_hashes(
    unresolved_hashes: &Vec<(String, u128)>,
    lookups: &Vec<Option<u128>>,
) -> (r: RecipeHashes)
    requires
        lookups@.len() >= unresolved_hashes@.len(),
    ensures
        r@ == effective_hashes(unresolved_hashes@, lookups@),
        r.wf(),
{
    let mut resolved: RecipeHashes = RecipeHashes::new();
    let mut i: usize = 0;
    let ghost items = unresolved_hashes@;
    assert(resolved@ =~= effective_hashes(items.take(0), lookups@));
    while i < unresolved_hashes.len()
        invariant
            items == unresolved_hashes@,
            lookups@.len() >= items.len(),
            0 <= i <= items.len(),
            resolved@ == effective_hashes(items.take(i as int), lookups@),
            resolved.wf(),
        decreases items.len() - i,
    {
        let category: &str = unresolved_hashes[i].0.as_str();
        if needs_lookup(category) {
            match lookups[i] {
                Some(hash) => resolved.insert(category, hash),
                None => {},
            }
        } else {
            resolved.insert(category, unresolved_hashes[i].1);
        }
        proof {
            let before = items.take(i as int);
            let after = items.take(i + 1);
            let now = effective_hash(items[i as int].0@, items[i as int].1, lookups@[i as int]);
            assert forall|x: (Seq<char>, u128)| #[trigger]
                effective_hashes(after, lookups@).contains(x) == (effective_hashes(
                    before,
                    lookups@,
                ).contains(x) || (items[i as int].0@ == x.0 && now == Some(x.1))) by {
                if effective_hashes(before, lookups@).contains(x) {
                    let k = choose|k: int|
                        0 <= k < before.len() && (#[trigger] before[k]).0@ == x.0 && effective_hash(
                            before[k].0@,
                            before[k].1,
                            lookups@[k],
                        ) == Some(x.1);
                    assert(after[k] == before[k]);
                }
                if items[i as int].0@ == x.0 && now == Some(x.1) {
                    assert(after[i as int] == items[i as int]);
                }
                if effective_hashes(after, lookups@).contains(x) {
                    let k = choose|k: int|
                        0 <= k < after.len() && (#[trigger] after[k]).0@ == x.0 && effective_hash(
                            after[k].0@,
                            after[k].1,
                            lookups@[k],
                        ) == Some(x.1);
                    if k < i {
                        assert(before[k] == after[k]);
                    }
                }
            }
            assert(resolved@ =~= effective_hashes(after, lookups@));
        }
        i = i + 1;
    }
    assert(items.take(items.len() as int) =~= items);
    resolved
}

// ---------------------------------------------------------------------------
// Outcomes
// ---------------------------------------------------------------------------

/// The hash under which the outcome of a recipe is stored: it depends on the recipe and on what
/// its dependencies turned out to be, not on the recipes of the dependencies.
pub open spec fn outcome_hash(recipe_base: u128, deps_hash: u128) -> u128 {
    xxh3_128(enc_u128(recipe_base) + enc_u128(deps_hash))
}

/// The hash under which the outcome of a recipe is stored.
pub fn get_outcome_hash(recipe_base: u128, deps_hash: u128) -> (r: u128)
    ensures
        r == outcome_hash(recipe_base, deps_hash),
{
    let mut hasher: Xxh3Hasher = Xxh3Hasher::new();
    feed_u128(&mut hasher, recipe_base);
    assert(xxh3_fed(hasher) =~= enc_u128(recipe_base));
    feed_u128(&mut hasher, deps_hash);
    hasher.digest128()
}

} // verus!
