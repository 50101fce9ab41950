//! The ledger: a table that says under which hash the outcome of a recipe is stored.
//!
//! A row has a category, the hash of the recipe and the hash of the outcome; both hashes are
//! held as 16 bytes, highest first. Category and recipe hash are the key.

use crate::hashes::RecipeHashes;
use crate::util::bytes::{
    be_bytes, be_value, from_be_bytes, lemma_be_round_trip, lemma_le_bytes_len, to_be_bytes,
};
use vstd::prelude::*;

verus! {

/// The key of a row.
#[derive(Debug)]
pub struct LedgerKey {
    pub category: String,
    pub hash: Vec<u8>,
}

/// A row.
#[derive(Debug)]
pub struct LedgerRow {
    pub key: LedgerKey,
    pub effective_hash: Vec<u8>,
}

/// What the table answered to a search for a key.
#[derive(Debug)]
pub enum LedgerAnswer {
    /// there is no such row
    NoRow,
    /// the effective hash of the row
    Row(Vec<u8>),
    /// the search failed
    Failed,
}

/// The table could not be read, or a row holds no hash.
#[derive(Debug, Clone, Copy, PartialEq, Eq, Structural)]
pub struct LedgerUnreadable;

/// The key under which the outcome of a recipe is recorded.
pub open spec fn key_of(category: Seq<char>, hash: u128) -> (Seq<char>, Seq<u8>) {
    (category, be_bytes(hash as nat, 16))
}

impl View for LedgerKey {
    type V = (Seq<char>, Seq<u8>);

    open spec fn view(&self) -> (Seq<char>, Seq<u8>) {
        (self.category@, self.hash@)
    }
}

/// The key under which the outcome of a recipe is recorded.
pub fn ledger_key(category: &str, hash: u128) -> (r: LedgerKey)
    ensures
        r@ == key_of(category@, hash),
{
    LedgerKey { category: category.to_string(), hash: to_be_bytes(hash) }
}

/// What a field that should hold a hash holds.
pub open spec fn hash_in(field: Seq<u8>) -> Option<u128> {
    if field.len() == 16 {
        Some(be_value(field) as u128)
    } else {
        None
    }
}

/// What a field that should hold a hash holds.
pub fn read_hash(field: &[u8]) -> (r: Option<u128>)
    ensures
        r == hash_in(field@),
{
    if field.len() == 16 {
        Some(from_be_bytes(field))
    } else {
        None
    }
}

/// The keys of the records that are not to stay, in their order.
pub open spec fn pruned_keys(
    records: Seq<(String, u128)>,
    exclude: Set<(Seq<char>, u128)>,
) -> Seq<(Seq<char>, Seq<u8>)>
    decreases records.len(),
{
    if records.len() == 0 {
        Seq::empty()
    } else {
        let rest = pruned_keys(records.drop_last(), exclude);
        let (category, hash) = records.last();
        if exclude.contains((category@, hash)) {
            rest
        } else {
            rest.push(key_of(category@, hash))
        }
    }
}

/// Keys by their views.
pub open spec fn keys_of(s: Seq<LedgerKey>) -> Seq<(Seq<char>, Seq<u8>)> {
    s.map_values(|k: LedgerKey| k@)
}

/// The ledger: how its rows are read and written.
pub struct Ledger;

impl Ledger {
    /// The effective hash that the table has under a key, if it has one.
    pub fn lookup(answer: &LedgerAnswer) -> (r: Result<Option<u128>, LedgerUnreadable>)
        ensures
            match answer {
                LedgerAnswer::NoRow => r == Ok::<Option<u128>, LedgerUnreadable>(None),
                LedgerAnswer::Row(field) => match hash_in(field@) {
                    Some(hash) => r == Ok::<Option<u128>, LedgerUnreadable>(Some(hash)),
                    None => r == Err::<Option<u128>, LedgerUnreadable>(LedgerUnreadable),
                },
                LedgerAnswer::Failed => r == Err::<Option<u128>, LedgerUnreadable>(LedgerUnreadable),
            },
    {
        match answer {
            LedgerAnswer::NoRow => Ok(None),
            LedgerAnswer::Row(field) => match read_hash(field.as_slice()) {
                Some(hash) => Ok(Some(hash)),
                None => Err(LedgerUnreadable),
            },
            LedgerAnswer::Failed => Err(LedgerUnreadable),
        }
    }

    /// The row that records the outcome of a recipe. It takes the place of a row with the same key.
    pub fn record(category: &str, hash: u128, effective_hash: u128) -> (r: LedgerRow)
        ensures
            r.key@ == key_of(category@, hash),
            r.effective_hash@ == be_bytes(effective_hash as nat, 16),
    {
        LedgerRow { key: ledger_key(category, hash), effective_hash: to_be_bytes(effective_hash) }
    }

    /// The keys of the rows that are to be deleted: all but those of recipes that are to stay.
    pub fn prune(records: &Vec<(String, u128)>, exclude: &RecipeHashes) -> (r: Vec<LedgerKey>)
        ensures
            keys_of(r@) == pruned_keys(records@, exclude@),
    {
        let mut out: Vec<LedgerKey> = Vec::new();
        let mut i: usize = 0;
        assert(keys_of(out@) =~= pruned_keys(records@.take(0), exclude@));
        while i < records.len()
            invariant
                0 <= i <= records@.len(),
                keys_of(out@) == pruned_keys(records@.take(i as int), exclude@),
            decreases records@.len() - i,
        {
            let ghost before = keys_of(out@);
            assert(records@.take(i + 1).drop_last() =~= records@.take(i as int));
            if !exclude.contains(records[i].0.as_str(), records[i].1) {
                let key: LedgerKey = ledger_key(records[i].0.as_str(), records[i].1);
                out.push(key);
                assert(keys_of(out@) =~= before.push(key@));
            }
            assert(keys_of(out@) =~= pruned_keys(records@.take(i + 1), exclude@));
            i = i + 1;
        }
        assert(records@.take(records@.len() as int) =~= records@);
        out
    }
}

// ---------------------------------------------------------------------------
// Laws
// ---------------------------------------------------------------------------

/// What a table has on a recipe.
pub open spec fn lookup_in(
    table: Map<(Seq<char>, Seq<u8>), Seq<u8>>,
    category: Seq<char>,
    hash: u128,
) -> Option<u128> {
    if table.contains_key(key_of(category, hash)) {
        hash_in(table[key_of(category, hash)])
    } else {
        None
    }
}

/// The table with a row in place of the one with its key.
pub open spec fn recorded_in(
    table: Map<(Seq<char>, Seq<u8>), Seq<u8>>,
    category: Seq<char>,
    hash: u128,
    effective_hash: u128,
) -> Map<(Seq<char>, Seq<u8>), Seq<u8>> {
    table.insert(key_of(category, hash), be_bytes(effective_hash as nat, 16))
}

/// A hash comes back from the table as it was put there.
pub proof fn lemma_hash_round_trip(hash: u128)
    ensures
        hash_in(be_bytes(hash as nat, 16)) == Some(hash),
{
    lemma_be_round_trip(hash);
    lemma_le_bytes_len(hash as nat, 16);
}

/// Two recipes never share a row.
pub proof fn lemma_key_injective(c1: Seq<char>, h1: u128, c2: Seq<char>, h2: u128)
    requires
        key_of(c1, h1) == key_of(c2, h2),
    ensures
        c1 == c2,
        h1 == h2,
{
    lemma_hash_round_trip(h1);
    lemma_hash_round_trip(h2);
}

/// A lookup gives the effective hash that was recorded last, and a record changes nothing for
/// other recipes.
pub proof fn lemma_lookup_after_record(
    table: Map<(Seq<char>, Seq<u8>), Seq<u8>>,
    category: Seq<char>,
    hash: u128,
    effective_hash: u128,
    other_category: Seq<char>,
    other_hash: u128,
)
    ensures
        lookup_in(recorded_in(table, category, hash, effective_hash), category, hash) == Some(
            effective_hash,
        ),
        (other_category, other_hash) != (category, hash) ==> lookup_in(
            recorded_in(table, category, hash, effective_hash),
            other_category,
            other_hash,
        ) == lookup_in(table, other_category, other_hash),
{
    lemma_hash_round_trip(effective_hash);
    if key_of(other_category, other_hash) == key_of(category, hash) {
        lemma_key_injective(other_category, other_hash, category, hash);
    }
}

/// A prune deletes the row of a recipe just when it is a record and not to stay.
pub proof fn lemma_pruned_keys(
    records: Seq<(String, u128)>,
    exclude: Set<(Seq<char>, u128)>,
    category: Seq<char>,
    hash: u128,
)
    ensures
        pruned_keys(records, exclude).contains(key_of(category, hash)) <==> !exclude.contains(
            (category, hash),
        ) && exists|i: int|
            0 <= i < records.len() && (#[trigger] records[i]).0@ == category && records[i].1 == hash,
    decreases records.len(),
{
    let key = key_of(category, hash);
    if records.len() > 0 {
        let front = records.drop_last();
        lemma_pruned_keys(front, exclude, category, hash);
        let all = pruned_keys(records, exclude);
        let less = pruned_keys(front, exclude);
        let last = records.last();
        if all.contains(key) {
            let k = choose|k: int| 0 <= k < all.len() && all[k] == key;
            if k < less.len() {
                assert(less[k] == key);
                assert(less.contains(key));
                let i = choose|i: int|
                    0 <= i < front.len() && (#[trigger] front[i]).0@ == category && front[i].1
                        == hash;
                assert(records[i] == front[i]);
            } else {
                lemma_key_injective(last.0@, last.1, category, hash);
                assert(records[records.len() - 1].0@ == category);
            }
        }
        if !exclude.contains((category, hash)) && exists|i: int|
            0 <= i < records.len() && (#[trigger] records[i]).0@ == category && records[i].1
                == hash {
            let i = choose|i: int|
                0 <= i < records.len() && (#[trigger] records[i]).0@ == category && records[i].1
                    == hash;
            if i < front.len() {
                assert(front[i] == records[i]);
                assert(less.contains(key));
                let k = choose|k: int| 0 <= k < less.len() && less[k] == key;
                assert(all[k] == key);
            } else {
                assert(all[less.len() as int] == key);
            }
        }
    }
}

} // verus!
