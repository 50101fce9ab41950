//! The store: a directory that holds what has been built, one directory for each thing.

use crate::hashes::{effective_hash, effective_hashes, RecipeHashes};
use crate::lock::LockOutcome;
use crate::util::bytes::bytes_eq;
use crate::util::path::{join_path, path_of, UnixPath};
use crate::util::text::{
    digit_char, hex, hex_text, lemma_numeral_digits, lemma_numeral_injective, lemma_utf8_injective,
};
use crate::workdir::WorkDirectory;
use std::sync::Arc;
use vstd::prelude::*;
use vstd::utf8::encode_utf8;

verus! {

/// The store.
#[derive(Debug)]
pub struct Store {
    pub path: UnixPath,
}

/// The name of the directory of a thing: its category, a dash, and its hash in hexadecimal.
pub open spec fn entry_name(category: Seq<char>, hash: nat) -> Seq<char> {
    category + "-"@ + hex_text(hash)
}

/// Where a store at `path` holds a thing.
pub open spec fn entry_path_in(path: Seq<u8>, category: Seq<char>, hash: nat) -> Seq<u8> {
    join_path(path, path_of(entry_name(category, hash)))
}

/// A directory in the store holds something that is to stay.
pub open spec fn is_live(file_name: Seq<u8>, exclude: Set<(Seq<char>, u128)>) -> bool {
    exists|x: (Seq<char>, u128)|
        #[trigger] exclude.contains(x) && file_name == encode_utf8(entry_name(x.0, x.1 as nat))
}

/// The name of the directory of a thing.
pub fn format_entry_name(category: &str, hash: u128) -> (r: String)
    ensures
        r@ == entry_name(category@, hash as nat),
{
    let mut name: String = category.to_string();
    name.append("-");
    name.append(hex(hash).as_str());
    name
}

/// Whether a directory with the given name holds something that is to stay.
pub fn is_live_entry(file_name: &[u8], exclude: &RecipeHashes) -> (r: bool)
    ensures
        r == is_live(file_name@, exclude@),
{
    let mut i: usize = 0;
    while i < exclude.items.len()
        invariant
            0 <= i <= exclude.items@.len(),
            forall|j: int|
                0 <= j < i ==> file_name@ != encode_utf8(
                    entry_name((#[trigger] exclude.items@[j]).0@, exclude.items@[j].1 as nat),
                ),
        decreases exclude.items@.len() - i,
    {
        let name: String = format_entry_name(exclude.items[i].0.as_str(), exclude.items[i].1);
        if bytes_eq(file_name, name.as_str().as_bytes()) {
            proof {
                let x = (exclude.items@[i as int].0@, exclude.items@[i as int].1);
                assert(exclude@.contains(x));
            }
            return true;
        }
        i = i + 1;
    }
    false
}

/// The names among `names` of which `keep` does not hold, in their order.
pub open spec fn dropped(names: Seq<Vec<u8>>, keep: spec_fn(Seq<u8>) -> bool) -> Seq<Seq<u8>>
    decreases names.len(),
{
    if names.len() == 0 {
        Seq::empty()
    } else if keep(names.last()@) {
        dropped(names.drop_last(), keep)
    } else {
        dropped(names.drop_last(), keep).push(names.last()@)
    }
}

/// The paths of entries of a directory.
pub open spec fn paths_in(dir: Seq<u8>, names: Seq<Seq<u8>>) -> Seq<Seq<u8>> {
    names.map_values(|name: Seq<u8>| join_path(dir, name))
}

/// The bytes of paths.
pub open spec fn path_bytes(s: Seq<UnixPath>) -> Seq<Seq<u8>> {
    s.map_values(|p: UnixPath| p@)
}

/// Just the names that are not kept are dropped.
pub proof fn lemma_dropped(names: Seq<Vec<u8>>, keep: spec_fn(Seq<u8>) -> bool, name: Seq<u8>)
    ensures
        dropped(names, keep).contains(name) <==> !keep(name) && exists|i: int|
            0 <= i < names.len() && (#[trigger] names[i])@ == name,
    decreases names.len(),
{
    if names.len() > 0 {
        let front = names.drop_last();
        lemma_dropped(front, keep, name);
        let all = dropped(names, keep);
        let less = dropped(front, keep);
        if all.contains(name) {
            let k = choose|k: int| 0 <= k < all.len() && all[k] == name;
            if k < less.len() {
                assert(less[k] == name);
                assert(less.contains(name));
                let i = choose|i: int| 0 <= i < front.len() && (#[trigger] front[i])@ == name;
                assert(names[i]@ == name);
            } else {
                assert(names[names.len() - 1]@ == name);
            }
        }
        if !keep(name) && exists|i: int| 0 <= i < names.len() && (#[trigger] names[i])@ == name {
            let i = choose|i: int| 0 <= i < names.len() && (#[trigger] names[i])@ == name;
            if i < front.len() {
                assert(front[i]@ == name);
                assert(less.contains(name));
                let k = choose|k: int| 0 <= k < less.len() && less[k] == name;
                assert(all[k] == name);
            } else {
                assert(all[less.len() as int] == name);
            }
        }
    }
}

impl Store {
    /// The store in the directory at `path`.
    pub fn get(path: UnixPath) -> (r: Store)
        ensures
            r.path == path,
    {
        Store { path }
    }

    /// Where the store holds a thing.
    pub fn entry_path(&self, category: &str, hash: u128) -> (r: UnixPath)
        ensures
            r@ == entry_path_in(self.path@, category@, hash as nat),
    {
        self.path.join(format_entry_name(category, hash).as_str())
    }

    /// The directories in the store that are to be removed: all but those that hold something
    /// that is to stay.
    pub fn prune_store(&self, file_names: &Vec<Vec<u8>>, exclude: &RecipeHashes) -> (r: Vec<
        UnixPath,
    >)
        ensures
            path_bytes(r@) == paths_in(
                self.path@,
                dropped(file_names@, |name: Seq<u8>| is_live(name, exclude@)),
            ),
    {
        paths_to_remove(&self.path, file_names, exclude)
    }
}

/// The entries of the directory `dir` that do not hold something that is to stay.
pub fn paths_to_remove(
    dir: &UnixPath,
    file_names: &Vec<Vec<u8>>,
    exclude: &RecipeHashes,
) -> (r: Vec<UnixPath>)
    ensures
        path_bytes(r@) == paths_in(
            dir@,
            dropped(file_names@, |name: Seq<u8>| is_live(name, exclude@)),
        ),
{
    let ghost keep = |name: Seq<u8>| is_live(name, exclude@);
    let mut out: Vec<UnixPath> = Vec::new();
    let mut i: usize = 0;
    assert(path_bytes(out@) =~= paths_in(dir@, dropped(file_names@.take(0), keep)));
    while i < file_names.len()
        invariant
            keep == (|name: Seq<u8>| is_live(name, exclude@)),
            0 <= i <= file_names@.len(),
            path_bytes(out@) == paths_in(dir@, dropped(file_names@.take(i as int), keep)),
        decreases file_names@.len() - i,
    {
        let ghost before = path_bytes(out@);
        proof {
            assert(file_names@.take(i + 1).drop_last() =~= file_names@.take(i as int));
        }
        if !is_live_entry(file_names[i].as_slice(), exclude) {
            let path: UnixPath = dir.join_bytes(file_names[i].as_slice());
            out.push(path);
            assert(path_bytes(out@) =~= before.push(path@));
        }
        assert(path_bytes(out@) =~= paths_in(dir@, dropped(file_names@.take(i + 1), keep)));
        i = i + 1;
    }
    assert(file_names@.take(file_names@.len() as int) =~= file_names@);
    out
}

// ---------------------------------------------------------------------------
// Entries
// ---------------------------------------------------------------------------

/// A thing in the store, which is locked against removal as long as this value lives.
#[derive(Debug)]
pub struct StoreEntry {
    pub store: Arc<Store>,
    pub category: String,
    pub hash: u128,
}

/// Something went wrong with the lock of an entry.
#[derive(Debug, Clone, Copy, PartialEq, Eq, Structural)]
pub struct EntryLockFailed;

/// How an attempt to move a directory into the store went.
#[derive(Debug, Clone, Copy, PartialEq, Eq, Structural)]
pub enum RenameOutcome {
    /// the directory has been moved
    Done,
    /// there is such a directory already, and it is not empty
    NotEmpty,
    /// anything else went wrong
    Failed,
}

/// What to do with a work directory that is to become an entry of the store.
#[derive(Debug)]
pub enum StoreStep {
    /// move the directory
    Rename { from: UnixPath, to: UnixPath },
    /// look for the entry, which somebody else has put there
    Reopen,
    /// the directory is the entry: keep it, and hold its lock shared
    Keep(StoreEntry),
    /// somebody else's directory is the entry: let go of the work directory
    Yield(StoreEntry),
    /// stop with the error of the attempt to move
    Fail,
}

impl StoreEntry {
    /// The entry for a thing in a store.
    pub open spec fn is_entry(self, store: Arc<Store>, category: Seq<char>, hash: u128) -> bool {
        self.store == store && self.category@ == category && self.hash == hash
    }

    /// The entry for a thing, if the store holds it: it does if there is a directory that could
    /// be locked, and does not if there is no such directory.
    pub fn get(store: &Arc<Store>, category: &str, hash: u128, lock: LockOutcome) -> (r: Result<
        Option<StoreEntry>,
        EntryLockFailed,
    >)
        ensures
            match lock {
                LockOutcome::Acquired => r matches Ok(Some(entry)) && entry.is_entry(
                    *store,
                    category@,
                    hash,
                ),
                LockOutcome::Missing => r == Ok::<Option<StoreEntry>, EntryLockFailed>(None),
                _ => r == Err::<Option<StoreEntry>, EntryLockFailed>(EntryLockFailed),
            },
    {
        match lock {
            LockOutcome::Acquired => Ok(
                Some(
                    StoreEntry { store: store.clone(), category: category.to_string(), hash },
                ),
            ),
            LockOutcome::Missing => Ok(None),
            _ => Err(EntryLockFailed),
        }
    }

    /// What to do next to make a work directory an entry of the store, given how the attempt to
    /// move it went and, if that found the entry there already, whether it could be opened.
    pub fn from_workdir(
        store: &Arc<Store>,
        workdir: &WorkDirectory,
        category: &str,
        hash: u128,
        rename: Option<RenameOutcome>,
        reopened: Option<bool>,
    ) -> (r: StoreStep)
        ensures
            match rename {
                None => r matches StoreStep::Rename { from, to } && from@ == workdir.path_bytes()
                    && to@ == entry_path_in(store.path@, category@, hash as nat),
                Some(RenameOutcome::Done) => r matches StoreStep::Keep(entry) && entry.is_entry(
                    *store,
                    category@,
                    hash,
                ),
                Some(RenameOutcome::NotEmpty) => match reopened {
                    None => r is Reopen,
                    Some(true) => r matches StoreStep::Yield(entry) && entry.is_entry(
                        *store,
                        category@,
                        hash,
                    ),
                    Some(false) => r is Fail,
                },
                Some(RenameOutcome::Failed) => r is Fail,
            },
    {
        match rename {
            None => StoreStep::Rename {
                from: workdir.path(),
                to: store.entry_path(category, hash),
            },
            Some(RenameOutcome::Done) => StoreStep::Keep(
                StoreEntry { store: store.clone(), category: category.to_string(), hash },
            ),
            Some(RenameOutcome::NotEmpty) => match reopened {
                None => StoreStep::Reopen,
                Some(true) => StoreStep::Yield(
                    StoreEntry { store: store.clone(), category: category.to_string(), hash },
                ),
                Some(false) => StoreStep::Fail,
            },
            Some(RenameOutcome::Failed) => StoreStep::Fail,
        }
    }

    /// Where the entry is.
    pub fn path(&self) -> (r: UnixPath)
        ensures
            r@ == entry_path_in(self.store.path@, self.category@, self.hash as nat),
    {
        self.store.entry_path(self.category.as_str(), self.hash)
    }
}

// ---------------------------------------------------------------------------
// Laws
// ---------------------------------------------------------------------------

proof fn lemma_hex_has_no_dash(n: nat)
    ensures
        forall|i: int| 0 <= i < hex_text(n).len() ==> #[trigger] hex_text(n)[i] != '-',
{
    lemma_numeral_digits(n, 16);
    assert forall|i: int| 0 <= i < hex_text(n).len() implies #[trigger] hex_text(n)[i] != '-' by {
        let d = choose|d: nat| d < 16 && hex_text(n)[i] == digit_char(d);
        assert(digit_char(d) != '-');
    }
}

/// Two things never share a directory: the name of the directory tells category and hash, even
/// if categories hold dashes.
pub proof fn lemma_entry_name_injective(c1: Seq<char>, h1: nat, c2: Seq<char>, h2: nat)
    requires
        entry_name(c1, h1) == entry_name(c2, h2),
    ensures
        c1 == c2,
        h1 == h2,
{
    reveal_strlit("-");
    lemma_hex_has_no_dash(h1);
    lemma_hex_has_no_dash(h2);
    let n = entry_name(c1, h1);
    let a = hex_text(h1);
    let b = hex_text(h2);
    assert(n.len() == c1.len() + 1 + a.len());
    assert(n.len() == c2.len() + 1 + b.len());
    assert(n[c1.len() as int] == '-');
    assert(n[c2.len() as int] == '-');
    if c1.len() < c2.len() {
        assert(n[c2.len() as int] == a[c2.len() - c1.len() - 1]);
    } else if c2.len() < c1.len() {
        assert(n[c1.len() as int] == b[c1.len() - c2.len() - 1]);
    }
    assert(c1 =~= n.take(c1.len() as int));
    assert(c2 =~= n.take(c2.len() as int));
    assert(a =~= n.skip(c1.len() as int + 1));
    assert(b =~= n.skip(c2.len() as int + 1));
    lemma_numeral_injective(h1, h2, 16);
}

/// The directory of a thing is kept by a prune just when the thing is to stay: neither is
/// something that is to stay ever removed, nor something else kept in its stead.
pub proof fn lemma_prune_keeps_just_the_live(
    category: Seq<char>,
    hash: u128,
    exclude: Set<(Seq<char>, u128)>,
)
    ensures
        is_live(encode_utf8(entry_name(category, hash as nat)), exclude) <==> exclude.contains(
            (category, hash),
        ),
{
    let name = encode_utf8(entry_name(category, hash as nat));
    if exclude.contains((category, hash)) {
        assert(is_live(name, exclude));
    }
    if is_live(name, exclude) {
        let x = choose|x: (Seq<char>, u128)|
            #[trigger] exclude.contains(x) && name == encode_utf8(entry_name(x.0, x.1 as nat));
        lemma_utf8_injective(entry_name(category, hash as nat), entry_name(x.0, x.1 as nat));
        lemma_entry_name_injective(category, hash as nat, x.0, x.1 as nat);
        assert(x == (category, hash));
    }
}

/// With nothing that is to stay, every directory is removed.
pub proof fn lemma_purge_keeps_nothing(file_name: Seq<u8>)
    ensures
        !is_live(file_name, Set::<(Seq<char>, u128)>::empty()),
{
}

/// What the recipe of a live thing was last built into survives a prune of the store with the
/// effective hashes of all live recipes.
pub proof fn lemma_live_recipes_survive(
    unresolved: Seq<(String, u128)>,
    lookups: Seq<Option<u128>>,
    i: int,
)
    requires
        lookups.len() == unresolved.len(),
        0 <= i < unresolved.len(),
        effective_hash(unresolved[i].0@, unresolved[i].1, lookups[i]) is Some,
    ensures
        ({
            let stored = effective_hash(unresolved[i].0@, unresolved[i].1, lookups[i])->0;
            is_live(
                encode_utf8(entry_name(unresolved[i].0@, stored as nat)),
                effective_hashes(unresolved, lookups),
            )
        }),
{
    let stored = effective_hash(unresolved[i].0@, unresolved[i].1, lookups[i])->0;
    let x = (unresolved[i].0@, stored);
    assert(effective_hashes(unresolved, lookups).contains(x));
    lemma_prune_keeps_just_the_live(x.0, x.1, effective_hashes(unresolved, lookups));
}

} // verus!
