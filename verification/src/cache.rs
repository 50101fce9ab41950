//! A cache that holds work directories and a store in one place, under one lock.

use crate::hashes::RecipeHashes;
use crate::lock::LockOutcome;
use crate::store::{
    dropped, entry_path_in, is_live, path_bytes, paths_in, paths_to_remove, format_entry_name,
    EntryLockFailed, RenameOutcome,
};
use crate::util::path::{join_path, path_of, UnixPath};
use crate::util::text::hex;
use crate::workdir::child_path_in;
use std::sync::Arc;
use vstd::prelude::*;

verus! {

/// The part of the cache that holds the work directories.
pub const SUBDIR_WORK: &'static str = "work";

/// The part of the cache that holds what has been built.
pub const SUBDIR_STORE: &'static str = "store";

/// The cache.
#[derive(Debug)]
pub struct Cache {
    pub path: UnixPath,
}

/// The hashes of a list, each with its category.
pub open spec fn listed_hashes(s: Seq<(String, u64)>) -> Set<(Seq<char>, u128)> {
    Set::new(
        |x: (Seq<char>, u128)|
            exists|i: int| 0 <= i < s.len() && (#[trigger] s[i]).0@ == x.0 && s[i].1 as u128 == x.1,
    )
}

impl Cache {
    /// The part of the cache that holds the work directories.
    pub open spec fn work(self) -> Seq<u8> {
        join_path(self.path@, path_of(SUBDIR_WORK@))
    }

    /// The part of the cache that holds what has been built.
    pub open spec fn store(self) -> Seq<u8> {
        join_path(self.path@, path_of(SUBDIR_STORE@))
    }

    /// The cache in the directory at `path`.
    pub fn get(path: UnixPath) -> (r: Cache)
        ensures
            r.path == path,
    {
        Cache { path }
    }

    /// The directories that a cache consists of, which are made when it is opened.
    pub fn subdirectories(&self) -> (r: (UnixPath, UnixPath))
        ensures
            r.0@ == self.work(),
            r.1@ == self.store(),
    {
        (self.path.join(SUBDIR_WORK), self.path.join(SUBDIR_STORE))
    }

    /// Where the work directory with a number is.
    pub fn path_work_directory(&self, id: u128) -> (r: UnixPath)
        ensures
            r@ == child_path_in(self.work(), id),
    {
        self.path.join(SUBDIR_WORK).join(hex(id).as_str())
    }

    /// Where a thing that has been built is.
    pub fn path_store_entry(&self, category: &str, hash: u64) -> (r: UnixPath)
        ensures
            r@ == entry_path_in(self.store(), category@, hash as nat),
    {
        self.path.join(SUBDIR_STORE).join(format_entry_name(category, hash as u128).as_str())
    }

    /// The directories that are to be removed: all but those that hold something that is to stay.
    pub fn prune_store(&self, file_names: &Vec<Vec<u8>>, exclude: &Vec<(String, u64)>) -> (r: Vec<
        UnixPath,
    >)
        ensures
            path_bytes(r@) == paths_in(
                self.store(),
                dropped(file_names@, |name: Seq<u8>| is_live(name, listed_hashes(exclude@))),
            ),
    {
        let mut live: RecipeHashes = RecipeHashes::new();
        let mut i: usize = 0;
        assert(live@ =~= listed_hashes(exclude@.take(0)));
        while i < exclude.len()
            invariant
                0 <= i <= exclude@.len(),
                live@ == listed_hashes(exclude@.take(i as int)),
            decreases exclude@.len() - i,
        {
            live.insert(exclude[i].0.as_str(), exclude[i].1 as u128);
            proof {
                let before = exclude@.take(i as int);
                let after = exclude@.take(i + 1);
                let now = (exclude@[i as int].0@, exclude@[i as int].1 as u128);
                assert forall|x: (Seq<char>, u128)| #[trigger]
                    listed_hashes(after).contains(x) == listed_hashes(before).insert(
                        now,
                    ).contains(x) by {
                    if listed_hashes(before).contains(x) {
                        let k = choose|k: int|
                            0 <= k < before.len() && (#[trigger] before[k]).0@ == x.0
                                && before[k].1 as u128 == x.1;
                        assert(after[k] == before[k]);
                    }
                    if x == now {
                        assert(after[i as int] == exclude@[i as int]);
                    }
                    if listed_hashes(after).contains(x) {
                        let k = choose|k: int|
                            0 <= k < after.len() && (#[trigger] after[k]).0@ == x.0 && after[k].1 as u128
                                == x.1;
                        if k < i {
                            assert(before[k] == after[k]);
                        }
                    }
                }
                assert(live@ =~= listed_hashes(after));
            }
            i = i + 1;
        }
        assert(exclude@.take(exclude@.len() as int) =~= exclude@);
        paths_to_remove(&self.path.join(SUBDIR_STORE), file_names, &live)
    }
}

/// A work directory, which is removed when this value is dropped unless it has been moved to the
/// store.
#[derive(Debug)]
pub struct WorkDirectory {
    pub cache: Arc<Cache>,
    pub id: u128,
}

/// What to do when a new work directory could or could not be locked.
#[derive(Debug)]
pub enum CreateStep {
    /// the directory is there
    Created(WorkDirectory),
    /// somebody else was faster: try with another number
    Retry,
    /// stop with the error of the attempt to lock
    Fail,
}

/// What to do with a work directory that is to become an entry of the store.
#[derive(Debug)]
pub enum MoveStep {
    /// move the directory
    Rename { from: UnixPath, to: UnixPath },
    /// look for the entry, which somebody else has put there
    Reopen,
    /// the directory is the entry: keep it, and hold its lock shared
    Keep(StoreEntry),
    /// somebody else's directory is the entry: let go of the work directory
    Yield(StoreEntry),
    /// stop with the error of the attempt to move
    Fail,
}

impl WorkDirectory {
    /// What follows from an attempt to lock a work directory that has just been made.
    pub fn create(cache: &Arc<Cache>, id: u128, lock: LockOutcome) -> (r: CreateStep)
        ensures
            match lock {
                LockOutcome::Acquired => r matches CreateStep::Created(dir) && dir.cache == *cache
                    && dir.id == id,
                LockOutcome::Blocked => r is Retry,
                LockOutcome::Missing | LockOutcome::Failed => r is Fail,
            },
    {
        match lock {
            LockOutcome::Acquired => CreateStep::Created(WorkDirectory { cache: cache.clone(), id }),
            LockOutcome::Blocked => CreateStep::Retry,
            LockOutcome::Missing | LockOutcome::Failed => CreateStep::Fail,
        }
    }

    /// Where the work directory is.
    pub fn path(&self) -> (r: UnixPath)
        ensures
            r@ == child_path_in(self.cache.work(), self.id),
    {
        self.cache.path_work_directory(self.id)
    }

    /// What to do next to move the work directory to the store, given how the attempt to move it
    /// went and, if that found the entry there already, whether it could be opened.
    pub fn move_to_store(
        &self,
        category: &str,
        hash: u64,
        rename: Option<RenameOutcome>,
        reopened: Option<bool>,
    ) -> (r: MoveStep)
        ensures
            match rename {
                None => r matches MoveStep::Rename { from, to } && from@ == child_path_in(
                    self.cache.work(),
                    self.id,
                ) && to@ == entry_path_in(self.cache.store(), category@, hash as nat),
                Some(RenameOutcome::Done) => r matches MoveStep::Keep(entry) && entry.is_entry(
                    self.cache,
                    category@,
                    hash,
                ),
                Some(RenameOutcome::NotEmpty) => match reopened {
                    None => r is Reopen,
                    Some(true) => r matches MoveStep::Yield(entry) && entry.is_entry(
                        self.cache,
                        category@,
                        hash,
                    ),
                    Some(false) => r is Fail,
                },
                Some(RenameOutcome::Failed) => r is Fail,
            },
    {
        match rename {
            None => MoveStep::Rename {
                from: self.path(),
                to: self.cache.path_store_entry(category, hash),
            },
            Some(RenameOutcome::Done) => MoveStep::Keep(
                StoreEntry { cache: self.cache.clone(), category: category.to_string(), hash },
            ),
            Some(RenameOutcome::NotEmpty) => match reopened {
                None => MoveStep::Reopen,
                Some(true) => MoveStep::Yield(
                    StoreEntry { cache: self.cache.clone(), category: category.to_string(), hash },
                ),
                Some(false) => MoveStep::Fail,
            },
            Some(RenameOutcome::Failed) => MoveStep::Fail,
        }
    }
}

/// A thing in the store, which is locked against removal as long as this value lives.
#[derive(Debug)]
pub struct StoreEntry {
    pub cache: Arc<Cache>,
    pub category: String,
    pub hash: u64,
}

impl StoreEntry {
    /// The entry for a thing in a cache.
    pub open spec fn is_entry(self, cache: Arc<Cache>, category: Seq<char>, hash: u64) -> bool {
        self.cache == cache && self.category@ == category && self.hash == hash
    }

    /// The entry for a thing, if the store holds it: it does if there is a directory that could
    /// be locked, and does not if there is no such directory.
    pub fn get(cache: &Arc<Cache>, category: &str, hash: u64, lock: LockOutcome) -> (r: Result<
        Option<StoreEntry>,
        EntryLockFailed,
    >)
        ensures
            match lock {
                LockOutcome::Acquired => r matches Ok(Some(entry)) && entry.is_entry(
                    *cache,
                    category@,
                    hash,
                ),
                LockOutcome::Missing => r == Ok::<Option<StoreEntry>, EntryLockFailed>(None),
                _ => r == Err::<Option<StoreEntry>, EntryLockFailed>(EntryLockFailed),
            },
    {
        match lock {
            LockOutcome::Acquired => Ok(
                Some(
                    StoreEntry { cache: cache.clone(), category: category.to_string(), hash },
                ),
            ),
            LockOutcome::Missing => Ok(None),
            _ => Err(EntryLockFailed),
        }
    }

    /// Where the entry is.
    pub fn path(&self) -> (r: UnixPath)
        ensures
            r@ == entry_path_in(self.cache.store(), self.category@, self.hash as nat),
    {
        self.cache.path_store_entry(self.category.as_str(), self.hash)
    }

    /// The hash of the thing.
    pub fn hash(&self) -> (r: u64)
        ensures
            r == self.hash,
    {
        self.hash
    }
}

} // verus!
