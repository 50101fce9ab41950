//! Where things are in the cache.

use crate::util::path::{join_path, path_of, UnixPath};
use vstd::prelude::*;

verus! {

pub const DEFAULT_CACHE_PATH: &'static str = ".chariot-cache";

pub const DEFAULT_ROOTFS_PATH: &'static str = ".chariot-rootfs";

pub const CACHE_SUBDIR_STORE: &'static str = "store";

pub const CACHE_SUBDIR_BUILD_CACHE: &'static str = "builddirs";

pub const CACHE_SUBDIR_WORKDIRS: &'static str = "workdirs";

pub const CACHE_SUBDIR_LOCAL_SOURCES: &'static str = "localsrc";

pub const CACHE_FILENAME_LEDGER: &'static str = "ledger.db";

pub const CACHE_FILENAME_STATE: &'static str = "state.json";

pub const CACHE_FILENAME_GITIGNORE: &'static str = ".gitignore";

/// Keeps the cache out of version control.
pub const GITIGNORE_TEXT: &'static str = "# Generated by Chariot\n*";

/// Where things are in a cache.
#[derive(Debug)]
pub struct CacheLayout {
    pub store: UnixPath,
    pub build_cache: UnixPath,
    pub workdirs: UnixPath,
    pub local_sources: UnixPath,
    pub ledger: UnixPath,
    pub state: UnixPath,
    pub gitignore: UnixPath,
}

impl CacheLayout {
    /// Where things are in the cache at a path.
    pub fn of(cache: &UnixPath) -> (r: CacheLayout)
        ensures
            r.store@ == join_path(cache@, path_of(CACHE_SUBDIR_STORE@)),
            r.build_cache@ == join_path(cache@, path_of(CACHE_SUBDIR_BUILD_CACHE@)),
            r.workdirs@ == join_path(cache@, path_of(CACHE_SUBDIR_WORKDIRS@)),
            r.local_sources@ == join_path(cache@, path_of(CACHE_SUBDIR_LOCAL_SOURCES@)),
            r.ledger@ == join_path(cache@, path_of(CACHE_FILENAME_LEDGER@)),
            r.state@ == join_path(cache@, path_of(CACHE_FILENAME_STATE@)),
            r.gitignore@ == join_path(cache@, path_of(CACHE_FILENAME_GITIGNORE@)),
    {
        CacheLayout {
            store: cache.join(CACHE_SUBDIR_STORE),
            build_cache: cache.join(CACHE_SUBDIR_BUILD_CACHE),
            workdirs: cache.join(CACHE_SUBDIR_WORKDIRS),
            local_sources: cache.join(CACHE_SUBDIR_LOCAL_SOURCES),
            ledger: cache.join(CACHE_FILENAME_LEDGER),
            state: cache.join(CACHE_FILENAME_STATE),
            gitignore: cache.join(CACHE_FILENAME_GITIGNORE),
        }
    }
}

} // verus!
