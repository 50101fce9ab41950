//! The configuration: what is built, from what, and in which environment.

pub mod base;
pub mod exact;
pub mod package;
pub mod script;
pub mod source;

use crate::config::package::Package;
use crate::config::source::Source;
use crate::util::names::{NameMap, NameSet};
use std::sync::Arc;
use vstd::prelude::*;

verus! {

/// Describes the config version. If the config format changes
/// in a backwards incompatible way, this version should be bumped.
pub const CONFIG_VERSION: u64 = 3;

/// What a package or the preparation of a source needs.
#[derive(Debug)]
pub struct Dependencies {
    pub native: NameSet,
    pub sources: NameMap<Arc<Source>>,
    pub tools: Vec<Arc<Package>>,
    pub packages: Vec<Arc<Package>>,
}

impl Default for Dependencies {
    fn default() -> (r: Dependencies)
        ensures
            r.native.names@.len() == 0,
            r.sources.entries@.len() == 0,
            r.tools@.len() == 0,
            r.packages@.len() == 0,
    {
        Dependencies {
            native: NameSet::new(),
            sources: NameMap::new(),
            tools: Vec::new(),
            packages: Vec::new(),
        }
    }
}

/// What all packages and sources have in common.
#[derive(Debug)]
pub struct GlobalEnvironment {
    pub rootfs_manifest_hash: String,
    pub global_environment_variables: NameMap<String>,
    pub global_native_packages: NameSet,
    pub target_arch: String,
    pub target_prefix: String,
}

/// A whole configuration.
pub struct Config {
    pub global_env: Arc<GlobalEnvironment>,
    /// all packages referenced by config must be here
    pub packages: Vec<Arc<Package>>,
    /// all sources referenced by config must be here
    pub sources: Vec<Arc<Source>>,
}

} // verus!
