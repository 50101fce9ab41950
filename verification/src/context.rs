//! What the parts of a build share.

use crate::buildcache::BuildCache;
use crate::config::package::PackagePlatform;
use crate::store::Store;
use crate::workdir::WorkDirectoryParent;
use std::sync::Arc;
use vstd::prelude::*;

verus! {

/// What the parts of a build share.
#[derive(Debug)]
pub struct CoreContext {
    /// the packages whose build directories are kept
    pub build_cache_enabled: Vec<(PackagePlatform, String)>,
    pub parallelism: usize,
    pub store: Arc<Store>,
    pub build_cache: Arc<BuildCache>,
    pub workdir_parent: Arc<WorkDirectoryParent>,
}

} // verus!
