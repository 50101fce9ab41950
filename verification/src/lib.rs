//! Building packages from recipes, in environments that hold just what the recipes ask for, with
//! everything that has been built kept in a store under a hash of what went into it.

pub mod buildcache;
pub mod cache;
pub mod cli;
pub mod config;
pub mod context;
pub mod dependencies;
pub mod depshash;
pub mod environment;
pub mod execenv;
pub mod execenv_create;
pub mod hashes;
pub mod install;
pub mod laws;
pub mod ledger;
pub mod lock;
pub mod mount;
pub mod package;
pub mod request;
pub mod runtime;
pub mod runtime_deps;
pub mod source;
pub mod store;
pub mod util;
pub mod workdir;
pub mod xbps;

use vstd::prelude::*;

verus! {

/// The architecture that packages for the host are built for.
pub const HOST_ARCH: &'static str = "x86_64";

/// The architecture of a package that suits every architecture.
pub const NOARCH_ARCH: &'static str = "noarch";

/// Where packages for the host are installed.
pub const HOST_PREFIX: &'static str = "/usr/local";

/// Where packages for the target are installed unless the configuration says otherwise.
pub const DEFAULT_TARGET_PREFIX: &'static str = "/usr";

} // verus!
