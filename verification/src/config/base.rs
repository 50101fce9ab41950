//! The base configuration, which says where everything else comes from.

use crate::config::GlobalEnvironment;
use crate::util::names::{env_of, NameMap, NameSet};
use crate::util::path::{path_of, path_option, UnixPath};
use crate::util::text::str_eq;
use crate::DEFAULT_TARGET_PREFIX;
use vstd::prelude::*;

verus! {

/// Where the configuration script is, unless the base configuration says otherwise.
pub const DEFAULT_MAIN_CONFIG_PATH: &'static str = "./chariot.lua";

/// The root file system that is wanted.
#[derive(Debug)]
pub struct RootFSConfig {
    pub version: String,
    pub hash: String,
    pub url: Option<String>,
}

/// The base configuration.
#[derive(Debug)]
pub struct BaseConfig {
    pub lua_root: Option<UnixPath>,
    pub target_prefix: Option<String>,
    pub global_native_packages: NameSet,
    pub global_environment_variables: NameMap<String>,
    pub rootfs: RootFSConfig,
}

impl BaseConfig {
    /// Where things are installed on the target.
    pub open spec fn prefix(self) -> Seq<char> {
        match self.target_prefix {
            Some(prefix) => prefix@,
            None => DEFAULT_TARGET_PREFIX@,
        }
    }

    /// What the packages and sources of a configuration for an architecture have in common.
    pub fn global_environment(&self, target_arch: &str) -> (r: GlobalEnvironment)
        ensures
            r.rootfs_manifest_hash@ == self.rootfs.hash@,
            env_of(r.global_environment_variables) == Map::<Seq<char>, Seq<char>>::empty(),
            r.global_environment_variables.wf(),
            r.global_native_packages@ == Set::<Seq<char>>::empty(),
            r.global_native_packages.wf(),
            r.target_arch@ == target_arch@,
            r.target_prefix@ == self.prefix(),
    {
        let variables: NameMap<String> = NameMap::new();
        assert(env_of(variables) =~= Map::<Seq<char>, Seq<char>>::empty());
        GlobalEnvironment {
            rootfs_manifest_hash: self.rootfs.hash.clone(),
            global_environment_variables: variables,
            global_native_packages: NameSet::new(),
            target_arch: target_arch.to_string(),
            target_prefix: match &self.target_prefix {
                Some(prefix) => prefix.clone(),
                None => DEFAULT_TARGET_PREFIX.to_string(),
            },
        }
    }

    /// Where the configuration script is.
    pub fn lua_path(&self) -> (r: UnixPath)
        ensures
            r@ == (match path_option(self.lua_root) {
                Some(path) => path,
                None => path_of(DEFAULT_MAIN_CONFIG_PATH@),
            }),
    {
        match &self.lua_root {
            Some(path) => path.copy(),
            None => UnixPath::from_text(DEFAULT_MAIN_CONFIG_PATH),
        }
    }
}

// ---------------------------------------------------------------------------
// The root file system that is there
// ---------------------------------------------------------------------------

/// How a root file system that is there compares with the one that is wanted.
#[derive(Debug)]
pub enum RootFSVerdict {
    /// it is the one
    Match,
    /// it has the wanted hash, but calls itself another version
    Suspicious,
    /// it is another one: stop with this message
    Refuse(String),
}

/// What is said of a root file system of another version.
pub open spec fn version_mismatch_text(hash: Seq<char>, wanted: Seq<char>) -> Seq<char> {
    "Rootfs version mismatch (current `"@ + hash + "`, wanted `"@ + wanted
        + "). Delete current rootfs at convenience"@
}

/// What is said of a root file system with another hash.
pub open spec fn hash_mismatch_text(hash: Seq<char>, wanted: Seq<char>) -> Seq<char> {
    "Rootfs hash mismatch, expected `"@ + wanted + "`, got `"@ + hash + "`"@
}

impl RootFSConfig {
    /// How a root file system with the given version and hash compares with the wanted one: what
    /// counts is the hash.
    pub fn check(&self, version: &str, hash: &str) -> (r: RootFSVerdict)
        ensures
            hash@ == self.hash@ && version@ == self.version@ <==> r is Match,
            hash@ == self.hash@ && version@ != self.version@ <==> r is Suspicious,
            hash@ != self.hash@ <==> r is Refuse,
            hash@ != self.hash@ && version@ != self.version@ ==> r->Refuse_0@
                == version_mismatch_text(hash@, self.hash@),
            hash@ != self.hash@ && version@ == self.version@ ==> r->Refuse_0@
                == hash_mismatch_text(hash@, self.hash@),
    {
        let version_match: bool = str_eq(version, self.version.as_str());
        let hash_match: bool = str_eq(hash, self.hash.as_str());
        if !version_match && !hash_match {
            let mut message: String = "Rootfs version mismatch (current `".to_string();
            message.append(hash);
            message.append("`, wanted `");
            message.append(self.hash.as_str());
            message.append("). Delete current rootfs at convenience");
            return RootFSVerdict::Refuse(message);
        }
        if !hash_match {
            let mut message: String = "Rootfs hash mismatch, expected `".to_string();
            message.append(self.hash.as_str());
            message.append("`, got `");
            message.append(hash);
            message.append("`");
            return RootFSVerdict::Refuse(message);
        }
        if !version_match {
            return RootFSVerdict::Suspicious;
        }
        RootFSVerdict::Match
    }
}

} // verus!
