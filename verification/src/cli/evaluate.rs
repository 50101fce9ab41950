//! Evaluating the configuration of a profile.

use crate::cli::profile::{InputState, ProfileSpec};
use crate::config::base::{BaseConfig, DEFAULT_MAIN_CONFIG_PATH};
use crate::config::GlobalEnvironment;
use crate::util::names::{env_of, NameMap};
use crate::util::path::{path_of, path_option, UnixPath};
use vstd::prelude::*;

verus! {

/// A configuration script to evaluate.
#[derive(Debug)]
pub struct Evaluation {
    /// where the script is
    pub path: UnixPath,
    pub environment: GlobalEnvironment,
    pub options: NameMap<String>,
}

/// [`Evaluation`] by its paths and texts.
#[verifier::ext_equal]
pub struct EvaluationSpec {
    pub path: Seq<u8>,
    pub rootfs_manifest_hash: Seq<char>,
    pub variables: Map<Seq<char>, Seq<char>>,
    pub native_packages: Set<Seq<char>>,
    pub target_arch: Seq<char>,
    pub target_prefix: Seq<char>,
    pub options: Map<Seq<char>, Seq<char>>,
}

impl View for Evaluation {
    type V = EvaluationSpec;

    open spec fn view(&self) -> EvaluationSpec {
        EvaluationSpec {
            path: self.path@,
            rootfs_manifest_hash: self.environment.rootfs_manifest_hash@,
            variables: env_of(self.environment.global_environment_variables),
            native_packages: self.environment.global_native_packages@,
            target_arch: self.environment.target_arch@,
            target_prefix: self.environment.target_prefix@,
            options: env_of(self.options),
        }
    }
}

/// Where the configuration script is.
pub open spec fn script_path(base: BaseConfig) -> Seq<u8> {
    match path_option(base.lua_root) {
        Some(path) => path,
        None => path_of(DEFAULT_MAIN_CONFIG_PATH@),
    }
}

/// The evaluation for a profile: the script and the root file system are those of the base
/// configuration, architecture and options those of the profile.
pub open spec fn evaluation_of(base: BaseConfig, profile: ProfileSpec) -> EvaluationSpec {
    EvaluationSpec {
        path: script_path(base),
        rootfs_manifest_hash: base.rootfs.hash@,
        variables: Map::empty(),
        native_packages: Set::empty(),
        target_arch: profile.arch,
        target_prefix: base.prefix(),
        options: profile.options,
    }
}

/// The evaluation for a profile.
pub fn order_evaluation(base: &BaseConfig, profile: &InputState) -> (r: Evaluation)
    ensures
        r@ == evaluation_of(*base, profile@),
{
    Evaluation {
        path: base.lua_path(),
        environment: base.global_environment(profile.arch.as_str()),
        options: profile.options.copy(),
    }
}

} // verus!
