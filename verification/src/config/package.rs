//! Packages and their hashes.

use crate::config::script::{
    enc_script, enc_script_option, feed_script, feed_script_option, Script,
};
use crate::config::source::{enc_sources, feed_sources};
use crate::config::{Dependencies, GlobalEnvironment, CONFIG_VERSION};
use crate::util::feed::{
    enc_env, enc_names, enc_text, enc_u128, enc_u64, feed_env, feed_names, feed_text, feed_u128,
    feed_u64,
};
use crate::util::names::NameMap;
use crate::util::xxh3::{xxh3_128, xxh3_fed, Xxh3Hasher};
use crate::{HOST_ARCH, HOST_PREFIX};
use std::sync::Arc;
use vstd::prelude::*;

verus! {

/// What a package runs on: the machine that builds, or the machine that is built for.
#[derive(Debug, Clone, Copy, PartialEq, Eq, Hash, Structural)]
pub enum PackagePlatform {
    Host,
    Target,
}

/// The name of a platform.
pub open spec fn platform_name(platform: PackagePlatform) -> Seq<char> {
    match platform {
        PackagePlatform::Host => "host"@,
        PackagePlatform::Target => "target"@,
    }
}

impl PackagePlatform {
    /// The name of the platform.
    pub fn to_string(&self) -> (r: String)
        ensures
            r@ == platform_name(*self),
    {
        match self {
            PackagePlatform::Host => String::from_str("host"),
            PackagePlatform::Target => String::from_str("target"),
        }
    }
}

/// A package.
#[derive(Debug)]
pub struct Package {
    pub global_env: Arc<GlobalEnvironment>,
    pub platform: PackagePlatform,
    pub name: String,
    pub version: String,
    pub revision: usize,
    pub dependencies: Dependencies,
    pub runtime_dependencies: Vec<Arc<Package>>,
    pub environment_variables: NameMap<String>,
    pub configure: Option<Script>,
    pub build: Option<Script>,
    pub install: Script,
}

/// The hashes of packages, one after the other.
pub open spec fn enc_each_package(s: Seq<Arc<Package>>) -> Seq<u8>
    decreases s, 0nat,
{
    if s.len() == 0 {
        Seq::empty()
    } else {
        enc_each_package(s.drop_last()) + enc_u128((*s.last()).package_hash())
    }
}

/// The byte form of a list of packages.
pub open spec fn enc_packages(s: Seq<Arc<Package>>) -> Seq<u8>
    decreases s, 1nat,
{
    enc_u64(s.len()) + enc_each_package(s)
}

impl Package {
    /// The architecture that the package is built for.
    pub open spec fn arch(self) -> Seq<char> {
        match self.platform {
            PackagePlatform::Host => HOST_ARCH@,
            PackagePlatform::Target => self.global_env.target_arch@,
        }
    }

    /// Where the package is installed.
    pub open spec fn prefix(self) -> Seq<char> {
        match self.platform {
            PackagePlatform::Host => HOST_PREFIX@,
            PackagePlatform::Target => self.global_env.target_prefix@,
        }
    }

    /// What is hashed of the package's content, its dependencies on sources and packages apart.
    pub open spec fn enc_content_base(self) -> Seq<u8> {
        enc_u64(CONFIG_VERSION as nat) + enc_text(self.global_env.rootfs_manifest_hash@) + enc_env(
            self.global_env.global_environment_variables,
        ) + enc_text(self.arch()) + enc_text(self.prefix()) + enc_env(self.environment_variables)
            + enc_names(self.dependencies.native) + enc_script_option(self.configure)
            + enc_script_option(self.build) + enc_script(self.install)
    }

    /// Content hash, not including dependencies.
    pub open spec fn content_base_hash(self) -> u128 {
        xxh3_128(self.enc_content_base())
    }

    /// Full content hash including dependency package hashes.
    pub open spec fn content_hash(self) -> u128
        decreases self, 2nat,
    {
        xxh3_128(
            enc_u128(self.content_base_hash()) + enc_sources(self.dependencies.sources.entries@)
                + enc_packages(self.dependencies.tools@) + enc_packages(
                self.dependencies.packages@,
            ),
        )
    }

    /// The hash of all of the package metadata, not the content.
    pub open spec fn package_meta_hash(self) -> u128
        decreases self, 2nat,
    {
        xxh3_128(
            enc_text(self.arch()) + enc_text(self.name@) + enc_text(self.version@) + enc_u64(
                self.revision as nat,
            ) + enc_packages(self.runtime_dependencies@),
        )
    }

    /// Full package hash including content and meta.
    pub open spec fn package_hash(self) -> u128
        decreases self, 3nat,
    {
        xxh3_128(enc_u128(self.content_hash()) + enc_u128(self.package_meta_hash()))
    }

    /// The architecture that the package is built for.
    pub fn get_arch(&self) -> (r: &str)
        ensures
            r@ == self.arch(),
    {
        match self.platform {
            PackagePlatform::Host => HOST_ARCH,
            PackagePlatform::Target => self.global_env.target_arch.as_str(),
        }
    }

    /// Where the package is installed.
    pub fn get_prefix(&self) -> (r: &str)
        ensures
            r@ == self.prefix(),
    {
        match self.platform {
            PackagePlatform::Host => HOST_PREFIX,
            PackagePlatform::Target => self.global_env.target_prefix.as_str(),
        }
    }

    /// Content hash, not including dependencies.
    pub fn get_content_base_hash(&self) -> (r: u128)
        ensures
            r == self.content_base_hash(),
    {
        let mut hasher: Xxh3Hasher = Xxh3Hasher::new();
        feed_u64(&mut hasher, CONFIG_VERSION);
        assert(xxh3_fed(hasher) =~= enc_u64(CONFIG_VERSION as nat));
        feed_text(&mut hasher, self.global_env.rootfs_manifest_hash.as_str());
        feed_env(&mut hasher, &self.global_env.global_environment_variables);
        feed_text(&mut hasher, self.get_arch());
        feed_text(&mut hasher, self.get_prefix());
        feed_env(&mut hasher, &self.environment_variables);
        feed_names(&mut hasher, &self.dependencies.native);
        feed_script_option(&mut hasher, &self.configure);
        feed_script_option(&mut hasher, &self.build);
        feed_script(&mut hasher, &self.install);
        hasher.digest128()
    }

    /// Full content hash including dependency package hashes.
    pub fn get_content_hash(&self) -> (r: u128)
        ensures
            r == self.content_hash(),
        decreases self, 2nat,
    {
        let mut hasher: Xxh3Hasher = Xxh3Hasher::new();
        feed_u128(&mut hasher, self.get_content_base_hash());
        assert(xxh3_fed(hasher) =~= enc_u128(self.content_base_hash()));
        feed_sources(&mut hasher, &self.dependencies.sources);
        feed_packages(&mut hasher, &self.dependencies.tools);
        feed_packages(&mut hasher, &self.dependencies.packages);
        hasher.digest128()
    }

    /// Hashes all of the package metadata, not the content.
    pub fn get_package_meta_hash(&self) -> (r: u128)
        ensures
            r == self.package_meta_hash(),
        decreases self, 2nat,
    {
        let mut hasher: Xxh3Hasher = Xxh3Hasher::new();
        feed_text(&mut hasher, self.get_arch());
        assert(xxh3_fed(hasher) =~= enc_text(self.arch()));
        feed_text(&mut hasher, self.name.as_str());
        feed_text(&mut hasher, self.version.as_str());
        feed_u64(&mut hasher, self.revision as u64);
        feed_packages(&mut hasher, &self.runtime_dependencies);
        hasher.digest128()
    }

    /// Full package hash including content and meta.
    pub fn get_package_hash(&self) -> (r: u128)
        ensures
            r == self.package_hash(),
        decreases self, 3nat,
    {
        let mut hasher: Xxh3Hasher = Xxh3Hasher::new();
        feed_u128(&mut hasher, self.get_content_hash());
        assert(xxh3_fed(hasher) =~= enc_u128(self.content_hash()));
        feed_u128(&mut hasher, self.get_package_meta_hash());
        hasher.digest128()
    }
}

/// Feeds a list of packages.
pub fn feed_packages(hasher: &mut Xxh3Hasher, list: &Vec<Arc<Package>>)
    ensures
        xxh3_fed(*final(hasher)) == xxh3_fed(*old(hasher)) + enc_packages(list@),
    decreases list, 1nat,
{
    let ghost start = xxh3_fed(*hasher);
    feed_u64(hasher, list.len() as u64);
    let ghost base = xxh3_fed(*hasher);
    let mut i: usize = 0;
    assert(enc_each_package(list@.take(0)) =~= Seq::<u8>::empty());
    assert(xxh3_fed(*hasher) =~= base + enc_each_package(list@.take(0)));
    while i < list.len()
        invariant
            0 <= i <= list@.len(),
            xxh3_fed(*hasher) == base + enc_each_package(list@.take(i as int)),
        decreases list@.len() - i,
    {
        let hash: u128 = list[i].get_package_hash();
        feed_u128(hasher, hash);
        assert(list@.take(i + 1).drop_last() =~= list@.take(i as int));
        assert(xxh3_fed(*hasher) =~= base + enc_each_package(list@.take(i + 1)));
        i = i + 1;
    }
    assert(list@.take(list@.len() as int) =~= list@);
    assert(xxh3_fed(*hasher) =~= start + enc_packages(list@));
}

} // verus!
