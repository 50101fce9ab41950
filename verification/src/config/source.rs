//! Sources: where they come from, how they are patched and prepared, and their hashes.

use crate::config::package::{enc_packages, feed_packages};
use crate::config::script::{enc_script, feed_script, Script};
use crate::config::{Dependencies, GlobalEnvironment, CONFIG_VERSION};
use crate::util::feed::{
    enc_env, enc_names, enc_text, enc_texts, enc_u128, enc_u64, feed_env, feed_names, feed_text,
    feed_texts, feed_u128, feed_u64,
};
use crate::util::names::{NameMap};
use crate::util::path::UnixPath;
use crate::util::xxh3::{xxh3_128, xxh3_fed, Xxh3Hasher};
use std::sync::Arc;
use vstd::prelude::*;

verus! {

/// An archive to be downloaded.
#[derive(Debug)]
pub struct Archive {
    pub url: String,
    pub checksum: String,
    pub kind: ArchiveKind,
    pub compression: ArchiveCompression,
}

/// The format of an archive.
#[derive(Debug, Clone, Copy)]
pub enum ArchiveKind {
    Tar,
}

/// How an archive is compressed.
#[derive(Debug, Clone, Copy)]
pub enum ArchiveCompression {
    Xz,
    Gzip,
    Bzip2,
}

/// A revision of a git repository.
#[derive(Debug)]
pub struct GitSource {
    pub url: String,
    pub revision: String,
}

/// Creator must ensure the directory does not change until config is
/// dropped. The hash will not be validated, it is taken at face value.
#[derive(Debug)]
pub struct LocalSource {
    pub path: UnixPath,
    pub hash: u128,
}

/// Where the files of a source come from.
#[derive(Debug)]
pub enum SourceBase {
    Archive(Archive),
    Git(GitSource),
    Local(LocalSource),
}

/// A script that runs once over the patched source.
#[derive(Debug)]
pub struct SourcePrepare {
    pub global_env: Arc<GlobalEnvironment>,
    pub dependencies: Dependencies,
    pub environment_variables: NameMap<String>,
    pub script: Script,
}

/// A source.
#[derive(Debug)]
pub struct Source {
    pub base: SourceBase,
    pub patches: Vec<String>,
    pub prepare: Option<SourcePrepare>,
}

/// The number of a compression.
pub open spec fn compression_number(compression: ArchiveCompression) -> nat {
    match compression {
        ArchiveCompression::Xz => 0,
        ArchiveCompression::Gzip => 1,
        ArchiveCompression::Bzip2 => 2,
    }
}

/// The byte form of where a source comes from. Of a local directory it is the hash that the
/// creator gave, and not the path.
pub open spec fn enc_base(base: SourceBase) -> Seq<u8> {
    match base {
        SourceBase::Archive(archive) => enc_u64(0) + enc_text(archive.url@) + enc_text(
            archive.checksum@,
        ) + enc_u64(compression_number(archive.compression)),
        SourceBase::Git(git) => enc_u64(1) + enc_text(git.url@) + enc_text(git.revision@),
        SourceBase::Local(local) => enc_u64(2) + enc_u128(local.hash),
    }
}

/// The byte forms of named sources, one after the other: each its name and then its hash.
pub open spec fn enc_each_source(s: Seq<(String, Arc<Source>)>) -> Seq<u8>
    decreases s, 0nat,
{
    if s.len() == 0 {
        Seq::empty()
    } else {
        enc_each_source(s.drop_last()) + (enc_text(s.last().0@) + enc_u128((*s.last().1).hash()))
    }
}

/// The byte form of a map from names to sources.
pub open spec fn enc_sources(s: Seq<(String, Arc<Source>)>) -> Seq<u8>
    decreases s, 1nat,
{
    enc_u64(s.len()) + enc_each_source(s)
}

impl Source {
    /// The hash of where the source comes from.
    pub open spec fn base_hash(self) -> u128 {
        xxh3_128(enc_u64(CONFIG_VERSION as nat) + enc_base(self.base))
    }

    /// The hash of the patches on top of a base.
    pub open spec fn patch_hash(self, base_hash: u128) -> u128 {
        xxh3_128(enc_u128(base_hash) + enc_texts(self.patches@))
    }

    /// The hash of the preparation on top of the patches, its dependencies on sources and
    /// packages apart.
    pub open spec fn prepare_base_hash(self, patch_hash: u128) -> u128 {
        match self.prepare {
            None => xxh3_128(enc_u128(patch_hash)),
            Some(prepare) => xxh3_128(
                enc_u128(patch_hash) + enc_text(prepare.global_env.rootfs_manifest_hash@) + enc_env(
                    prepare.global_env.global_environment_variables,
                ) + enc_names(prepare.global_env.global_native_packages) + enc_env(
                    prepare.environment_variables,
                ) + enc_script(prepare.script) + enc_names(prepare.dependencies.native),
            ),
        }
    }

    /// The hash of the preparation with all of its dependencies.
    pub open spec fn prepare_hash(self, prepare_base_hash: u128) -> u128
        decreases self, 2nat,
    {
        match self.prepare {
            None => xxh3_128(enc_u128(prepare_base_hash)),
            Some(prepare) => xxh3_128(
                enc_u128(prepare_base_hash) + enc_sources(prepare.dependencies.sources.entries@)
                    + enc_packages(prepare.dependencies.tools@) + enc_packages(
                    prepare.dependencies.packages@,
                ),
            ),
        }
    }

    /// The hash of the whole source.
    pub open spec fn hash(self) -> u128
        decreases self, 3nat,
    {
        self.prepare_hash(self.prepare_base_hash(self.patch_hash(self.base_hash())))
    }

    /// The hash of where the source comes from.
    pub fn get_base_hash(&self) -> (r: u128)
        ensures
            r == self.base_hash(),
    {
        let mut hasher: Xxh3Hasher = Xxh3Hasher::new();
        feed_u64(&mut hasher, CONFIG_VERSION);
        assert(xxh3_fed(hasher) =~= enc_u64(CONFIG_VERSION as nat));
        feed_base(&mut hasher, &self.base);
        hasher.digest128()
    }

    /// The hash of the patches on top of a base.
    pub fn get_patch_hash(&self, base_hash: u128) -> (r: u128)
        ensures
            r == self.patch_hash(base_hash),
    {
        let mut hasher: Xxh3Hasher = Xxh3Hasher::new();
        feed_u128(&mut hasher, base_hash);
        assert(xxh3_fed(hasher) =~= enc_u128(base_hash));
        feed_texts(&mut hasher, &self.patches);
        hasher.digest128()
    }

    /// The hash of the preparation on top of the patches, its dependencies on sources and
    /// packages apart.
    pub fn get_prepare_base_hash(&self, patch_hash: u128) -> (r: u128)
        ensures
            r == self.prepare_base_hash(patch_hash),
    {
        let mut hasher: Xxh3Hasher = Xxh3Hasher::new();
        feed_u128(&mut hasher, patch_hash);
        assert(xxh3_fed(hasher) =~= enc_u128(patch_hash));
        if let Some(prepare) = &self.prepare {
            feed_text(&mut hasher, prepare.global_env.rootfs_manifest_hash.as_str());
            feed_env(&mut hasher, &prepare.global_env.global_environment_variables);
            feed_names(&mut hasher, &prepare.global_env.global_native_packages);
            feed_env(&mut hasher, &prepare.environment_variables);
            feed_script(&mut hasher, &prepare.script);
            feed_names(&mut hasher, &prepare.dependencies.native);
        }
        hasher.digest128()
    }

    /// The hash of the preparation with all of its dependencies.
    pub fn get_prepare_hash(&self, prepare_base_hash: u128) -> (r: u128)
        ensures
            r == self.prepare_hash(prepare_base_hash),
        decreases self, 2nat,
    {
        let mut hasher: Xxh3Hasher = Xxh3Hasher::new();
        feed_u128(&mut hasher, prepare_base_hash);
        assert(xxh3_fed(hasher) =~= enc_u128(prepare_base_hash));
        if let Some(prepare) = &self.prepare {
            feed_sources(&mut hasher, &prepare.dependencies.sources);
            feed_packages(&mut hasher, &prepare.dependencies.tools);
            feed_packages(&mut hasher, &prepare.dependencies.packages);
        }
        hasher.digest128()
    }

    /// The hash of the whole source.
    pub fn get_hash(&self) -> (r: u128)
        ensures
            r == self.hash(),
        decreases self, 3nat,
    {
        self.get_prepare_hash(
            self.get_prepare_base_hash(self.get_patch_hash(self.get_base_hash())),
        )
    }
}

fn feed_base(hasher: &mut Xxh3Hasher, base: &SourceBase)
    ensures
        xxh3_fed(*final(hasher)) == xxh3_fed(*old(hasher)) + enc_base(*base),
{
    match base {
        SourceBase::Archive(archive) => {
            feed_u64(hasher, 0);
            feed_text(hasher, archive.url.as_str());
            feed_text(hasher, archive.checksum.as_str());
            feed_u64(
                hasher,
                match archive.compression {
                    ArchiveCompression::Xz => 0,
                    ArchiveCompression::Gzip => 1,
                    ArchiveCompression::Bzip2 => 2,
                },
            );
        },
        SourceBase::Git(git) => {
            feed_u64(hasher, 1);
            feed_text(hasher, git.url.as_str());
            feed_text(hasher, git.revision.as_str());
        },
        SourceBase::Local(local) => {
            feed_u64(hasher, 2);
            feed_u128(hasher, local.hash);
        },
    }
    assert(xxh3_fed(*hasher) =~= xxh3_fed(*old(hasher)) + enc_base(*base));
}

/// Feeds a map from names to sources.
pub fn feed_sources(hasher: &mut Xxh3Hasher, map: &NameMap<Arc<Source>>)
    ensures
        xxh3_fed(*final(hasher)) == xxh3_fed(*old(hasher)) + enc_sources(map.entries@),
    decreases map, 1nat,
{
    let ghost start = xxh3_fed(*hasher);
    let ghost all = map.entries@;
    feed_u64(hasher, map.entries.len() as u64);
    let ghost base = xxh3_fed(*hasher);
    let mut i: usize = 0;
    assert(enc_each_source(all.take(0)) =~= Seq::<u8>::empty());
    assert(xxh3_fed(*hasher) =~= base + enc_each_source(all.take(0)));
    while i < map.entries.len()
        invariant
            all == map.entries@,
            0 <= i <= all.len(),
            xxh3_fed(*hasher) == base + enc_each_source(all.take(i as int)),
        decreases all.len() - i,
    {
        feed_text(hasher, map.entries[i].0.as_str());
        let hash: u128 = map.entries[i].1.get_hash();
        feed_u128(hasher, hash);
        assert(all.take(i + 1).drop_last() =~= all.take(i as int));
        assert(xxh3_fed(*hasher) =~= base + enc_each_source(all.take(i + 1)));
        i = i + 1;
    }
    assert(all.take(all.len() as int) =~= all);
    assert(xxh3_fed(*hasher) =~= start + enc_sources(all));
}

} // verus!
