//! The hashes of sources and packages, held against `std`'s own `Hash` of the same data.

use std::collections::{BTreeMap, BTreeSet};
use std::hash::{Hash, Hasher};
use std::sync::Arc;

use chariot::config::package::{Package, PackagePlatform};
use chariot::config::script::{Script, ScriptLanguage};
use chariot::config::source::{
    Archive, ArchiveCompression, ArchiveKind, GitSource, LocalSource, Source, SourceBase,
    SourcePrepare,
};
use chariot::config::{Dependencies, GlobalEnvironment, CONFIG_VERSION};
use chariot::util::names::{NameMap, NameSet};
use chariot::util::path::UnixPath;
use xxhash_rust::xxh3::Xxh3;

#[derive(Hash)]
#[allow(dead_code)]
enum StdCompression {
    Xz,
    Gzip,
    Bzip2,
}

#[derive(Hash)]
enum StdKind {
    Tar,
}

#[derive(Hash)]
struct StdArchive {
    url: String,
    checksum: String,
    kind: StdKind,
    compression: StdCompression,
}

#[derive(Hash)]
struct StdGit {
    url: String,
    revision: String,
}

struct StdLocal {
    hash: u128,
}

impl Hash for StdLocal {
    fn hash<H: Hasher>(&self, state: &mut H) {
        state.write_u128(self.hash);
    }
}

#[derive(Hash)]
enum StdBase {
    Archive(StdArchive),
    Git(StdGit),
    Local(StdLocal),
}

#[derive(Hash)]
#[allow(dead_code)]
enum StdLanguage {
    Bash,
    Python,
}

#[derive(Hash)]
struct StdScript {
    language: StdLanguage,
    text: String,
}

/// A value that stands for a source or package by its hash.
struct ByHash(u128);

impl Hash for ByHash {
    fn hash<H: Hasher>(&self, state: &mut H) {
        state.write_u128(self.0);
    }
}

fn std_base_hash(base: &StdBase) -> u128 {
    let mut hasher = Xxh3::new();
    CONFIG_VERSION.hash(&mut hasher);
    base.hash(&mut hasher);
    hasher.digest128()
}

fn env(pairs: &[(&str, &str)]) -> NameMap<String> {
    let mut map = NameMap::new();
    for (k, v) in pairs {
        map.set(k, v);
    }
    map
}

fn names(items: &[&str]) -> NameSet {
    let mut set = NameSet::new();
    for item in items {
        set.insert(item.to_string());
    }
    set
}

fn global_env() -> Arc<GlobalEnvironment> {
    Arc::new(GlobalEnvironment {
        rootfs_manifest_hash: "manifest".to_string(),
        global_environment_variables: env(&[("B", "2"), ("A", "1")]),
        global_native_packages: names(&["zlib", "make"]),
        target_arch: "riscv64".to_string(),
        target_prefix: "/opt".to_string(),
    })
}

fn archive_source() -> Source {
    Source {
        base: SourceBase::Archive(Archive {
            url: "https://example.org/a.tar.xz".to_string(),
            checksum: "abc".to_string(),
            kind: ArchiveKind::Tar,
            compression: ArchiveCompression::Bzip2,
        }),
        patches: vec!["one".to_string(), "zw\u{f6}lf".to_string()],
        prepare: None,
    }
}

fn local_source(path: &str, hash: u128) -> Source {
    Source {
        base: SourceBase::Local(LocalSource { path: UnixPath::from_text(path), hash }),
        patches: vec![],
        prepare: None,
    }
}

fn package(name: &str, platform: PackagePlatform) -> Package {
    Package {
        global_env: global_env(),
        platform,
        name: name.to_string(),
        version: "1.2".to_string(),
        revision: 7,
        dependencies: Dependencies::default(),
        runtime_dependencies: vec![],
        environment_variables: env(&[]),
        configure: None,
        build: None,
        install: Script::bash("true"),
    }
}

#[test]
fn archive_base_hash_is_that_of_the_derived_hash() {
    let expected = std_base_hash(&StdBase::Archive(StdArchive {
        url: "https://example.org/a.tar.xz".to_string(),
        checksum: "abc".to_string(),
        kind: StdKind::Tar,
        compression: StdCompression::Bzip2,
    }));
    assert_eq!(archive_source().get_base_hash(), expected);
}

#[test]
fn git_base_hash_is_that_of_the_derived_hash() {
    let source = Source {
        base: SourceBase::Git(GitSource { url: "u".to_string(), revision: "r".to_string() }),
        patches: vec![],
        prepare: None,
    };
    let expected = std_base_hash(&StdBase::Git(StdGit { url: "u".to_string(), revision: "r".to_string() }));
    assert_eq!(source.get_base_hash(), expected);
}

#[test]
fn local_base_hash_takes_the_given_hash_and_not_the_path() {
    let expected = std_base_hash(&StdBase::Local(StdLocal { hash: 99 }));
    assert_eq!(local_source("/a", 99).get_base_hash(), expected);
    assert_eq!(local_source("/b", 99).get_base_hash(), expected);
    assert_ne!(local_source("/a", 98).get_base_hash(), expected);
}

#[test]
fn patch_hash_is_that_of_the_derived_hash() {
    let mut hasher = Xxh3::new();
    5u128.hash(&mut hasher);
    vec!["one".to_string(), "zw\u{f6}lf".to_string()].hash(&mut hasher);
    assert_eq!(archive_source().get_patch_hash(5), hasher.digest128());
}

#[test]
fn prepare_hashes_are_those_of_the_derived_hash() {
    let tool = Arc::new(package("tool", PackagePlatform::Host));
    let dep = Arc::new(local_source("/x", 3));
    let mut sources = NameMap::new();
    sources.insert("zz".to_string(), dep.clone());
    sources.insert("dep".to_string(), dep.clone());
    let source = Source {
        base: SourceBase::Git(GitSource { url: "u".to_string(), revision: "r".to_string() }),
        patches: vec![],
        prepare: Some(SourcePrepare {
            global_env: global_env(),
            dependencies: Dependencies {
                native: names(&["autoconf"]),
                sources,
                tools: vec![tool.clone()],
                packages: vec![],
            },
            environment_variables: env(&[("X", "y")]),
            script: Script::new(ScriptLanguage::Python, "print()"),
        }),
    };

    let mut hasher = Xxh3::new();
    11u128.hash(&mut hasher);
    "manifest".to_string().hash(&mut hasher);
    BTreeMap::from([("A".to_string(), "1".to_string()), ("B".to_string(), "2".to_string())]).hash(&mut hasher);
    BTreeSet::from(["make".to_string(), "zlib".to_string()]).hash(&mut hasher);
    BTreeMap::from([("X".to_string(), "y".to_string())]).hash(&mut hasher);
    StdScript { language: StdLanguage::Python, text: "print()".to_string() }.hash(&mut hasher);
    BTreeSet::from(["autoconf".to_string()]).hash(&mut hasher);
    assert_eq!(source.get_prepare_base_hash(11), hasher.digest128());

    let mut hasher = Xxh3::new();
    12u128.hash(&mut hasher);
    BTreeMap::from([
        ("dep".to_string(), Arc::new(ByHash(dep.get_hash()))),
        ("zz".to_string(), Arc::new(ByHash(dep.get_hash()))),
    ])
    .hash(&mut hasher);
    vec![Arc::new(ByHash(tool.get_package_hash()))].hash(&mut hasher);
    Vec::<Arc<ByHash>>::new().hash(&mut hasher);
    assert_eq!(source.get_prepare_hash(12), hasher.digest128());

    // The whole source's hash is the chain of the four.
    let base = source.get_base_hash();
    let chain = source.get_prepare_hash(source.get_prepare_base_hash(source.get_patch_hash(base)));
    assert_eq!(source.get_hash(), chain);
}

#[test]
fn package_hashes_are_those_of_the_derived_hash() {
    let rdep = Arc::new(package("rdep", PackagePlatform::Target));
    let mut pkg = package("pkg", PackagePlatform::Target);
    pkg.runtime_dependencies = vec![rdep.clone()];
    pkg.configure = Some(Script::bash("./configure"));
    pkg.environment_variables = env(&[("CFLAGS", "-O2")]);
    pkg.dependencies.native = names(&["b", "a"]);

    let mut hasher = Xxh3::new();
    CONFIG_VERSION.hash(&mut hasher);
    "manifest".to_string().hash(&mut hasher);
    BTreeMap::from([("A".to_string(), "1".to_string()), ("B".to_string(), "2".to_string())]).hash(&mut hasher);
    "riscv64".hash(&mut hasher);
    "/opt".hash(&mut hasher);
    BTreeMap::from([("CFLAGS".to_string(), "-O2".to_string())]).hash(&mut hasher);
    BTreeSet::from(["a".to_string(), "b".to_string()]).hash(&mut hasher);
    Some(StdScript { language: StdLanguage::Bash, text: "./configure".to_string() }).hash(&mut hasher);
    None::<StdScript>.hash(&mut hasher);
    StdScript { language: StdLanguage::Bash, text: "true".to_string() }.hash(&mut hasher);
    assert_eq!(pkg.get_content_base_hash(), hasher.digest128());

    let mut hasher = Xxh3::new();
    pkg.get_content_base_hash().hash(&mut hasher);
    BTreeMap::<String, Arc<ByHash>>::new().hash(&mut hasher);
    Vec::<Arc<ByHash>>::new().hash(&mut hasher);
    Vec::<Arc<ByHash>>::new().hash(&mut hasher);
    assert_eq!(pkg.get_content_hash(), hasher.digest128());

    let mut hasher = Xxh3::new();
    "riscv64".hash(&mut hasher);
    "pkg".to_string().hash(&mut hasher);
    "1.2".to_string().hash(&mut hasher);
    7usize.hash(&mut hasher);
    vec![Arc::new(ByHash(rdep.get_package_hash()))].hash(&mut hasher);
    assert_eq!(pkg.get_package_meta_hash(), hasher.digest128());

    let mut hasher = Xxh3::new();
    pkg.get_content_hash().hash(&mut hasher);
    pkg.get_package_meta_hash().hash(&mut hasher);
    assert_eq!(pkg.get_package_hash(), hasher.digest128());
}

#[test]
fn content_hash_ignores_the_metadata() {
    let a = package("a", PackagePlatform::Target);
    let mut b = package("b", PackagePlatform::Target);
    b.version = "9".to_string();
    b.revision = 1;
    assert_eq!(a.get_content_hash(), b.get_content_hash());
    assert_ne!(a.get_package_meta_hash(), b.get_package_meta_hash());
    assert_ne!(a.get_package_hash(), b.get_package_hash());
}

#[test]
fn meta_hash_ignores_the_content() {
    let a = package("a", PackagePlatform::Target);
    let mut b = package("a", PackagePlatform::Target);
    b.install = Script::bash("false");
    assert_eq!(a.get_package_meta_hash(), b.get_package_meta_hash());
    assert_ne!(a.get_content_hash(), b.get_content_hash());
}

#[test]
fn host_packages_have_the_host_arch_and_prefix() {
    let host = package("a", PackagePlatform::Host);
    assert_eq!(host.get_arch(), "x86_64");
    assert_eq!(host.get_prefix(), "/usr/local");
    let target = package("a", PackagePlatform::Target);
    assert_eq!(target.get_arch(), "riscv64");
    assert_eq!(target.get_prefix(), "/opt");
    assert_eq!(PackagePlatform::Host.to_string(), "host");
    assert_eq!(PackagePlatform::Target.to_string(), "target");
}
