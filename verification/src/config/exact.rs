//! What the hashes of recipes depend on: recipes are fed as the same bytes only if they agree in all
//! that counts, and what does not count is not fed.

use crate::config::package::{enc_each_package, enc_packages, Package};
use crate::config::script::{enc_script, enc_script_option, Script, ScriptLanguage};
use crate::config::source::{
    compression_number, enc_base, enc_each_source, enc_sources, Source, SourceBase, SourcePrepare,
};
use crate::config::{Dependencies, GlobalEnvironment, CONFIG_VERSION};
use crate::util::feed::{enc_env, enc_names, enc_text, enc_texts, enc_u128, enc_u64};
use crate::util::names::{NameMap, NameSet};
use crate::util::text::texts;
use crate::util::unambiguous::{
    entry_texts, lemma_env_by_texts, lemma_env_cut, lemma_names_cut, lemma_regroup_10, lemma_regroup_4,
    lemma_regroup_5, lemma_regroup_7, lemma_text_cut, lemma_texts_by_texts, lemma_texts_cut, lemma_u128_cut,
    lemma_u64_cut,
};
use crate::util::xxh3::xxh3_128;
use std::sync::Arc;
use vstd::prelude::*;

verus! {

// ---------------------------------------------------------------------------
// Parts
// ---------------------------------------------------------------------------

/// Two scripts are the same.
pub open spec fn same_script(a: Script, b: Script) -> bool {
    a.language == b.language && a.text@ == b.text@
}

/// Two scripts that may be absent are the same.
pub open spec fn same_script_option(a: Option<Script>, b: Option<Script>) -> bool {
    match (a, b) {
        (None, None) => true,
        (Some(a), Some(b)) => same_script(a, b),
        _ => false,
    }
}

/// The forms of scripts are unambiguous.
pub proof fn lemma_script_cut(a: Script, x: Seq<u8>, b: Script, y: Seq<u8>)
    requires
        enc_script(a) + x == enc_script(b) + y,
    ensures
        same_script(a, b),
        x == y,
{
    let m: u64 = match a.language {
        ScriptLanguage::Bash => 0,
        ScriptLanguage::Python => 1,
    };
    let n: u64 = match b.language {
        ScriptLanguage::Bash => 0,
        ScriptLanguage::Python => 1,
    };
    assert(enc_script(a) + x =~= enc_u64(m as nat) + (enc_text(a.text@) + x));
    assert(enc_script(b) + y =~= enc_u64(n as nat) + (enc_text(b.text@) + y));
    lemma_u64_cut(m, enc_text(a.text@) + x, n, enc_text(b.text@) + y);
    lemma_text_cut(a.text@, x, b.text@, y);
}

/// The forms of scripts that may be absent are unambiguous.
pub proof fn lemma_script_option_cut(a: Option<Script>, x: Seq<u8>, b: Option<Script>, y: Seq<u8>)
    requires
        enc_script_option(a) + x == enc_script_option(b) + y,
    ensures
        same_script_option(a, b),
        x == y,
{
    let m: u64 = if a is Some {
        1
    } else {
        0
    };
    let n: u64 = if b is Some {
        1
    } else {
        0
    };
    let xa = match a {
        None => x,
        Some(s) => enc_script(s) + x,
    };
    let yb = match b {
        None => y,
        Some(s) => enc_script(s) + y,
    };
    assert(enc_script_option(a) + x =~= enc_u64(m as nat) + xa);
    assert(enc_script_option(b) + y =~= enc_u64(n as nat) + yb);
    lemma_u64_cut(m, xa, n, yb);
    if let (Some(s), Some(t)) = (a, b) {
        lemma_script_cut(s, x, t, y);
    }
}

/// The variables of a global environment.
pub open spec fn global_variables(env: Arc<GlobalEnvironment>) -> NameMap<String> {
    env.global_environment_variables
}

/// The native packages of a global environment.
pub open spec fn native_packages(env: Arc<GlobalEnvironment>) -> NameSet {
    env.global_native_packages
}

/// The hash of a package.
pub open spec fn hash_of_package(package: Arc<Package>) -> u128 {
    package.package_hash()
}

/// The hash of a source.
pub open spec fn hash_of_source(source: Arc<Source>) -> u128 {
    source.hash()
}

/// The hashes of packages.
pub open spec fn package_hashes(s: Seq<Arc<Package>>) -> Seq<u128> {
    s.map_values(|p: Arc<Package>| hash_of_package(p))
}

proof fn lemma_each_package_cut(
    s: Seq<Arc<Package>>,
    x: Seq<u8>,
    t: Seq<Arc<Package>>,
    y: Seq<u8>,
)
    requires
        s.len() == t.len(),
        enc_each_package(s) + x == enc_each_package(t) + y,
    ensures
        package_hashes(s) == package_hashes(t),
        x == y,
    decreases s.len(),
{
    if s.len() == 0 {
        assert(enc_each_package(s) + x =~= x);
        assert(enc_each_package(t) + y =~= y);
        assert(package_hashes(s) =~= package_hashes(t));
    } else {
        let x1 = enc_u128(hash_of_package(s.last())) + x;
        let y1 = enc_u128(hash_of_package(t.last())) + y;
        assert(enc_each_package(s) + x =~= enc_each_package(s.drop_last()) + x1);
        assert(enc_each_package(t) + y =~= enc_each_package(t.drop_last()) + y1);
        lemma_each_package_cut(s.drop_last(), x1, t.drop_last(), y1);
        lemma_u128_cut(hash_of_package(s.last()), x, hash_of_package(t.last()), y);
        assert(package_hashes(s) =~= package_hashes(s.drop_last()).push(hash_of_package(s.last())));
        assert(package_hashes(t) =~= package_hashes(t.drop_last()).push(hash_of_package(t.last())));
    }
}

/// The forms of lists of packages are unambiguous.
pub proof fn lemma_packages_cut(s: Vec<Arc<Package>>, x: Seq<u8>, t: Vec<Arc<Package>>, y: Seq<u8>)
    requires
        enc_packages(s@) + x == enc_packages(t@) + y,
    ensures
        package_hashes(s@) == package_hashes(t@),
        x == y,
{
    let m = s.len() as u64;
    let n = t.len() as u64;
    assert(enc_packages(s@) + x =~= enc_u64(m as nat) + (enc_each_package(s@) + x));
    assert(enc_packages(t@) + y =~= enc_u64(n as nat) + (enc_each_package(t@) + y));
    lemma_u64_cut(m, enc_each_package(s@) + x, n, enc_each_package(t@) + y);
    lemma_each_package_cut(s@, x, t@, y);
}

/// Sources by their names and hashes.
pub open spec fn source_hashes(s: Seq<(String, Arc<Source>)>) -> Seq<(Seq<char>, u128)> {
    s.map_values(|e: (String, Arc<Source>)| (e.0@, hash_of_source(e.1)))
}

proof fn lemma_each_source_cut(
    s: Seq<(String, Arc<Source>)>,
    x: Seq<u8>,
    t: Seq<(String, Arc<Source>)>,
    y: Seq<u8>,
)
    requires
        s.len() == t.len(),
        enc_each_source(s) + x == enc_each_source(t) + y,
    ensures
        source_hashes(s) == source_hashes(t),
        x == y,
    decreases s.len(),
{
    if s.len() == 0 {
        assert(enc_each_source(s) + x =~= x);
        assert(enc_each_source(t) + y =~= y);
        assert(source_hashes(s) =~= source_hashes(t));
    } else {
        let x2 = enc_u128(hash_of_source(s.last().1)) + x;
        let y2 = enc_u128(hash_of_source(t.last().1)) + y;
        let x1 = enc_text(s.last().0@) + x2;
        let y1 = enc_text(t.last().0@) + y2;
        assert(enc_each_source(s) + x =~= enc_each_source(s.drop_last()) + x1);
        assert(enc_each_source(t) + y =~= enc_each_source(t.drop_last()) + y1);
        lemma_each_source_cut(s.drop_last(), x1, t.drop_last(), y1);
        lemma_text_cut(s.last().0@, x2, t.last().0@, y2);
        lemma_u128_cut(hash_of_source(s.last().1), x, hash_of_source(t.last().1), y);
        assert(source_hashes(s) =~= source_hashes(s.drop_last()).push(
            (s.last().0@, hash_of_source(s.last().1)),
        ));
        assert(source_hashes(t) =~= source_hashes(t.drop_last()).push(
            (t.last().0@, hash_of_source(t.last().1)),
        ));
    }
}

/// The forms of named sources are unambiguous.
pub proof fn lemma_sources_cut(
    a: NameMap<Arc<Source>>,
    x: Seq<u8>,
    b: NameMap<Arc<Source>>,
    y: Seq<u8>,
)
    requires
        enc_sources(a.entries@) + x == enc_sources(b.entries@) + y,
    ensures
        source_hashes(a.entries@) == source_hashes(b.entries@),
        x == y,
{
    let m = a.entries.len() as u64;
    let n = b.entries.len() as u64;
    assert(enc_sources(a.entries@) + x =~= enc_u64(m as nat) + (enc_each_source(a.entries@) + x));
    assert(enc_sources(b.entries@) + y =~= enc_u64(n as nat) + (enc_each_source(b.entries@) + y));
    lemma_u64_cut(m, enc_each_source(a.entries@) + x, n, enc_each_source(b.entries@) + y);
    lemma_each_source_cut(a.entries@, x, b.entries@, y);
}

// ---------------------------------------------------------------------------
// Packages
// ---------------------------------------------------------------------------

proof fn lemma_regroup_content_base(p: Package)
    ensures
        p.enc_content_base() == enc_u64(CONFIG_VERSION as nat) + (enc_text(
            p.global_env.rootfs_manifest_hash@,
        ) + (enc_env(p.global_env.global_environment_variables) + (enc_text(p.arch()) + (enc_text(
            p.prefix(),
        ) + (enc_env(p.environment_variables) + (enc_names(p.dependencies.native) + (
        enc_script_option(p.configure) + (enc_script_option(p.build) + (enc_script(p.install)
            + Seq::<u8>::empty()))))))))),
{
    lemma_regroup_10(
        enc_u64(CONFIG_VERSION as nat),
        enc_text(p.global_env.rootfs_manifest_hash@),
        enc_env(global_variables(p.global_env)),
        enc_text(p.arch()),
        enc_text(p.prefix()),
        enc_env(p.environment_variables),
        enc_names(p.dependencies.native),
        enc_script_option(p.configure),
        enc_script_option(p.build),
        enc_script(p.install),
    );
}

/// Packages whose content is fed as the same bytes, dependencies apart, agree in everything that
/// their content depends on: root file system, variables, architecture, prefix, native packages
/// and scripts.
pub proof fn lemma_content_base_is_exact(a: Package, b: Package)
    requires
        a.enc_content_base() == b.enc_content_base(),
    ensures
        same_content_base(a, b),
{
    let none = Seq::<u8>::empty();
    let a8 = enc_script(a.install) + none;
    let b8 = enc_script(b.install) + none;
    let a7 = enc_script_option(a.build) + a8;
    let b7 = enc_script_option(b.build) + b8;
    let a6 = enc_script_option(a.configure) + a7;
    let b6 = enc_script_option(b.configure) + b7;
    let a5 = enc_names(a.dependencies.native) + a6;
    let b5 = enc_names(b.dependencies.native) + b6;
    let a4 = enc_env(a.environment_variables) + a5;
    let b4 = enc_env(b.environment_variables) + b5;
    let a3 = enc_text(a.prefix()) + a4;
    let b3 = enc_text(b.prefix()) + b4;
    let a2 = enc_text(a.arch()) + a3;
    let b2 = enc_text(b.arch()) + b3;
    let a1 = enc_env(global_variables(a.global_env)) + a2;
    let b1 = enc_env(global_variables(b.global_env)) + b2;
    let a0 = enc_text(a.global_env.rootfs_manifest_hash@) + a1;
    let b0 = enc_text(b.global_env.rootfs_manifest_hash@) + b1;
    lemma_regroup_content_base(a);
    lemma_regroup_content_base(b);
    lemma_u64_cut(CONFIG_VERSION, a0, CONFIG_VERSION, b0);
    lemma_text_cut(
        a.global_env.rootfs_manifest_hash@,
        a1,
        b.global_env.rootfs_manifest_hash@,
        b1,
    );
    lemma_env_cut(
        global_variables(a.global_env),
        a2,
        global_variables(b.global_env),
        b2,
    );
    lemma_text_cut(a.arch(), a3, b.arch(), b3);
    lemma_text_cut(a.prefix(), a4, b.prefix(), b4);
    lemma_env_cut(a.environment_variables, a5, b.environment_variables, b5);
    lemma_names_cut(a.dependencies.native, a6, b.dependencies.native, b6);
    lemma_script_option_cut(a.configure, a7, b.configure, b7);
    lemma_script_option_cut(a.build, a8, b.build, b8);
    lemma_script_cut(a.install, none, b.install, none);
}

/// What is hashed of a package's content, on top of the hash of its base.
pub open spec fn enc_content(base_hash: u128, dependencies: Dependencies) -> Seq<u8> {
    enc_u128(base_hash) + enc_sources(dependencies.sources.entries@) + enc_packages(
        dependencies.tools@,
    ) + enc_packages(dependencies.packages@)
}

/// Contents that are fed as the same bytes have the same base and depend on the same sources, tools
/// and packages, as far as hashes tell.
pub proof fn lemma_content_is_exact(
    a_base: u128,
    a: Dependencies,
    b_base: u128,
    b: Dependencies,
)
    requires
        enc_content(a_base, a) == enc_content(b_base, b),
    ensures
        a_base == b_base,
        source_hashes(a.sources.entries@) == source_hashes(b.sources.entries@),
        package_hashes(a.tools@) == package_hashes(b.tools@),
        package_hashes(a.packages@) == package_hashes(b.packages@),
{
    let none = Seq::<u8>::empty();
    let a2 = enc_packages(a.packages@) + none;
    let b2 = enc_packages(b.packages@) + none;
    let a1 = enc_packages(a.tools@) + a2;
    let b1 = enc_packages(b.tools@) + b2;
    let a0 = enc_sources(a.sources.entries@) + a1;
    let b0 = enc_sources(b.sources.entries@) + b1;
    lemma_regroup_4(
        enc_u128(a_base),
        enc_sources(a.sources.entries@),
        enc_packages(a.tools@),
        enc_packages(a.packages@),
    );
    lemma_regroup_4(
        enc_u128(b_base),
        enc_sources(b.sources.entries@),
        enc_packages(b.tools@),
        enc_packages(b.packages@),
    );
    lemma_u128_cut(a_base, a0, b_base, b0);
    lemma_sources_cut(a.sources, a1, b.sources, b1);
    lemma_packages_cut(a.tools, a2, b.tools, b2);
    lemma_packages_cut(a.packages, none, b.packages, none);
}

/// What is hashed of a package's description.
pub open spec fn enc_meta(package: Package) -> Seq<u8> {
    enc_text(package.arch()) + enc_text(package.name@) + enc_text(package.version@) + enc_u64(
        package.revision as nat,
    ) + enc_packages(package.runtime_dependencies@)
}

/// The hashes of a package are the digests of what is hashed of it.
pub proof fn lemma_package_digests(package: Package)
    ensures
        package.content_hash() == xxh3_128(
            enc_content(package.content_base_hash(), package.dependencies),
        ),
        package.package_meta_hash() == xxh3_128(enc_meta(package)),
{
}

/// Packages whose descriptions are fed as the same bytes agree in architecture, name, version and
/// revision, and need the same packages at run time, as far as hashes tell.
pub proof fn lemma_meta_is_exact(a: Package, b: Package)
    requires
        enc_meta(a) == enc_meta(b),
    ensures
        a.arch() == b.arch(),
        a.name@ == b.name@,
        a.version@ == b.version@,
        a.revision == b.revision,
        package_hashes(a.runtime_dependencies@) == package_hashes(b.runtime_dependencies@),
{
    let none = Seq::<u8>::empty();
    let a3 = enc_packages(a.runtime_dependencies@) + none;
    let b3 = enc_packages(b.runtime_dependencies@) + none;
    let a2 = enc_u64(a.revision as nat) + a3;
    let b2 = enc_u64(b.revision as nat) + b3;
    let a1 = enc_text(a.version@) + a2;
    let b1 = enc_text(b.version@) + b2;
    let a0 = enc_text(a.name@) + a1;
    let b0 = enc_text(b.name@) + b1;
    lemma_regroup_5(
        enc_text(a.arch()),
        enc_text(a.name@),
        enc_text(a.version@),
        enc_u64(a.revision as nat),
        enc_packages(a.runtime_dependencies@),
    );
    lemma_regroup_5(
        enc_text(b.arch()),
        enc_text(b.name@),
        enc_text(b.version@),
        enc_u64(b.revision as nat),
        enc_packages(b.runtime_dependencies@),
    );
    lemma_text_cut(a.arch(), a0, b.arch(), b0);
    lemma_text_cut(a.name@, a1, b.name@, b1);
    lemma_text_cut(a.version@, a2, b.version@, b2);
    lemma_u64_cut(a.revision as u64, a3, b.revision as u64, b3);
    lemma_packages_cut(a.runtime_dependencies, none, b.runtime_dependencies, none);
}

/// Packages are fed as the same bytes if their hashes are the same.
pub proof fn lemma_packages_by_hashes(s: Seq<Arc<Package>>, t: Seq<Arc<Package>>)
    requires
        package_hashes(s) == package_hashes(t),
    ensures
        enc_each_package(s) == enc_each_package(t),
        enc_packages(s) == enc_packages(t),
    decreases s.len(),
{
    assert(package_hashes(s).len() == s.len());
    assert(package_hashes(t).len() == t.len());
    if s.len() > 0 {
        assert(package_hashes(s.drop_last()) =~= package_hashes(s).drop_last());
        assert(package_hashes(t.drop_last()) =~= package_hashes(t).drop_last());
        lemma_packages_by_hashes(s.drop_last(), t.drop_last());
        assert(package_hashes(s).last() == hash_of_package(s.last()));
        assert(package_hashes(t).last() == hash_of_package(t.last()));
    }
}

/// Named sources are fed as the same bytes if their names and hashes are the same.
pub proof fn lemma_sources_by_hashes(s: Seq<(String, Arc<Source>)>, t: Seq<(String, Arc<Source>)>)
    requires
        source_hashes(s) == source_hashes(t),
    ensures
        enc_each_source(s) == enc_each_source(t),
        enc_sources(s) == enc_sources(t),
    decreases s.len(),
{
    assert(source_hashes(s).len() == s.len());
    assert(source_hashes(t).len() == t.len());
    if s.len() > 0 {
        assert(source_hashes(s.drop_last()) =~= source_hashes(s).drop_last());
        assert(source_hashes(t.drop_last()) =~= source_hashes(t).drop_last());
        lemma_sources_by_hashes(s.drop_last(), t.drop_last());
        assert(source_hashes(s).last() == (s.last().0@, hash_of_source(s.last().1)));
        assert(source_hashes(t).last() == (t.last().0@, hash_of_source(t.last().1)));
    }
}

/// Two packages agree in everything that their content depends on, their dependencies on sources,
/// tools and packages apart.
pub open spec fn same_content_base(a: Package, b: Package) -> bool {
    &&& a.global_env.rootfs_manifest_hash@ == b.global_env.rootfs_manifest_hash@
    &&& entry_texts(a.global_env.global_environment_variables.entries@) == entry_texts(
        b.global_env.global_environment_variables.entries@,
    )
    &&& a.arch() == b.arch()
    &&& a.prefix() == b.prefix()
    &&& entry_texts(a.environment_variables.entries@) == entry_texts(
        b.environment_variables.entries@,
    )
    &&& texts(a.dependencies.native.names@) == texts(b.dependencies.native.names@)
    &&& same_script_option(a.configure, b.configure)
    &&& same_script_option(a.build, b.build)
    &&& same_script(a.install, b.install)
}

/// Two lists of dependencies name the same sources, tools and packages, as far as hashes tell.
pub open spec fn same_dependencies(a: Dependencies, b: Dependencies) -> bool {
    &&& source_hashes(a.sources.entries@) == source_hashes(b.sources.entries@)
    &&& package_hashes(a.tools@) == package_hashes(b.tools@)
    &&& package_hashes(a.packages@) == package_hashes(b.packages@)
}

/// Name, version, revision and what a package needs at run time do not count for its content.
/// Packages that agree in root file system, variables, architecture, prefix, native packages and
/// scripts have the same hash of the content without dependencies, whatever sources, tools and
/// packages they depend on; and if these have the same hashes, the same full content hash.
pub proof fn lemma_description_does_not_change_content(a: Package, b: Package)
    requires
        same_content_base(a, b),
    ensures
        a.content_base_hash() == b.content_base_hash(),
        same_dependencies(a.dependencies, b.dependencies) ==> a.content_hash() == b.content_hash(),
{
    lemma_env_by_texts(
        global_variables(a.global_env),
        global_variables(b.global_env),
    );
    lemma_env_by_texts(a.environment_variables, b.environment_variables);
    lemma_texts_by_texts(a.dependencies.native.names@, b.dependencies.native.names@);
    if same_dependencies(a.dependencies, b.dependencies) {
        lemma_package_digests(a);
        lemma_package_digests(b);
        lemma_sources_by_hashes(
            a.dependencies.sources.entries@,
            b.dependencies.sources.entries@,
        );
        lemma_packages_by_hashes(a.dependencies.tools@, b.dependencies.tools@);
        lemma_packages_by_hashes(a.dependencies.packages@, b.dependencies.packages@);
    }
}

/// Scripts, variables and what a package is built from do not count for its description: packages
/// that agree in architecture, name, version and revision, and need packages with the same hashes at
/// run time, have the same hash of the description.
pub proof fn lemma_content_does_not_change_description(a: Package, b: Package)
    requires
        a.arch() == b.arch(),
        a.name@ == b.name@,
        a.version@ == b.version@,
        a.revision == b.revision,
        package_hashes(a.runtime_dependencies@) == package_hashes(b.runtime_dependencies@),
    ensures
        a.package_meta_hash() == b.package_meta_hash(),
{
    lemma_package_digests(a);
    lemma_package_digests(b);
    lemma_packages_by_hashes(a.runtime_dependencies@, b.runtime_dependencies@);
}

// ---------------------------------------------------------------------------
// Sources
// ---------------------------------------------------------------------------

/// Two bases of sources are the same, as far as it counts: a local directory is known by its hash.
pub open spec fn same_base(a: SourceBase, b: SourceBase) -> bool {
    match (a, b) {
        (SourceBase::Archive(a), SourceBase::Archive(b)) => a.url@ == b.url@ && a.checksum@
            == b.checksum@ && a.compression == b.compression,
        (SourceBase::Git(a), SourceBase::Git(b)) => a.url@ == b.url@ && a.revision@ == b.revision@,
        (SourceBase::Local(a), SourceBase::Local(b)) => a.hash == b.hash,
        _ => false,
    }
}

/// Bases of sources are fed as the same bytes only if they are the same as far as it counts.
pub proof fn lemma_base_is_exact(a: SourceBase, b: SourceBase)
    requires
        enc_base(a) == enc_base(b),
    ensures
        same_base(a, b),
{
    let none = Seq::<u8>::empty();
    let m: u64 = match a {
        SourceBase::Archive(_) => 0,
        SourceBase::Git(_) => 1,
        SourceBase::Local(_) => 2,
    };
    let n: u64 = match b {
        SourceBase::Archive(_) => 0,
        SourceBase::Git(_) => 1,
        SourceBase::Local(_) => 2,
    };
    let x = match a {
        SourceBase::Archive(s) => enc_text(s.url@) + (enc_text(s.checksum@) + (enc_u64(
            compression_number(s.compression),
        ) + none)),
        SourceBase::Git(s) => enc_text(s.url@) + (enc_text(s.revision@) + none),
        SourceBase::Local(s) => enc_u128(s.hash) + none,
    };
    let y = match b {
        SourceBase::Archive(s) => enc_text(s.url@) + (enc_text(s.checksum@) + (enc_u64(
            compression_number(s.compression),
        ) + none)),
        SourceBase::Git(s) => enc_text(s.url@) + (enc_text(s.revision@) + none),
        SourceBase::Local(s) => enc_u128(s.hash) + none,
    };
    assert(enc_base(a) =~= enc_u64(m as nat) + x);
    assert(enc_base(b) =~= enc_u64(n as nat) + y);
    lemma_u64_cut(m, x, n, y);
    match (a, b) {
        (SourceBase::Archive(s), SourceBase::Archive(t)) => {
            let cs = compression_number(s.compression) as u64;
            let ct = compression_number(t.compression) as u64;
            let x2 = enc_u64(cs as nat) + none;
            let y2 = enc_u64(ct as nat) + none;
            lemma_text_cut(s.url@, enc_text(s.checksum@) + x2, t.url@, enc_text(t.checksum@) + y2);
            lemma_text_cut(s.checksum@, x2, t.checksum@, y2);
            lemma_u64_cut(cs, none, ct, none);
        },
        (SourceBase::Git(s), SourceBase::Git(t)) => {
            lemma_text_cut(s.url@, enc_text(s.revision@) + none, t.url@, enc_text(t.revision@) + none);
            lemma_text_cut(s.revision@, none, t.revision@, none);
        },
        (SourceBase::Local(s), SourceBase::Local(t)) => {
            lemma_u128_cut(s.hash, none, t.hash, none);
        },
        _ => {},
    }
}

/// Where a local directory is does not count: local sources with the same hash have the same hash
/// of the base.
pub proof fn lemma_local_path_does_not_count(a: Source, b: Source)
    requires
        same_base(a.base, b.base),
        a.base is Local,
    ensures
        a.base_hash() == b.base_hash(),
{
}

/// Patches on top of a base are fed as the same bytes only if the bases have the same hash and the
/// patches are the same, in the same order.
pub proof fn lemma_patches_are_exact(
    a_base: u128,
    a: Vec<String>,
    b_base: u128,
    b: Vec<String>,
)
    requires
        enc_u128(a_base) + enc_texts(a@) == enc_u128(b_base) + enc_texts(b@),
    ensures
        a_base == b_base,
        texts(a@) == texts(b@),
{
    let none = Seq::<u8>::empty();
    lemma_u128_cut(a_base, enc_texts(a@), b_base, enc_texts(b@));
    assert(enc_texts(a@) + none =~= enc_texts(a@));
    assert(enc_texts(b@) + none =~= enc_texts(b@));
    lemma_texts_cut(a, none, b, none);
}

/// What is hashed of a preparation on top of patches, its dependencies on sources and packages
/// apart.
pub open spec fn enc_prepare_base(patch_hash: u128, prepare: SourcePrepare) -> Seq<u8> {
    enc_u128(patch_hash) + enc_text(prepare.global_env.rootfs_manifest_hash@) + enc_env(
        prepare.global_env.global_environment_variables,
    ) + enc_names(prepare.global_env.global_native_packages) + enc_env(
        prepare.environment_variables,
    ) + enc_script(prepare.script) + enc_names(prepare.dependencies.native)
}

/// Preparations are fed as the same bytes only if they agree in everything that counts.
pub proof fn lemma_prepare_base_is_exact(
    a_patch: u128,
    a: SourcePrepare,
    b_patch: u128,
    b: SourcePrepare,
)
    requires
        enc_prepare_base(a_patch, a) == enc_prepare_base(b_patch, b),
    ensures
        a_patch == b_patch,
        a.global_env.rootfs_manifest_hash@ == b.global_env.rootfs_manifest_hash@,
        entry_texts(a.global_env.global_environment_variables.entries@) == entry_texts(
            b.global_env.global_environment_variables.entries@,
        ),
        texts(a.global_env.global_native_packages.names@) == texts(
            b.global_env.global_native_packages.names@,
        ),
        entry_texts(a.environment_variables.entries@) == entry_texts(
            b.environment_variables.entries@,
        ),
        same_script(a.script, b.script),
        texts(a.dependencies.native.names@) == texts(b.dependencies.native.names@),
{
    let none = Seq::<u8>::empty();
    let a5 = enc_names(a.dependencies.native) + none;
    let b5 = enc_names(b.dependencies.native) + none;
    let a4 = enc_script(a.script) + a5;
    let b4 = enc_script(b.script) + b5;
    let a3 = enc_env(a.environment_variables) + a4;
    let b3 = enc_env(b.environment_variables) + b4;
    let a2 = enc_names(native_packages(a.global_env)) + a3;
    let b2 = enc_names(native_packages(b.global_env)) + b3;
    let a1 = enc_env(global_variables(a.global_env)) + a2;
    let b1 = enc_env(global_variables(b.global_env)) + b2;
    let a0 = enc_text(a.global_env.rootfs_manifest_hash@) + a1;
    let b0 = enc_text(b.global_env.rootfs_manifest_hash@) + b1;
    lemma_regroup_7(
        enc_u128(a_patch),
        enc_text(a.global_env.rootfs_manifest_hash@),
        enc_env(global_variables(a.global_env)),
        enc_names(native_packages(a.global_env)),
        enc_env(a.environment_variables),
        enc_script(a.script),
        enc_names(a.dependencies.native),
    );
    lemma_regroup_7(
        enc_u128(b_patch),
        enc_text(b.global_env.rootfs_manifest_hash@),
        enc_env(global_variables(b.global_env)),
        enc_names(native_packages(b.global_env)),
        enc_env(b.environment_variables),
        enc_script(b.script),
        enc_names(b.dependencies.native),
    );
    lemma_u128_cut(a_patch, a0, b_patch, b0);
    lemma_text_cut(
        a.global_env.rootfs_manifest_hash@,
        a1,
        b.global_env.rootfs_manifest_hash@,
        b1,
    );
    lemma_env_cut(
        global_variables(a.global_env),
        a2,
        global_variables(b.global_env),
        b2,
    );
    lemma_names_cut(
        native_packages(a.global_env),
        a3,
        native_packages(b.global_env),
        b3,
    );
    lemma_env_cut(a.environment_variables, a4, b.environment_variables, b4);
    lemma_script_cut(a.script, a5, b.script, b5);
    lemma_names_cut(a.dependencies.native, none, b.dependencies.native, none);
}

} // verus!
