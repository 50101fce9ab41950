//! The local configuration: what a user wants to be different on their machine.

use crate::config::package::PackagePlatform;
use crate::util::names::{find, NameMap};
use crate::util::path::UnixPath;
use vstd::prelude::*;

verus! {

/// What is different for a package.
#[derive(Debug)]
pub struct PackageConfig {
    /// its build directory is kept
    pub enable_build_cache: bool,
    /// directories that take the place of its sources, by the names of the sources
    pub source_overrides: NameMap<UnixPath>,
}

/// The local configuration.
#[derive(Debug)]
pub struct CliConfig {
    pub pkgs: NameMap<PackageConfig>,
    pub tools: NameMap<PackageConfig>,
}

/// Directories by the names of the sources.
pub open spec fn overrides_of(map: NameMap<UnixPath>) -> Map<Seq<char>, Seq<u8>> {
    Map::new(|name: Seq<char>| map@.contains_key(name), |name: Seq<char>| map@[name]@)
}

impl Default for PackageConfig {
    /// Nothing is different.
    fn default() -> (r: PackageConfig)
        ensures
            !r.enable_build_cache,
            overrides_of(r.source_overrides) == Map::<Seq<char>, Seq<u8>>::empty(),
            r.source_overrides.wf(),
    {
        let r = PackageConfig { enable_build_cache: false, source_overrides: NameMap::new() };
        assert(overrides_of(r.source_overrides) =~= Map::<Seq<char>, Seq<u8>>::empty());
        r
    }
}

impl Default for CliConfig {
    /// Nothing is different.
    fn default() -> (r: CliConfig)
        ensures
            r.pkgs@ == Map::<Seq<char>, PackageConfig>::empty(),
            r.tools@ == Map::<Seq<char>, PackageConfig>::empty(),
            r.pkgs.wf(),
            r.tools.wf(),
    {
        CliConfig { pkgs: NameMap::new(), tools: NameMap::new() }
    }
}

/// Directories that take the place of the sources of packages.
#[derive(Debug)]
pub struct SourceOverrideMap {
    pub pkgs: NameMap<NameMap<UnixPath>>,
    pub tools: NameMap<NameMap<UnixPath>>,
}

/// The part of a local configuration for the packages of a platform.
pub open spec fn platform_configs(config: CliConfig, platform: PackagePlatform) -> Map<
    Seq<char>,
    PackageConfig,
> {
    match platform {
        PackagePlatform::Target => config.pkgs@,
        PackagePlatform::Host => config.tools@,
    }
}

/// The directories that take the place of the sources of each package that the local configuration
/// names, by the package's name and platform.
pub open spec fn override_map(config: CliConfig) -> Map<
    (Seq<char>, PackagePlatform),
    Map<Seq<char>, Seq<u8>>,
> {
    Map::new(
        |key: (Seq<char>, PackagePlatform)| platform_configs(config, key.1).contains_key(key.0),
        |key: (Seq<char>, PackagePlatform)|
            overrides_of(platform_configs(config, key.1)[key.0].source_overrides),
    )
}

impl View for SourceOverrideMap {
    type V = Map<(Seq<char>, PackagePlatform), Map<Seq<char>, Seq<u8>>>;

    open spec fn view(&self) -> Map<(Seq<char>, PackagePlatform), Map<Seq<char>, Seq<u8>>> {
        Map::new(
            |key: (Seq<char>, PackagePlatform)|
                match key.1 {
                    PackagePlatform::Target => self.pkgs@.contains_key(key.0),
                    PackagePlatform::Host => self.tools@.contains_key(key.0),
                },
            |key: (Seq<char>, PackagePlatform)|
                match key.1 {
                    PackagePlatform::Target => overrides_of(self.pkgs@[key.0]),
                    PackagePlatform::Host => overrides_of(self.tools@[key.0]),
                },
        )
    }
}

impl SourceOverrideMap {
    /// The directories that take the place of the sources of a package.
    pub fn get(&self, name: &str, platform: PackagePlatform) -> (r: Option<&NameMap<UnixPath>>)
        ensures
            match r {
                Some(map) => self@.contains_key((name@, platform)) && overrides_of(*map)
                    == self@[(name@, platform)],
                None => !self@.contains_key((name@, platform)),
            },
    {
        match platform {
            PackagePlatform::Target => self.pkgs.get(name),
            PackagePlatform::Host => self.tools.get(name),
        }
    }
}

fn copy_overrides(map: &NameMap<UnixPath>) -> (r: NameMap<UnixPath>)
    ensures
        overrides_of(r) == overrides_of(*map),
{
    let mut entries: Vec<(String, UnixPath)> = Vec::new();
    let mut i: usize = 0;
    while i < map.entries.len()
        invariant
            0 <= i <= map.entries@.len(),
            entries@.len() == i,
            forall|k: int|
                0 <= k < i ==> (#[trigger] entries@[k]).0@ == map.entries@[k].0@ && entries@[k].1@
                    == map.entries@[k].1@,
        decreases map.entries@.len() - i,
    {
        entries.push((map.entries[i].0.clone(), map.entries[i].1.copy()));
        i = i + 1;
    }
    let r = NameMap { entries };
    proof {
        assert forall|name: Seq<char>| (find(r.entries@, name) is Some) == (find(
            map.entries@,
            name,
        ) is Some) && (find(r.entries@, name) is Some ==> (find(r.entries@, name)->0)@ == (find(
            map.entries@,
            name,
        )->0)@) by {
            lemma_same_paths(r.entries@, map.entries@, name);
        }
        assert(overrides_of(r) =~= overrides_of(*map));
    }
    r
}

proof fn lemma_same_paths(a: Seq<(String, UnixPath)>, b: Seq<(String, UnixPath)>, name: Seq<char>)
    requires
        a.len() == b.len(),
        forall|k: int| 0 <= k < a.len() ==> (#[trigger] a[k]).0@ == b[k].0@ && a[k].1@ == b[k].1@,
    ensures
        (find(a, name) is Some) == (find(b, name) is Some),
        find(a, name) is Some ==> (find(a, name)->0)@ == (find(b, name)->0)@,
    decreases a.len(),
{
    if a.len() > 0 && a[0].0@ != name {
        assert forall|k: int| 0 <= k < a.skip(1).len() implies (#[trigger] a.skip(1)[k]).0@
            == b.skip(1)[k].0@ && a.skip(1)[k].1@ == b.skip(1)[k].1@ by {
            assert(a.skip(1)[k] == a[k + 1]);
        }
        lemma_same_paths(a.skip(1), b.skip(1), name);
    }
}

proof fn lemma_same_overrides(
    a: Seq<(String, NameMap<UnixPath>)>,
    b: Seq<(String, PackageConfig)>,
    name: Seq<char>,
)
    requires
        a.len() == b.len(),
        forall|k: int|
            0 <= k < a.len() ==> (#[trigger] a[k]).0@ == b[k].0@ && overrides_of(a[k].1)
                == overrides_of(b[k].1.source_overrides),
    ensures
        (find(a, name) is Some) == (find(b, name) is Some),
        find(a, name) is Some ==> overrides_of(find(a, name)->0) == overrides_of(
            (find(b, name)->0).source_overrides,
        ),
    decreases a.len(),
{
    if a.len() > 0 && a[0].0@ != name {
        assert forall|k: int| 0 <= k < a.skip(1).len() implies (#[trigger] a.skip(1)[k]).0@
            == b.skip(1)[k].0@ && overrides_of(a.skip(1)[k].1) == overrides_of(
            b.skip(1)[k].1.source_overrides,
        ) by {
            assert(a.skip(1)[k] == a[k + 1]);
        }
        lemma_same_overrides(a.skip(1), b.skip(1), name);
    }
}

fn collect_overrides(configs: &NameMap<PackageConfig>) -> (r: NameMap<NameMap<UnixPath>>)
    ensures
        forall|name: Seq<char>|
            #![trigger r@.contains_key(name)]
            r@.contains_key(name) == configs@.contains_key(name) && (r@.contains_key(name)
                ==> overrides_of(r@[name]) == overrides_of(configs@[name].source_overrides)),
{
    let mut entries: Vec<(String, NameMap<UnixPath>)> = Vec::new();
    let mut i: usize = 0;
    while i < configs.entries.len()
        invariant
            0 <= i <= configs.entries@.len(),
            entries@.len() == i,
            forall|k: int|
                0 <= k < i ==> (#[trigger] entries@[k]).0@ == configs.entries@[k].0@
                    && overrides_of(entries@[k].1) == overrides_of(
                    configs.entries@[k].1.source_overrides,
                ),
        decreases configs.entries@.len() - i,
    {
        entries.push(
            (
                configs.entries[i].0.clone(),
                copy_overrides(&configs.entries[i].1.source_overrides),
            ),
        );
        i = i + 1;
    }
    let r = NameMap { entries };
    proof {
        assert forall|name: Seq<char>| #![trigger r@.contains_key(name)]
            r@.contains_key(name) == configs@.contains_key(name) && (r@.contains_key(name)
                ==> overrides_of(r@[name]) == overrides_of(configs@[name].source_overrides)) by {
            lemma_same_overrides(r.entries@, configs.entries@, name);
        }
    }
    r
}

/// The packages of a platform whose build directories are kept are listed.
pub open spec fn lists_kept(
    list: Seq<(PackagePlatform, String)>,
    platform: PackagePlatform,
    configs: Seq<(String, PackageConfig)>,
) -> bool {
    forall|name: Seq<char>|
        #![trigger is_listed(list, platform, name)]
        is_listed(list, platform, name) <==> enables_cache(configs, name)
}

/// A package is in a list.
pub open spec fn is_listed(
    list: Seq<(PackagePlatform, String)>,
    platform: PackagePlatform,
    name: Seq<char>,
) -> bool {
    exists|i: int|
        0 <= i < list.len() && (#[trigger] list[i]).0 == platform && list[i].1@ == name
}

/// One of the entries for a name says that the build directory is kept.
pub open spec fn enables_cache(configs: Seq<(String, PackageConfig)>, name: Seq<char>) -> bool {
    exists|i: int|
        0 <= i < configs.len() && (#[trigger] configs[i]).0@ == name
            && configs[i].1.enable_build_cache
}

fn push_kept(
    list: &mut Vec<(PackagePlatform, String)>,
    platform: PackagePlatform,
    configs: &NameMap<PackageConfig>,
)
    requires
        forall|i: int| 0 <= i < old(list)@.len() ==> (#[trigger] old(list)@[i]).0 != platform,
    ensures
        lists_kept(final(list)@, platform, configs.entries@),
        forall|i: int|
            old(list)@.len() <= i < final(list)@.len() ==> (#[trigger] final(list)@[i]).0
                == platform,
        forall|other: PackagePlatform, name: Seq<char>|
            other != platform ==> #[trigger] is_listed(final(list)@, other, name) == is_listed(
                old(list)@,
                other,
                name,
            ),
{
    let mut i: usize = 0;
    let ghost before = list@;
    while i < configs.entries.len()
        invariant
            0 <= i <= configs.entries@.len(),
            before == old(list)@,
            before.len() <= list@.len(),
            list@.take(before.len() as int) == before,
            forall|k: int| before.len() <= k < list@.len() ==> (#[trigger] list@[k]).0 == platform,
            forall|k: int| 0 <= k < before.len() ==> (#[trigger] before[k]).0 != platform,
            forall|name: Seq<char>|
                #![trigger is_listed(list@, platform, name)]
                is_listed(list@, platform, name) <==> enables_cache(
                    configs.entries@.take(i as int),
                    name,
                ),
        decreases configs.entries@.len() - i,
    {
        let ghost so_far = list@;
        let ghost done = configs.entries@.take(i as int);
        let ghost next = configs.entries@.take(i + 1);
        let ghost entry = configs.entries@[i as int];
        assert(next =~= done.push(entry));
        if configs.entries[i].1.enable_build_cache {
            list.push((platform, configs.entries[i].0.clone()));
        }
        proof {
            assert(list@.take(before.len() as int) =~= before);
            assert forall|name: Seq<char>|
                #![trigger is_listed(list@, platform, name)]
                is_listed(list@, platform, name) <==> enables_cache(next, name) by {
                let listed = is_listed(so_far, platform, name);
                if listed {
                    let k = choose|k: int|
                        0 <= k < so_far.len() && (#[trigger] so_far[k]).0 == platform
                            && so_far[k].1@ == name;
                    assert(list@[k] == so_far[k]);
                    let m = choose|m: int|
                        0 <= m < done.len() && (#[trigger] done[m]).0@ == name
                            && done[m].1.enable_build_cache;
                    assert(next[m] == done[m]);
                }
                if entry.0@ == name && entry.1.enable_build_cache {
                    assert(next[i as int] == entry);
                    assert(list@[so_far.len() as int].1@ == name);
                }
                if is_listed(list@, platform, name) {
                    let k = choose|k: int|
                        0 <= k < list@.len() && (#[trigger] list@[k]).0 == platform && list@[k].1@
                            == name;
                    if k < so_far.len() {
                        assert(so_far[k] == list@[k]);
                    } else {
                        assert(next[i as int] == entry);
                    }
                }
                if enables_cache(next, name) {
                    let m = choose|m: int|
                        0 <= m < next.len() && (#[trigger] next[m]).0@ == name
                            && next[m].1.enable_build_cache;
                    if m < done.len() {
                        assert(done[m] == next[m]);
                    }
                }
            }
        }
        i = i + 1;
    }
    proof {
        assert(configs.entries@.take(i as int) =~= configs.entries@);
        assert forall|other: PackagePlatform, name: Seq<char>| other != platform implies
            #[trigger] is_listed(list@, other, name) == is_listed(before, other, name) by {
            if is_listed(list@, other, name) {
                let k = choose|k: int|
                    0 <= k < list@.len() && (#[trigger] list@[k]).0 == other && list@[k].1@
                        == name;
                assert(list@.take(before.len() as int)[k] == list@[k]);
            }
            if is_listed(before, other, name) {
                let k = choose|k: int|
                    0 <= k < before.len() && (#[trigger] before[k]).0 == other && before[k].1@
                        == name;
                assert(list@.take(before.len() as int)[k] == list@[k]);
            }
        }
    }
}

impl CliConfig {
    /// The directories that take the place of the sources of each package, by the package's name
    /// and platform.
    pub fn get_source_override_map(&self) -> (r: SourceOverrideMap)
        ensures
            r@ == override_map(*self),
    {
        let r = SourceOverrideMap {
            pkgs: collect_overrides(&self.pkgs),
            tools: collect_overrides(&self.tools),
        };
        assert(r@ =~= override_map(*self));
        r
    }

    /// The packages whose build directories are kept.
    pub fn build_cache_enabled(&self) -> (r: Vec<(PackagePlatform, String)>)
        ensures
            lists_kept(r@, PackagePlatform::Target, self.pkgs.entries@),
            lists_kept(r@, PackagePlatform::Host, self.tools.entries@),
    {
        let mut list: Vec<(PackagePlatform, String)> = Vec::new();
        push_kept(&mut list, PackagePlatform::Target, &self.pkgs);
        push_kept(&mut list, PackagePlatform::Host, &self.tools);
        list
    }
}

} // verus!
