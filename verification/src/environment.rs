//! What an environment is to be made of.

use crate::config::package::Package;
use crate::config::source::{Source, SourcePrepare};
use crate::config::Dependencies;
use crate::util::names::{NameMap, NameSet};
use std::sync::Arc;
use vstd::prelude::*;

verus! {

/// What an environment is to be made of.
#[derive(Debug)]
pub struct EnvironmentOrder {
    /// the native packages of a set that is got first, and over which the set of the native packages
    /// among the dependencies lies; without it, that set lies over the one that all runs share
    pub root_native: Option<NameSet>,
    pub dependencies: Dependencies,
}

/// [`EnvironmentOrder`] by its lists.
#[verifier::ext_equal]
pub struct EnvironmentSpec {
    pub root_native: Option<Seq<String>>,
    pub native: Seq<String>,
    pub sources: Seq<(String, Arc<Source>)>,
    pub tools: Seq<Arc<Package>>,
    pub packages: Seq<Arc<Package>>,
}

/// What an environment is made of for dependencies, over a set of native packages.
pub open spec fn environment_of(
    root_native: Option<NameSet>,
    dependencies: Dependencies,
) -> EnvironmentSpec {
    EnvironmentSpec {
        root_native: match root_native {
            None => None,
            Some(set) => Some(set.names@),
        },
        native: dependencies.native.names@,
        sources: dependencies.sources.entries@,
        tools: dependencies.tools@,
        packages: dependencies.packages@,
    }
}

impl View for EnvironmentOrder {
    type V = EnvironmentSpec;

    open spec fn view(&self) -> EnvironmentSpec {
        environment_of(self.root_native, self.dependencies)
    }
}

/// What the environment of a package is made of: the global native packages first, over them those
/// of the package, and the sources, tools and packages that it depends on.
pub open spec fn environment_of_package(package: Package) -> EnvironmentSpec {
    environment_of(Some(package.global_env.global_native_packages), package.dependencies)
}

/// What the environment for the preparation of a source is made of: just what the preparation
/// depends on.
pub open spec fn environment_of_preparation(prepare: SourcePrepare) -> EnvironmentSpec {
    environment_of(None, prepare.dependencies)
}

fn copy_names(set: &NameSet) -> (r: NameSet)
    ensures
        r.names@ == set.names@,
{
    let mut names: Vec<String> = Vec::new();
    let mut i: usize = 0;
    while i < set.names.len()
        invariant
            0 <= i <= set.names@.len(),
            names@ == set.names@.take(i as int),
        decreases set.names@.len() - i,
    {
        names.push(set.names[i].clone());
        assert(set.names@.take(i + 1) =~= set.names@.take(i as int).push(set.names@[i as int]));
        i = i + 1;
    }
    assert(set.names@.take(i as int) =~= set.names@);
    NameSet { names }
}

fn copy_sources(map: &NameMap<Arc<Source>>) -> (r: NameMap<Arc<Source>>)
    ensures
        r.entries@ == map.entries@,
{
    let mut entries: Vec<(String, Arc<Source>)> = Vec::new();
    let mut i: usize = 0;
    while i < map.entries.len()
        invariant
            0 <= i <= map.entries@.len(),
            entries@ == map.entries@.take(i as int),
        decreases map.entries@.len() - i,
    {
        entries.push((map.entries[i].0.clone(), map.entries[i].1.clone()));
        assert(map.entries@.take(i + 1) =~= map.entries@.take(i as int).push(
            map.entries@[i as int],
        ));
        i = i + 1;
    }
    assert(map.entries@.take(i as int) =~= map.entries@);
    NameMap { entries }
}

fn copy_packages(list: &Vec<Arc<Package>>) -> (r: Vec<Arc<Package>>)
    ensures
        r@ == list@,
{
    let mut out: Vec<Arc<Package>> = Vec::new();
    let mut i: usize = 0;
    while i < list.len()
        invariant
            0 <= i <= list@.len(),
            out@ == list@.take(i as int),
        decreases list@.len() - i,
    {
        out.push(list[i].clone());
        assert(list@.take(i + 1) =~= list@.take(i as int).push(list@[i as int]));
        i = i + 1;
    }
    assert(list@.take(i as int) =~= list@);
    out
}

fn copy_dependencies(dependencies: &Dependencies) -> (r: Dependencies)
    ensures
        environment_of(None, r) == environment_of(None, *dependencies),
{
    Dependencies {
        native: copy_names(&dependencies.native),
        sources: copy_sources(&dependencies.sources),
        tools: copy_packages(&dependencies.tools),
        packages: copy_packages(&dependencies.packages),
    }
}

/// What the environment of a package is made of.
pub fn order_for_package(package: &Package) -> (r: EnvironmentOrder)
    ensures
        r@ == environment_of_package(*package),
{
    EnvironmentOrder {
        root_native: Some(copy_names(&package.global_env.global_native_packages)),
        dependencies: copy_dependencies(&package.dependencies),
    }
}

/// What the environment for the preparation of a source is made of.
pub fn order_for_preparation(prepare: &SourcePrepare) -> (r: EnvironmentOrder)
    ensures
        r@ == environment_of_preparation(*prepare),
{
    EnvironmentOrder {
        root_native: None,
        dependencies: copy_dependencies(&prepare.dependencies),
    }
}

} // verus!
