//! Making an environment out of the dependencies of a recipe, where the architecture that a package
//! is installed for follows from the options that the package subscribes to.

use crate::config::package::{Package, PackagePlatform};
use crate::config::source::Source;
use crate::config::Dependencies;
use crate::execenv::{ExecEnv, ExecEnvSpec};
use crate::execenv_create::{
    all_for, fetched_sources, install_all_step, next_for_all_installs, next_for_sources,
    replies_fit, sources_stage, CreateEnvErrorSpec, CreateExecEnvError, EnvReplies, EnvStep,
    EnvStepSpec,
};
use crate::install::{InstallOrder, OrderSpec};
use crate::mount::{upper_of, OverlayUpperDirectory};
use crate::package::{process_text, ProcessErrorSpec, ProcessPackageError};
use crate::request::PkgSet;
use crate::runtime_deps::{resolve_package_runtime_dependencies, runtime_closure, same_platform};
use crate::util::text::texts;
use crate::xbps::{install_error_text, InstallErrorSpec, XBPSPackageInstallError};
use crate::NOARCH_ARCH;
use std::sync::Arc;
use vstd::prelude::*;

verus! {

/// Why the dependencies of a recipe could not be resolved.
#[derive(Debug)]
pub enum ResolveDependenciesError {
    ProcessPackage(ProcessPackageError),
    PackageInstall(XBPSPackageInstallError),
}

/// [`ResolveDependenciesError`] by its texts.
pub enum ResolveErrorSpec {
    ProcessPackage(ProcessErrorSpec),
    PackageInstall(InstallErrorSpec),
}

impl View for ResolveDependenciesError {
    type V = ResolveErrorSpec;

    open spec fn view(&self) -> ResolveErrorSpec {
        match self {
            ResolveDependenciesError::ProcessPackage(error) => ResolveErrorSpec::ProcessPackage(
                error@,
            ),
            ResolveDependenciesError::PackageInstall(error) => ResolveErrorSpec::PackageInstall(
                error@,
            ),
        }
    }
}

/// An error of resolving dependencies in words.
pub open spec fn resolve_text(error: ResolveDependenciesError) -> Seq<char> {
    match error {
        ResolveDependenciesError::ProcessPackage(error) => process_text(error),
        ResolveDependenciesError::PackageInstall(error) => install_error_text(error@),
    }
}

impl ResolveDependenciesError {
    /// The error in words.
    pub fn message(&self) -> (r: String)
        ensures
            r@ == resolve_text(*self),
    {
        match self {
            ResolveDependenciesError::ProcessPackage(error) => error.message(),
            ResolveDependenciesError::PackageInstall(error) => error.message(),
        }
    }
}

/// What the options say of a package.
#[derive(Debug)]
pub struct PackageOptions {
    /// the package subscribes to the option `arch`
    pub subscribes_to_arch: bool,
    /// what the option `arch` is set to
    pub arch: Option<String>,
}

/// The architecture that a package is installed for: what the option says if the package subscribes
/// to it and it is set, and none in particular otherwise.
pub open spec fn install_arch(options: PackageOptions) -> Seq<char> {
    if options.subscribes_to_arch && options.arch is Some {
        (options.arch->0)@
    } else {
        NOARCH_ARCH@
    }
}

/// The architectures that packages are installed for.
pub open spec fn install_archs(options: Seq<PackageOptions>) -> Seq<Seq<char>> {
    options.map_values(|o: PackageOptions| install_arch(o))
}

fn get_install_arch(options: &PackageOptions) -> (r: String)
    ensures
        r@ == install_arch(*options),
{
    if options.subscribes_to_arch {
        if let Some(arch) = &options.arch {
            return arch.clone();
        }
    }
    NOARCH_ARCH.to_string()
}

fn list_install_archs(options: &Vec<PackageOptions>) -> (r: Vec<String>)
    ensures
        texts(r@) == install_archs(options@),
{
    let mut out: Vec<String> = Vec::new();
    let mut i: usize = 0;
    assert(texts(out@) =~= install_archs(options@).take(0));
    while i < options.len()
        invariant
            0 <= i <= options@.len(),
            texts(out@) == install_archs(options@).take(i as int),
        decreases options@.len() - i,
    {
        let ghost before = texts(out@);
        let ghost all = install_archs(options@);
        let arch: String = get_install_arch(&options[i]);
        let ghost text = arch@;
        out.push(arch);
        assert(texts(out@) =~= before.push(text));
        assert(all.take(i + 1) =~= all.take(i as int).push(all[i as int]));
        i = i + 1;
    }
    assert(install_archs(options@).take(options@.len() as int) =~= install_archs(options@));
    out
}

/// The packages whose repositories are needed to install a package, in the order in which they are
/// processed.
pub fn resolve_repos_for_pkg(pkg: &Arc<Package>) -> (r: Vec<Arc<Package>>)
    requires
        same_platform(*pkg),
    ensures
        r@ == runtime_closure(*pkg),
{
    resolve_package_runtime_dependencies(pkg)
}

/// What to do next to resolve dependencies.
#[derive(Debug)]
pub enum ResolveStep {
    /// fetch a source
    FetchSource(Arc<Source>),
    /// get the set of native packages that the dependencies name
    GetPackageSet,
    /// make a work directory for the packages
    MakeSysroot,
    /// make a work directory for the tools
    MakeToolOverlay,
    /// install a package
    Install(InstallOrder),
    /// stop
    Fail(ResolveDependenciesError),
    /// the environment is there
    Done(ExecEnv),
}

/// [`ResolveStep`] by its paths and texts.
pub enum ResolveStepSpec {
    FetchSource(Arc<Source>),
    GetPackageSet,
    MakeSysroot,
    MakeToolOverlay,
    Install(OrderSpec),
    Fail(ResolveErrorSpec),
    Done(ExecEnvSpec),
}

impl View for ResolveStep {
    type V = ResolveStepSpec;

    open spec fn view(&self) -> ResolveStepSpec {
        match self {
            ResolveStep::FetchSource(source) => ResolveStepSpec::FetchSource(*source),
            ResolveStep::GetPackageSet => ResolveStepSpec::GetPackageSet,
            ResolveStep::MakeSysroot => ResolveStepSpec::MakeSysroot,
            ResolveStep::MakeToolOverlay => ResolveStepSpec::MakeToolOverlay,
            ResolveStep::Install(order) => ResolveStepSpec::Install(order@),
            ResolveStep::Fail(error) => ResolveStepSpec::Fail(error@),
            ResolveStep::Done(env) => ResolveStepSpec::Done(env@),
        }
    }
}

/// A step of making an environment as a step of resolving dependencies: everything is installed
/// with the packages of the root file system, and errors carry less.
pub open spec fn as_resolve_step(step: EnvStepSpec) -> ResolveStepSpec {
    match step {
        EnvStepSpec::FetchSource(source) => ResolveStepSpec::FetchSource(source),
        EnvStepSpec::MakeSysroot => ResolveStepSpec::MakeSysroot,
        EnvStepSpec::MakeToolOverlay => ResolveStepSpec::MakeToolOverlay,
        EnvStepSpec::Install(order) => ResolveStepSpec::Install(
            OrderSpec { pkgset: PkgSet::Root, ..order },
        ),
        EnvStepSpec::Fail(CreateEnvErrorSpec::ProcessPackage(error)) => ResolveStepSpec::Fail(
            ResolveErrorSpec::ProcessPackage((*error)@),
        ),
        EnvStepSpec::Fail(CreateEnvErrorSpec::FetchSource { name, source }) =>
            ResolveStepSpec::Fail(
            ResolveErrorSpec::ProcessPackage(ProcessErrorSpec::SourceFetch { name, source }),
        ),
        EnvStepSpec::Fail(CreateEnvErrorSpec::PackageInstall { platform, name, source }) =>
            ResolveStepSpec::Fail(ResolveErrorSpec::PackageInstall(source)),
        EnvStepSpec::Done(env) => ResolveStepSpec::Done(env),
    }
}

/// What to do next to resolve dependencies: first the sources, then the set of native packages,
/// then the packages and the tools.
pub open spec fn resolve_step(
    dependencies: Dependencies,
    options: Seq<PackageOptions>,
    parallelism: nat,
    package_set_ready: bool,
    replies: EnvReplies,
) -> ResolveStepSpec {
    match sources_stage(dependencies.sources.entries@, replies.sources@) {
        Some(step) => as_resolve_step(step),
        None => if !package_set_ready {
            ResolveStepSpec::GetPackageSet
        } else {
            as_resolve_step(
                install_all_step(
                    fetched_sources(dependencies.sources.entries@, replies.sources@),
                    dependencies.packages@,
                    install_archs(options),
                    dependencies.tools@,
                    parallelism,
                    false,
                    None,
                    replies,
                ),
            )
        },
    }
}

fn to_resolve_step(step: EnvStep) -> (r: ResolveStep)
    ensures
        r@ == as_resolve_step(step@),
        r matches ResolveStep::Done(env) ==> step == EnvStep::Done(env),
{
    match step {
        EnvStep::FetchSource(source) => ResolveStep::FetchSource(source),
        EnvStep::MakeSysroot => ResolveStep::MakeSysroot,
        EnvStep::MakeToolOverlay => ResolveStep::MakeToolOverlay,
        EnvStep::Install(order) => {
            let mut order: InstallOrder = order;
            order.pkgset = PkgSet::Root;
            ResolveStep::Install(order)
        },
        EnvStep::Fail(CreateExecEnvError::ProcessPackage(error)) => ResolveStep::Fail(
            ResolveDependenciesError::ProcessPackage(error.copy()),
        ),
        EnvStep::Fail(CreateExecEnvError::FetchSource { name, source }) => ResolveStep::Fail(
            ResolveDependenciesError::ProcessPackage(
                ProcessPackageError::SourceFetch { name, source },
            ),
        ),
        EnvStep::Fail(CreateExecEnvError::PackageInstall { platform, name, source }) =>
            ResolveStep::Fail(ResolveDependenciesError::PackageInstall(source)),
        EnvStep::Done(env) => ResolveStep::Done(env),
    }
}

/// What to do next to resolve dependencies. `options` says of each package what the options say of
/// it, `package_set_ready` and `replies` are what has come back so far.
pub fn resolve_dependencies(
    dependencies: &Dependencies,
    options: &Vec<PackageOptions>,
    parallelism: usize,
    package_set_ready: bool,
    replies: &EnvReplies,
) -> (r: ResolveStep)
    requires
        options@.len() == dependencies.packages@.len(),
        all_for(dependencies.packages@, PackagePlatform::Target),
        all_for(dependencies.tools@, PackagePlatform::Host),
        replies_fit(
            dependencies.sources,
            dependencies.packages@,
            dependencies.tools@,
            *replies,
        ),
    ensures
        r@ == resolve_step(
            *dependencies,
            options@,
            parallelism as nat,
            package_set_ready,
            *replies,
        ),
        r matches ResolveStep::Done(env) ==> (dependencies.sources.wf() ==> env.sources.wf()),
{
    if let Some(step) = next_for_sources(&dependencies.sources, &replies.sources) {
        return to_resolve_step(step);
    }
    if !package_set_ready {
        return ResolveStep::GetPackageSet;
    }
    let archs: Vec<String> = list_install_archs(options);
    assert(texts(archs@).len() == archs@.len());
    let no_overlay: Option<OverlayUpperDirectory> = None;
    assert(upper_of(no_overlay) is None);
    to_resolve_step(
        next_for_all_installs(
            &dependencies.sources,
            &dependencies.packages,
            &archs,
            &dependencies.tools,
            parallelism,
            false,
            &no_overlay,
            replies,
        ),
    )
}

} // verus!
