//! Making the environment that packages are built in: its sources are fetched, its packages are
//! installed into its sysroot, and its tools into a layer over the root file system.

use crate::config::package::{platform_name, Package, PackagePlatform};
use crate::config::source::Source;
use crate::execenv::{sources_of, ExecEnv, ExecEnvSpec};
use crate::install::{InstallFailure, InstallFailureSpec, InstallOrder, OrderSpec};
use crate::mount::{copy_paths, copy_upper, upper_of, OverlayUpperDirectory, UpperSpec};
use crate::package::{process_text, ProcessPackageError};
use crate::request::PkgSet;
use crate::source::fetch::SourceFetchError;
use crate::store::path_bytes;
use crate::util::names::{name_lt, NameMap};
use crate::util::path::UnixPath;
use crate::util::text::texts;
use crate::xbps::{InstallErrorSpec, XBPSPackageInstallError};
use crate::HOST_ARCH;
use std::sync::Arc;
use vstd::prelude::*;

verus! {

/// Why an environment could not be made.
#[derive(Debug)]
pub enum CreateExecEnvError {
    ProcessPackage(Arc<ProcessPackageError>),
    FetchSource { name: String, source: SourceFetchError },
    PackageInstall { platform: PackagePlatform, name: String, source: XBPSPackageInstallError },
}

/// [`CreateExecEnvError`] by its texts.
pub enum CreateEnvErrorSpec {
    ProcessPackage(Arc<ProcessPackageError>),
    FetchSource { name: Seq<char>, source: SourceFetchError },
    PackageInstall { platform: PackagePlatform, name: Seq<char>, source: InstallErrorSpec },
}

impl View for CreateExecEnvError {
    type V = CreateEnvErrorSpec;

    open spec fn view(&self) -> CreateEnvErrorSpec {
        match self {
            CreateExecEnvError::ProcessPackage(error) => CreateEnvErrorSpec::ProcessPackage(*error),
            CreateExecEnvError::FetchSource { name, source } => CreateEnvErrorSpec::FetchSource {
                name: name@,
                source: *source,
            },
            CreateExecEnvError::PackageInstall { platform, name, source } =>
                CreateEnvErrorSpec::PackageInstall {
                platform: *platform,
                name: name@,
                source: source@,
            },
        }
    }
}

/// An error of making an environment in words.
pub open spec fn create_env_text(error: CreateExecEnvError) -> Seq<char>
    decreases error,
{
    match error {
        CreateExecEnvError::ProcessPackage(error) => process_text(*error),
        CreateExecEnvError::FetchSource { name, source } => "Failed to fetch source `"@ + name@
            + "`"@,
        CreateExecEnvError::PackageInstall { platform, name, source } => "Failed to install "@
            + platform_name(platform) + " package `"@ + name@ + "`"@,
    }
}

impl CreateExecEnvError {
    /// The error in words.
    pub fn message(&self) -> (r: String)
        ensures
            r@ == create_env_text(*self),
        decreases self,
    {
        match self {
            CreateExecEnvError::ProcessPackage(error) => error.message(),
            CreateExecEnvError::FetchSource { name, source } => {
                let mut out: String = "Failed to fetch source `".to_string();
                out.append(name.as_str());
                out.append("`");
                out
            },
            CreateExecEnvError::PackageInstall { platform, name, source } => {
                let mut out: String = "Failed to install ".to_string();
                out.append(platform.to_string().as_str());
                out.append(" package `");
                out.append(name.as_str());
                out.append("`");
                out
            },
        }
    }
}

/// Errors that tell the same are the same in words.
pub proof fn lemma_same_env_error_same_text(a: CreateExecEnvError, b: CreateExecEnvError)
    requires
        a@ == b@,
    ensures
        create_env_text(a) == create_env_text(b),
{
}

/// What has come back so far from making an environment.
#[derive(Debug)]
pub struct EnvReplies {
    /// where the entries of the sources are, in the order of the sources, or why one could not be
    /// fetched
    pub sources: Vec<Result<Vec<UnixPath>, SourceFetchError>>,
    /// the work directory for the packages
    pub sysroot: Option<UnixPath>,
    /// how the installation of each package went, in their order
    pub packages: Vec<Result<(), InstallFailure>>,
    /// the work directory for the tools
    pub tool_overlay: Option<UnixPath>,
    /// how the installation of each tool went, in their order
    pub tools: Vec<Result<(), InstallFailure>>,
}

/// What to do next to make an environment.
#[derive(Debug)]
pub enum EnvStep {
    /// fetch a source
    FetchSource(Arc<Source>),
    /// make a work directory for the packages
    MakeSysroot,
    /// make a work directory for the tools
    MakeToolOverlay,
    /// install a package
    Install(InstallOrder),
    /// stop
    Fail(CreateExecEnvError),
    /// the environment is there
    Done(ExecEnv),
}

/// [`EnvStep`] by its paths and texts.
pub enum EnvStepSpec {
    FetchSource(Arc<Source>),
    MakeSysroot,
    MakeToolOverlay,
    Install(OrderSpec),
    Fail(CreateEnvErrorSpec),
    Done(ExecEnvSpec),
}

impl View for EnvStep {
    type V = EnvStepSpec;

    open spec fn view(&self) -> EnvStepSpec {
        match self {
            EnvStep::FetchSource(source) => EnvStepSpec::FetchSource(*source),
            EnvStep::MakeSysroot => EnvStepSpec::MakeSysroot,
            EnvStep::MakeToolOverlay => EnvStepSpec::MakeToolOverlay,
            EnvStep::Install(order) => EnvStepSpec::Install(order@),
            EnvStep::Fail(error) => EnvStepSpec::Fail(error@),
            EnvStep::Done(env) => EnvStepSpec::Done(env@),
        }
    }
}

/// The number of the first of the outcomes that is an error.
pub open spec fn first_error<T, E>(s: Seq<Result<T, E>>) -> Option<int>
    decreases s.len(),
{
    if s.len() == 0 {
        None
    } else {
        match first_error(s.drop_last()) {
            Some(i) => Some(i),
            None => if s.last() is Err {
                Some(s.len() - 1)
            } else {
                None
            },
        }
    }
}

/// The first error is an error, and all outcomes before it are fine; if there is none, all are.
pub proof fn lemma_first_error<T, E>(s: Seq<Result<T, E>>)
    ensures
        match first_error(s) {
            None => forall|i: int| 0 <= i < s.len() ==> s[i] is Ok,
            Some(at) => {
                &&& 0 <= at < s.len()
                &&& s[at] is Err
                &&& forall|i: int| 0 <= i < at ==> s[i] is Ok
            },
        },
    decreases s.len(),
{
    if s.len() > 0 {
        lemma_first_error(s.drop_last());
        assert forall|i: int| 0 <= i < s.len() - 1 implies s.drop_last()[i] == s[i] by {}
    }
}

/// The number of the first of the outcomes that is an error.
pub fn find_error<T, E>(s: &Vec<Result<T, E>>) -> (r: Option<usize>)
    ensures
        match (r, first_error(s@)) {
            (None, None) => true,
            (Some(i), Some(at)) => i == at && i < s@.len() && s@[i as int] is Err,
            _ => false,
        },
{
    let mut i: usize = 0;
    let mut found: Option<usize> = None;
    while i < s.len()
        invariant
            0 <= i <= s@.len(),
            match (found, first_error(s@.take(i as int))) {
                (None, None) => true,
                (Some(k), Some(at)) => k == at && k < i && s@[k as int] is Err,
                _ => false,
            },
        decreases s@.len() - i,
    {
        assert(s@.take(i + 1).drop_last() =~= s@.take(i as int));
        if found.is_none() && s[i].is_err() {
            found = Some(i);
        }
        i = i + 1;
    }
    assert(s@.take(s@.len() as int) =~= s@);
    found
}

// ---------------------------------------------------------------------------
// Sources
// ---------------------------------------------------------------------------

/// What the sources of an environment still need, in the order of their names; nothing if they
/// are all there.
pub open spec fn sources_stage(
    sources: Seq<(String, Arc<Source>)>,
    replies: Seq<Result<Vec<UnixPath>, SourceFetchError>>,
) -> Option<EnvStepSpec> {
    match first_error(replies) {
        Some(i) => Some(
            EnvStepSpec::Fail(
                CreateEnvErrorSpec::FetchSource {
                    name: sources[i].0@,
                    source: replies[i]->Err_0,
                },
            ),
        ),
        None => if replies.len() < sources.len() {
            Some(EnvStepSpec::FetchSource(sources[replies.len() as int].1))
        } else {
            None
        },
    }
}

/// The sources with the paths of their entries.
pub open spec fn fetched_sources(
    sources: Seq<(String, Arc<Source>)>,
    replies: Seq<Result<Vec<UnixPath>, SourceFetchError>>,
) -> Seq<(Seq<char>, Seq<Seq<u8>>)> {
    Seq::new(sources.len(), |i: int| (sources[i].0@, path_bytes((replies[i]->Ok_0)@)))
}

/// What the sources of an environment still need.
pub fn next_for_sources(
    sources: &NameMap<Arc<Source>>,
    replies: &Vec<Result<Vec<UnixPath>, SourceFetchError>>,
) -> (r: Option<EnvStep>)
    requires
        replies@.len() <= sources.entries@.len(),
    ensures
        match sources_stage(sources.entries@, replies@) {
            Some(step) => r matches Some(s) && s@ == step && !(s is Done),
            None => r is None,
        },
{
    if let Some(i) = find_error(replies) {
        if let Err(error) = &replies[i] {
            return Some(
                EnvStep::Fail(
                    CreateExecEnvError::FetchSource {
                        name: sources.entries[i].0.clone(),
                        source: error.copy(),
                    },
                ),
            );
        }
    }
    if replies.len() < sources.entries.len() {
        return Some(EnvStep::FetchSource(sources.entries[replies.len()].1.clone()));
    }
    None
}

fn make_sources(
    sources: &NameMap<Arc<Source>>,
    replies: &Vec<Result<Vec<UnixPath>, SourceFetchError>>,
) -> (r: NameMap<Vec<UnixPath>>)
    requires
        replies@.len() == sources.entries@.len(),
        first_error(replies@) is None,
    ensures
        sources_of(r.entries@) == fetched_sources(sources.entries@, replies@),
        sources.wf() ==> r.wf(),
{
    proof {
        lemma_first_error(replies@);
    }
    let mut entries: Vec<(String, Vec<UnixPath>)> = Vec::new();
    let mut i: usize = 0;
    let ghost goal = fetched_sources(sources.entries@, replies@);
    assert(sources_of(entries@) =~= goal.take(0));
    while i < replies.len()
        invariant
            0 <= i <= replies@.len(),
            replies@.len() == sources.entries@.len(),
            forall|k: int| 0 <= k < replies@.len() ==> replies@[k] is Ok,
            goal == fetched_sources(sources.entries@, replies@),
            sources_of(entries@) == goal.take(i as int),
            entries@.len() == i,
            forall|k: int|
                0 <= k < i ==> (#[trigger] entries@[k]).0@ == sources.entries@[k].0@,
        decreases replies@.len() - i,
    {
        let ghost before = sources_of(entries@);
        assert(replies@[i as int] is Ok);
        if let Ok(paths) = &replies[i] {
            let copied: Vec<UnixPath> = copy_paths(paths);
            let ghost bytes = path_bytes(copied@);
            entries.push((sources.entries[i].0.clone(), copied));
            assert(goal[i as int] == (sources.entries@[i as int].0@, bytes));
            assert(sources_of(entries@) =~= before.push(goal[i as int]));
            assert(goal.take(i + 1) =~= goal.take(i as int).push(goal[i as int]));
        }
        i = i + 1;
    }
    assert(goal.take(i as int) =~= goal);
    let r = NameMap { entries };
    proof {
        if sources.wf() {
            assert forall|a: int, b: int| 0 <= a < b < r.entries@.len() implies name_lt(
                (#[trigger] r.entries@[a]).0@,
                (#[trigger] r.entries@[b]).0@,
            ) by {
                assert(sources.entries@[a].0@ == r.entries@[a].0@);
                assert(sources.entries@[b].0@ == r.entries@[b].0@);
            }
        }
    }
    r
}

// ---------------------------------------------------------------------------
// Packages
// ---------------------------------------------------------------------------

/// What the failure of the installation of a package means for the environment.
pub open spec fn failed_install(
    platform: PackagePlatform,
    package: Arc<Package>,
    failure: InstallFailureSpec,
) -> CreateEnvErrorSpec {
    match failure {
        InstallFailureSpec::Process(error) => CreateEnvErrorSpec::ProcessPackage(error),
        InstallFailureSpec::Install(error) => CreateEnvErrorSpec::PackageInstall {
            platform,
            name: package.name@,
            source: error,
        },
    }
}

/// What a list of packages that are to be installed still needs, in its order; nothing if all are
/// installed.
pub open spec fn installs_stage(
    platform: PackagePlatform,
    packages: Seq<Arc<Package>>,
    archs: Seq<Seq<char>>,
    pkgset: PkgSet,
    dest_dir: Seq<u8>,
    dest_root_overlay: bool,
    replies: Seq<Result<(), InstallFailure>>,
) -> Option<EnvStepSpec> {
    match first_error(replies) {
        Some(i) => Some(
            EnvStepSpec::Fail(failed_install(platform, packages[i], (replies[i]->Err_0)@)),
        ),
        None => if replies.len() < packages.len() {
            let i = replies.len() as int;
            Some(
                EnvStepSpec::Install(
                    OrderSpec {
                        pkgset,
                        package: packages[i],
                        arch: archs[i],
                        dest_dir,
                        dest_root_overlay,
                        force: false,
                    },
                ),
            )
        } else {
            None
        },
    }
}

/// What a list of packages that are to be installed still needs.
pub fn next_for_installs(
    platform: PackagePlatform,
    packages: &Vec<Arc<Package>>,
    archs: &Vec<String>,
    pkgset: PkgSet,
    dest_dir: &UnixPath,
    dest_root_overlay: bool,
    replies: &Vec<Result<(), InstallFailure>>,
) -> (r: Option<EnvStep>)
    requires
        replies@.len() <= packages@.len(),
        archs@.len() == packages@.len(),
    ensures
        match installs_stage(
            platform,
            packages@,
            texts(archs@),
            pkgset,
            dest_dir@,
            dest_root_overlay,
            replies@,
        ) {
            Some(step) => r matches Some(s) && s@ == step && !(s is Done),
            None => r is None,
        },
{
    if let Some(i) = find_error(replies) {
        if let Err(failure) = &replies[i] {
            return Some(
                EnvStep::Fail(
                    match failure {
                        InstallFailure::Process(error) => CreateExecEnvError::ProcessPackage(
                            error.clone(),
                        ),
                        InstallFailure::Install(error) => CreateExecEnvError::PackageInstall {
                            platform,
                            name: packages[i].name.clone(),
                            source: error.copy(),
                        },
                    },
                ),
            );
        }
    }
    if replies.len() < packages.len() {
        let i: usize = replies.len();
        return Some(
            EnvStep::Install(
                InstallOrder {
                    pkgset,
                    package: packages[i].clone(),
                    arch: archs[i].clone(),
                    dest_dir: dest_dir.copy(),
                    dest_root_overlay,
                    force: false,
                },
            ),
        );
    }
    None
}

/// The target architectures of packages.
pub open spec fn target_archs(packages: Seq<Arc<Package>>) -> Seq<Seq<char>> {
    packages.map_values(|p: Arc<Package>| p.global_env.target_arch@)
}

/// The host architecture, so many times.
pub open spec fn host_archs(count: nat) -> Seq<Seq<char>> {
    Seq::new(count, |i: int| HOST_ARCH@)
}

fn list_target_archs(packages: &Vec<Arc<Package>>) -> (r: Vec<String>)
    ensures
        texts(r@) == target_archs(packages@),
{
    let mut out: Vec<String> = Vec::new();
    let mut i: usize = 0;
    assert(texts(out@) =~= target_archs(packages@).take(0));
    while i < packages.len()
        invariant
            0 <= i <= packages@.len(),
            texts(out@) == target_archs(packages@).take(i as int),
        decreases packages@.len() - i,
    {
        let ghost before = texts(out@);
        let ghost all = target_archs(packages@);
        let arch: String = packages[i].global_env.target_arch.clone();
        let ghost text = arch@;
        out.push(arch);
        assert(texts(out@) =~= before.push(text));
        assert(all.take(i + 1) =~= all.take(i as int).push(all[i as int]));
        i = i + 1;
    }
    assert(target_archs(packages@).take(packages@.len() as int) =~= target_archs(packages@));
    out
}

/// The host architecture, so many times.
pub fn list_host_archs(count: usize) -> (r: Vec<String>)
    ensures
        texts(r@) == host_archs(count as nat),
{
    let mut out: Vec<String> = Vec::new();
    let mut i: usize = 0;
    assert(texts(out@) =~= host_archs(0));
    while i < count
        invariant
            0 <= i <= count,
            texts(out@) == host_archs(i as nat),
        decreases count - i,
    {
        let ghost before = texts(out@);
        out.push(HOST_ARCH.to_string());
        assert(texts(out@) =~= before.push(HOST_ARCH@));
        assert(texts(out@) =~= host_archs((i + 1) as nat));
        i = i + 1;
    }
    out
}

// ---------------------------------------------------------------------------
// The whole
// ---------------------------------------------------------------------------

/// All packages are for a platform.
pub open spec fn all_for(packages: Seq<Arc<Package>>, platform: PackagePlatform) -> bool {
    forall|i: int| 0 <= i < packages.len() ==> (#[trigger] packages[i]).platform == platform
}

/// Whether all packages are for a platform.
pub fn check_all_for(packages: &Vec<Arc<Package>>, platform: PackagePlatform) -> (r: bool)
    ensures
        r == all_for(packages@, platform),
{
    let mut i: usize = 0;
    while i < packages.len()
        invariant
            0 <= i <= packages@.len(),
            forall|k: int| 0 <= k < i ==> (#[trigger] packages@[k]).platform == platform,
        decreases packages@.len() - i,
    {
        if packages[i].platform != platform {
            return false;
        }
        i = i + 1;
    }
    true
}

/// No more has come back than was asked for.
pub open spec fn replies_fit(
    sources: NameMap<Arc<Source>>,
    packages: Seq<Arc<Package>>,
    tools: Seq<Arc<Package>>,
    replies: EnvReplies,
) -> bool {
    &&& replies.sources@.len() <= sources.entries@.len()
    &&& replies.packages@.len() <= packages.len()
    &&& replies.tools@.len() <= tools.len()
}

/// What the packages and tools of an environment still need, once its sources are there.
pub open spec fn install_all_step(
    sources: Seq<(Seq<char>, Seq<Seq<u8>>)>,
    packages: Seq<Arc<Package>>,
    package_archs: Seq<Seq<char>>,
    tools: Seq<Arc<Package>>,
    parallelism: nat,
    root_readonly: bool,
    root_rw_overlay: Option<UpperSpec>,
    replies: EnvReplies,
) -> EnvStepSpec {
    match replies.sysroot {
        None => EnvStepSpec::MakeSysroot,
        Some(sysroot) => match installs_stage(
            PackagePlatform::Target,
            packages,
            package_archs,
            PkgSet::Root,
            sysroot@,
            false,
            replies.packages@,
        ) {
            Some(step) => step,
            None => {
                let env = ExecEnvSpec {
                    parallelism,
                    sources,
                    sysroot: sysroot@,
                    tool_overlay: None,
                    root_readonly,
                    root_rw_overlay,
                };
                if tools.len() == 0 {
                    EnvStepSpec::Done(env)
                } else {
                    match replies.tool_overlay {
                        None => EnvStepSpec::MakeToolOverlay,
                        Some(overlay) => match installs_stage(
                            PackagePlatform::Host,
                            tools,
                            host_archs(tools.len()),
                            PkgSet::Environment,
                            overlay@,
                            true,
                            replies.tools@,
                        ) {
                            Some(step) => step,
                            None => EnvStepSpec::Done(
                                ExecEnvSpec { tool_overlay: Some(overlay@), ..env },
                            ),
                        },
                    }
                }
            },
        },
    }
}

/// What to do next to make an environment.
pub open spec fn create_env_step(
    sources: NameMap<Arc<Source>>,
    packages: Seq<Arc<Package>>,
    tools: Seq<Arc<Package>>,
    parallelism: nat,
    root_readonly: bool,
    root_rw_overlay: Option<UpperSpec>,
    replies: EnvReplies,
) -> EnvStepSpec {
    match sources_stage(sources.entries@, replies.sources@) {
        Some(step) => step,
        None => install_all_step(
            fetched_sources(sources.entries@, replies.sources@),
            packages,
            target_archs(packages),
            tools,
            parallelism,
            root_readonly,
            root_rw_overlay,
            replies,
        ),
    }
}

/// What the packages and tools of an environment still need, once its sources are there.
pub fn next_for_all_installs(
    sources: &NameMap<Arc<Source>>,
    packages: &Vec<Arc<Package>>,
    package_archs: &Vec<String>,
    tools: &Vec<Arc<Package>>,
    parallelism: usize,
    root_readonly: bool,
    root_rw_overlay: &Option<OverlayUpperDirectory>,
    replies: &EnvReplies,
) -> (r: EnvStep)
    requires
        replies_fit(*sources, packages@, tools@, *replies),
        package_archs@.len() == packages@.len(),
        sources_stage(sources.entries@, replies.sources@) is None,
    ensures
        r@ == install_all_step(
            fetched_sources(sources.entries@, replies.sources@),
            packages@,
            texts(package_archs@),
            tools@,
            parallelism as nat,
            root_readonly,
            upper_of(*root_rw_overlay),
            *replies,
        ),
        r matches EnvStep::Done(env) ==> (sources.wf() ==> env.sources.wf()),
{
    let sysroot: &UnixPath = match &replies.sysroot {
        None => return EnvStep::MakeSysroot,
        Some(sysroot) => sysroot,
    };
    if let Some(step) = next_for_installs(
        PackagePlatform::Target,
        packages,
        package_archs,
        PkgSet::Root,
        sysroot,
        false,
        &replies.packages,
    ) {
        return step;
    }
    let mut tool_overlay: Option<UnixPath> = None;
    if tools.len() > 0 {
        let overlay: &UnixPath = match &replies.tool_overlay {
            None => return EnvStep::MakeToolOverlay,
            Some(overlay) => overlay,
        };
        let archs: Vec<String> = list_host_archs(tools.len());
        assert(texts(archs@).len() == archs@.len());
        if let Some(step) = next_for_installs(
            PackagePlatform::Host,
            tools,
            &archs,
            PkgSet::Environment,
            overlay,
            true,
            &replies.tools,
        ) {
            return step;
        }
        tool_overlay = Some(overlay.copy());
    }
    EnvStep::Done(
        ExecEnv {
            parallelism,
            sources: make_sources(sources, &replies.sources),
            sysroot: sysroot.copy(),
            tool_overlay,
            root_readonly,
            root_rw_overlay: copy_upper(root_rw_overlay),
        },
    )
}

impl ExecEnv {
    /// What to do next to make an environment with the given sources, packages and tools.
    pub fn create(
        sources: &NameMap<Arc<Source>>,
        packages: &Vec<Arc<Package>>,
        tools: &Vec<Arc<Package>>,
        parallelism: usize,
        root_readonly: bool,
        root_rw_overlay: &Option<OverlayUpperDirectory>,
        replies: &EnvReplies,
    ) -> (r: EnvStep)
        requires
            all_for(packages@, PackagePlatform::Target),
            all_for(tools@, PackagePlatform::Host),
            replies_fit(*sources, packages@, tools@, *replies),
        ensures
            r@ == create_env_step(
                *sources,
                packages@,
                tools@,
                parallelism as nat,
                root_readonly,
                upper_of(*root_rw_overlay),
                *replies,
            ),
            r matches EnvStep::Done(env) ==> (sources.wf() ==> env.sources.wf()),
    {
        if let Some(step) = next_for_sources(sources, &replies.sources) {
            return step;
        }
        let archs: Vec<String> = list_target_archs(packages);
        assert(texts(archs@).len() == archs@.len());
        next_for_all_installs(
            sources,
            packages,
            &archs,
            tools,
            parallelism,
            root_readonly,
            root_rw_overlay,
            replies,
        )
    }
}

// ---------------------------------------------------------------------------
// Laws
// ---------------------------------------------------------------------------

/// An environment is there only when every source has been fetched and every package and tool has
/// been installed, and it holds just what came back: the paths of the sources under their names,
/// the sysroot, and the layer of the tools if there are any.
pub proof fn lemma_environment_is_complete(
    sources: NameMap<Arc<Source>>,
    packages: Seq<Arc<Package>>,
    tools: Seq<Arc<Package>>,
    parallelism: nat,
    root_readonly: bool,
    root_rw_overlay: Option<UpperSpec>,
    replies: EnvReplies,
)
    requires
        replies_fit(sources, packages, tools, replies),
    ensures
        create_env_step(
            sources,
            packages,
            tools,
            parallelism,
            root_readonly,
            root_rw_overlay,
            replies,
        ) matches EnvStepSpec::Done(env) ==> {
            &&& replies.sources@.len() == sources.entries@.len()
            &&& forall|i: int| 0 <= i < replies.sources@.len() ==> replies.sources@[i] is Ok
            &&& replies.packages@.len() == packages.len()
            &&& forall|i: int| 0 <= i < replies.packages@.len() ==> replies.packages@[i] is Ok
            &&& tools.len() > 0 ==> replies.tools@.len() == tools.len()
            &&& tools.len() > 0 ==> forall|i: int|
                0 <= i < replies.tools@.len() ==> replies.tools@[i] is Ok
            &&& replies.sysroot matches Some(sysroot) && env.sysroot == sysroot@
            &&& env.tool_overlay is Some <==> tools.len() > 0
            &&& env.sources.len() == sources.entries@.len()
        },
{
    lemma_first_error(replies.sources@);
    lemma_first_error(replies.packages@);
    lemma_first_error(replies.tools@);
}

/// Nothing is installed, and no directory is made, before every source has been fetched.
pub proof fn lemma_sources_come_first(
    sources: NameMap<Arc<Source>>,
    packages: Seq<Arc<Package>>,
    tools: Seq<Arc<Package>>,
    parallelism: nat,
    root_readonly: bool,
    root_rw_overlay: Option<UpperSpec>,
    replies: EnvReplies,
)
    requires
        replies_fit(sources, packages, tools, replies),
        replies.sources@.len() < sources.entries@.len(),
    ensures
        create_env_step(
            sources,
            packages,
            tools,
            parallelism,
            root_readonly,
            root_rw_overlay,
            replies,
        ) is FetchSource || create_env_step(
            sources,
            packages,
            tools,
            parallelism,
            root_readonly,
            root_rw_overlay,
            replies,
        ) is Fail,
{
}

} // verus!
