//! Environments: they hold just what came back for what was asked for, each thing in its place, and
//! the programs in them find all of it.

use crate::config::package::{Package, PackagePlatform};
use crate::config::source::Source;
use crate::config::Dependencies;
use crate::dependencies::{
    install_archs, resolve_step, PackageOptions, ResolveErrorSpec, ResolveStepSpec,
};
use crate::execenv::{env_exec, source_mounts, ExecEnvSpec};
use crate::execenv_create::{
    all_for, create_env_step, lemma_first_error, replies_fit, CreateEnvErrorSpec, EnvReplies,
    EnvStepSpec,
};
use crate::install::InstallFailureSpec;
use crate::laws::packaging::arch_of;
use crate::laws::sight::{finds, hides, writes_into};
use crate::mount::{MountKindSpec, MountSpec, UpperSpec};
use crate::package::ProcessErrorSpec;
use crate::request::{EnvSpec, PkgSet};
use crate::store::path_bytes;
use crate::util::names::NameMap;
use crate::util::path::{join_path, path_of};
use crate::util::text::decimal_text;
use crate::{HOST_ARCH, NOARCH_ARCH};
use std::sync::Arc;
use vstd::prelude::*;

verus! {

/// An environment that has been made holds just what came back: under the name of each source the
/// entries that came back for that very source, the directory that the packages were installed into as
/// its sysroot, and the one that the tools were installed into as the layer over the root file system.
pub proof fn lemma_environment_holds_what_came_back(
    sources: NameMap<Arc<Source>>,
    packages: Seq<Arc<Package>>,
    tools: Seq<Arc<Package>>,
    parallelism: nat,
    root_readonly: bool,
    root_rw_overlay: Option<UpperSpec>,
    replies: EnvReplies,
    i: int,
)
    requires
        replies_fit(sources, packages, tools, replies),
    ensures
        create_env_step(
            sources,
            packages,
            tools,
            parallelism,
            root_readonly,
            root_rw_overlay,
            replies,
        ) matches EnvStepSpec::Done(env) ==> {
            &&& env.sources.len() == sources.entries@.len()
            &&& replies.sources@.len() == sources.entries@.len()
            &&& 0 <= i < sources.entries@.len() ==> {
                &&& replies.sources@[i] is Ok
                &&& env.sources[i].0 == sources.entries@[i].0@
                &&& env.sources[i].1 == path_bytes((replies.sources@[i]->Ok_0)@)
            }
            &&& replies.sysroot is Some && env.sysroot == (replies.sysroot->0)@
            &&& tools.len() == 0 ==> env.tool_overlay is None
            &&& tools.len() > 0 ==> replies.tool_overlay is Some && env.tool_overlay == Some(
                (replies.tool_overlay->0)@,
            )
            &&& env.parallelism == parallelism
            &&& env.root_readonly == root_readonly
            &&& env.root_rw_overlay == root_rw_overlay
        },
{
    lemma_first_error(replies.sources@);
}

/// What is asked for to make an environment. The sources are fetched in their order, each once. Then the
/// packages are installed in their order, each into the sysroot and for the architecture that it is
/// for, and then the tools in theirs, each into the layer over the root file system; a tool is installed
/// only when all packages are.
pub proof fn lemma_environment_asks_for_what_is_missing(
    sources: NameMap<Arc<Source>>,
    packages: Seq<Arc<Package>>,
    tools: Seq<Arc<Package>>,
    parallelism: nat,
    root_readonly: bool,
    root_rw_overlay: Option<UpperSpec>,
    replies: EnvReplies,
)
    requires
        replies_fit(sources, packages, tools, replies),
        all_for(packages, PackagePlatform::Target),
        all_for(tools, PackagePlatform::Host),
    ensures
        match create_env_step(
            sources,
            packages,
            tools,
            parallelism,
            root_readonly,
            root_rw_overlay,
            replies,
        ) {
            EnvStepSpec::FetchSource(source) => replies.sources@.len() < sources.entries@.len()
                && source == sources.entries@[replies.sources@.len() as int].1,
            EnvStepSpec::MakeSysroot => replies.sysroot is None && replies.sources@.len()
                == sources.entries@.len(),
            EnvStepSpec::MakeToolOverlay => replies.tool_overlay is None && tools.len() > 0
                && replies.packages@.len() == packages.len(),
            EnvStepSpec::Install(order) => {
                &&& replies.sources@.len() == sources.entries@.len()
                &&& order.arch == arch_of(*order.package)
                &&& !order.force
                &&& !order.dest_root_overlay ==> {
                    &&& replies.packages@.len() < packages.len()
                    &&& order.package == packages[replies.packages@.len() as int]
                    &&& replies.sysroot is Some && order.dest_dir == (replies.sysroot->0)@
                    &&& order.pkgset == PkgSet::Root
                }
                &&& order.dest_root_overlay ==> {
                    &&& replies.packages@.len() == packages.len()
                    &&& forall|k: int|
                        0 <= k < replies.packages@.len() ==> replies.packages@[k] is Ok
                    &&& replies.tools@.len() < tools.len()
                    &&& order.package == tools[replies.tools@.len() as int]
                    &&& replies.tool_overlay is Some && order.dest_dir == (replies.tool_overlay->0)@
                    &&& order.pkgset == PkgSet::Environment
                }
            },
            EnvStepSpec::Fail(CreateEnvErrorSpec::FetchSource { name, source }) => exists|i: int|
                0 <= i < replies.sources@.len() && (#[trigger] replies.sources@[i]) is Err
                    && replies.sources@[i]->Err_0 == source && name == sources.entries@[i].0@,
            EnvStepSpec::Fail(CreateEnvErrorSpec::ProcessPackage(error)) => {
                ||| exists|i: int|
                    0 <= i < replies.packages@.len() && (#[trigger] replies.packages@[i]) is Err && (
                    replies.packages@[i]->Err_0)@ == InstallFailureSpec::Process(error)
                ||| exists|i: int|
                    0 <= i < replies.tools@.len() && (#[trigger] replies.tools@[i]) is Err && (
                    replies.tools@[i]->Err_0)@ == InstallFailureSpec::Process(error)
            },
            EnvStepSpec::Fail(CreateEnvErrorSpec::PackageInstall { platform, name, source }) => {
                ||| platform == PackagePlatform::Target && exists|i: int|
                    0 <= i < replies.packages@.len() && (#[trigger] replies.packages@[i]) is Err && (
                    replies.packages@[i]->Err_0)@ == InstallFailureSpec::Install(source) && name
                        == packages[i].name@
                ||| platform == PackagePlatform::Host && exists|i: int|
                    0 <= i < replies.tools@.len() && (#[trigger] replies.tools@[i]) is Err && (
                    replies.tools@[i]->Err_0)@ == InstallFailureSpec::Install(source) && name
                        == tools[i].name@
            },
            EnvStepSpec::Done(env) => true,
        },
{
    lemma_first_error(replies.sources@);
    lemma_first_error(replies.packages@);
    lemma_first_error(replies.tools@);
}

/// Dependencies are resolved to an environment that holds just what came back, in the same way; nothing
/// is installed before the set of native packages is there.
pub proof fn lemma_resolved_dependencies_hold_what_came_back(
    dependencies: Dependencies,
    options: Seq<PackageOptions>,
    parallelism: nat,
    package_set_ready: bool,
    replies: EnvReplies,
    i: int,
)
    requires
        options.len() == dependencies.packages@.len(),
        replies_fit(
            dependencies.sources,
            dependencies.packages@,
            dependencies.tools@,
            replies,
        ),
    ensures
        resolve_step(
            dependencies,
            options,
            parallelism,
            package_set_ready,
            replies,
        ) matches ResolveStepSpec::Done(env) ==> {
            &&& package_set_ready
            &&& env.sources.len() == dependencies.sources.entries@.len()
            &&& replies.sources@.len() == dependencies.sources.entries@.len()
            &&& 0 <= i < dependencies.sources.entries@.len() ==> {
                &&& replies.sources@[i] is Ok
                &&& env.sources[i].0 == dependencies.sources.entries@[i].0@
                &&& env.sources[i].1 == path_bytes((replies.sources@[i]->Ok_0)@)
            }
            &&& replies.sysroot is Some && env.sysroot == (replies.sysroot->0)@
            &&& replies.packages@.len() == dependencies.packages@.len()
            &&& forall|k: int| 0 <= k < replies.packages@.len() ==> replies.packages@[k] is Ok
            &&& dependencies.tools@.len() == 0 ==> env.tool_overlay is None
            &&& dependencies.tools@.len() > 0 ==> replies.tool_overlay is Some && env.tool_overlay
                == Some((replies.tool_overlay->0)@) && replies.tools@.len()
                == dependencies.tools@.len() && forall|k: int|
                0 <= k < replies.tools@.len() ==> replies.tools@[k] is Ok
            &&& env.parallelism == parallelism
            &&& !env.root_readonly
            &&& env.root_rw_overlay is None
        },
{
    lemma_first_error(replies.sources@);
    lemma_first_error(replies.packages@);
    lemma_first_error(replies.tools@);
}

/// What is asked for to resolve dependencies. A package is installed for the architecture that the
/// options set, if it subscribes to that option and it is set, and for none in particular otherwise; a
/// tool for that of the host. Everything is installed with the packages of the root file system.
pub proof fn lemma_resolving_asks_for_what_is_missing(
    dependencies: Dependencies,
    options: Seq<PackageOptions>,
    parallelism: nat,
    package_set_ready: bool,
    replies: EnvReplies,
)
    requires
        options.len() == dependencies.packages@.len(),
        replies_fit(
            dependencies.sources,
            dependencies.packages@,
            dependencies.tools@,
            replies,
        ),
    ensures
        match resolve_step(dependencies, options, parallelism, package_set_ready, replies) {
            ResolveStepSpec::FetchSource(source) => replies.sources@.len()
                < dependencies.sources.entries@.len() && source
                == dependencies.sources.entries@[replies.sources@.len() as int].1,
            ResolveStepSpec::GetPackageSet => !package_set_ready && replies.sources@.len()
                == dependencies.sources.entries@.len(),
            ResolveStepSpec::MakeSysroot => package_set_ready && replies.sysroot is None,
            ResolveStepSpec::MakeToolOverlay => package_set_ready && replies.tool_overlay is None
                && dependencies.tools@.len() > 0 && replies.packages@.len()
                == dependencies.packages@.len(),
            ResolveStepSpec::Install(order) => {
                &&& package_set_ready
                &&& order.pkgset == PkgSet::Root
                &&& !order.force
                &&& !order.dest_root_overlay ==> {
                    let number = replies.packages@.len() as int;
                    let option = options[number];
                    &&& number < dependencies.packages@.len()
                    &&& order.package == dependencies.packages@[number]
                    &&& order.arch == (if option.subscribes_to_arch && option.arch is Some {
                        (option.arch->0)@
                    } else {
                        NOARCH_ARCH@
                    })
                    &&& replies.sysroot is Some && order.dest_dir == (replies.sysroot->0)@
                }
                &&& order.dest_root_overlay ==> {
                    &&& replies.packages@.len() == dependencies.packages@.len()
                    &&& replies.tools@.len() < dependencies.tools@.len()
                    &&& order.package == dependencies.tools@[replies.tools@.len() as int]
                    &&& order.arch == HOST_ARCH@
                    &&& replies.tool_overlay is Some && order.dest_dir == (replies.tool_overlay->0)@
                }
            },
            ResolveStepSpec::Fail(ResolveErrorSpec::PackageInstall(error)) => {
                ||| exists|i: int|
                    0 <= i < replies.packages@.len() && (#[trigger] replies.packages@[i]) is Err && (
                    replies.packages@[i]->Err_0)@ == InstallFailureSpec::Install(error)
                ||| exists|i: int|
                    0 <= i < replies.tools@.len() && (#[trigger] replies.tools@[i]) is Err && (
                    replies.tools@[i]->Err_0)@ == InstallFailureSpec::Install(error)
            },
            ResolveStepSpec::Fail(ResolveErrorSpec::ProcessPackage(error)) => {
                ||| error matches ProcessErrorSpec::SourceFetch { name, source } && exists|i: int|
                    0 <= i < replies.sources@.len() && (#[trigger] replies.sources@[i]) is Err
                        && replies.sources@[i]->Err_0 == source && name
                        == dependencies.sources.entries@[i].0@
                ||| exists|i: int|
                    0 <= i < replies.packages@.len() && (#[trigger] replies.packages@[i]) is Err && (
                    (replies.packages@[i]->Err_0)@ matches InstallFailureSpec::Process(cause)
                        && error == (*cause)@)
                ||| exists|i: int|
                    0 <= i < replies.tools@.len() && (#[trigger] replies.tools@[i]) is Err && ((
                    replies.tools@[i]->Err_0)@ matches InstallFailureSpec::Process(cause) && error
                        == (*cause)@)
            },
            ResolveStepSpec::Done(env) => true,
        },
{
    lemma_first_error(replies.sources@);
    lemma_first_error(replies.packages@);
    lemma_first_error(replies.tools@);
    assert(install_archs(options).len() == options.len());
}

// ---------------------------------------------------------------------------
// Programs in environments
// ---------------------------------------------------------------------------

/// A program in an environment finds its own mounts as it would without the environment: nothing that
/// the environment mounts hides them.
pub proof fn lemma_own_mounts_are_found(
    env: ExecEnvSpec,
    request: EnvSpec,
    place: Seq<u8>,
    kind: MountKindSpec,
)
    requires
        finds(request.mounts, place, kind),
    ensures
        finds(env_exec(env, request).mounts, place, kind),
{
    let own = request.mounts;
    let all = env_exec(env, request).mounts;
    let i = choose|i: int|
        0 <= i < own.len() && #[trigger] own[i] == (MountSpec { dest: place, kind }) && forall|
            j: int,
        |
            i < j < own.len() ==> !hides(#[trigger] own[j], place);
    let start = env.sources.len() + 2;
    assert(source_mounts(env.sources).len() == env.sources.len());
    assert(all.len() == start + own.len() + 1);
    assert(all[start + i] == own[i]);
    assert forall|j: int| start + i < j < all.len() implies !hides(#[trigger] all[j], place) by {
        if j < all.len() - 1 {
            assert(all[j] == own[j - start]);
        } else {
            assert(all[j].kind is Remount);
        }
    }
}

/// A program in an environment finds each source under its name in the directory that its environment
/// names for sources: the only entry as it is, or the entries laid one over the other, the last one on
/// top. It cannot write to any of them.
pub proof fn lemma_sources_are_in_their_places(env: ExecEnvSpec, request: EnvSpec, i: int)
    requires
        0 <= i < env.sources.len(),
    ensures
        ({
            let mount = env_exec(env, request).mounts[i + 1];
            &&& mount.dest == join_path(path_of("/chariot/sources"@), path_of(env.sources[i].0))
            &&& env.sources[i].1.len() == 1 ==> mount.kind == (MountKindSpec::Bind {
                from: env.sources[i].1[0],
                read_only: true,
                is_file: false,
            })
            &&& env.sources[i].1.len() != 1 ==> {
                &&& mount.kind is OverlayFS
                &&& mount.kind->upper_directory is None
                &&& mount.kind->lower_directories.len() == env.sources[i].1.len()
                &&& forall|k: int|
                    0 <= k < env.sources[i].1.len() ==> (#[trigger] env.sources[i].1[k])
                        == mount.kind->lower_directories[env.sources[i].1.len() - 1 - k]
            }
        }),
{
}

/// All that an environment mounts: a fresh directory first, in which everything else is; then the
/// sources, then the sysroot where the environment names it, then the program's own mounts; and at last
/// the directory is closed for writing.
pub proof fn lemma_mounts_of_an_environment(env: ExecEnvSpec, request: EnvSpec)
    ensures
        ({
            let mounts = env_exec(env, request).mounts;
            let n = env.sources.len() as int;
            &&& mounts.len() == n + 3 + request.mounts.len()
            &&& mounts[0].dest == path_of("/chariot"@)
            &&& mounts[0].kind == (MountKindSpec::FS { fstype: "tmpfs"@ })
            &&& mounts[n + 1] == (MountSpec {
                dest: path_of("/chariot/sysroot"@),
                kind: MountKindSpec::Bind {
                    from: env.sysroot,
                    read_only: false,
                    is_file: false,
                },
            })
            &&& forall|k: int|
                0 <= k < request.mounts.len() ==> mounts[n + 2 + k] == #[trigger] request.mounts[k]
            &&& mounts.last().dest == path_of("/chariot"@)
            &&& mounts.last().kind == (MountKindSpec::Remount { readonly: true })
        }),
{
}

/// What a program writes where its environment names the sysroot goes into the sysroot of the
/// environment, unless a mount of its own hides it.
pub proof fn lemma_sysroot_is_found(env: ExecEnvSpec, request: EnvSpec)
    requires
        forall|k: int|
            0 <= k < request.mounts.len() ==> !hides(
                #[trigger] request.mounts[k],
                path_of("/chariot/sysroot"@),
            ),
        !request.environment.contains_key("SYSROOT_DIR"@),
    ensures
        env_exec(env, request).environment.contains_key("SYSROOT_DIR"@),
        writes_into(
            env_exec(env, request).mounts,
            path_of(env_exec(env, request).environment["SYSROOT_DIR"@]),
            env.sysroot,
        ),
{
    lemma_mounts_of_an_environment(env, request);
    lemma_variables_of_an_environment(env, request, "SYSROOT_DIR"@);
    let mounts = env_exec(env, request).mounts;
    let n = env.sources.len() as int;
    let place = path_of("/chariot/sysroot"@);
    assert forall|j: int| n + 1 < j < mounts.len() implies !hides(#[trigger] mounts[j], place) by {
        if j < mounts.len() - 1 {
            assert(mounts[j] == request.mounts[j - n - 2]);
        }
    }
}

/// A program in an environment has the variables that it sets itself and, unless it sets them, those
/// that say where the sources and the sysroot are and how much may be done at once, and no others.
pub proof fn lemma_variables_of_an_environment(env: ExecEnvSpec, request: EnvSpec, name: Seq<char>)
    ensures
        ({
            let variables = env_exec(env, request).environment;
            let own = request.environment;
            &&& own.contains_key(name) ==> variables.contains_pair(name, own[name])
            &&& !own.contains_key("SOURCES_DIR"@) ==> variables.contains_pair(
                "SOURCES_DIR"@,
                "/chariot/sources"@,
            )
            &&& !own.contains_key("SYSROOT_DIR"@) ==> variables.contains_pair(
                "SYSROOT_DIR"@,
                "/chariot/sysroot"@,
            )
            &&& !own.contains_key("PARALLELISM"@) ==> variables.contains_pair(
                "PARALLELISM"@,
                decimal_text(env.parallelism),
            )
            &&& variables.contains_key(name) ==> own.contains_key(name) || name == "SOURCES_DIR"@
                || name == "SYSROOT_DIR"@ || name == "PARALLELISM"@
        }),
{
    reveal_strlit("SOURCES_DIR");
    reveal_strlit("SYSROOT_DIR");
    reveal_strlit("PARALLELISM");
    assert("SOURCES_DIR"@[1] != "SYSROOT_DIR"@[1]);
    assert("PARALLELISM"@[0] != "SOURCES_DIR"@[0]);
    assert("PARALLELISM"@[0] != "SYSROOT_DIR"@[0]);
}

/// In everything else a program in an environment runs as it was asked for, with the native packages of
/// the environment; the tools are a layer over the root file system, which it may write to unless the
/// environment forbids it, and what it writes there goes where the environment says.
pub proof fn lemma_program_in_an_environment(env: ExecEnvSpec, request: EnvSpec)
    ensures
        ({
            let exec = env_exec(env, request);
            &&& exec.cwd == request.cwd
            &&& exec.args == request.args
            &&& exec.stdin == request.stdin
            &&& exec.stderr == request.stderr
            &&& exec.pkgset == PkgSet::Environment
            &&& exec.root_writable == !env.root_readonly
            &&& exec.root_overlay == env.root_rw_overlay
            &&& env.tool_overlay is None ==> exec.root_layers.len() == 0
            &&& env.tool_overlay is Some ==> exec.root_layers.len() == 1 && exec.root_layers[0]
                == env.tool_overlay->0
        }),
{
}

} // verus!
