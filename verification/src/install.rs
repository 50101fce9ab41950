//! Installing a package: the package and all that it needs at run time are built, and then it is
//! installed from their repositories.

use crate::config::package::Package;
use crate::execenv_create::{find_error, first_error, lemma_first_error};
use crate::package::{process_text, ProcessPackageError, CATEGORY_PACKAGE};
use crate::request::{ExecRequest, ExecSpec, PkgSet};
use crate::runtime_deps::{
    lemma_closure_starts_with_package, resolve_package_runtime_dependencies, runtime_closure,
    same_platform,
};
use crate::store::{entry_path_in, path_bytes, Store};
use crate::util::path::{path_option, UnixPath};
use crate::xbps::{
    install_error_text, install_step, package_install, InstallErrorSpec, PackageInstallStep,
    PackageInstallStepSpec, XBPSPackageInstallError,
};
use std::sync::Arc;
use vstd::prelude::*;

verus! {

/// A package to install, with all that it needs at run time.
#[derive(Debug)]
pub struct InstallOrder {
    pub pkgset: PkgSet,
    pub package: Arc<Package>,
    pub arch: String,
    pub dest_dir: UnixPath,
    /// the directory is the writable layer of the root file system
    pub dest_root_overlay: bool,
    /// install the package even if it is already installed
    pub force: bool,
}

/// [`InstallOrder`] by its paths and texts.
pub struct OrderSpec {
    pub pkgset: PkgSet,
    pub package: Arc<Package>,
    pub arch: Seq<char>,
    pub dest_dir: Seq<u8>,
    pub dest_root_overlay: bool,
    pub force: bool,
}

impl View for InstallOrder {
    type V = OrderSpec;

    open spec fn view(&self) -> OrderSpec {
        OrderSpec {
            pkgset: self.pkgset,
            package: self.package,
            arch: self.arch@,
            dest_dir: self.dest_dir@,
            dest_root_overlay: self.dest_root_overlay,
            force: self.force,
        }
    }
}

/// Why a package could not be installed.
#[derive(Debug)]
pub enum InstallFailure {
    /// the package, or one that it needs at run time, could not be built
    Process(Arc<ProcessPackageError>),
    /// the installation itself failed
    Install(XBPSPackageInstallError),
}

/// [`InstallFailure`] by its texts.
pub enum InstallFailureSpec {
    Process(Arc<ProcessPackageError>),
    Install(InstallErrorSpec),
}

impl View for InstallFailure {
    type V = InstallFailureSpec;

    open spec fn view(&self) -> InstallFailureSpec {
        match self {
            InstallFailure::Process(error) => InstallFailureSpec::Process(*error),
            InstallFailure::Install(error) => InstallFailureSpec::Install(error@),
        }
    }
}

/// The failure of an installation in words.
pub open spec fn install_failure_text(failure: InstallFailureSpec) -> Seq<char> {
    match failure {
        InstallFailureSpec::Process(error) => process_text(*error),
        InstallFailureSpec::Install(error) => install_error_text(error),
    }
}

impl InstallFailure {
    /// The failure in words.
    pub fn message(&self) -> (r: String)
        ensures
            r@ == install_failure_text(self@),
    {
        match self {
            InstallFailure::Process(error) => error.message(),
            InstallFailure::Install(error) => error.message(),
        }
    }
}

/// What has come back so far from an installation.
#[derive(Debug)]
pub struct OrderReplies {
    /// the hashes under which the store has the packages that are needed, in their order, or why one
    /// could not be built
    pub processed: Vec<Result<u128, Arc<ProcessPackageError>>>,
    /// the work directory for the overlay's own use
    pub overlay_workdir: Option<UnixPath>,
    /// the exit code of the program that installs
    pub code: Option<i32>,
}

/// What to do next for an installation.
#[derive(Debug)]
pub enum OrderStep {
    /// build a package and hand back the hash under which the store has it
    Process(Arc<Package>),
    /// make a work directory for the overlay's own use
    MakeWorkDirectory,
    /// run a program and hand back its exit code
    Run(ExecRequest),
    /// stop
    Fail(InstallFailure),
    /// the package is installed
    Done,
}

/// [`OrderStep`] by its paths and texts.
pub enum OrderStepSpec {
    Process(Arc<Package>),
    MakeWorkDirectory,
    Run(ExecSpec),
    Fail(InstallFailureSpec),
    Done,
}

impl View for OrderStep {
    type V = OrderStepSpec;

    open spec fn view(&self) -> OrderStepSpec {
        match self {
            OrderStep::Process(package) => OrderStepSpec::Process(*package),
            OrderStep::MakeWorkDirectory => OrderStepSpec::MakeWorkDirectory,
            OrderStep::Run(request) => OrderStepSpec::Run(request@),
            OrderStep::Fail(failure) => OrderStepSpec::Fail(failure@),
            OrderStep::Done => OrderStepSpec::Done,
        }
    }
}

/// Where a store has the repositories of packages.
pub open spec fn repositories(
    store: Seq<u8>,
    processed: Seq<Result<u128, Arc<ProcessPackageError>>>,
) -> Seq<Seq<u8>> {
    Seq::new(
        processed.len(),
        |i: int| entry_path_in(store, CATEGORY_PACKAGE@, (processed[i]->Ok_0) as nat),
    )
}

/// A step of the installation itself, as a step of the whole.
pub open spec fn as_order_step(step: PackageInstallStepSpec) -> OrderStepSpec {
    match step {
        PackageInstallStepSpec::MakeWorkDirectory => OrderStepSpec::MakeWorkDirectory,
        PackageInstallStepSpec::Run(request) => OrderStepSpec::Run(request),
        PackageInstallStepSpec::Fail(error) => OrderStepSpec::Fail(
            InstallFailureSpec::Install(error),
        ),
        PackageInstallStepSpec::Done => OrderStepSpec::Done,
    }
}

/// What to do next for an installation: the package and all that it needs at run time are built one
/// after the other, the first error ends it, and then the package is installed from the
/// repositories of all of them, in the same order.
pub open spec fn order_step(
    store: Seq<u8>,
    order: OrderSpec,
    replies: OrderReplies,
) -> OrderStepSpec {
    let needed = runtime_closure(order.package);
    match first_error(replies.processed@) {
        Some(i) => OrderStepSpec::Fail(
            InstallFailureSpec::Process(replies.processed@[i]->Err_0),
        ),
        None => if replies.processed@.len() < needed.len() {
            OrderStepSpec::Process(needed[replies.processed@.len() as int])
        } else {
            as_order_step(
                install_step(
                    order.pkgset,
                    order.package.name@,
                    order.package.version@,
                    order.package.revision as nat,
                    order.arch,
                    repositories(store, replies.processed@),
                    order.dest_dir,
                    order.dest_root_overlay,
                    order.force,
                    path_option(replies.overlay_workdir),
                    replies.code,
                ),
            )
        },
    }
}

fn list_repositories(
    store: &Store,
    processed: &Vec<Result<u128, Arc<ProcessPackageError>>>,
) -> (r: Vec<UnixPath>)
    requires
        first_error(processed@) is None,
    ensures
        path_bytes(r@) == repositories(store.path@, processed@),
{
    proof {
        lemma_first_error(processed@);
    }
    let mut out: Vec<UnixPath> = Vec::new();
    let mut i: usize = 0;
    let ghost all = repositories(store.path@, processed@);
    assert(path_bytes(out@) =~= all.take(0));
    while i < processed.len()
        invariant
            0 <= i <= processed@.len(),
            forall|k: int| 0 <= k < processed@.len() ==> processed@[k] is Ok,
            all == repositories(store.path@, processed@),
            path_bytes(out@) == all.take(i as int),
        decreases processed@.len() - i,
    {
        let ghost before = path_bytes(out@);
        assert(processed@[i as int] is Ok);
        if let Ok(hash) = &processed[i] {
            let path: UnixPath = store.entry_path(CATEGORY_PACKAGE, *hash);
            out.push(path);
            assert(path_bytes(out@) =~= before.push(path@));
            assert(all.take(i + 1) =~= all.take(i as int).push(all[i as int]));
        }
        i = i + 1;
    }
    assert(all.take(i as int) =~= all);
    out
}

/// What to do next to install a package as ordered.
pub fn install_ordered(store: &Store, order: &InstallOrder, replies: &OrderReplies) -> (r: OrderStep)
    requires
        same_platform(order.package),
    ensures
        r@ == order_step(store.path@, order@, *replies),
{
    if let Some(i) = find_error(&replies.processed) {
        if let Err(error) = &replies.processed[i] {
            return OrderStep::Fail(InstallFailure::Process(error.clone()));
        }
    }
    let needed: Vec<Arc<Package>> = resolve_package_runtime_dependencies(&order.package);
    if replies.processed.len() < needed.len() {
        return OrderStep::Process(needed[replies.processed.len()].clone());
    }
    match package_install(
        order.pkgset,
        order.package.name.as_str(),
        order.package.version.as_str(),
        order.package.revision,
        order.arch.as_str(),
        &list_repositories(store, &replies.processed),
        &order.dest_dir,
        order.dest_root_overlay,
        order.force,
        &replies.overlay_workdir,
        replies.code,
    ) {
        PackageInstallStep::MakeWorkDirectory => OrderStep::MakeWorkDirectory,
        PackageInstallStep::Run(request) => OrderStep::Run(request),
        PackageInstallStep::Fail(error) => OrderStep::Fail(InstallFailure::Install(error)),
        PackageInstallStep::Done => OrderStep::Done,
    }
}

// ---------------------------------------------------------------------------
// Laws
// ---------------------------------------------------------------------------

/// Nothing is installed before the package and all that it needs at run time have been built, and
/// the repository of the package itself comes first.
pub proof fn lemma_installed_only_when_built(store: Seq<u8>, order: OrderSpec, replies: OrderReplies)
    ensures
        (order_step(store, order, replies) is Run || order_step(store, order, replies) is Done) ==> {
            &&& replies.processed@.len() >= runtime_closure(order.package).len()
            &&& forall|i: int| 0 <= i < replies.processed@.len() ==> replies.processed@[i] is Ok
            &&& repositories(store, replies.processed@).len() > 0
            &&& repositories(store, replies.processed@)[0] == entry_path_in(
                store,
                CATEGORY_PACKAGE@,
                (replies.processed@[0]->Ok_0) as nat,
            )
        },
{
    lemma_first_error(replies.processed@);
    lemma_closure_starts_with_package(order.package);
}

/// The first package that could not be built ends the installation, whatever else came back.
pub proof fn lemma_failed_build_ends_installation(
    store: Seq<u8>,
    order: OrderSpec,
    replies: OrderReplies,
    i: int,
)
    requires
        0 <= i < replies.processed@.len(),
        replies.processed@[i] is Err,
        forall|k: int| 0 <= k < i ==> replies.processed@[k] is Ok,
    ensures
        order_step(store, order, replies) == OrderStepSpec::Fail(
            InstallFailureSpec::Process(replies.processed@[i]->Err_0),
        ),
{
    lemma_first_error(replies.processed@);
}

} // verus!
