//! Installing packages: from the repositories of all that is needed, into the destination that was
//! ordered.

use crate::execenv_create::lemma_first_error;
use crate::install::{
    order_step, repositories, InstallFailureSpec, OrderReplies, OrderSpec, OrderStepSpec,
};
use crate::laws::packaging::{is_plain, is_told_of, lemma_variables_are_told};
use crate::laws::sight::{
    hides, lemma_found_last, lemma_found_still, lemma_lies_elsewhere, lies_in, reads_from,
    runs_command, writes_into,
};
use crate::mount::{bind_spec, MountKindSpec, MountSpec, UpperSpec};
use crate::request::PkgSet;
use crate::runtime_deps::runtime_closure;
use crate::store::entry_path_in;
use crate::util::path::{path_of, path_option, SEPARATOR};
use crate::util::text::{
    decimal_text, digit_char, joined, lemma_numeral_digits, lemma_numeral_injective,
    lemma_utf8_injective,
};
use crate::xbps::{
    has_white_space, install_step, is_bad_version, repo_mounts, repo_options,
    InstallErrorSpec, PackageInstallStepSpec, ValidationSpec,
};
use vstd::prelude::*;
use vstd::utf8::{is_ascii_chars, is_ascii_chars_encode_utf8};

verus! {

/// Where a program that installs finds the repository with a number.
pub open spec fn repository_place(number: int) -> Seq<char> {
    "/chariot/xbps/repo"@ + decimal_text(number as nat)
}

/// The command that installs a package: over an existing one if that is wanted, under the root file
/// system itself or under the directory that is mounted for it, from so many repositories.
pub open spec fn command_to_install(force: bool, into_root: bool, count: nat) -> Seq<char> {
    "xbps-install --reproducible --yes "@ + (if force {
        "--force "@
    } else {
        Seq::empty()
    }) + "--rootdir "@ + (if into_root {
        "/"@
    } else {
        "/chariot/xbps/install"@
    }) + " "@ + joined(
        Seq::new(count, |i: int| "--repository "@ + repository_place(i)),
        " "@,
    ) + " \"$PKG_NAME-${PKG_VER}_$PKG_REV\""@
}

proof fn lemma_decimal_is_plain(number: nat)
    ensures
        decimal_text(number).len() > 0,
        is_ascii_chars(decimal_text(number)),
        forall|k: int| 0 <= k < decimal_text(number).len() ==> #[trigger] decimal_text(number)[k]
            != '/',
{
    lemma_numeral_digits(number, 10);
    assert forall|k: int| 0 <= k < decimal_text(number).len() implies '\0' <= #[trigger]
        decimal_text(number)[k] <= '\u{7f}' && decimal_text(number)[k] != '/' by {
        let d = choose|d: nat| d < 10 && decimal_text(number)[k] == digit_char(d);
        assert(digit_char(d) != '/');
    }
}

proof fn lemma_repository_place(number: int)
    requires
        0 <= number,
    ensures
        is_ascii_chars(repository_place(number)),
        repository_place(number).len() > 18,
        forall|k: int| 18 <= k < repository_place(number).len() ==> #[trigger] repository_place(
            number,
        )[k] != '/',
        repository_place(number)[14] == 'r',
{
    reveal_strlit("/chariot/xbps/repo");
    lemma_decimal_is_plain(number as nat);
    assert forall|k: int| 18 <= k < repository_place(number).len() implies #[trigger]
        repository_place(number)[k] != '/' by {
        assert(repository_place(number)[k] == decimal_text(number as nat)[k - 18]);
    }
    assert forall|k: int| 0 <= k < repository_place(number).len() implies '\0' <= #[trigger]
        repository_place(number)[k] <= '\u{7f}' by {
        if k >= 18 {
            assert(repository_place(number)[k] == decimal_text(number as nat)[k - 18]);
        }
    }
}

proof fn lemma_repositories_are_apart(a: int, b: int)
    requires
        0 <= a,
        0 <= b,
        a != b,
    ensures
        !lies_in(path_of(repository_place(a)), path_of(repository_place(b))),
{
    let x = repository_place(a);
    let y = repository_place(b);
    lemma_repository_place(a);
    lemma_repository_place(b);
    is_ascii_chars_encode_utf8(x);
    is_ascii_chars_encode_utf8(y);
    let p = path_of(x);
    let q = path_of(y);
    assert(p.len() == x.len());
    assert(q.len() == y.len());
    if p == q {
        lemma_utf8_injective(x, y);
        reveal_strlit("/chariot/xbps/repo");
        assert(x.skip(18) =~= decimal_text(a as nat));
        assert(y.skip(18) =~= decimal_text(b as nat));
        lemma_numeral_injective(a as nat, b as nat, 10);
    }
    if q.len() < p.len() {
        assert(x[q.len() as int] as u8 == p[q.len() as int]);
        assert(x[q.len() as int] != '/');
        assert(p[q.len() as int] != SEPARATOR);
    }
    assert(y[y.len() - 1] as u8 == q[q.len() - 1]);
    assert(y[y.len() - 1] != '/');
    assert(q.last() != SEPARATOR);
}

proof fn lemma_repositories_are_found(repo_dirs: Seq<Seq<u8>>, i: int)
    requires
        0 <= i < repo_dirs.len(),
    ensures
        reads_from(repo_mounts(repo_dirs), path_of(repository_place(i)), repo_dirs[i]),
{
    let mounts = repo_mounts(repo_dirs);
    let place = path_of(repository_place(i));
    assert(mounts[i] == (MountSpec {
        dest: place,
        kind: MountKindSpec::Bind { from: repo_dirs[i], read_only: true, is_file: false },
    }));
    assert forall|j: int| i < j < mounts.len() implies !hides(#[trigger] mounts[j], place) by {
        lemma_repositories_are_apart(i, j);
        assert(mounts[j].dest == path_of(repository_place(j)));
    }
}

/// The program that installs a package finds each of the repositories, in their order, under its
/// number, and cannot change any of them. What it installs goes into the destination: into the
/// directory that it finds as the root to install under or, where the root file system itself is that
/// root, into the layer over it.
pub proof fn lemma_installed_from_repositories_into_destination(
    pkgset: PkgSet,
    name: Seq<char>,
    version: Seq<char>,
    revision: nat,
    arch: Seq<char>,
    repo_dirs: Seq<Seq<u8>>,
    dest_dir: Seq<u8>,
    dest_root_overlay: bool,
    force: bool,
    overlay_workdir: Option<Seq<u8>>,
    code: Option<i32>,
    i: int,
)
    ensures
        install_step(
            pkgset,
            name,
            version,
            revision,
            arch,
            repo_dirs,
            dest_dir,
            dest_root_overlay,
            force,
            overlay_workdir,
            code,
        ) matches PackageInstallStepSpec::Run(request) ==> {
            &&& 0 <= i < repo_dirs.len() ==> reads_from(
                request.mounts,
                path_of(repository_place(i)),
                repo_dirs[i],
            )
            &&& !dest_root_overlay ==> request.root_overlay is None && writes_into(
                request.mounts,
                path_of("/chariot/xbps/install"@),
                dest_dir,
            )
            &&& dest_root_overlay ==> overlay_workdir is Some && request.root_overlay == Some(
                UpperSpec { upper_directory: dest_dir, work_directory: overlay_workdir->0 },
            ) && request.mounts.len() == repo_dirs.len()
            &&& is_plain(request)
            &&& request.pkgset == pkgset
            &&& request.cwd == path_of("/"@)
            &&& code is None
        },
{
    if let PackageInstallStepSpec::Run(request) = install_step(
        pkgset,
        name,
        version,
        revision,
        arch,
        repo_dirs,
        dest_dir,
        dest_root_overlay,
        force,
        overlay_workdir,
        code,
    ) {
        if 0 <= i < repo_dirs.len() {
            lemma_repositories_are_found(repo_dirs, i);
        }
        if !dest_root_overlay {
            let dest = bind_spec("/chariot/xbps/install"@, dest_dir, false, false);
            lemma_found_last(repo_mounts(repo_dirs), dest);
            if 0 <= i < repo_dirs.len() {
                lemma_repository_place(i);
                reveal_strlit("/chariot/xbps/install");
                lemma_lies_elsewhere(repository_place(i), "/chariot/xbps/install"@, 14);
                lemma_found_still(
                    repo_mounts(repo_dirs),
                    dest,
                    path_of(repository_place(i)),
                    MountKindSpec::Bind { from: repo_dirs[i], read_only: true, is_file: false },
                );
            }
            assert(request.mounts =~= repo_mounts(repo_dirs).push(dest));
        }
    }
}

/// The command that installs a package names the root to install under, each of the repositories in
/// their order, and the package, and asks for an installation over an existing one just when that is
/// wanted; the program is told which package is meant, and for which architecture.
pub proof fn lemma_install_command_names_everything(
    pkgset: PkgSet,
    name: Seq<char>,
    version: Seq<char>,
    revision: nat,
    arch: Seq<char>,
    repo_dirs: Seq<Seq<u8>>,
    dest_dir: Seq<u8>,
    dest_root_overlay: bool,
    force: bool,
    overlay_workdir: Option<Seq<u8>>,
    code: Option<i32>,
)
    ensures
        install_step(
            pkgset,
            name,
            version,
            revision,
            arch,
            repo_dirs,
            dest_dir,
            dest_root_overlay,
            force,
            overlay_workdir,
            code,
        ) matches PackageInstallStepSpec::Run(request) ==> {
            &&& is_told_of(request.environment, name, version, revision, arch)
            &&& runs_command(
                request.args,
                command_to_install(force, dest_root_overlay, repo_dirs.len()),
            )
        },
{
    lemma_variables_are_told(name, version, revision, arch);
    let options = Seq::new(repo_dirs.len(), |i: int| "--repository "@ + repository_place(i));
    assert(options =~= repo_options(repo_dirs.len()));
    let start = "xbps-install --reproducible --yes "@;
    assert(start + Seq::<char>::empty() =~= start);
}

/// Installing fails only because of what failed: the description of the package, or the program that
/// ended with the exit code that the error tells of; it is over only when the program has succeeded; and
/// nothing is asked for that has come back already.
pub proof fn lemma_installing_fails_of_what_failed(
    pkgset: PkgSet,
    name: Seq<char>,
    version: Seq<char>,
    revision: nat,
    arch: Seq<char>,
    repo_dirs: Seq<Seq<u8>>,
    dest_dir: Seq<u8>,
    dest_root_overlay: bool,
    force: bool,
    overlay_workdir: Option<Seq<u8>>,
    code: Option<i32>,
)
    ensures
        match install_step(
            pkgset,
            name,
            version,
            revision,
            arch,
            repo_dirs,
            dest_dir,
            dest_root_overlay,
            force,
            overlay_workdir,
            code,
        ) {
            PackageInstallStepSpec::MakeWorkDirectory => dest_root_overlay
                && overlay_workdir is None,
            PackageInstallStepSpec::Run(request) => code is None && !has_white_space(name)
                && !is_bad_version(version) && !has_white_space(arch),
            PackageInstallStepSpec::Fail(InstallErrorSpec::Error(c)) => code == Some(c) && c != 0,
            PackageInstallStepSpec::Fail(InstallErrorSpec::Validation(reason)) => match reason {
                ValidationSpec::PackageName(text) => text == name && has_white_space(name),
                ValidationSpec::PackageVersion(text) => text == version && is_bad_version(version),
                ValidationSpec::Arch(text) => text == arch && has_white_space(arch),
                ValidationSpec::RuntimeDependency(text) => false,
            },
            PackageInstallStepSpec::Done => code == Some(0i32),
        },
{
}

/// A package is installed as it was ordered. Everything that it needs at run time has been built, and
/// the program that installs finds the repositories of all of them where the store has them, in their
/// order; what it installs goes into the destination of the order, for the architecture of the order.
pub proof fn lemma_order_is_carried_out(
    store: Seq<u8>,
    order: OrderSpec,
    replies: OrderReplies,
    i: int,
)
    ensures
        order_step(store, order, replies) matches OrderStepSpec::Run(request) ==> {
            &&& replies.processed@.len() >= runtime_closure(order.package).len()
            &&& 0 <= i < replies.processed@.len() ==> replies.processed@[i] is Ok && reads_from(
                request.mounts,
                path_of(repository_place(i)),
                entry_path_in(store, "pkg"@, (replies.processed@[i]->Ok_0) as nat),
            )
            &&& !order.dest_root_overlay ==> request.root_overlay is None && writes_into(
                request.mounts,
                path_of("/chariot/xbps/install"@),
                order.dest_dir,
            )
            &&& order.dest_root_overlay ==> replies.overlay_workdir is Some && request.root_overlay
                == Some(
                UpperSpec {
                    upper_directory: order.dest_dir,
                    work_directory: (replies.overlay_workdir->0)@,
                },
            )
            &&& is_told_of(
                request.environment,
                order.package.name@,
                order.package.version@,
                order.package.revision as nat,
                order.arch,
            )
            &&& request.pkgset == order.pkgset
            &&& runs_command(
                request.args,
                command_to_install(
                    order.force,
                    order.dest_root_overlay,
                    replies.processed@.len(),
                ),
            )
        },
{
    lemma_first_error(replies.processed@);
    let repos = repositories(store, replies.processed@);
    lemma_installed_from_repositories_into_destination(
        order.pkgset,
        order.package.name@,
        order.package.version@,
        order.package.revision as nat,
        order.arch,
        repos,
        order.dest_dir,
        order.dest_root_overlay,
        order.force,
        path_option(replies.overlay_workdir),
        replies.code,
        i,
    );
    lemma_install_command_names_everything(
        order.pkgset,
        order.package.name@,
        order.package.version@,
        order.package.revision as nat,
        order.arch,
        repos,
        order.dest_dir,
        order.dest_root_overlay,
        order.force,
        path_option(replies.overlay_workdir),
        replies.code,
    );
}

/// The packages that an order needs are built one after the other, each once; an order fails only
/// because of what failed, and is carried out only when the program that installs has succeeded.
pub proof fn lemma_order_goes_on(store: Seq<u8>, order: OrderSpec, replies: OrderReplies)
    ensures
        match order_step(store, order, replies) {
            OrderStepSpec::Process(package) => replies.processed@.len() < runtime_closure(
                order.package,
            ).len() && package == runtime_closure(order.package)[replies.processed@.len() as int],
            OrderStepSpec::MakeWorkDirectory => order.dest_root_overlay
                && replies.overlay_workdir is None,
            OrderStepSpec::Run(request) => replies.code is None,
            OrderStepSpec::Fail(InstallFailureSpec::Process(error)) => exists|i: int|
                0 <= i < replies.processed@.len() && (#[trigger] replies.processed@[i]) is Err
                    && replies.processed@[i]->Err_0 == error,
            OrderStepSpec::Fail(InstallFailureSpec::Install(InstallErrorSpec::Error(code))) =>
                replies.code == Some(code) && code != 0,
            OrderStepSpec::Fail(InstallFailureSpec::Install(InstallErrorSpec::Validation(reason)))
            => match reason {
                ValidationSpec::PackageName(text) => text == order.package.name@ && has_white_space(
                    text,
                ),
                ValidationSpec::PackageVersion(text) => text == order.package.version@
                    && is_bad_version(text),
                ValidationSpec::Arch(text) => text == order.arch && has_white_space(text),
                ValidationSpec::RuntimeDependency(text) => false,
            },
            OrderStepSpec::Done => replies.code == Some(0i32) && replies.processed@.len()
                >= runtime_closure(order.package).len() && forall|i: int|
                0 <= i < replies.processed@.len() ==> replies.processed@[i] is Ok,
        },
{
    lemma_first_error(replies.processed@);
    lemma_installing_fails_of_what_failed(
        order.pkgset,
        order.package.name@,
        order.package.version@,
        order.package.revision as nat,
        order.arch,
        repositories(store, replies.processed@),
        order.dest_dir,
        order.dest_root_overlay,
        order.force,
        path_option(replies.overlay_workdir),
        replies.code,
    );
}

} // verus!
