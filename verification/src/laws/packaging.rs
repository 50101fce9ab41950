//! Making packages: a package is made of what its recipe installed, for the architecture of its
//! platform, in the directory that then becomes its repository, and is installed from there.

use crate::config::package::{Package, PackagePlatform};
use crate::laws::sight::{
    lemma_found_alone, lemma_found_last, lemma_found_still, lemma_lies_elsewhere, reads_from,
    runs_command, writes_into,
};
use crate::mount::bind_spec;
use crate::package::{
    dependency_text, dependency_texts, package_search_noted, package_step, PackageReplies,
    PackageStepSpec, ProcessErrorSpec, Search,
};
use crate::request::{lemma_first_failure, ExecSpec, PkgSet, StderrTarget};
use crate::store::entry_path_in;
use crate::util::path::path_of;
use crate::util::text::{
    decimal_text, digit_char, joined, lemma_numeral_digits, lemma_numeral_injective, split,
};
use crate::xbps::{
    code_text, create_step, has_white_space, is_bad_version, lemma_bad_dependency,
    lemma_dependencies_read_back, package_env, CreateErrorSpec, PackageCreateStepSpec,
    ValidationSpec, CREATE_COMMAND, INDEX_COMMAND,
};
use crate::HOST_ARCH;
use vstd::prelude::*;

verus! {

/// The architecture that a package is for: that of the host, or the one that is built for.
pub open spec fn arch_of(package: Package) -> Seq<char> {
    if package.platform == PackagePlatform::Host {
        HOST_ARCH@
    } else {
        package.global_env.target_arch@
    }
}

/// A program of the package manager is told which package is meant, and for which architecture.
pub open spec fn is_told_of(
    environment: Map<Seq<char>, Seq<char>>,
    name: Seq<char>,
    version: Seq<char>,
    revision: nat,
    arch: Seq<char>,
) -> bool {
    &&& environment.contains_pair("XBPS_TARGET_ARCH"@, arch)
    &&& environment.contains_pair("XBPS_ARCH"@, "invalid"@)
    &&& environment.contains_pair("PKG_NAME"@, name)
    &&& environment.contains_pair("PKG_VER"@, version)
    &&& environment.contains_pair("PKG_REV"@, decimal_text(revision))
}

/// A program of the root file system with nothing special: it reads nothing from the user, prints
/// everything to one place and sees no layers.
pub open spec fn is_plain(request: ExecSpec) -> bool {
    &&& !request.stdin
    &&& request.stderr == StderrTarget::Merge
    &&& request.root_writable
    &&& request.root_layers.len() == 0
}

proof fn lemma_distinct_variables()
    ensures
        "XBPS_ARCH"@ != "XBPS_TARGET_ARCH"@,
        "XBPS_ARCH"@ != "PKG_NAME"@,
        "XBPS_ARCH"@ != "PKG_VER"@,
        "XBPS_ARCH"@ != "PKG_REV"@,
        "XBPS_ARCH"@ != "PKG_RDEPS"@,
        "XBPS_TARGET_ARCH"@ != "PKG_NAME"@,
        "XBPS_TARGET_ARCH"@ != "PKG_VER"@,
        "XBPS_TARGET_ARCH"@ != "PKG_REV"@,
        "XBPS_TARGET_ARCH"@ != "PKG_RDEPS"@,
        "PKG_NAME"@ != "PKG_VER"@,
        "PKG_NAME"@ != "PKG_REV"@,
        "PKG_NAME"@ != "PKG_RDEPS"@,
        "PKG_VER"@ != "PKG_REV"@,
        "PKG_VER"@ != "PKG_RDEPS"@,
        "PKG_REV"@ != "PKG_RDEPS"@,
{
    reveal_strlit("XBPS_ARCH");
    reveal_strlit("XBPS_TARGET_ARCH");
    reveal_strlit("PKG_NAME");
    reveal_strlit("PKG_VER");
    reveal_strlit("PKG_REV");
    reveal_strlit("PKG_RDEPS");
    assert("XBPS_ARCH"@[0] == 'X');
    assert("XBPS_TARGET_ARCH"@[0] == 'X');
    assert("XBPS_ARCH"@.len() != "XBPS_TARGET_ARCH"@.len());
    assert("PKG_NAME"@[0] == 'P' && "PKG_NAME"@[4] == 'N');
    assert("PKG_VER"@[0] == 'P' && "PKG_VER"@[4] == 'V');
    assert("PKG_REV"@[0] == 'P' && "PKG_REV"@[4] == 'R' && "PKG_REV"@.len() == 7);
    assert("PKG_RDEPS"@[0] == 'P' && "PKG_RDEPS"@[4] == 'R' && "PKG_RDEPS"@.len() == 9);
}

/// The variables of the programs of the package manager tell them which package is meant.
pub proof fn lemma_variables_are_told(
    name: Seq<char>,
    version: Seq<char>,
    revision: nat,
    arch: Seq<char>,
)
    ensures
        is_told_of(package_env(name, version, revision, arch), name, version, revision, arch),
{
    lemma_distinct_variables();
}

/// The programs that make a package out of the files in a directory. The first one reads these files,
/// and cannot change them; both write into the directory for the package, which is where they run.
pub proof fn lemma_package_is_made_in_its_directory(
    name: Seq<char>,
    version: Seq<char>,
    revision: nat,
    arch: Seq<char>,
    deps: Seq<Seq<char>>,
    from_dir: Seq<u8>,
    dest_dir: Seq<u8>,
    codes: Seq<i32>,
)
    ensures
        create_step(
            name,
            version,
            revision,
            arch,
            deps,
            from_dir,
            dest_dir,
            codes,
        ) matches PackageCreateStepSpec::Run(request) ==> {
            &&& codes.len() <= 1
            &&& writes_into(request.mounts, request.cwd, dest_dir)
            &&& codes.len() == 0 ==> reads_from(
                request.mounts,
                path_of("/chariot/xbps/package"@),
                from_dir,
            )
            &&& codes.len() == 0 ==> runs_command(request.args, CREATE_COMMAND@)
            &&& codes.len() == 1 ==> runs_command(request.args, INDEX_COMMAND@)
            &&& is_plain(request)
            &&& request.pkgset == PkgSet::Root
            &&& request.root_overlay is None
        },
{
    lemma_first_failure(codes);
    if let PackageCreateStepSpec::Run(request) = create_step(
        name,
        version,
        revision,
        arch,
        deps,
        from_dir,
        dest_dir,
        codes,
    ) {
        let dest = bind_spec("/chariot/xbps/dest"@, dest_dir, false, false);
        let from = bind_spec("/chariot/xbps/package"@, from_dir, true, false);
        let repo = bind_spec("/chariot/xbps/repo"@, dest_dir, false, false);
        if codes.len() == 0 {
            reveal_strlit("/chariot/xbps/dest");
            reveal_strlit("/chariot/xbps/package");
            lemma_lies_elsewhere("/chariot/xbps/dest"@, "/chariot/xbps/package"@, 14);
            lemma_found_alone(dest);
            lemma_found_still(seq![dest], from, dest.dest, dest.kind);
            lemma_found_last(seq![dest], from);
            assert(request.mounts =~= seq![dest].push(from));
        } else {
            lemma_found_alone(repo);
            assert(request.mounts =~= seq![repo]);
        }
    }
}

/// The programs that make a package are told which package is meant, for which architecture, and, when
/// it is made, what it needs at run time.
pub proof fn lemma_programs_are_told_of_the_package(
    name: Seq<char>,
    version: Seq<char>,
    revision: nat,
    arch: Seq<char>,
    deps: Seq<Seq<char>>,
    from_dir: Seq<u8>,
    dest_dir: Seq<u8>,
    codes: Seq<i32>,
)
    ensures
        create_step(
            name,
            version,
            revision,
            arch,
            deps,
            from_dir,
            dest_dir,
            codes,
        ) matches PackageCreateStepSpec::Run(request) ==> {
            &&& is_told_of(request.environment, name, version, revision, arch)
            &&& codes.len() == 0 ==> request.environment.contains_pair(
                "PKG_RDEPS"@,
                joined(deps, " "@),
            )
        },
{
    lemma_first_failure(codes);
    lemma_distinct_variables();
}

/// A package is made of what its recipe installed: the first program reads it where the store has it.
/// The package is written into the work directory, and its index is made there. Both programs are told
/// the package and the architecture of its platform.
pub proof fn lemma_package_is_made_of_what_is_installed(
    store: Seq<u8>,
    package: Package,
    replies: PackageReplies,
)
    ensures
        package_step(store, package, replies) matches PackageStepSpec::Run(request) ==> {
            &&& replies.install_hash is Some && (replies.install_hash->0) is Ok
            &&& replies.workdir is Some
            &&& writes_into(request.mounts, request.cwd, (replies.workdir->0)@)
            &&& is_told_of(
                request.environment,
                package.name@,
                package.version@,
                package.revision as nat,
                arch_of(package),
            )
            &&& is_plain(request)
            &&& request.pkgset == PkgSet::Root
            &&& request.root_overlay is None
            &&& replies.create_codes@.len() == 0 ==> {
                &&& runs_command(request.args, CREATE_COMMAND@)
                &&& reads_from(
                    request.mounts,
                    path_of("/chariot/xbps/package"@),
                    entry_path_in(
                        store,
                        "install"@,
                        ((replies.install_hash->0)->Ok_0) as nat,
                    ),
                )
            }
            &&& replies.create_codes@.len() == 1 ==> runs_command(request.args, INDEX_COMMAND@)
            &&& replies.create_codes@.len() <= 1
        },
{
    if let (Some(Ok(install_hash)), Some(workdir)) = (replies.install_hash, replies.workdir) {
        let from = entry_path_in(store, "install"@, install_hash as nat);
        lemma_package_is_made_in_its_directory(
            package.name@,
            package.version@,
            package.revision as nat,
            package.arch(),
            dependency_texts(package),
            from,
            workdir@,
            replies.create_codes@,
        );
        lemma_programs_are_told_of_the_package(
            package.name@,
            package.version@,
            package.revision as nat,
            package.arch(),
            dependency_texts(package),
            from,
            workdir@,
            replies.create_codes@,
        );
    }
}

/// What becomes the repository of a package is the directory that the programs which made and indexed
/// the package wrote to.
pub proof fn lemma_repository_is_what_was_made(
    store: Seq<u8>,
    package: Package,
    replies: PackageReplies,
    before: PackageReplies,
)
    ensures
        package_step(store, package, replies) matches PackageStepSpec::Put { from, category, hash }
            ==> {
            &&& category == "pkg"@
            &&& replies.effective_hash == Some(hash)
            &&& replies.workdir is Some
            &&& from == (replies.workdir->0)@
            &&& before.workdir == replies.workdir ==> (package_step(
                store,
                package,
                before,
            ) matches PackageStepSpec::Run(request) ==> writes_into(
                request.mounts,
                request.cwd,
                from,
            ))
        },
{
    lemma_package_is_made_of_what_is_installed(store, package, before);
}

/// The package that is made names what it needs at run time: each such package by its name, its
/// version or a later one, and its revision, in their order, with nothing else.
pub proof fn lemma_package_names_what_it_needs(
    store: Seq<u8>,
    package: Package,
    replies: PackageReplies,
)
    ensures
        package_step(store, package, replies) matches PackageStepSpec::Run(request) ==> (
        replies.create_codes@.len() == 0 && package.runtime_dependencies@.len() > 0 ==> {
            let words = split(request.environment["PKG_RDEPS"@], ' ');
            &&& request.environment.contains_key("PKG_RDEPS"@)
            &&& words.len() == package.runtime_dependencies@.len()
            &&& forall|i: int|
                0 <= i < words.len() ==> #[trigger] words[i]
                    == package.runtime_dependencies@[i].name@ + ">="@
                    + package.runtime_dependencies@[i].version@ + "_"@ + decimal_text(
                    package.runtime_dependencies@[i].revision as nat,
                )
        }),
{
    lemma_first_failure(replies.create_codes@);
    if let PackageStepSpec::Run(request) = package_step(store, package, replies) {
        if replies.create_codes@.len() == 0 && package.runtime_dependencies@.len() > 0 {
            let deps = dependency_texts(package);
            assert(deps.len() == package.runtime_dependencies@.len());
            lemma_dependencies_read_back(deps);
            assert forall|i: int| 0 <= i < deps.len() implies #[trigger] deps[i]
                == dependency_text(*package.runtime_dependencies@[i]) by {}
        }
    }
}

/// A package is known under the same hashes all the way, and its hash is computed from the files that
/// it is made of.
pub proof fn lemma_package_is_known_under_one_hash(
    store: Seq<u8>,
    package: Package,
    replies: PackageReplies,
)
    ensures
        match package_step(store, package, replies) {
            PackageStepSpec::Lookup { category, hash } => category == "pkg"@ && hash
                == package.package_hash(),
            PackageStepSpec::Find { search: Search::Known, category, hash } => category == "pkg"@
                && replies.lookup == Some(Some(hash)),
            PackageStepSpec::Find { search: Search::Outcome, category, hash } => category == "pkg"@
                && replies.effective_hash == Some(hash),
            PackageStepSpec::HashInstall(path) => replies.install_hash matches Some(
                Ok(install_hash),
            ) && path == entry_path_in(store, "install"@, install_hash as nat),
            PackageStepSpec::Put { from, category, hash } => category == "pkg"@
                && replies.effective_hash == Some(hash),
            PackageStepSpec::Record { category, hash, effective_hash } => category == "pkg"@ && hash
                == package.package_hash() && replies.effective_hash == Some(effective_hash),
            PackageStepSpec::Done(hash) => (replies.lookup == Some(Some(hash)) && replies.cached
                == Some(true)) || replies.effective_hash == Some(hash),
            _ => true,
        },
{
}

/// Something is wrong with the description of a package.
pub open spec fn is_wrong_with(package: Package, reason: ValidationSpec) -> bool {
    match reason {
        ValidationSpec::PackageName(name) => name == package.name@ && has_white_space(name),
        ValidationSpec::PackageVersion(version) => version == package.version@ && is_bad_version(
            version,
        ),
        ValidationSpec::Arch(arch) => arch == arch_of(package) && has_white_space(arch),
        ValidationSpec::RuntimeDependency(dep) => has_white_space(dep) && exists|i: int|
            0 <= i < package.runtime_dependencies@.len() && dep == dependency_text(
                *#[trigger] package.runtime_dependencies@[i],
            ),
    }
}

/// No program is run for a package with something wrong in its description.
pub proof fn lemma_only_valid_packages_are_made(
    store: Seq<u8>,
    package: Package,
    replies: PackageReplies,
    reason: ValidationSpec,
)
    requires
        is_wrong_with(package, reason),
    ensures
        !(package_step(store, package, replies) is Run),
        !(package_step(store, package, replies) is Put),
{
    lemma_bad_dependency(dependency_texts(package));
    if let ValidationSpec::RuntimeDependency(dep) = reason {
        let i = choose|i: int|
            0 <= i < package.runtime_dependencies@.len() && dep == dependency_text(
                *#[trigger] package.runtime_dependencies@[i],
            );
        assert(dependency_texts(package)[i] == dep);
    }
}

/// A package fails only because of what failed: its recipe, its description, or the program that ended
/// with the exit code that the error tells of.
pub proof fn lemma_package_fails_of_what_failed(
    store: Seq<u8>,
    package: Package,
    replies: PackageReplies,
)
    ensures
        package_step(store, package, replies) matches PackageStepSpec::Fail(error) ==> {
            ||| replies.install_hash is Some && (replies.install_hash->0) is Err && error == ((
            replies.install_hash->0)->Err_0)@
            ||| error matches ProcessErrorSpec::PackageCreate(CreateErrorSpec::Validation(reason))
                && is_wrong_with(package, reason)
            ||| error matches ProcessErrorSpec::PackageCreate(CreateErrorSpec::CreateError(code))
                && replies.create_codes@.len() > 0 && replies.create_codes@[0] == code && code != 0
            ||| error matches ProcessErrorSpec::PackageCreate(CreateErrorSpec::RepoIndexError(code))
                && replies.create_codes@.len() > 1 && replies.create_codes@.contains(code) && code
                != 0 && replies.create_codes@[0] == 0
        },
{
    lemma_first_failure(replies.create_codes@);
    lemma_bad_dependency(dependency_texts(package));
    if let PackageStepSpec::Fail(
        ProcessErrorSpec::PackageCreate(
            CreateErrorSpec::Validation(ValidationSpec::RuntimeDependency(dep)),
        ),
    ) = package_step(store, package, replies) {
        if !(replies.install_hash is Some && (replies.install_hash->0) is Err) {
            let deps = dependency_texts(package);
            let i = choose|i: int| 0 <= i < deps.len() && #[trigger] deps[i] == dep;
            assert(dep == dependency_text(*package.runtime_dependencies@[i]));
        }
    }
}

/// Nothing is asked for that has come back already, so that every answer brings the work on a package
/// further.
pub proof fn lemma_package_asks_once(store: Seq<u8>, package: Package, replies: PackageReplies)
    ensures
        match package_step(store, package, replies) {
            PackageStepSpec::Lookup { category, hash } => replies.lookup is None,
            PackageStepSpec::Find { search: Search::Known, category, hash } =>
                replies.cached is None,
            PackageStepSpec::GetInstall => replies.install_hash is None,
            PackageStepSpec::HashInstall(path) => replies.effective_hash is None,
            PackageStepSpec::Find { search: Search::Outcome, category, hash } =>
                replies.found is None,
            PackageStepSpec::MakeDirectory => replies.workdir is None && replies.found == Some(
                false,
            ),
            PackageStepSpec::Run(request) => replies.create_codes@.len() < 2 && replies.found
                == Some(false),
            PackageStepSpec::Put { from, category, hash } => !replies.stored && replies.found
                == Some(false),
            PackageStepSpec::Record { category, hash, effective_hash } => !replies.recorded,
            _ => true,
        },
{
    lemma_first_failure(replies.create_codes@);
}

/// What a search of the store found answers that very search, and changes nothing else that has come
/// back.
pub proof fn lemma_searches_of_a_package_are_answered(
    replies: PackageReplies,
    search: Search,
    found: bool,
)
    ensures
        ({
            let after = package_search_noted(replies, search, found);
            &&& search == Search::Known ==> after.cached == Some(found) && after.found
                == replies.found
            &&& search == Search::Outcome ==> after.found == Some(found) && after.cached
                == replies.cached
            &&& after == (PackageReplies { cached: after.cached, found: after.found, ..replies })
        }),
{
}

/// Exit codes are told apart by how they are written.
pub proof fn lemma_code_text_injective(a: i32, b: i32)
    requires
        code_text(a) == code_text(b),
    ensures
        a == b,
{
    reveal_strlit("-");
    let x: nat = if a < 0 {
        (-a) as nat
    } else {
        a as nat
    };
    let y: nat = if b < 0 {
        (-b) as nat
    } else {
        b as nat
    };
    lemma_numeral_digits(x, 10);
    lemma_numeral_digits(y, 10);
    let first = code_text(a)[0];
    assert(a < 0 ==> first == '-');
    assert(b < 0 ==> first == '-');
    if a >= 0 {
        let d = choose|d: nat| d < 10 && decimal_text(x)[0] == digit_char(d);
        assert(digit_char(d) != '-');
    }
    if b >= 0 {
        let d = choose|d: nat| d < 10 && decimal_text(y)[0] == digit_char(d);
        assert(digit_char(d) != '-');
    }
    if a < 0 {
        assert(code_text(a).skip(1) =~= decimal_text(x));
        assert(code_text(b).skip(1) =~= decimal_text(y));
    }
    lemma_numeral_injective(x, y, 10);
}

} // verus!
