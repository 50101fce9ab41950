//! Packages in the format of xbps: making them, indexing them, installing them.

use crate::mount::{bind, bind_spec, mounts_of, Mount, MountSpec, OverlayUpperDirectory, UpperSpec};
use crate::request::{
    empty_env, find_failure, first_failure, lemma_first_failure, no_env, plain_exec,
    plain_request, ExecRequest, ExecSpec, PkgSet,
};
use crate::store::path_bytes;
use crate::util::names::{env_of, NameMap};
use crate::util::path::{path_option, UnixPath};
use crate::util::text::{
    decimal, decimal_text, is_white_space, is_whitespace, join, joined, lemma_last_cut_unique,
    lemma_numeral_digits, lemma_numeral_injective, lemma_split_joined, split, texts,
};
use vstd::prelude::*;

verus! {

pub const CREATE_COMMAND: &'static str =
    "xbps-create --built-with chariot --architecture \"$XBPS_TARGET_ARCH\" --pkgver \"$PKG_NAME-${PKG_VER}_$PKG_REV\" --desc \"Package $PKG_NAME built by chariot\" --dependencies \"$PKG_RDEPS\" /chariot/xbps/package";

pub const INDEX_COMMAND: &'static str =
    "xbps-rindex -f -a \"$PKG_NAME-${PKG_VER}_$PKG_REV.$XBPS_TARGET_ARCH.xbps\"";

pub const INSTALL_COMMAND_START: &'static str = "xbps-install --reproducible --yes ";

/// Lets a package be installed even if it is already installed.
pub const FORCE_OPTION: &'static str = "--force ";

pub const ROOT_OPTION: &'static str = "--rootdir ";

pub const INSTALL_COMMAND_END: &'static str = " \"$PKG_NAME-${PKG_VER}_$PKG_REV\"";

// ---------------------------------------------------------------------------
// Errors
// ---------------------------------------------------------------------------

/// What is wrong with the description of a package.
#[derive(Debug)]
pub enum XBPSValidationError {
    PackageName(String),
    PackageVersion(String),
    Arch(String),
    RuntimeDependency(String),
}

/// [`XBPSValidationError`] by its texts.
pub enum ValidationSpec {
    PackageName(Seq<char>),
    PackageVersion(Seq<char>),
    Arch(Seq<char>),
    RuntimeDependency(Seq<char>),
}

impl View for XBPSValidationError {
    type V = ValidationSpec;

    open spec fn view(&self) -> ValidationSpec {
        match self {
            XBPSValidationError::PackageName(text) => ValidationSpec::PackageName(text@),
            XBPSValidationError::PackageVersion(text) => ValidationSpec::PackageVersion(text@),
            XBPSValidationError::Arch(text) => ValidationSpec::Arch(text@),
            XBPSValidationError::RuntimeDependency(text) => ValidationSpec::RuntimeDependency(
                text@,
            ),
        }
    }
}

/// An error of validation in words.
pub open spec fn validation_text(error: ValidationSpec) -> Seq<char> {
    match error {
        ValidationSpec::PackageName(text) => "Package name `"@ + text
            + "` cannot contain whitespace"@,
        ValidationSpec::PackageVersion(text) => "Package version `"@ + text
            + "` cannot contain whitespace, `_`, or `-`"@,
        ValidationSpec::Arch(text) => "Arch `"@ + text + "` cannot contain whitespace"@,
        ValidationSpec::RuntimeDependency(text) => "Runtime dependency `"@ + text
            + "` cannot contain whitespace"@,
    }
}

fn between(start: &str, text: &str, end: &str) -> (r: String)
    ensures
        r@ == start@ + text@ + end@,
{
    let mut out: String = start.to_string();
    out.append(text);
    out.append(end);
    out
}

impl XBPSValidationError {
    /// The error in words.
    pub fn message(&self) -> (r: String)
        ensures
            r@ == validation_text(self@),
    {
        match self {
            XBPSValidationError::PackageName(text) => between(
                "Package name `",
                text.as_str(),
                "` cannot contain whitespace",
            ),
            XBPSValidationError::PackageVersion(text) => between(
                "Package version `",
                text.as_str(),
                "` cannot contain whitespace, `_`, or `-`",
            ),
            XBPSValidationError::Arch(text) => between(
                "Arch `",
                text.as_str(),
                "` cannot contain whitespace",
            ),
            XBPSValidationError::RuntimeDependency(text) => between(
                "Runtime dependency `",
                text.as_str(),
                "` cannot contain whitespace",
            ),
        }
    }
}

impl XBPSValidationError {
    /// A copy of this error.
    pub fn copy(&self) -> (r: XBPSValidationError)
        ensures
            r@ == self@,
    {
        match self {
            XBPSValidationError::PackageName(text) => XBPSValidationError::PackageName(
                text.clone(),
            ),
            XBPSValidationError::PackageVersion(text) => XBPSValidationError::PackageVersion(
                text.clone(),
            ),
            XBPSValidationError::Arch(text) => XBPSValidationError::Arch(text.clone()),
            XBPSValidationError::RuntimeDependency(text) => XBPSValidationError::RuntimeDependency(
                text.clone(),
            ),
        }
    }
}

/// Why a package could not be made.
#[derive(Debug)]
pub enum XBPSPackageCreateError {
    Validation(XBPSValidationError),
    CreateError(i32),
    RepoIndexError(i32),
}

/// Why a package could not be installed.
#[derive(Debug)]
pub enum XBPSPackageInstallError {
    Validation(XBPSValidationError),
    Error(i32),
}

/// [`XBPSPackageCreateError`] by its texts.
pub enum CreateErrorSpec {
    Validation(ValidationSpec),
    CreateError(i32),
    RepoIndexError(i32),
}

/// [`XBPSPackageInstallError`] by its texts.
pub enum InstallErrorSpec {
    Validation(ValidationSpec),
    Error(i32),
}

impl View for XBPSPackageCreateError {
    type V = CreateErrorSpec;

    open spec fn view(&self) -> CreateErrorSpec {
        match self {
            XBPSPackageCreateError::Validation(error) => CreateErrorSpec::Validation(error@),
            XBPSPackageCreateError::CreateError(code) => CreateErrorSpec::CreateError(*code),
            XBPSPackageCreateError::RepoIndexError(code) => CreateErrorSpec::RepoIndexError(*code),
        }
    }
}

impl View for XBPSPackageInstallError {
    type V = InstallErrorSpec;

    open spec fn view(&self) -> InstallErrorSpec {
        match self {
            XBPSPackageInstallError::Validation(error) => InstallErrorSpec::Validation(error@),
            XBPSPackageInstallError::Error(code) => InstallErrorSpec::Error(*code),
        }
    }
}

/// An exit code as a text.
pub open spec fn code_text(code: i32) -> Seq<char> {
    if code < 0 {
        "-"@ + decimal_text((-code) as nat)
    } else {
        decimal_text(code as nat)
    }
}

/// An exit code as a text.
pub fn format_code(code: i32) -> (r: String)
    ensures
        r@ == code_text(code),
{
    if code < 0 {
        let magnitude: i64 = -(code as i64);
        "-".to_string().concat(decimal(magnitude as u128).as_str())
    } else {
        decimal(code as u128)
    }
}

/// An error of making a package in words.
pub open spec fn create_error_text(error: CreateErrorSpec) -> Seq<char> {
    match error {
        CreateErrorSpec::Validation(error) => validation_text(error),
        CreateErrorSpec::CreateError(code) => "xbps-create exited with non-zero exit code "@
            + code_text(code),
        CreateErrorSpec::RepoIndexError(code) => "xbps-rindex exited with non-zero exit code "@
            + code_text(code),
    }
}

/// An error of installing a package in words.
pub open spec fn install_error_text(error: InstallErrorSpec) -> Seq<char> {
    match error {
        InstallErrorSpec::Validation(error) => validation_text(error),
        InstallErrorSpec::Error(code) => "xbps-install exited with non-zero exit code "@
            + code_text(code),
    }
}

impl XBPSPackageCreateError {
    /// The error in words.
    pub fn message(&self) -> (r: String)
        ensures
            r@ == create_error_text(self@),
    {
        match self {
            XBPSPackageCreateError::Validation(error) => error.message(),
            XBPSPackageCreateError::CreateError(code) =>
                "xbps-create exited with non-zero exit code ".to_string().concat(
                format_code(*code).as_str(),
            ),
            XBPSPackageCreateError::RepoIndexError(code) =>
                "xbps-rindex exited with non-zero exit code ".to_string().concat(
                format_code(*code).as_str(),
            ),
        }
    }

    /// A copy of this error.
    pub fn copy(&self) -> (r: XBPSPackageCreateError)
        ensures
            r@ == self@,
    {
        match self {
            XBPSPackageCreateError::Validation(error) => XBPSPackageCreateError::Validation(
                error.copy(),
            ),
            XBPSPackageCreateError::CreateError(code) => XBPSPackageCreateError::CreateError(*code),
            XBPSPackageCreateError::RepoIndexError(code) => XBPSPackageCreateError::RepoIndexError(
                *code,
            ),
        }
    }
}

impl XBPSPackageInstallError {
    /// The error in words.
    pub fn message(&self) -> (r: String)
        ensures
            r@ == install_error_text(self@),
    {
        match self {
            XBPSPackageInstallError::Validation(error) => error.message(),
            XBPSPackageInstallError::Error(code) =>
                "xbps-install exited with non-zero exit code ".to_string().concat(
                format_code(*code).as_str(),
            ),
        }
    }

    /// A copy of this error.
    pub fn copy(&self) -> (r: XBPSPackageInstallError)
        ensures
            r@ == self@,
    {
        match self {
            XBPSPackageInstallError::Validation(error) => XBPSPackageInstallError::Validation(
                error.copy(),
            ),
            XBPSPackageInstallError::Error(code) => XBPSPackageInstallError::Error(*code),
        }
    }
}

// ---------------------------------------------------------------------------
// Validation
// ---------------------------------------------------------------------------

/// A text holds white space.
pub open spec fn has_white_space(text: Seq<char>) -> bool {
    exists|i: int| 0 <= i < text.len() && is_white_space(#[trigger] text[i])
}

/// A text holds white space or one of the characters that stand between name, version and
/// revision.
pub open spec fn is_bad_version(text: Seq<char>) -> bool {
    exists|i: int|
        0 <= i < text.len() && (is_white_space(#[trigger] text[i]) || text[i] == '_' || text[i]
            == '-')
}

fn find_white_space(text: &str) -> (r: bool)
    ensures
        r == has_white_space(text@),
{
    let mut found: bool = false;
    for c in it: text.chars()
        invariant
            it.seq() == text@,
            found == exists|i: int|
                0 <= i < it.index() && is_white_space(#[trigger] text@[i]),
    {
        assert(c == text@[it.index() as int]);
        if is_whitespace(c) {
            found = true;
        }
    }
    found
}

fn find_bad_in_version(text: &str) -> (r: bool)
    ensures
        r == is_bad_version(text@),
{
    let mut found: bool = false;
    for c in it: text.chars()
        invariant
            it.seq() == text@,
            found == exists|i: int|
                0 <= i < it.index() && (is_white_space(#[trigger] text@[i]) || text@[i] == '_'
                    || text@[i] == '-'),
    {
        assert(c == text@[it.index() as int]);
        if is_whitespace(c) || c == '_' || c == '-' {
            found = true;
        }
    }
    found
}

/// Refuses a package name with white space.
pub fn validate_package_name(name: &str) -> (r: Result<(), XBPSValidationError>)
    ensures
        has_white_space(name@) ==> (r matches Err(error) && error@ == ValidationSpec::PackageName(
            name@,
        )),
        !has_white_space(name@) ==> r is Ok,
{
    if find_white_space(name) {
        return Err(XBPSValidationError::PackageName(name.to_string()));
    }
    Ok(())
}

/// Refuses a package version with white space, `_` or `-`.
pub fn validate_package_version(version: &str) -> (r: Result<(), XBPSValidationError>)
    ensures
        is_bad_version(version@) ==> (r matches Err(error) && error@
            == ValidationSpec::PackageVersion(version@)),
        !is_bad_version(version@) ==> r is Ok,
{
    if find_bad_in_version(version) {
        return Err(XBPSValidationError::PackageVersion(version.to_string()));
    }
    Ok(())
}

/// Refuses an architecture with white space.
pub fn validate_arch(arch: &str) -> (r: Result<(), XBPSValidationError>)
    ensures
        has_white_space(arch@) ==> (r matches Err(error) && error@ == ValidationSpec::Arch(arch@)),
        !has_white_space(arch@) ==> r is Ok,
{
    if find_white_space(arch) {
        return Err(XBPSValidationError::Arch(arch.to_string()));
    }
    Ok(())
}

/// What is wrong first with the name, the version and the architecture of a package.
pub open spec fn invalid_package(
    name: Seq<char>,
    version: Seq<char>,
    arch: Seq<char>,
) -> Option<ValidationSpec> {
    if has_white_space(name) {
        Some(ValidationSpec::PackageName(name))
    } else if is_bad_version(version) {
        Some(ValidationSpec::PackageVersion(version))
    } else if has_white_space(arch) {
        Some(ValidationSpec::Arch(arch))
    } else {
        None
    }
}

/// The first runtime dependency with white space.
pub open spec fn bad_dependency(deps: Seq<Seq<char>>) -> Option<Seq<char>>
    decreases deps.len(),
{
    if deps.len() == 0 {
        None
    } else {
        match bad_dependency(deps.drop_last()) {
            Some(dep) => Some(dep),
            None => if has_white_space(deps.last()) {
                Some(deps.last())
            } else {
                None
            },
        }
    }
}

/// What is wrong first with a package that is to be made.
pub open spec fn invalid_new_package(
    name: Seq<char>,
    version: Seq<char>,
    arch: Seq<char>,
    deps: Seq<Seq<char>>,
) -> Option<ValidationSpec> {
    match invalid_package(name, version, arch) {
        Some(error) => Some(error),
        None => match bad_dependency(deps) {
            Some(dep) => Some(ValidationSpec::RuntimeDependency(dep)),
            None => None,
        },
    }
}

fn validate_package(name: &str, version: &str, arch: &str) -> (r: Result<(), XBPSValidationError>)
    ensures
        match invalid_package(name@, version@, arch@) {
            Some(e) => r matches Err(error) && error@ == e,
            None => r is Ok,
        },
{
    if let Err(error) = validate_package_name(name) {
        return Err(error);
    }
    if let Err(error) = validate_package_version(version) {
        return Err(error);
    }
    validate_arch(arch)
}

fn validate_dependencies(deps: &Vec<String>) -> (r: Result<(), XBPSValidationError>)
    ensures
        match bad_dependency(texts(deps@)) {
            Some(dep) => r matches Err(error) && error@ == ValidationSpec::RuntimeDependency(dep),
            None => r is Ok,
        },
{
    let mut i: usize = 0;
    let mut verdict: Result<(), XBPSValidationError> = Ok(());
    while i < deps.len()
        invariant
            0 <= i <= deps@.len(),
            match bad_dependency(texts(deps@).take(i as int)) {
                Some(dep) => verdict matches Err(error) && error@
                    == ValidationSpec::RuntimeDependency(dep),
                None => verdict is Ok,
            },
        decreases deps@.len() - i,
    {
        assert(texts(deps@).take(i + 1).drop_last() =~= texts(deps@).take(i as int));
        if verdict.is_ok() && find_white_space(deps[i].as_str()) {
            verdict = Err(XBPSValidationError::RuntimeDependency(deps[i].clone()));
        }
        i = i + 1;
    }
    assert(texts(deps@).take(deps@.len() as int) =~= texts(deps@));
    verdict
}

// ---------------------------------------------------------------------------
// Making a package
// ---------------------------------------------------------------------------

/// What to do next to make a package.
#[derive(Debug)]
pub enum PackageCreateStep {
    /// run a program and hand back its exit code
    Run(ExecRequest),
    /// stop
    Fail(XBPSPackageCreateError),
    /// the package and its index are there
    Done,
}

/// [`PackageCreateStep`] by its paths and texts.
pub enum PackageCreateStepSpec {
    Run(ExecSpec),
    Fail(CreateErrorSpec),
    Done,
}

impl View for PackageCreateStep {
    type V = PackageCreateStepSpec;

    open spec fn view(&self) -> PackageCreateStepSpec {
        match self {
            PackageCreateStep::Run(request) => PackageCreateStepSpec::Run(request@),
            PackageCreateStep::Fail(error) => PackageCreateStepSpec::Fail(error@),
            PackageCreateStep::Done => PackageCreateStepSpec::Done,
        }
    }
}

/// The variables that tell the tools which package is meant.
pub open spec fn package_env(
    name: Seq<char>,
    version: Seq<char>,
    revision: nat,
    arch: Seq<char>,
) -> Map<Seq<char>, Seq<char>> {
    no_env().insert("XBPS_ARCH"@, "invalid"@).insert("XBPS_TARGET_ARCH"@, arch).insert(
        "PKG_NAME"@,
        name,
    ).insert("PKG_VER"@, version).insert("PKG_REV"@, decimal_text(revision))
}

/// The program that makes a package out of the files in a directory.
pub open spec fn create_program(
    name: Seq<char>,
    version: Seq<char>,
    revision: nat,
    arch: Seq<char>,
    deps: Seq<Seq<char>>,
    from_dir: Seq<u8>,
    dest_dir: Seq<u8>,
) -> ExecSpec {
    plain_exec(
        "/chariot/xbps/dest"@,
        seq![
            bind_spec("/chariot/xbps/dest"@, dest_dir, false, false),
            bind_spec("/chariot/xbps/package"@, from_dir, true, false),
        ],
        package_env(name, version, revision, arch).insert("PKG_RDEPS"@, joined(deps, " "@)),
        seq!["bash"@, "-c"@, CREATE_COMMAND@],
        PkgSet::Root,
    )
}

/// The program that makes the index of the directory with the package.
pub open spec fn index_program(
    name: Seq<char>,
    version: Seq<char>,
    revision: nat,
    arch: Seq<char>,
    dest_dir: Seq<u8>,
) -> ExecSpec {
    plain_exec(
        "/chariot/xbps/repo"@,
        seq![bind_spec("/chariot/xbps/repo"@, dest_dir, false, false)],
        package_env(name, version, revision, arch),
        seq!["bash"@, "-c"@, INDEX_COMMAND@],
        PkgSet::Root,
    )
}

/// What to do next to make a package, when the programs so far ended with the given exit codes:
/// a package that is wrongly described is refused before any program runs.
pub open spec fn create_step(
    name: Seq<char>,
    version: Seq<char>,
    revision: nat,
    arch: Seq<char>,
    deps: Seq<Seq<char>>,
    from_dir: Seq<u8>,
    dest_dir: Seq<u8>,
    codes: Seq<i32>,
) -> PackageCreateStepSpec {
    match invalid_new_package(name, version, arch, deps) {
        Some(error) => PackageCreateStepSpec::Fail(CreateErrorSpec::Validation(error)),
        None => match first_failure(codes) {
            Some((number, code)) => PackageCreateStepSpec::Fail(
                if number == 0 {
                    CreateErrorSpec::CreateError(code)
                } else {
                    CreateErrorSpec::RepoIndexError(code)
                },
            ),
            None => if codes.len() == 0 {
                PackageCreateStepSpec::Run(
                    create_program(name, version, revision, arch, deps, from_dir, dest_dir),
                )
            } else if codes.len() == 1 {
                PackageCreateStepSpec::Run(index_program(name, version, revision, arch, dest_dir))
            } else {
                PackageCreateStepSpec::Done
            },
        },
    }
}

fn make_package_env(name: &str, version: &str, revision: usize, arch: &str) -> (r: NameMap<String>)
    ensures
        env_of(r) == package_env(name@, version@, revision as nat, arch@),
{
    let mut environment: NameMap<String> = empty_env();
    environment.set("XBPS_ARCH", "invalid");
    environment.set("XBPS_TARGET_ARCH", arch);
    environment.set("PKG_NAME", name);
    environment.set("PKG_VER", version);
    environment.set("PKG_REV", decimal(revision as u128).as_str());
    environment
}

fn shell_command(command: &str) -> (r: Vec<String>)
    ensures
        texts(r@) == seq!["bash"@, "-c"@, command@],
{
    let mut args: Vec<String> = Vec::new();
    args.push("bash".to_string());
    args.push("-c".to_string());
    args.push(command.to_string());
    assert(texts(args@) =~= seq!["bash"@, "-c"@, command@]);
    args
}

/// What to do next to make a package out of the files in a directory, when the programs so far
/// ended with the given exit codes.
pub fn package_create(
    name: &str,
    version: &str,
    revision: usize,
    arch: &str,
    runtime_dependencies: &Vec<String>,
    from_dir: &UnixPath,
    dest_dir: &UnixPath,
    codes: &Vec<i32>,
) -> (r: PackageCreateStep)
    ensures
        r@ == create_step(
            name@,
            version@,
            revision as nat,
            arch@,
            texts(runtime_dependencies@),
            from_dir@,
            dest_dir@,
            codes@,
        ),
{
    if let Err(error) = validate_package(name, version, arch) {
        return PackageCreateStep::Fail(XBPSPackageCreateError::Validation(error));
    }
    if let Err(error) = validate_dependencies(runtime_dependencies) {
        return PackageCreateStep::Fail(XBPSPackageCreateError::Validation(error));
    }
    if let Some((number, code)) = find_failure(codes) {
        return PackageCreateStep::Fail(
            if number == 0 {
                XBPSPackageCreateError::CreateError(code)
            } else {
                XBPSPackageCreateError::RepoIndexError(code)
            },
        );
    }
    if codes.len() > 1 {
        return PackageCreateStep::Done;
    }
    let mut environment: NameMap<String> = make_package_env(name, version, revision, arch);
    let mut mounts: Vec<Mount> = Vec::new();
    if codes.len() == 0 {
        mounts.push(bind("/chariot/xbps/dest", dest_dir.copy(), false, false));
        mounts.push(bind("/chariot/xbps/package", from_dir.copy(), true, false));
        assert(mounts_of(mounts@) =~= seq![
            bind_spec("/chariot/xbps/dest"@, dest_dir@, false, false),
            bind_spec("/chariot/xbps/package"@, from_dir@, true, false),
        ]);
        environment.set("PKG_RDEPS", join(runtime_dependencies, " ").as_str());
        PackageCreateStep::Run(
            plain_request(
                "/chariot/xbps/dest",
                mounts,
                environment,
                shell_command(CREATE_COMMAND),
                PkgSet::Root,
            ),
        )
    } else {
        mounts.push(bind("/chariot/xbps/repo", dest_dir.copy(), false, false));
        assert(mounts_of(mounts@) =~= seq![
            bind_spec("/chariot/xbps/repo"@, dest_dir@, false, false),
        ]);
        PackageCreateStep::Run(
            plain_request(
                "/chariot/xbps/repo",
                mounts,
                environment,
                shell_command(INDEX_COMMAND),
                PkgSet::Root,
            ),
        )
    }
}

// ---------------------------------------------------------------------------
// Installing a package
// ---------------------------------------------------------------------------

/// What to do next to install a package.
#[derive(Debug)]
pub enum PackageInstallStep {
    /// make a work directory for the overlay's own use
    MakeWorkDirectory,
    /// run a program and hand back its exit code
    Run(ExecRequest),
    /// stop
    Fail(XBPSPackageInstallError),
    /// the package is installed
    Done,
}

/// [`PackageInstallStep`] by its paths and texts.
pub enum PackageInstallStepSpec {
    MakeWorkDirectory,
    Run(ExecSpec),
    Fail(InstallErrorSpec),
    Done,
}

impl View for PackageInstallStep {
    type V = PackageInstallStepSpec;

    open spec fn view(&self) -> PackageInstallStepSpec {
        match self {
            PackageInstallStep::MakeWorkDirectory => PackageInstallStepSpec::MakeWorkDirectory,
            PackageInstallStep::Run(request) => PackageInstallStepSpec::Run(request@),
            PackageInstallStep::Fail(error) => PackageInstallStepSpec::Fail(error@),
            PackageInstallStep::Done => PackageInstallStepSpec::Done,
        }
    }
}

/// Where the repository with a number is mounted.
pub open spec fn repo_dest(number: nat) -> Seq<char> {
    "/chariot/xbps/repo"@ + decimal_text(number)
}

/// The mounts of the repositories, which may only be read.
pub open spec fn repo_mounts(repo_dirs: Seq<Seq<u8>>) -> Seq<MountSpec> {
    Seq::new(
        repo_dirs.len(),
        |i: int| bind_spec(repo_dest(i as nat), repo_dirs[i], true, false),
    )
}

/// The options that name the repositories.
pub open spec fn repo_options(count: nat) -> Seq<Seq<char>> {
    Seq::new(count, |i: int| "--repository "@ + repo_dest(i as nat))
}

/// The command that installs a package from so many repositories under a root, even if it is already
/// installed if that is wanted.
pub open spec fn install_command(force: bool, root: Seq<char>, repo_count: nat) -> Seq<char> {
    let start = if force {
        INSTALL_COMMAND_START@ + FORCE_OPTION@
    } else {
        INSTALL_COMMAND_START@
    };
    start + ROOT_OPTION@ + root + " "@ + joined(repo_options(repo_count), " "@)
        + INSTALL_COMMAND_END@
}

/// The program that installs a package. Where the root file system itself is the root, what is
/// written goes to the given overlay.
pub open spec fn install_program(
    pkgset: PkgSet,
    name: Seq<char>,
    version: Seq<char>,
    revision: nat,
    arch: Seq<char>,
    repo_dirs: Seq<Seq<u8>>,
    dest_dir: Seq<u8>,
    force: bool,
    overlay_workdir: Option<Seq<u8>>,
) -> ExecSpec {
    let repos = repo_mounts(repo_dirs);
    ExecSpec {
        mounts: match overlay_workdir {
            Some(_) => repos,
            None => repos.push(bind_spec("/chariot/xbps/install"@, dest_dir, false, false)),
        },
        root_overlay: match overlay_workdir {
            Some(work_directory) => Some(
                UpperSpec { upper_directory: dest_dir, work_directory },
            ),
            None => None,
        },
        ..plain_exec(
            "/"@,
            repos,
            package_env(name, version, revision, arch),
            seq![
                "bash"@,
                "-c"@,
                install_command(
                    force,
                    match overlay_workdir {
                        Some(_) => "/"@,
                        None => "/chariot/xbps/install"@,
                    },
                    repo_dirs.len(),
                ),
            ],
            pkgset,
        )
    }
}

/// What to do next to install a package.
pub open spec fn install_step(
    pkgset: PkgSet,
    name: Seq<char>,
    version: Seq<char>,
    revision: nat,
    arch: Seq<char>,
    repo_dirs: Seq<Seq<u8>>,
    dest_dir: Seq<u8>,
    dest_root_overlay: bool,
    force: bool,
    overlay_workdir: Option<Seq<u8>>,
    code: Option<i32>,
) -> PackageInstallStepSpec {
    match invalid_package(name, version, arch) {
        Some(error) => PackageInstallStepSpec::Fail(InstallErrorSpec::Validation(error)),
        None => if dest_root_overlay && overlay_workdir is None {
            PackageInstallStepSpec::MakeWorkDirectory
        } else {
            match code {
                None => PackageInstallStepSpec::Run(
                    install_program(
                        pkgset,
                        name,
                        version,
                        revision,
                        arch,
                        repo_dirs,
                        dest_dir,
                        force,
                        if dest_root_overlay {
                            overlay_workdir
                        } else {
                            None
                        },
                    ),
                ),
                Some(code) => if code != 0 {
                    PackageInstallStepSpec::Fail(InstallErrorSpec::Error(code))
                } else {
                    PackageInstallStepSpec::Done
                },
            }
        },
    }
}

fn make_repo_dest(number: usize) -> (r: String)
    ensures
        r@ == repo_dest(number as nat),
{
    let mut dest: String = "/chariot/xbps/repo".to_string();
    dest.append(decimal(number as u128).as_str());
    dest
}

fn make_repo_mounts(repo_dirs: &Vec<UnixPath>) -> (r: Vec<Mount>)
    ensures
        mounts_of(r@) == repo_mounts(path_bytes(repo_dirs@)),
{
    let mut mounts: Vec<Mount> = Vec::new();
    let mut i: usize = 0;
    assert(mounts_of(mounts@) =~= repo_mounts(path_bytes(repo_dirs@)).take(0));
    while i < repo_dirs.len()
        invariant
            0 <= i <= repo_dirs@.len(),
            mounts_of(mounts@) == repo_mounts(path_bytes(repo_dirs@)).take(i as int),
        decreases repo_dirs@.len() - i,
    {
        let ghost before = mounts_of(mounts@);
        let ghost all = repo_mounts(path_bytes(repo_dirs@));
        let mount: Mount = bind(make_repo_dest(i).as_str(), repo_dirs[i].copy(), true, false);
        mounts.push(mount);
        assert(mounts_of(mounts@) =~= before.push(mount@));
        assert(all.take(i + 1) =~= all.take(i as int).push(all[i as int]));
        i = i + 1;
    }
    assert(repo_mounts(path_bytes(repo_dirs@)).take(repo_dirs@.len() as int) =~= repo_mounts(
        path_bytes(repo_dirs@),
    ));
    mounts
}

fn make_repo_options(count: usize) -> (r: Vec<String>)
    ensures
        texts(r@) == repo_options(count as nat),
{
    let mut options: Vec<String> = Vec::new();
    let mut i: usize = 0;
    assert(texts(options@) =~= repo_options(count as nat).take(0));
    while i < count
        invariant
            0 <= i <= count,
            texts(options@) == repo_options(count as nat).take(i as int),
        decreases count - i,
    {
        let ghost before = texts(options@);
        let ghost all = repo_options(count as nat);
        let mut option: String = "--repository ".to_string();
        option.append(make_repo_dest(i).as_str());
        let ghost text = option@;
        options.push(option);
        assert(texts(options@) =~= before.push(text));
        assert(all.take(i + 1) =~= all.take(i as int).push(all[i as int]));
        i = i + 1;
    }
    assert(repo_options(count as nat).take(count as int) =~= repo_options(count as nat));
    options
}

fn make_install_command(force: bool, root: &str, repo_count: usize) -> (r: String)
    ensures
        r@ == install_command(force, root@, repo_count as nat),
{
    let mut command: String = INSTALL_COMMAND_START.to_string();
    if force {
        command.append(FORCE_OPTION);
    }
    command.append(ROOT_OPTION);
    command.append(root);
    command.append(" ");
    command.append(join(&make_repo_options(repo_count), " ").as_str());
    command.append(INSTALL_COMMAND_END);
    command
}

/// What to do next to install a package from repositories into a directory, or, with
/// `dest_root_overlay`, into the root file system with that directory as its writable layer. With
/// `force` it is installed even if it is already installed. `overlay_workdir` and `code` are what has come back so far.
pub fn package_install(
    pkgset: PkgSet,
    name: &str,
    version: &str,
    revision: usize,
    arch: &str,
    repo_dirs: &Vec<UnixPath>,
    dest_dir: &UnixPath,
    dest_root_overlay: bool,
    force: bool,
    overlay_workdir: &Option<UnixPath>,
    code: Option<i32>,
) -> (r: PackageInstallStep)
    ensures
        r@ == install_step(
            pkgset,
            name@,
            version@,
            revision as nat,
            arch@,
            path_bytes(repo_dirs@),
            dest_dir@,
            dest_root_overlay,
            force,
            path_option(*overlay_workdir),
            code,
        ),
{
    if let Err(error) = validate_package(name, version, arch) {
        return PackageInstallStep::Fail(XBPSPackageInstallError::Validation(error));
    }
    let mut mounts: Vec<Mount> = make_repo_mounts(repo_dirs);
    let ghost repos = mounts_of(mounts@);
    let mut root_overlay: Option<OverlayUpperDirectory> = None;
    if dest_root_overlay {
        match overlay_workdir {
            None => return PackageInstallStep::MakeWorkDirectory,
            Some(workdir) => {
                root_overlay = Some(
                    OverlayUpperDirectory {
                        upper_directory: dest_dir.copy(),
                        work_directory: workdir.copy(),
                    },
                );
            },
        }
    } else {
        let mount: Mount = bind("/chariot/xbps/install", dest_dir.copy(), false, false);
        mounts.push(mount);
        assert(mounts_of(mounts@) =~= repos.push(mount@));
    }
    if let Some(code) = code {
        if code != 0 {
            return PackageInstallStep::Fail(XBPSPackageInstallError::Error(code));
        }
        return PackageInstallStep::Done;
    }
    let root: &str = if dest_root_overlay {
        "/"
    } else {
        "/chariot/xbps/install"
    };
    let mut request: ExecRequest = plain_request(
        "/",
        mounts,
        make_package_env(name, version, revision, arch),
        shell_command(make_install_command(force, root, repo_dirs.len()).as_str()),
        pkgset,
    );
    request.root_overlay = root_overlay;
    PackageInstallStep::Run(request)
}

// ---------------------------------------------------------------------------
// Laws
// ---------------------------------------------------------------------------

/// The full name of a package, as the commands put it together.
pub open spec fn full_name(name: Seq<char>, version: Seq<char>, revision: nat) -> Seq<char> {
    name + seq!['-'] + version + seq!['_'] + decimal_text(revision)
}

/// Packages with valid versions have the same full name only if they agree in name, version and
/// revision.
pub proof fn lemma_full_name_injective(
    n1: Seq<char>,
    v1: Seq<char>,
    r1: nat,
    n2: Seq<char>,
    v2: Seq<char>,
    r2: nat,
)
    requires
        !is_bad_version(v1),
        !is_bad_version(v2),
        full_name(n1, v1, r1) == full_name(n2, v2, r2),
    ensures
        n1 == n2,
        v1 == v2,
        r1 == r2,
{
    lemma_numeral_digits(r1, 10);
    lemma_numeral_digits(r2, 10);
    let a1 = n1 + seq!['-'] + v1;
    let a2 = n2 + seq!['-'] + v2;
    assert(full_name(n1, v1, r1) =~= a1.push('_') + decimal_text(r1));
    assert(full_name(n2, v2, r2) =~= a2.push('_') + decimal_text(r2));
    assert(!decimal_text(r1).contains('_'));
    assert(!decimal_text(r2).contains('_'));
    lemma_last_cut_unique(a1, decimal_text(r1), a2, decimal_text(r2), '_');
    lemma_numeral_injective(r1, r2, 10);
    assert(a1 =~= n1.push('-') + v1);
    assert(a2 =~= n2.push('-') + v2);
    assert(!v1.contains('-'));
    assert(!v2.contains('-'));
    lemma_last_cut_unique(n1, v1, n2, v2, '-');
}

proof fn lemma_no_bad_dependency(deps: Seq<Seq<char>>)
    requires
        bad_dependency(deps) is None,
    ensures
        forall|i: int| 0 <= i < deps.len() ==> !has_white_space(#[trigger] deps[i]),
    decreases deps.len(),
{
    if deps.len() > 0 {
        lemma_no_bad_dependency(deps.drop_last());
        assert forall|i: int| 0 <= i < deps.len() implies !has_white_space(#[trigger] deps[i]) by {
            if i < deps.len() - 1 {
                assert(deps[i] == deps.drop_last()[i]);
            }
        }
    }
}

/// The bad dependency is the first one that holds white space, and there is none only if no dependency
/// holds any.
pub proof fn lemma_bad_dependency(deps: Seq<Seq<char>>)
    ensures
        match bad_dependency(deps) {
            None => forall|i: int| 0 <= i < deps.len() ==> !has_white_space(#[trigger] deps[i]),
            Some(dep) => exists|i: int|
                0 <= i < deps.len() && #[trigger] deps[i] == dep && has_white_space(dep) && forall|
                    k: int,
                |
                    0 <= k < i ==> !has_white_space(#[trigger] deps[k]),
        },
    decreases deps.len(),
{
    if deps.len() > 0 {
        let front = deps.drop_last();
        lemma_bad_dependency(front);
        match bad_dependency(front) {
            Some(dep) => {
                let i = choose|i: int|
                    0 <= i < front.len() && #[trigger] front[i] == dep && has_white_space(dep)
                        && forall|k: int| 0 <= k < i ==> !has_white_space(#[trigger] front[k]);
                assert(deps[i] == dep);
                assert forall|k: int| 0 <= k < i implies !has_white_space(#[trigger] deps[k]) by {
                    assert(deps[k] == front[k]);
                }
            },
            None => {
                assert forall|i: int| 0 <= i < deps.len() - 1 implies !has_white_space(
                    #[trigger] deps[i],
                ) by {
                    assert(deps[i] == front[i]);
                }
                assert(deps[deps.len() - 1] == deps.last());
            },
        }
    }
}

/// The list of runtime dependencies that a package is made with reads back, word for word, as the
/// list that was given.
pub proof fn lemma_dependencies_read_back(deps: Seq<Seq<char>>)
    requires
        deps.len() > 0,
        bad_dependency(deps) is None,
    ensures
        split(joined(deps, " "@), ' ') == deps,
{
    lemma_no_bad_dependency(deps);
    assert(is_white_space(' '));
    assert forall|i: int| 0 <= i < deps.len() implies !(#[trigger] deps[i]).contains(' ') by {
        assert(!has_white_space(deps[i]));
    }
    reveal_strlit(" ");
    assert(" "@ =~= seq![' ']);
    lemma_split_joined(deps, ' ');
}

/// No program is run for a package that is wrongly described.
pub proof fn lemma_invalid_package_runs_nothing(
    name: Seq<char>,
    version: Seq<char>,
    revision: nat,
    arch: Seq<char>,
    deps: Seq<Seq<char>>,
    from_dir: Seq<u8>,
    dest_dir: Seq<u8>,
    codes: Seq<i32>,
)
    requires
        invalid_new_package(name, version, arch, deps) is Some,
    ensures
        create_step(name, version, revision, arch, deps, from_dir, dest_dir, codes)
            == PackageCreateStepSpec::Fail(
            CreateErrorSpec::Validation(invalid_new_package(name, version, arch, deps)->0),
        ),
{
}

/// A package is there only when both programs have succeeded.
pub proof fn lemma_created_only_when_indexed(
    name: Seq<char>,
    version: Seq<char>,
    revision: nat,
    arch: Seq<char>,
    deps: Seq<Seq<char>>,
    from_dir: Seq<u8>,
    dest_dir: Seq<u8>,
    codes: Seq<i32>,
)
    ensures
        create_step(name, version, revision, arch, deps, from_dir, dest_dir, codes) is Done ==> {
            &&& codes.len() >= 2
            &&& codes[0] == 0
            &&& codes[1] == 0
        },
{
    lemma_first_failure(codes);
}

} // verus!
