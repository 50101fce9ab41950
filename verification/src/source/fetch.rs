//! Fetching a source: its base, its patches and its preparation, each of which is an entry of
//! the store of its own.

use crate::config::script::{command_line, Script, ScriptLanguage};
use crate::config::source::{
    Archive, ArchiveCompression, ArchiveKind, GitSource, Source, SourceBase, SourcePrepare,
};
use crate::environment::{
    environment_of_preparation, order_for_preparation, EnvironmentOrder, EnvironmentSpec,
};
use crate::execenv_create::{create_env_text, CreateExecEnvError};
use crate::hashes::{get_outcome_hash, outcome_hash};
use crate::mount::{
    mounts_of, overlay, overlay_spec, Mount, MountSpec, OverlayUpperDirectory, UpperSpec,
};
use crate::request::{
    empty_env, find_failure, first_failure, lemma_first_failure, no_env, plain_env_exec,
    plain_env_request, plain_exec, plain_request, EnvRequest, EnvSpec, ExecRequest, ExecSpec,
    PkgSet,
};
use crate::source::archive::ArchiveFetchError;
use crate::source::git::GitFetchError;
use crate::store::{entry_path_in, path_bytes, Store};
use crate::util::names::{env_of, NameMap};
use crate::util::path::UnixPath;
use std::sync::Arc;
use vstd::prelude::*;

verus! {

pub const CATEGORY_BASE: &'static str = "source.base";

pub const CATEGORY_PATCH: &'static str = "source.patch";

pub const CATEGORY_PREPARE: &'static str = "source.prepare";

pub const PATCH_SCRIPT: &'static str = "echo \"$CHARIOT_PATCH\" | patch -p1";

/// Why a source could not be fetched.
#[derive(Debug)]
pub enum SourceFetchError {
    /// the environment for the preparation could not be made
    ResolveDependencies(Arc<CreateExecEnvError>),
    Archive(ArchiveFetchError),
    Git(GitFetchError),
    Patch,
    Prepare,
}

impl SourceFetchError {
    /// The error in words.
    pub open spec fn text(self) -> Seq<char> {
        match self {
            SourceFetchError::ResolveDependencies(error) => create_env_text(*error),
            SourceFetchError::Archive(error) => error.text(),
            SourceFetchError::Git(error) => error.text(),
            SourceFetchError::Patch => "Patch failed"@,
            SourceFetchError::Prepare => "Prepare failed"@,
        }
    }

    /// The error in words.
    pub fn message(&self) -> (r: String)
        ensures
            r@ == self.text(),
    {
        match self {
            SourceFetchError::ResolveDependencies(error) => error.message(),
            SourceFetchError::Archive(error) => error.message().to_string(),
            SourceFetchError::Git(error) => error.message().to_string(),
            SourceFetchError::Patch => "Patch failed".to_string(),
            SourceFetchError::Prepare => "Prepare failed".to_string(),
        }
    }

    /// A copy of this error.
    pub fn copy(&self) -> (r: SourceFetchError)
        ensures
            r == *self,
    {
        match self {
            SourceFetchError::ResolveDependencies(error) => SourceFetchError::ResolveDependencies(
                error.clone(),
            ),
            SourceFetchError::Archive(error) => SourceFetchError::Archive(*error),
            SourceFetchError::Git(error) => SourceFetchError::Git(*error),
            SourceFetchError::Patch => SourceFetchError::Patch,
            SourceFetchError::Prepare => SourceFetchError::Prepare,
        }
    }
}

/// What is looked for in the store.
#[derive(Debug, Clone, Copy, PartialEq, Eq, Structural)]
pub enum SourceSearch {
    Base,
    Patches,
    /// what the ledger has on the preparation
    KnownPreparation,
    /// the preparation in the environment as it is now
    Preparation,
}

/// A part of a source that is an entry of the store of its own.
#[derive(Debug, Clone, Copy, PartialEq, Eq, Structural)]
pub enum SourceStage {
    Base,
    Patches,
    Preparation,
}

/// How to get the base of a source.
#[derive(Debug)]
pub enum BaseOrder {
    /// download and extract an archive
    Archive(Archive),
    /// fetch a revision of a repository
    Git(GitSource),
    /// copy the files of a directory
    Local(UnixPath),
}

/// [`BaseOrder`] by its paths and texts.
pub enum BaseOrderSpec {
    Archive {
        url: Seq<char>,
        checksum: Seq<char>,
        kind: ArchiveKind,
        compression: ArchiveCompression,
    },
    Git { url: Seq<char>, revision: Seq<char> },
    Local(Seq<u8>),
}

impl View for BaseOrder {
    type V = BaseOrderSpec;

    open spec fn view(&self) -> BaseOrderSpec {
        match self {
            BaseOrder::Archive(archive) => BaseOrderSpec::Archive {
                url: archive.url@,
                checksum: archive.checksum@,
                kind: archive.kind,
                compression: archive.compression,
            },
            BaseOrder::Git(git) => BaseOrderSpec::Git { url: git.url@, revision: git.revision@ },
            BaseOrder::Local(path) => BaseOrderSpec::Local(path@),
        }
    }
}

/// How to get a base.
pub open spec fn base_order(base: SourceBase) -> BaseOrderSpec {
    match base {
        SourceBase::Archive(archive) => BaseOrderSpec::Archive {
            url: archive.url@,
            checksum: archive.checksum@,
            kind: archive.kind,
            compression: archive.compression,
        },
        SourceBase::Git(git) => BaseOrderSpec::Git { url: git.url@, revision: git.revision@ },
        SourceBase::Local(local) => BaseOrderSpec::Local(local.path@),
    }
}

fn order_base(base: &SourceBase) -> (r: BaseOrder)
    ensures
        r@ == base_order(*base),
{
    match base {
        SourceBase::Archive(archive) => BaseOrder::Archive(
            Archive {
                url: archive.url.clone(),
                checksum: archive.checksum.clone(),
                kind: archive.kind,
                compression: archive.compression,
            },
        ),
        SourceBase::Git(git) => BaseOrder::Git(
            GitSource { url: git.url.clone(), revision: git.revision.clone() },
        ),
        SourceBase::Local(local) => BaseOrder::Local(local.path.copy()),
    }
}

/// What has come back so far from fetching a source.
#[derive(Debug)]
pub struct SourceReplies {
    /// whether the store holds the base
    pub base_found: Option<bool>,
    /// the work directory with the base, or why it could not be fetched
    pub base_dir: Option<Result<UnixPath, SourceFetchError>>,
    /// the base has been put into the store
    pub base_stored: bool,
    /// whether the store holds the patches
    pub patch_found: Option<bool>,
    /// the work directories for the patches
    pub patch_dirs: Option<OverlayUpperDirectory>,
    /// the exit codes of the programs that apply the patches
    pub patch_codes: Vec<i32>,
    /// the patches have been put into the store
    pub patch_stored: bool,
    /// what the ledger has on the preparation
    pub prepare_lookup: Option<Option<u128>>,
    /// whether the store holds what the ledger has
    pub prepare_cached: Option<bool>,
    /// the environment has been made, and this is the hash of what is in it; or why it could not be
    /// made
    pub deps_hash: Option<Result<u128, Arc<CreateExecEnvError>>>,
    /// whether the store holds the preparation in that environment
    pub prepare_found: Option<bool>,
    /// the work directories for the preparation
    pub prepare_dirs: Option<OverlayUpperDirectory>,
    /// the exit code of the preparation
    pub prepare_code: Option<i32>,
    /// the preparation has been put into the store
    pub prepare_stored: bool,
    /// the preparation has been recorded in the ledger
    pub prepare_recorded: bool,
}

/// What to do next to fetch a source.
#[derive(Debug)]
pub enum SourceStep {
    /// look whether the store holds an entry
    Find { search: SourceSearch, category: &'static str, hash: u128 },
    /// put the base into a work directory
    FetchBase(BaseOrder),
    /// make two work directories for the patches: one for what a program writes, one for the
    /// overlay's own use
    MakePatchDirectories,
    /// make two such work directories for the preparation
    MakePrepareDirectories,
    /// run a program and hand back its exit code
    Run(ExecRequest),
    /// make a work directory an entry of the store
    Put { stage: SourceStage, from: UnixPath, category: &'static str, hash: u128 },
    /// look up what the ledger has on a recipe
    Lookup { category: &'static str, hash: u128 },
    /// make an environment for the preparation, and compute the hash of what is in it
    MakeEnvironment(EnvironmentOrder),
    /// run a program in that environment and hand back its exit code
    RunInEnvironment(EnvRequest),
    /// record the outcome of a recipe in the ledger
    Record { category: &'static str, hash: u128, effective_hash: u128 },
    /// stop
    Fail(SourceFetchError),
    /// the source is there, in these entries of the store, the lowest first
    Done(Vec<(&'static str, u128)>),
}

/// [`SourceStep`] by its paths and texts.
pub enum SourceStepSpec {
    Find { search: SourceSearch, category: Seq<char>, hash: u128 },
    FetchBase(BaseOrderSpec),
    MakePatchDirectories,
    MakePrepareDirectories,
    Run(ExecSpec),
    Put { stage: SourceStage, from: Seq<u8>, category: Seq<char>, hash: u128 },
    Lookup { category: Seq<char>, hash: u128 },
    MakeEnvironment(EnvironmentSpec),
    RunInEnvironment(EnvSpec),
    Record { category: Seq<char>, hash: u128, effective_hash: u128 },
    Fail(SourceFetchError),
    Done(Seq<(Seq<char>, u128)>),
}

/// Entries of the store by category and hash.
pub open spec fn entries_spec(s: Seq<(&'static str, u128)>) -> Seq<(Seq<char>, u128)> {
    s.map_values(|e: (&'static str, u128)| (e.0@, e.1))
}

impl View for SourceStep {
    type V = SourceStepSpec;

    open spec fn view(&self) -> SourceStepSpec {
        match self {
            SourceStep::Find { search, category, hash } => SourceStepSpec::Find {
                search: *search,
                category: category@,
                hash: *hash,
            },
            SourceStep::FetchBase(order) => SourceStepSpec::FetchBase(order@),
            SourceStep::MakePatchDirectories => SourceStepSpec::MakePatchDirectories,
            SourceStep::MakePrepareDirectories => SourceStepSpec::MakePrepareDirectories,
            SourceStep::Run(request) => SourceStepSpec::Run(request@),
            SourceStep::Put { stage, from, category, hash } => SourceStepSpec::Put {
                stage: *stage,
                from: from@,
                category: category@,
                hash: *hash,
            },
            SourceStep::Lookup { category, hash } => SourceStepSpec::Lookup {
                category: category@,
                hash: *hash,
            },
            SourceStep::MakeEnvironment(order) => SourceStepSpec::MakeEnvironment(order@),
            SourceStep::RunInEnvironment(request) => SourceStepSpec::RunInEnvironment(request@),
            SourceStep::Record { category, hash, effective_hash } => SourceStepSpec::Record {
                category: category@,
                hash: *hash,
                effective_hash: *effective_hash,
            },
            SourceStep::Fail(error) => SourceStepSpec::Fail(*error),
            SourceStep::Done(entries) => SourceStepSpec::Done(entries_spec(entries@)),
        }
    }
}

/// A stage of the work: either its entry of the store is there, with this hash, or something is
/// to be done first.
pub enum StageSpec {
    Have(u128),
    Do(SourceStepSpec),
}

enum Stage {
    Have(u128),
    Do(SourceStep),
}

impl View for Stage {
    type V = StageSpec;

    closed spec fn view(&self) -> StageSpec {
        match self {
            Stage::Have(hash) => StageSpec::Have(*hash),
            Stage::Do(step) => StageSpec::Do(step@),
        }
    }
}

/// Where entries of a store are.
pub open spec fn entry_paths(store: Seq<u8>, entries: Seq<(Seq<char>, u128)>) -> Seq<Seq<u8>> {
    entries.map_values(|e: (Seq<char>, u128)| entry_path_in(store, e.0, e.1 as nat))
}

/// The entries of a source up to its patches, if it has any.
pub open spec fn patched_entries(source: Source) -> Seq<(Seq<char>, u128)> {
    let base = seq![(CATEGORY_BASE@, source.base_hash())];
    if source.patches@.len() > 0 {
        base.push((CATEGORY_PATCH@, source.patch_hash(source.base_hash())))
    } else {
        base
    }
}

/// The hash of the preparation of a source, its dependencies apart.
pub open spec fn prepare_base_of(source: Source) -> u128 {
    source.prepare_base_hash(source.patch_hash(source.base_hash()))
}

/// The files so far, over which the next stage writes its own.
pub open spec fn source_mounts(lower: Seq<Seq<u8>>, upper: UpperSpec) -> Seq<MountSpec> {
    seq![overlay_spec("/chariot/source"@, lower, Some(upper))]
}

/// The program that applies a patch.
pub open spec fn patch_program(lower: Seq<Seq<u8>>, upper: UpperSpec, patch: Seq<char>) -> ExecSpec {
    plain_exec(
        "/chariot/source"@,
        source_mounts(lower, upper),
        no_env().insert("CHARIOT_PATCH"@, patch),
        command_line(ScriptLanguage::Bash, PATCH_SCRIPT@),
        PkgSet::Patch,
    )
}

/// The program that prepares a source.
pub open spec fn prepare_program(
    lower: Seq<Seq<u8>>,
    upper: UpperSpec,
    prepare: SourcePrepare,
) -> EnvSpec {
    plain_env_exec(
        "/chariot/source"@,
        source_mounts(lower, upper),
        env_of(prepare.global_env.global_environment_variables).union_prefer_right(
            env_of(prepare.environment_variables),
        ).insert("SOURCE_DIR"@, "/chariot/source"@),
        command_line(prepare.script.language, prepare.script.text@),
    )
}

/// What the base of a source still needs.
pub open spec fn base_stage(source: Source, replies: SourceReplies) -> StageSpec {
    let hash = source.base_hash();
    match replies.base_found {
        None => StageSpec::Do(SourceStepSpec::Find { search: SourceSearch::Base, category: CATEGORY_BASE@, hash }),
        Some(true) => StageSpec::Have(hash),
        Some(false) => match replies.base_dir {
            None => StageSpec::Do(SourceStepSpec::FetchBase(base_order(source.base))),
            Some(Err(error)) => StageSpec::Do(SourceStepSpec::Fail(error)),
            Some(Ok(dir)) => if replies.base_stored {
                StageSpec::Have(hash)
            } else {
                StageSpec::Do(
                    SourceStepSpec::Put {
                        stage: SourceStage::Base,
                        from: dir@,
                        category: CATEGORY_BASE@,
                        hash,
                    },
                )
            },
        },
    }
}

/// What the patches of a source still need: they are applied one after the other, and count only
/// if all of them could be applied.
pub open spec fn patch_stage(
    store: Seq<u8>,
    source: Source,
    replies: SourceReplies,
) -> StageSpec {
    let hash = source.patch_hash(source.base_hash());
    let lower = entry_paths(store, seq![(CATEGORY_BASE@, source.base_hash())]);
    let done = replies.patch_codes@.len();
    match replies.patch_found {
        None => StageSpec::Do(SourceStepSpec::Find { search: SourceSearch::Patches, category: CATEGORY_PATCH@, hash }),
        Some(true) => StageSpec::Have(hash),
        Some(false) => match replies.patch_dirs {
            None => StageSpec::Do(SourceStepSpec::MakePatchDirectories),
            Some(dirs) => if first_failure(replies.patch_codes@) is Some {
                StageSpec::Do(SourceStepSpec::Fail(SourceFetchError::Patch))
            } else if done < source.patches@.len() {
                StageSpec::Do(
                    SourceStepSpec::Run(
                        patch_program(lower, dirs@, source.patches@[done as int]@),
                    ),
                )
            } else if replies.patch_stored {
                StageSpec::Have(hash)
            } else {
                StageSpec::Do(
                    SourceStepSpec::Put {
                        stage: SourceStage::Patches,
                        from: dirs.upper_directory@,
                        category: CATEGORY_PATCH@,
                        hash,
                    },
                )
            },
        },
    }
}

/// What running the preparation of a source in its environment still needs, before its outcome
/// is in the store under a hash.
pub open spec fn prepare_run_stage(
    store: Seq<u8>,
    source: Source,
    prepare: SourcePrepare,
    hash: u128,
    replies: SourceReplies,
) -> StageSpec {
    match replies.prepare_found {
        None => StageSpec::Do(SourceStepSpec::Find { search: SourceSearch::Preparation, category: CATEGORY_PREPARE@, hash }),
        Some(true) => StageSpec::Have(hash),
        Some(false) => match replies.prepare_dirs {
            None => StageSpec::Do(SourceStepSpec::MakePrepareDirectories),
            Some(dirs) => match replies.prepare_code {
                None => StageSpec::Do(
                    SourceStepSpec::RunInEnvironment(
                        prepare_program(
                            entry_paths(store, patched_entries(source)),
                            dirs@,
                            prepare,
                        ),
                    ),
                ),
                Some(code) => if code != 0 {
                    StageSpec::Do(SourceStepSpec::Fail(SourceFetchError::Prepare))
                } else if replies.prepare_stored {
                    StageSpec::Have(hash)
                } else {
                    StageSpec::Do(
                        SourceStepSpec::Put {
                            stage: SourceStage::Preparation,
                            from: dirs.upper_directory@,
                            category: CATEGORY_PREPARE@,
                            hash,
                        },
                    )
                },
            },
        },
    }
}

/// What the preparation of a source still needs: if neither the ledger and the store have it, its
/// environment is made, and if the store does not have it under the hash that follows from what
/// is in the environment, it is run. Either way it is recorded.
pub open spec fn prepare_stage(
    store: Seq<u8>,
    source: Source,
    prepare: SourcePrepare,
    replies: SourceReplies,
) -> StageSpec {
    let base = prepare_base_of(source);
    let recipe = source.prepare_hash(base);
    let make = match replies.deps_hash {
        None => StageSpec::Do(
            SourceStepSpec::MakeEnvironment(environment_of_preparation(prepare)),
        ),
        Some(Err(error)) => StageSpec::Do(
            SourceStepSpec::Fail(SourceFetchError::ResolveDependencies(error)),
        ),
        Some(Ok(deps_hash)) => {
            let effective_hash = outcome_hash(base, deps_hash);
            match prepare_run_stage(store, source, prepare, effective_hash, replies) {
                StageSpec::Do(step) => StageSpec::Do(step),
                StageSpec::Have(_) => if replies.prepare_recorded {
                    StageSpec::Have(effective_hash)
                } else {
                    StageSpec::Do(
                        SourceStepSpec::Record {
                            category: CATEGORY_PREPARE@,
                            hash: recipe,
                            effective_hash,
                        },
                    )
                },
            }
        },
    };
    match replies.prepare_lookup {
        None => StageSpec::Do(
            SourceStepSpec::Lookup { category: CATEGORY_PREPARE@, hash: recipe },
        ),
        Some(None) => make,
        Some(Some(known_hash)) => match replies.prepare_cached {
            None => StageSpec::Do(
                SourceStepSpec::Find {
                    search: SourceSearch::KnownPreparation,
                    category: CATEGORY_PREPARE@,
                    hash: known_hash,
                },
            ),
            Some(true) => StageSpec::Have(known_hash),
            Some(false) => make,
        },
    }
}

/// What to do next to fetch a source into a store: the base, then the patches if there are any,
/// then the preparation if there is one.
pub open spec fn source_step(
    store: Seq<u8>,
    source: Source,
    replies: SourceReplies,
) -> SourceStepSpec {
    match base_stage(source, replies) {
        StageSpec::Do(step) => step,
        StageSpec::Have(_) => {
            let patched = if source.patches@.len() > 0 {
                patch_stage(store, source, replies)
            } else {
                StageSpec::Have(0)
            };
            match patched {
                StageSpec::Do(step) => step,
                StageSpec::Have(_) => match source.prepare {
                    None => SourceStepSpec::Done(patched_entries(source)),
                    Some(prepare) => match prepare_stage(store, source, prepare, replies) {
                        StageSpec::Do(step) => step,
                        StageSpec::Have(hash) => SourceStepSpec::Done(
                            patched_entries(source).push((CATEGORY_PREPARE@, hash)),
                        ),
                    },
                },
            }
        },
    }
}

// ---------------------------------------------------------------------------
// The code
// ---------------------------------------------------------------------------

fn next_for_base(source: &Source, replies: &SourceReplies) -> (r: Stage)
    ensures
        r@ == base_stage(*source, *replies),
{
    let hash: u128 = source.get_base_hash();
    match replies.base_found {
        None => Stage::Do(SourceStep::Find { search: SourceSearch::Base, category: CATEGORY_BASE, hash }),
        Some(true) => Stage::Have(hash),
        Some(false) => match &replies.base_dir {
            None => Stage::Do(SourceStep::FetchBase(order_base(&source.base))),
            Some(Err(error)) => Stage::Do(SourceStep::Fail(error.copy())),
            Some(Ok(dir)) => if replies.base_stored {
                Stage::Have(hash)
            } else {
                Stage::Do(
                    SourceStep::Put {
                        stage: SourceStage::Base,
                        from: dir.copy(),
                        category: CATEGORY_BASE,
                        hash,
                    },
                )
            },
        },
    }
}

fn paths_of_entries(store: &Store, entries: &Vec<(&'static str, u128)>) -> (r: Vec<UnixPath>)
    ensures
        path_bytes(r@) == entry_paths(store.path@, entries_spec(entries@)),
{
    let mut out: Vec<UnixPath> = Vec::new();
    let mut i: usize = 0;
    assert(path_bytes(out@) =~= entry_paths(store.path@, entries_spec(entries@)).take(0));
    while i < entries.len()
        invariant
            0 <= i <= entries@.len(),
            path_bytes(out@) == entry_paths(store.path@, entries_spec(entries@)).take(i as int),
        decreases entries@.len() - i,
    {
        let ghost before = path_bytes(out@);
        let ghost all = entry_paths(store.path@, entries_spec(entries@));
        let path: UnixPath = store.entry_path(entries[i].0, entries[i].1);
        out.push(path);
        assert(path_bytes(out@) =~= before.push(path@));
        assert(all.take(i + 1) =~= all.take(i as int).push(all[i as int]));
        i = i + 1;
    }
    assert(entry_paths(store.path@, entries_spec(entries@)).take(entries@.len() as int)
        =~= entry_paths(store.path@, entries_spec(entries@)));
    out
}

fn list_patched_entries(source: &Source) -> (r: Vec<(&'static str, u128)>)
    ensures
        entries_spec(r@) == patched_entries(*source),
{
    let mut entries: Vec<(&'static str, u128)> = Vec::new();
    let base_hash: u128 = source.get_base_hash();
    entries.push((CATEGORY_BASE, base_hash));
    if source.patches.len() > 0 {
        entries.push((CATEGORY_PATCH, source.get_patch_hash(base_hash)));
    }
    assert(entries_spec(entries@) =~= patched_entries(*source));
    entries
}

fn make_source_mounts(lower: Vec<UnixPath>, dirs: &OverlayUpperDirectory) -> (r: Vec<Mount>)
    ensures
        mounts_of(r@) == source_mounts(path_bytes(lower@), dirs@),
{
    let mut mounts: Vec<Mount> = Vec::new();
    let ghost lower_bytes = path_bytes(lower@);
    mounts.push(overlay("/chariot/source", lower, Some(dirs.copy())));
    assert(mounts_of(mounts@) =~= source_mounts(lower_bytes, dirs@));
    mounts
}

fn next_for_patches(store: &Store, source: &Source, replies: &SourceReplies) -> (r: Stage)
    ensures
        r@ == patch_stage(store.path@, *source, *replies),
{
    let base_hash: u128 = source.get_base_hash();
    let hash: u128 = source.get_patch_hash(base_hash);
    match replies.patch_found {
        None => Stage::Do(SourceStep::Find { search: SourceSearch::Patches, category: CATEGORY_PATCH, hash }),
        Some(true) => Stage::Have(hash),
        Some(false) => match &replies.patch_dirs {
            None => Stage::Do(SourceStep::MakePatchDirectories),
            Some(dirs) => {
                if find_failure(&replies.patch_codes).is_some() {
                    return Stage::Do(SourceStep::Fail(SourceFetchError::Patch));
                }
                let done: usize = replies.patch_codes.len();
                if done < source.patches.len() {
                    let mut lower: Vec<(&'static str, u128)> = Vec::new();
                    lower.push((CATEGORY_BASE, base_hash));
                    assert(entries_spec(lower@) =~= seq![(CATEGORY_BASE@, base_hash)]);
                    let mut environment: NameMap<String> = empty_env();
                    environment.set("CHARIOT_PATCH", source.patches[done].as_str());
                    return Stage::Do(
                        SourceStep::Run(
                            plain_request(
                                "/chariot/source",
                                make_source_mounts(paths_of_entries(store, &lower), dirs),
                                environment,
                                Script::bash(PATCH_SCRIPT).command(),
                                PkgSet::Patch,
                            ),
                        ),
                    );
                }
                if replies.patch_stored {
                    Stage::Have(hash)
                } else {
                    Stage::Do(
                        SourceStep::Put {
                            stage: SourceStage::Patches,
                            from: dirs.upper_directory.copy(),
                            category: CATEGORY_PATCH,
                            hash,
                        },
                    )
                }
            },
        },
    }
}

fn next_for_prepare_run(
    store: &Store,
    source: &Source,
    prepare: &SourcePrepare,
    hash: u128,
    replies: &SourceReplies,
) -> (r: Stage)
    ensures
        r@ == prepare_run_stage(store.path@, *source, *prepare, hash, *replies),
{
    match replies.prepare_found {
        None => Stage::Do(SourceStep::Find { search: SourceSearch::Preparation, category: CATEGORY_PREPARE, hash }),
        Some(true) => Stage::Have(hash),
        Some(false) => match &replies.prepare_dirs {
            None => Stage::Do(SourceStep::MakePrepareDirectories),
            Some(dirs) => match replies.prepare_code {
                None => {
                    let mut environment: NameMap<String> =
                        prepare.global_env.global_environment_variables.copy();
                    environment.set_all(&prepare.environment_variables);
                    environment.set("SOURCE_DIR", "/chariot/source");
                    Stage::Do(
                        SourceStep::RunInEnvironment(
                            plain_env_request(
                                "/chariot/source",
                                make_source_mounts(
                                    paths_of_entries(store, &list_patched_entries(source)),
                                    dirs,
                                ),
                                environment,
                                prepare.script.command(),
                            ),
                        ),
                    )
                },
                Some(code) => if code != 0 {
                    Stage::Do(SourceStep::Fail(SourceFetchError::Prepare))
                } else if replies.prepare_stored {
                    Stage::Have(hash)
                } else {
                    Stage::Do(
                        SourceStep::Put {
                            stage: SourceStage::Preparation,
                            from: dirs.upper_directory.copy(),
                            category: CATEGORY_PREPARE,
                            hash,
                        },
                    )
                },
            },
        },
    }
}

fn next_for_prepare(
    store: &Store,
    source: &Source,
    prepare: &SourcePrepare,
    replies: &SourceReplies,
) -> (r: Stage)
    ensures
        r@ == prepare_stage(store.path@, *source, *prepare, *replies),
{
    let base: u128 = source.get_prepare_base_hash(source.get_patch_hash(source.get_base_hash()));
    let recipe: u128 = source.get_prepare_hash(base);
    match replies.prepare_lookup {
        None => return Stage::Do(
            SourceStep::Lookup { category: CATEGORY_PREPARE, hash: recipe },
        ),
        Some(None) => {},
        Some(Some(known_hash)) => match replies.prepare_cached {
            None => return Stage::Do(
                SourceStep::Find {
                    search: SourceSearch::KnownPreparation,
                    category: CATEGORY_PREPARE,
                    hash: known_hash,
                },
            ),
            Some(true) => return Stage::Have(known_hash),
            Some(false) => {},
        },
    }
    match &replies.deps_hash {
        None => Stage::Do(SourceStep::MakeEnvironment(order_for_preparation(prepare))),
        Some(Err(error)) => Stage::Do(
            SourceStep::Fail(SourceFetchError::ResolveDependencies(error.clone())),
        ),
        Some(Ok(deps_hash)) => {
            let effective_hash: u128 = get_outcome_hash(base, *deps_hash);
            match next_for_prepare_run(store, source, prepare, effective_hash, replies) {
                Stage::Do(step) => Stage::Do(step),
                Stage::Have(_) => if replies.prepare_recorded {
                    Stage::Have(effective_hash)
                } else {
                    Stage::Do(
                        SourceStep::Record {
                            category: CATEGORY_PREPARE,
                            hash: recipe,
                            effective_hash,
                        },
                    )
                },
            }
        },
    }
}

/// What to do next to fetch a source into a store.
pub fn fetch_source(store: &Store, source: &Source, replies: &SourceReplies) -> (r: SourceStep)
    ensures
        r@ == source_step(store.path@, *source, *replies),
{
    match next_for_base(source, replies) {
        Stage::Do(step) => return step,
        Stage::Have(_) => {},
    }
    if source.patches.len() > 0 {
        match next_for_patches(store, source, replies) {
            Stage::Do(step) => return step,
            Stage::Have(_) => {},
        }
    }
    let mut entries: Vec<(&'static str, u128)> = list_patched_entries(source);
    let ghost patched = entries@;
    if let Some(prepare) = &source.prepare {
        match next_for_prepare(store, source, prepare, replies) {
            Stage::Do(step) => return step,
            Stage::Have(hash) => {
                entries.push((CATEGORY_PREPARE, hash));
                assert(entries_spec(entries@) =~= entries_spec(patched).push(
                    (CATEGORY_PREPARE@, hash),
                ));
            },
        }
    }
    SourceStep::Done(entries)
}

/// What has come back, and that a search found something or not.
pub open spec fn source_search_noted(
    replies: SourceReplies,
    search: SourceSearch,
    found: bool,
) -> SourceReplies {
    match search {
        SourceSearch::Base => SourceReplies { base_found: Some(found), ..replies },
        SourceSearch::Patches => SourceReplies { patch_found: Some(found), ..replies },
        SourceSearch::KnownPreparation => SourceReplies { prepare_cached: Some(found), ..replies },
        SourceSearch::Preparation => SourceReplies { prepare_found: Some(found), ..replies },
    }
}

/// What has come back, and that a part of the source is in the store.
pub open spec fn source_stored_noted(replies: SourceReplies, stage: SourceStage) -> SourceReplies {
    match stage {
        SourceStage::Base => SourceReplies { base_stored: true, ..replies },
        SourceStage::Patches => SourceReplies { patch_stored: true, ..replies },
        SourceStage::Preparation => SourceReplies { prepare_stored: true, ..replies },
    }
}

impl SourceReplies {
    /// Takes note of whether a search found something.
    pub fn note_found(&mut self, search: SourceSearch, found: bool)
        ensures
            *final(self) == source_search_noted(*old(self), search, found),
    {
        match search {
            SourceSearch::Base => {
                self.base_found = Some(found);
            },
            SourceSearch::Patches => {
                self.patch_found = Some(found);
            },
            SourceSearch::KnownPreparation => {
                self.prepare_cached = Some(found);
            },
            SourceSearch::Preparation => {
                self.prepare_found = Some(found);
            },
        }
    }

    /// Takes note that a part of the source is in the store.
    pub fn note_stored(&mut self, stage: SourceStage)
        ensures
            *final(self) == source_stored_noted(*old(self), stage),
    {
        match stage {
            SourceStage::Base => {
                self.base_stored = true;
            },
            SourceStage::Patches => {
                self.patch_stored = true;
            },
            SourceStage::Preparation => {
                self.prepare_stored = true;
            },
        }
    }
}

// ---------------------------------------------------------------------------
// Laws
// ---------------------------------------------------------------------------

/// The hash of what is in the environment for the preparation, if it could be made.
pub open spec fn known_deps(replies: SourceReplies) -> Option<u128> {
    match replies.deps_hash {
        Some(Ok(deps_hash)) => Some(deps_hash),
        _ => None,
    }
}

/// The base of a source is in the store: it was found there, or has been put there.
pub open spec fn base_is_stored(replies: SourceReplies) -> bool {
    replies.base_found == Some(true) || replies.base_stored
}

/// The patches of a source are in the store: they were found there, or all of them could be
/// applied and the outcome has been put there.
pub open spec fn patches_are_stored(source: Source, replies: SourceReplies) -> bool {
    ||| replies.patch_found == Some(true)
    ||| {
        &&& replies.patch_stored
        &&& replies.patch_codes@.len() >= source.patches@.len()
        &&& forall|i: int| 0 <= i < replies.patch_codes@.len() ==> replies.patch_codes@[i] == 0
    }
}

/// The preparation is in the store: it was found there, or succeeded and has been put there.
pub open spec fn preparation_is_stored(replies: SourceReplies) -> bool {
    replies.prepare_found == Some(true) || (replies.prepare_code == Some(0i32)
        && replies.prepare_stored)
}

/// A source is there only when all of its stages are in the store: the base, the patches if it
/// has any, and the preparation if it has one; and the entries that make it up are those, in this
/// order.
pub proof fn lemma_done_means_stored(store: Seq<u8>, source: Source, replies: SourceReplies)
    ensures
        source_step(store, source, replies) matches SourceStepSpec::Done(entries) ==> {
            &&& base_is_stored(replies)
            &&& source.patches@.len() > 0 ==> patches_are_stored(source, replies)
            &&& source.prepare is None ==> entries == patched_entries(source)
            &&& source.prepare is Some ==> {
                &&& entries.len() == patched_entries(source).len() + 1
                &&& entries.drop_last() == patched_entries(source)
                &&& entries.last().0 == CATEGORY_PREPARE@
                &&& {
                    ||| replies.prepare_lookup == Some(Some(entries.last().1))
                        && replies.prepare_cached == Some(true)
                    ||| preparation_is_stored(replies) && replies.prepare_recorded
                        && known_deps(replies) is Some && entries.last().1 == outcome_hash(
                        prepare_base_of(source),
                        known_deps(replies)->0,
                    )
                }
            }
        },
{
    lemma_first_failure(replies.patch_codes@);
    if let SourceStepSpec::Done(entries) = source_step(store, source, replies) {
        if source.prepare is Some {
            assert(entries.drop_last() =~= patched_entries(source));
        }
    }
}

/// The ledger is told of an outcome only when the store holds it, so that what the ledger has is
/// never ahead of the store.
pub proof fn lemma_recorded_only_when_stored(
    store: Seq<u8>,
    source: Source,
    replies: SourceReplies,
)
    ensures
        source_step(store, source, replies) matches SourceStepSpec::Record {
            category,
            hash,
            effective_hash,
        } ==> {
            &&& category == CATEGORY_PREPARE@
            &&& hash == source.hash()
            &&& known_deps(replies) is Some
            &&& effective_hash == outcome_hash(prepare_base_of(source), known_deps(replies)->0)
            &&& preparation_is_stored(replies)
        },
{
}

/// Nothing is put into the store that did not succeed: patches only when all of them could be
/// applied, a preparation only when it succeeded.
pub proof fn lemma_stored_only_when_succeeded(
    store: Seq<u8>,
    source: Source,
    replies: SourceReplies,
)
    ensures
        source_step(store, source, replies) matches SourceStepSpec::Put {
            stage,
            from,
            category,
            hash,
        }
            ==> {
            ||| category == CATEGORY_BASE@ && hash == source.base_hash() && (
            replies.base_dir matches Some(Ok(dir)) && dir@ == from)
            ||| {
                &&& category == CATEGORY_PATCH@
                &&& hash == source.patch_hash(source.base_hash())
                &&& replies.patch_codes@.len() >= source.patches@.len()
                &&& forall|i: int|
                    0 <= i < replies.patch_codes@.len() ==> replies.patch_codes@[i] == 0
            }
            ||| category == CATEGORY_PREPARE@ && replies.prepare_code == Some(0i32)
                && known_deps(replies) is Some && hash == outcome_hash(
                prepare_base_of(source),
                known_deps(replies)->0,
            )
        },
{
    lemma_first_failure(replies.patch_codes@);
}

/// As long as no search has come back empty, nothing is fetched, run, written or recorded: a
/// source that is known costs only searches.
pub proof fn lemma_known_source_is_only_searched(
    store: Seq<u8>,
    source: Source,
    replies: SourceReplies,
)
    requires
        replies.base_found != Some(false),
        replies.patch_found != Some(false),
        replies.prepare_lookup != Some(None::<u128>),
        replies.prepare_cached != Some(false),
    ensures
        source_step(store, source, replies) is Find || source_step(store, source, replies) is Lookup
            || source_step(store, source, replies) is Done,
{
}

/// A failed stage ends the work: the error is the answer, whatever else came back.
pub proof fn lemma_failure_is_final(store: Seq<u8>, source: Source, replies: SourceReplies)
    ensures
        replies.base_found == Some(false) && (replies.base_dir matches Some(Err(_)))
            ==> source_step(store, source, replies) == SourceStepSpec::Fail(
            replies.base_dir->0->Err_0,
        ),
        base_stage(source, replies) is Have && source.patches@.len() > 0 && replies.patch_found
            == Some(false) && replies.patch_dirs is Some && (exists|i: int|
            0 <= i < replies.patch_codes@.len() && replies.patch_codes@[i] != 0) ==> source_step(
            store,
            source,
            replies,
        ) == SourceStepSpec::Fail(SourceFetchError::Patch),
        base_stage(source, replies) is Have && (source.patches@.len() == 0 || patch_stage(
            store,
            source,
            replies,
        ) is Have) && source.prepare is Some && (replies.prepare_lookup == Some(None::<u128>) || (
        replies.prepare_lookup is Some && replies.prepare_cached == Some(false))) && (
        replies.deps_hash matches Some(Err(_))) ==> source_step(store, source, replies)
            == SourceStepSpec::Fail(
            SourceFetchError::ResolveDependencies(replies.deps_hash->0->Err_0),
        ),
{
    lemma_first_failure(replies.patch_codes@);
}

} // verus!
