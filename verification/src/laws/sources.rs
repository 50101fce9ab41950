//! Fetching sources: what each stage writes is what is kept of it, the next stage finds it, and the
//! files come from where the source says.

use crate::config::source::{Archive, ArchiveCompression, Source, SourceBase};
use crate::hashes::outcome_hash;
use crate::laws::packaging::is_plain;
use crate::laws::sight::{
    finds, lemma_found_alone, lemma_found_last, lemma_found_still, lemma_lies_elsewhere, runs_bash,
    runs_script, writes_into, writes_over,
};
use crate::mount::{bind_spec, overlay_spec, tmpfs_spec, MountKindSpec};
use crate::request::{lemma_first_failure, PkgSet, StderrTarget};
use crate::source::archive::{
    fetch_archive_step, ArchiveFetchError, ArchiveReplies, FetchArchiveStepSpec, CHECKSUM_SCRIPT,
    DOWNLOAD_SCRIPT,
};
use crate::source::fetch::{
    entry_paths, patched_entries, source_search_noted, source_step, source_stored_noted,
    BaseOrderSpec, SourceFetchError, SourceReplies, SourceSearch, SourceStage, SourceStepSpec,
    CATEGORY_BASE, PATCH_SCRIPT,
};
use crate::source::git::{
    git_step, GitFetchError, GitStepSpec, CHECKOUT_SCRIPT, CLONE_SCRIPT, FETCH_SCRIPT,
    LS_REMOTE_SCRIPT,
};
use crate::store::entry_path_in;
use crate::util::names::env_of;
use crate::util::path::{join_path, lemma_join_text, path_of};
use vstd::prelude::*;

verus! {

/// Where the store has the base of a source.
pub open spec fn base_place(store: Seq<u8>, source: Source) -> Seq<u8> {
    entry_path_in(store, "source.base"@, source.base_hash() as nat)
}

/// Where the store has the patches of a source.
pub open spec fn patch_place(store: Seq<u8>, source: Source) -> Seq<u8> {
    entry_path_in(
        store,
        "source.patch"@,
        source.patch_hash(source.base_hash()) as nat,
    )
}

/// What a patch writes is what is kept of it. The program that applies a patch finds the base of the
/// source, and what it writes over it goes into the upper directory; whenever the patches are put into
/// the store, then from that upper directory.
pub proof fn lemma_what_is_patched_is_kept(
    store: Seq<u8>,
    source: Source,
    replies: SourceReplies,
    later: SourceReplies,
)
    ensures
        source_step(store, source, replies) matches SourceStepSpec::Run(request) ==> {
            &&& replies.patch_dirs is Some
            &&& writes_over(
                request.mounts,
                request.cwd,
                seq![base_place(store, source)],
                (replies.patch_dirs->0)@,
            )
            &&& later.patch_dirs == replies.patch_dirs ==> (source_step(
                store,
                source,
                later,
            ) matches SourceStepSpec::Put { stage: SourceStage::Patches, from, category, hash }
                ==> category == "source.patch"@ && from == (replies.patch_dirs->0)@.upper_directory)
        },
        source_step(store, source, replies) matches SourceStepSpec::Put {
            stage: SourceStage::Patches,
            from,
            category,
            hash,
        } ==> replies.patch_dirs is Some && from == (replies.patch_dirs->0)@.upper_directory,
{
    if let SourceStepSpec::Run(request) = source_step(store, source, replies) {
        let lower = seq![base_place(store, source)];
        let mount = overlay_spec("/chariot/source"@, lower, Some((replies.patch_dirs->0)@));
        lemma_found_alone(mount);
        assert(request.mounts =~= seq![mount]) by {
            assert(entry_paths(
                store,
                seq![(CATEGORY_BASE@, source.base_hash())],
            ) =~= lower);
        }
    }
}

/// The patches of a source are applied in their order, each once, by the program that is made for that.
pub proof fn lemma_patches_are_applied_in_order(
    store: Seq<u8>,
    source: Source,
    replies: SourceReplies,
)
    ensures
        source_step(store, source, replies) matches SourceStepSpec::Run(request) ==> {
            let number = replies.patch_codes@.len() as int;
            &&& number < source.patches@.len()
            &&& request.environment.contains_pair("CHARIOT_PATCH"@, source.patches@[number]@)
            &&& forall|name: Seq<char>| #[trigger]
                request.environment.contains_key(name) ==> name == "CHARIOT_PATCH"@
            &&& runs_bash(request.args, PATCH_SCRIPT@)
            &&& request.pkgset == PkgSet::Patch
            &&& is_plain(request)
            &&& request.root_overlay is None
            &&& forall|k: int| 0 <= k < number ==> replies.patch_codes@[k] == 0
        },
{
    lemma_first_failure(replies.patch_codes@);
}

/// The entries of the store that a preparation works on: the base and, if there are patches, what they
/// change.
pub open spec fn patched_places(store: Seq<u8>, source: Source) -> Seq<Seq<u8>> {
    if source.patches@.len() > 0 {
        seq![base_place(store, source), patch_place(store, source)]
    } else {
        seq![base_place(store, source)]
    }
}

/// What a preparation writes is what is kept of it. The program finds the patched source in the
/// directory that it is told and runs in, and what it writes over it goes into the upper directory;
/// whenever the preparation is put into the store, then from that upper directory.
pub proof fn lemma_what_is_prepared_is_kept(
    store: Seq<u8>,
    source: Source,
    replies: SourceReplies,
    later: SourceReplies,
)
    ensures
        source_step(store, source, replies) matches SourceStepSpec::RunInEnvironment(request) ==> {
            &&& replies.prepare_dirs is Some
            &&& source.prepare is Some
            &&& request.environment.contains_key("SOURCE_DIR"@)
            &&& request.cwd == path_of(request.environment["SOURCE_DIR"@])
            &&& writes_over(
                request.mounts,
                request.cwd,
                patched_places(store, source),
                (replies.prepare_dirs->0)@,
            )
            &&& runs_script(request.args, (source.prepare->0).script)
            &&& !request.stdin
            &&& request.stderr == StderrTarget::Merge
            &&& later.prepare_dirs == replies.prepare_dirs ==> (source_step(
                store,
                source,
                later,
            ) matches SourceStepSpec::Put { stage: SourceStage::Preparation, from, category, hash }
                ==> category == "source.prepare"@ && from
                == (replies.prepare_dirs->0)@.upper_directory)
        },
        source_step(store, source, replies) matches SourceStepSpec::Put {
            stage: SourceStage::Preparation,
            from,
            category,
            hash,
        } ==> replies.prepare_dirs is Some && from == (replies.prepare_dirs->0)@.upper_directory,
{
    if let SourceStepSpec::RunInEnvironment(request) = source_step(store, source, replies) {
        let lower = patched_places(store, source);
        let mount = overlay_spec("/chariot/source"@, lower, Some((replies.prepare_dirs->0)@));
        lemma_found_alone(mount);
        assert(request.mounts =~= seq![mount]) by {
            assert(entry_paths(
                store,
                patched_entries(source),
            ) =~= lower);
        }
    }
}

/// The variables of a preparation, beside the one that says where the source is, are those that it sets
/// itself or, where it sets none of that name, those that are set globally, and there are no others.
pub proof fn lemma_variables_of_a_preparation(
    store: Seq<u8>,
    source: Source,
    replies: SourceReplies,
    name: Seq<char>,
)
    ensures
        source_step(store, source, replies) matches SourceStepSpec::RunInEnvironment(request) ==> (
        name != "SOURCE_DIR"@ ==> {
            let own = env_of((source.prepare->0).environment_variables);
            let global = env_of((source.prepare->0).global_env.global_environment_variables);
            &&& request.environment.contains_key(name) <==> own.contains_key(name)
                || global.contains_key(name)
            &&& own.contains_key(name) ==> request.environment[name] == own[name]
            &&& !own.contains_key(name) && global.contains_key(name) ==> request.environment[name]
                == global[name]
        }),
{
}

/// The environment of a preparation is made of just what the preparation depends on.
pub proof fn lemma_environment_of_a_preparation(
    store: Seq<u8>,
    source: Source,
    replies: SourceReplies,
)
    ensures
        source_step(store, source, replies) matches SourceStepSpec::MakeEnvironment(order) ==> {
            let dependencies = (source.prepare->0).dependencies;
            &&& source.prepare is Some
            &&& order.root_native is None
            &&& order.native == dependencies.native.names@
            &&& order.sources == dependencies.sources.entries@
            &&& order.tools == dependencies.tools@
            &&& order.packages == dependencies.packages@
        },
{
}

/// The base of a source is got from where the source says, and what was got is what is kept.
pub proof fn lemma_base_comes_from_the_source(
    store: Seq<u8>,
    source: Source,
    replies: SourceReplies,
)
    ensures
        source_step(store, source, replies) matches SourceStepSpec::FetchBase(order)
            ==> match source.base {
            SourceBase::Archive(archive) => order == (BaseOrderSpec::Archive {
                url: archive.url@,
                checksum: archive.checksum@,
                kind: archive.kind,
                compression: archive.compression,
            }),
            SourceBase::Git(git) => order == (BaseOrderSpec::Git {
                url: git.url@,
                revision: git.revision@,
            }),
            SourceBase::Local(local) => order == BaseOrderSpec::Local(local.path@),
        },
        source_step(store, source, replies) matches SourceStepSpec::Put {
            stage: SourceStage::Base,
            from,
            category,
            hash,
        } ==> replies.base_dir matches Some(Ok(dir)) && from == dir@,
{
}

/// Each stage of a source is known under one hash all the way: the one that the store is searched for is
/// the one that is put there and that is among the entries of the source. The hash of a preparation
/// follows from what is prepared and from what is in its environment.
pub proof fn lemma_stages_are_known_under_one_hash(
    store: Seq<u8>,
    source: Source,
    replies: SourceReplies,
)
    ensures
        ({
            let base = source.base_hash();
            let patch = source.patch_hash(base);
            let prepare_base = source.prepare_base_hash(patch);
            match source_step(store, source, replies) {
                SourceStepSpec::Find { search: SourceSearch::Base, category, hash } => category
                    == "source.base"@ && hash == base,
                SourceStepSpec::Find { search: SourceSearch::Patches, category, hash } => category
                    == "source.patch"@ && hash == patch,
                SourceStepSpec::Find { search: SourceSearch::KnownPreparation, category, hash } =>
                    category == "source.prepare"@ && replies.prepare_lookup == Some(Some(hash)),
                SourceStepSpec::Find { search: SourceSearch::Preparation, category, hash } =>
                    category == "source.prepare"@ && (replies.deps_hash matches Some(Ok(deps))
                    && hash == outcome_hash(prepare_base, deps)),
                SourceStepSpec::Put { stage: SourceStage::Base, from, category, hash } => category
                    == "source.base"@ && hash == base,
                SourceStepSpec::Put { stage: SourceStage::Patches, from, category, hash } =>
                    category == "source.patch"@ && hash == patch,
                SourceStepSpec::Put { stage: SourceStage::Preparation, from, category, hash } =>
                    category == "source.prepare"@ && (replies.deps_hash matches Some(Ok(deps))
                    && hash == outcome_hash(prepare_base, deps)),
                SourceStepSpec::Lookup { category, hash } => category == "source.prepare"@ && hash
                    == source.prepare_hash(prepare_base),
                SourceStepSpec::Record { category, hash, effective_hash } => category
                    == "source.prepare"@ && hash == source.prepare_hash(prepare_base) && (
                replies.deps_hash matches Some(Ok(deps)) && effective_hash == outcome_hash(
                    prepare_base,
                    deps,
                )),
                SourceStepSpec::Done(entries) => {
                    let patched: nat = if source.patches@.len() > 0 {
                        2
                    } else {
                        1
                    };
                    &&& entries.len() == patched + (if source.prepare is Some {
                        1nat
                    } else {
                        0nat
                    })
                    &&& entries[0] == ("source.base"@, base)
                    &&& source.patches@.len() > 0 ==> entries[1] == ("source.patch"@, patch)
                    &&& source.prepare is Some ==> entries.last().0 == "source.prepare"@ && {
                        ||| replies.prepare_lookup == Some(Some(entries.last().1))
                            && replies.prepare_cached == Some(true)
                        ||| replies.deps_hash matches Some(Ok(deps)) && entries.last().1
                            == outcome_hash(prepare_base, deps)
                    }
                },
                _ => true,
            }
        }),
{
    lemma_first_failure(replies.patch_codes@);
}

/// A stage of a source is searched for, made, put into the store and recorded only while that has not
/// come back yet, and only when the stages before it are there; so every answer brings the work further.
pub proof fn lemma_source_asks_once(store: Seq<u8>, source: Source, replies: SourceReplies)
    ensures
        ({
            let base = replies.base_found == Some(true) || (replies.base_found == Some(false)
                && replies.base_stored && (replies.base_dir matches Some(Ok(_))));
            let patches = source.patches@.len() == 0 || replies.patch_found == Some(true) || (
            replies.patch_found == Some(false) && replies.patch_stored);
            match source_step(store, source, replies) {
                SourceStepSpec::Find { search: SourceSearch::Base, category, hash } =>
                    replies.base_found is None,
                SourceStepSpec::FetchBase(order) => replies.base_found == Some(false)
                    && replies.base_dir is None,
                SourceStepSpec::Put { stage: SourceStage::Base, from, category, hash } =>
                    replies.base_found == Some(false) && !replies.base_stored,
                SourceStepSpec::Find { search: SourceSearch::Patches, category, hash } =>
                    replies.patch_found is None && base && source.patches@.len() > 0,
                SourceStepSpec::MakePatchDirectories => replies.patch_found == Some(false)
                    && replies.patch_dirs is None && base && source.patches@.len() > 0,
                SourceStepSpec::Run(request) => replies.patch_found == Some(false) && base
                    && replies.patch_codes@.len() < source.patches@.len(),
                SourceStepSpec::Put { stage: SourceStage::Patches, from, category, hash } =>
                    replies.patch_found == Some(false) && !replies.patch_stored && base
                    && source.patches@.len() > 0,
                SourceStepSpec::Lookup { category, hash } => replies.prepare_lookup is None && base
                    && patches && source.prepare is Some,
                SourceStepSpec::Find { search: SourceSearch::KnownPreparation, category, hash } =>
                    replies.prepare_cached is None && base && patches && source.prepare is Some,
                SourceStepSpec::MakeEnvironment(order) => replies.deps_hash is None && base
                    && patches && source.prepare is Some,
                SourceStepSpec::Find { search: SourceSearch::Preparation, category, hash } =>
                    replies.prepare_found is None && base && patches && source.prepare is Some,
                SourceStepSpec::MakePrepareDirectories => replies.prepare_found == Some(false)
                    && replies.prepare_dirs is None && base && patches,
                SourceStepSpec::RunInEnvironment(request) => replies.prepare_found == Some(false)
                    && replies.prepare_code is None && base && patches,
                SourceStepSpec::Put { stage: SourceStage::Preparation, from, category, hash } =>
                    replies.prepare_found == Some(false) && !replies.prepare_stored
                    && replies.prepare_code == Some(0i32) && base && patches,
                SourceStepSpec::Record { category, hash, effective_hash } =>
                    !replies.prepare_recorded && base && patches,
                SourceStepSpec::Fail(error) => true,
                SourceStepSpec::Done(entries) => base && patches,
            }
        }),
{
    lemma_first_failure(replies.patch_codes@);
}

/// A source fails only because of what failed: its base could not be got, a patch could not be applied,
/// its environment could not be made, or its preparation did not succeed.
pub proof fn lemma_source_fails_of_what_failed(store: Seq<u8>, source: Source, replies: SourceReplies)
    ensures
        source_step(store, source, replies) matches SourceStepSpec::Fail(error) ==> {
            ||| replies.base_dir matches Some(Err(given)) && given == error
            ||| error is Patch && source.patches@.len() > 0 && exists|i: int|
                0 <= i < replies.patch_codes@.len() && #[trigger] replies.patch_codes@[i] != 0
            ||| error matches SourceFetchError::ResolveDependencies(cause) && (
            replies.deps_hash matches Some(Err(given)) && given == cause)
            ||| error is Prepare && source.prepare is Some && replies.prepare_code is Some
                && replies.prepare_code->0 != 0
        },
{
    lemma_first_failure(replies.patch_codes@);
}

/// What a search of the store found answers that very search, what has been put into the store is
/// noted for that very stage, and nothing else that has come back is changed.
pub proof fn lemma_searches_of_a_source_are_answered(
    replies: SourceReplies,
    search: SourceSearch,
    found: bool,
    stage: SourceStage,
)
    ensures
        source_search_noted(replies, search, found) == (match search {
            SourceSearch::Base => SourceReplies { base_found: Some(found), ..replies },
            SourceSearch::Patches => SourceReplies { patch_found: Some(found), ..replies },
            SourceSearch::KnownPreparation => SourceReplies {
                prepare_cached: Some(found),
                ..replies
            },
            SourceSearch::Preparation => SourceReplies { prepare_found: Some(found), ..replies },
        }),
        source_stored_noted(replies, stage) == (match stage {
            SourceStage::Base => SourceReplies { base_stored: true, ..replies },
            SourceStage::Patches => SourceReplies { patch_stored: true, ..replies },
            SourceStage::Preparation => SourceReplies { prepare_stored: true, ..replies },
        }),
{
}

// ---------------------------------------------------------------------------
// Archives
// ---------------------------------------------------------------------------

/// An archive is downloaded from its address into the file that is then compared with its checksum and
/// extracted. The programs that download and compare it are told the file that lies in the directory
/// for the download, where they write and read; the program that extracts it finds that very file and
/// cannot change it, and what it extracts goes into the work directory.
pub proof fn lemma_archive_is_extracted_from_what_was_downloaded(
    archive: Archive,
    replies: ArchiveReplies,
)
    ensures
        fetch_archive_step(archive, replies) matches FetchArchiveStepSpec::Download(request) ==> {
            let number = replies.download_codes@.len();
            &&& number <= 1
            &&& replies.download_dir is Some
            &&& writes_into(request.mounts, path_of("/chariot"@), (replies.download_dir->0)@)
            &&& request.environment.contains_key("ARCHIVE_PATH"@)
            &&& path_of(request.environment["ARCHIVE_PATH"@]) == join_path(
                path_of("/chariot"@),
                path_of("archive"@),
            )
            &&& number == 0 ==> request.environment.contains_pair("ARCHIVE_URL"@, archive.url@)
                && runs_bash(request.args, DOWNLOAD_SCRIPT@) && request.pkgset == PkgSet::Wget
            &&& number == 1 ==> replies.download_codes@[0] == 0
                && request.environment.contains_pair("ARCHIVE_CHECKSUM"@, archive.checksum@)
                && runs_bash(request.args, CHECKSUM_SCRIPT@) && request.pkgset
                == PkgSet::Sha256sum
            &&& is_plain(request)
            &&& request.root_overlay is None
        },
        fetch_archive_step(archive, replies) matches FetchArchiveStepSpec::Extract(request) ==> {
            &&& replies.download_dir is Some
            &&& replies.work_directory is Some
            &&& finds(
                request.mounts,
                path_of("/chariot/source"@),
                MountKindSpec::Bind {
                    from: join_path((replies.download_dir->0)@, path_of("archive"@)),
                    read_only: true,
                    is_file: true,
                },
            )
            &&& writes_into(
                request.mounts,
                path_of("/chariot/dest"@),
                (replies.work_directory->0)@,
            )
            &&& runs_bash(
                request.args,
                "bsdtar --no-same-owner --strip-components 1 -x "@ + (match archive.compression {
                    ArchiveCompression::Gzip => "--gzip"@,
                    ArchiveCompression::Xz => "--xz"@,
                    ArchiveCompression::Bzip2 => "--bzip2"@,
                }) + " -C /chariot/dest -f /chariot/source"@,
            )
            &&& request.pkgset == PkgSet::Bsdtar
            &&& is_plain(request)
            &&& request.root_overlay is None
        },
{
    lemma_first_failure(replies.download_codes@);
    lemma_first_failure(replies.extract_codes@);
    reveal_strlit("/chariot");
    lemma_join_text("/chariot"@, "archive"@);
    if let FetchArchiveStepSpec::Download(request) = fetch_archive_step(archive, replies) {
        lemma_distinct_archive_variables();
        let mount = bind_spec("/chariot"@, (replies.download_dir->0)@, false, false);
        lemma_found_alone(mount);
        assert(request.mounts =~= seq![mount]);
    }
    if let FetchArchiveStepSpec::Extract(request) = fetch_archive_step(archive, replies) {
        let all = tmpfs_spec("/chariot"@);
        let from = bind_spec(
            "/chariot/source"@,
            join_path((replies.download_dir->0)@, path_of("archive"@)),
            true,
            true,
        );
        let dest = bind_spec("/chariot/dest"@, (replies.work_directory->0)@, false, false);
        reveal_strlit("/chariot/source");
        reveal_strlit("/chariot/dest");
        lemma_lies_elsewhere("/chariot/source"@, "/chariot/dest"@, 9);
        lemma_found_last(seq![all], from);
        lemma_found_still(seq![all].push(from), dest, from.dest, from.kind);
        lemma_found_last(seq![all].push(from), dest);
        assert(request.mounts =~= seq![all].push(from).push(dest));
    }
}

proof fn lemma_distinct_archive_variables()
    ensures
        "ARCHIVE_PATH"@ != "ARCHIVE_URL"@,
        "ARCHIVE_PATH"@ != "ARCHIVE_CHECKSUM"@,
{
    reveal_strlit("ARCHIVE_PATH");
    reveal_strlit("ARCHIVE_URL");
    reveal_strlit("ARCHIVE_CHECKSUM");
    assert("ARCHIVE_PATH"@[8] == 'P');
    assert("ARCHIVE_URL"@[8] == 'U');
    assert("ARCHIVE_CHECKSUM"@[8] == 'C');
}

/// Fetching an archive asks for nothing that has come back already, and fails only because of what
/// failed.
pub proof fn lemma_archive_asks_once(archive: Archive, replies: ArchiveReplies)
    ensures
        match fetch_archive_step(archive, replies) {
            FetchArchiveStepSpec::MakeDownloadDirectory => replies.download_dir is None,
            FetchArchiveStepSpec::Download(request) => replies.download_codes@.len() < 2,
            FetchArchiveStepSpec::MakeWorkDirectory => replies.work_directory is None,
            FetchArchiveStepSpec::Extract(request) => replies.extract_codes@.len() == 0,
            FetchArchiveStepSpec::Fail(ArchiveFetchError::Download) =>
                replies.download_codes@.len() > 0 && replies.download_codes@[0] != 0,
            FetchArchiveStepSpec::Fail(ArchiveFetchError::ChecksumMismatch) =>
                replies.download_codes@.len() > 1 && replies.download_codes@[0] == 0 && exists|
                    i: int,
                |
                    0 <= i < replies.download_codes@.len() && #[trigger] replies.download_codes@[i]
                        != 0,
            FetchArchiveStepSpec::Fail(ArchiveFetchError::Extract) => exists|i: int|
                0 <= i < replies.extract_codes@.len() && #[trigger] replies.extract_codes@[i] != 0,
            FetchArchiveStepSpec::Done => replies.work_directory is Some,
        },
{
    lemma_first_failure(replies.download_codes@);
    lemma_first_failure(replies.extract_codes@);
}

// ---------------------------------------------------------------------------
// Repositories
// ---------------------------------------------------------------------------

/// A revision is fetched into the work directory: every program runs where what it writes goes there.
/// One after the other they refuse a revision that is a branch, get the repository from its address, get
/// the revision, and change to it.
pub proof fn lemma_revision_goes_into_the_work_directory(
    url: Seq<char>,
    revision: Seq<char>,
    workdir: Seq<u8>,
    codes: Seq<i32>,
)
    ensures
        git_step(url, revision, workdir, codes) matches GitStepSpec::Run(request) ==> {
            let number = codes.len();
            &&& number < 4
            &&& forall|k: int| 0 <= k < codes.len() ==> codes[k] == 0
            &&& writes_into(request.mounts, request.cwd, workdir)
            &&& number <= 1 ==> request.environment.contains_pair("GIT_URL"@, url)
            &&& number == 0 || number == 2 ==> request.environment.contains_pair(
                "GIT_REV"@,
                revision,
            )
            &&& number == 0 ==> runs_bash(request.args, LS_REMOTE_SCRIPT@)
            &&& number == 1 ==> runs_bash(request.args, CLONE_SCRIPT@)
            &&& number == 2 ==> runs_bash(request.args, FETCH_SCRIPT@)
            &&& number == 3 ==> runs_bash(request.args, CHECKOUT_SCRIPT@)
            &&& request.pkgset == PkgSet::Git
            &&& is_plain(request)
            &&& request.root_overlay is None
        },
{
    lemma_first_failure(codes);
    if let GitStepSpec::Run(request) = git_step(url, revision, workdir, codes) {
        let all = tmpfs_spec("/chariot"@);
        let work = bind_spec("/chariot/source"@, workdir, false, false);
        lemma_found_last(seq![all], work);
        assert(request.mounts =~= seq![all].push(work));
        reveal_strlit("GIT_URL");
        reveal_strlit("GIT_REV");
        assert("GIT_URL"@[4] != "GIT_REV"@[4]);
    }
}

/// Fetching a revision fails only because of what failed: the first program that did not succeed.
pub proof fn lemma_git_fails_of_what_failed(
    url: Seq<char>,
    revision: Seq<char>,
    workdir: Seq<u8>,
    codes: Seq<i32>,
)
    ensures
        git_step(url, revision, workdir, codes) matches GitStepSpec::Fail(error) ==> exists|i: int|
            {
                &&& 0 <= i < codes.len()
                &&& #[trigger] codes[i] != 0
                &&& forall|k: int| 0 <= k < i ==> codes[k] == 0
                &&& error == (if i == 0 && codes[0] == 67 {
                    GitFetchError::RefIsHead
                } else if i == 0 {
                    GitFetchError::LsRemote
                } else if i == 1 {
                    GitFetchError::Clone
                } else if i == 2 {
                    GitFetchError::Fetch
                } else {
                    GitFetchError::Checkout
                })
            },
{
    lemma_first_failure(codes);
}

} // verus!
