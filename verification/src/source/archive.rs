//! Fetching an archive: download, checksum, extraction.

use crate::config::script::{command_line, Script, ScriptLanguage};
use crate::config::source::{Archive, ArchiveCompression, ArchiveKind};
use crate::mount::{bind, bind_spec, mounts_of, tmpfs, tmpfs_spec, Mount, MountSpec};
use crate::request::{
    empty_env, find_failure, first_failure, lemma_first_failure, no_env, plain_exec, plain_request,
    ExecRequest, ExecSpec, PkgSet,
};
use crate::util::names::NameMap;
use crate::util::path::{join_names, join_path, join_text, path_of, UnixPath};
use vstd::prelude::*;

verus! {

pub const DOWNLOAD_SCRIPT: &'static str = "wget --no-hsts -q -O \"$ARCHIVE_PATH\" \"$ARCHIVE_URL\"";

pub const CHECKSUM_SCRIPT: &'static str =
    "echo \"$ARCHIVE_CHECKSUM  $ARCHIVE_PATH\n\" | sha256sum -c -";

pub const EXTRACT_START: &'static str = "bsdtar --no-same-owner --strip-components 1 -x ";

pub const EXTRACT_END: &'static str = " -C /chariot/dest -f /chariot/source";

/// What a downloaded archive is called in the directory it is downloaded to.
pub const ARCHIVE_NAME: &'static str = "archive";

/// Why an archive could not be fetched.
#[derive(Debug, Clone, Copy, PartialEq, Eq, Structural)]
pub enum ArchiveFetchError {
    Download,
    ChecksumMismatch,
    Extract,
}

impl ArchiveFetchError {
    /// The error in words.
    pub open spec fn text(self) -> Seq<char> {
        match self {
            ArchiveFetchError::Download => "Failed to download source archive"@,
            ArchiveFetchError::ChecksumMismatch => "Checksum validation for archive failed"@,
            ArchiveFetchError::Extract => "Failed to extract source archive"@,
        }
    }

    /// The error in words.
    pub fn message(&self) -> (r: &'static str)
        ensures
            r@ == self.text(),
    {
        match self {
            ArchiveFetchError::Download => "Failed to download source archive",
            ArchiveFetchError::ChecksumMismatch => "Checksum validation for archive failed",
            ArchiveFetchError::Extract => "Failed to extract source archive",
        }
    }
}

/// What to do next with an archive.
#[derive(Debug)]
pub enum ArchiveStep {
    /// run a program and hand back its exit code
    Run(ExecRequest),
    /// stop
    Fail(ArchiveFetchError),
    /// nothing is left to do
    Done,
}

/// [`ArchiveStep`] by its paths and texts.
pub enum ArchiveStepSpec {
    Run(ExecSpec),
    Fail(ArchiveFetchError),
    Done,
}

impl View for ArchiveStep {
    type V = ArchiveStepSpec;

    open spec fn view(&self) -> ArchiveStepSpec {
        match self {
            ArchiveStep::Run(request) => ArchiveStepSpec::Run(request@),
            ArchiveStep::Fail(error) => ArchiveStepSpec::Fail(*error),
            ArchiveStep::Done => ArchiveStepSpec::Done,
        }
    }
}

// ---------------------------------------------------------------------------
// Download
// ---------------------------------------------------------------------------

/// The program that downloads an archive.
pub open spec fn download_program(
    url: Seq<char>,
    dest_dir: Seq<u8>,
    dest_filename: Seq<char>,
) -> ExecSpec {
    plain_exec(
        "/"@,
        seq![bind_spec("/chariot"@, dest_dir, false, false)],
        no_env().insert("ARCHIVE_PATH"@, join_text("/chariot"@, dest_filename)).insert("ARCHIVE_URL"@, url),
        command_line(ScriptLanguage::Bash, DOWNLOAD_SCRIPT@),
        PkgSet::Wget,
    )
}

/// The program that compares a downloaded archive with its checksum.
pub open spec fn checksum_program(
    checksum: Seq<char>,
    dest_dir: Seq<u8>,
    dest_filename: Seq<char>,
) -> ExecSpec {
    plain_exec(
        "/"@,
        seq![bind_spec("/chariot"@, dest_dir, false, false)],
        no_env().insert("ARCHIVE_PATH"@, join_text("/chariot"@, dest_filename)).insert(
            "ARCHIVE_CHECKSUM"@,
            checksum,
        ),
        command_line(ScriptLanguage::Bash, CHECKSUM_SCRIPT@),
        PkgSet::Sha256sum,
    )
}

/// What to do next to download an archive and to compare it with its checksum, when the programs
/// so far ended with the given exit codes.
pub open spec fn download_step(
    url: Seq<char>,
    checksum: Seq<char>,
    dest_dir: Seq<u8>,
    dest_filename: Seq<char>,
    codes: Seq<i32>,
) -> ArchiveStepSpec {
    match first_failure(codes) {
        Some((number, _)) => ArchiveStepSpec::Fail(
            if number == 0 {
                ArchiveFetchError::Download
            } else {
                ArchiveFetchError::ChecksumMismatch
            },
        ),
        None => if codes.len() == 0 {
            ArchiveStepSpec::Run(download_program(url, dest_dir, dest_filename))
        } else if codes.len() == 1 {
            ArchiveStepSpec::Run(checksum_program(checksum, dest_dir, dest_filename))
        } else {
            ArchiveStepSpec::Done
        },
    }
}

/// What to do next to download an archive and to compare it with its checksum, when the programs
/// so far ended with the given exit codes.
pub fn download_archive(
    url: &str,
    checksum: &str,
    dest_dir: &UnixPath,
    dest_filename: &str,
    codes: &Vec<i32>,
) -> (r: ArchiveStep)
    ensures
        r@ == download_step(url@, checksum@, dest_dir@, dest_filename@, codes@),
{
    match find_failure(codes) {
        Some((number, _)) => ArchiveStep::Fail(
            if number == 0 {
                ArchiveFetchError::Download
            } else {
                ArchiveFetchError::ChecksumMismatch
            },
        ),
        None => {
            if codes.len() > 1 {
                return ArchiveStep::Done;
            }
            let mut mounts: Vec<Mount> = Vec::new();
            mounts.push(bind("/chariot", dest_dir.copy(), false, false));
            assert(mounts_of(mounts@) =~= seq![bind_spec("/chariot"@, dest_dir@, false, false)]);
            let mut environment: NameMap<String> = empty_env();
            environment.set("ARCHIVE_PATH", join_names("/chariot", dest_filename).as_str());
            if codes.len() == 0 {
                environment.set("ARCHIVE_URL", url);
                ArchiveStep::Run(
                    plain_request(
                        "/",
                        mounts,
                        environment,
                        Script::bash(DOWNLOAD_SCRIPT).command(),
                        PkgSet::Wget,
                    ),
                )
            } else {
                environment.set("ARCHIVE_CHECKSUM", checksum);
                ArchiveStep::Run(
                    plain_request(
                        "/",
                        mounts,
                        environment,
                        Script::bash(CHECKSUM_SCRIPT).command(),
                        PkgSet::Sha256sum,
                    ),
                )
            }
        },
    }
}

// ---------------------------------------------------------------------------
// Extraction
// ---------------------------------------------------------------------------

/// The flag that names a compression to `bsdtar`.
pub open spec fn compression_flag(compression: ArchiveCompression) -> Seq<char> {
    match compression {
        ArchiveCompression::Gzip => "--gzip"@,
        ArchiveCompression::Xz => "--xz"@,
        ArchiveCompression::Bzip2 => "--bzip2"@,
    }
}

/// The mounts of the program that extracts an archive: the archive, which it may only read, and
/// the directory that the files go to.
pub open spec fn extract_mounts(src: Seq<u8>, dest: Seq<u8>) -> Seq<MountSpec> {
    seq![
        tmpfs_spec("/chariot"@),
        bind_spec("/chariot/source"@, src, true, true),
        bind_spec("/chariot/dest"@, dest, false, false),
    ]
}

/// The program that extracts an archive.
pub open spec fn extract_program(
    kind: ArchiveKind,
    compression: ArchiveCompression,
    src: Seq<u8>,
    dest: Seq<u8>,
) -> ExecSpec {
    match kind {
        ArchiveKind::Tar => plain_exec(
            "/"@,
            extract_mounts(src, dest),
            no_env(),
            command_line(
                ScriptLanguage::Bash,
                EXTRACT_START@ + compression_flag(compression) + EXTRACT_END@,
            ),
            PkgSet::Bsdtar,
        ),
    }
}

/// What to do next to extract an archive, when the programs so far ended with the given exit
/// codes.
pub open spec fn extract_step(
    kind: ArchiveKind,
    compression: ArchiveCompression,
    src: Seq<u8>,
    dest: Seq<u8>,
    codes: Seq<i32>,
) -> ArchiveStepSpec {
    match first_failure(codes) {
        Some(_) => ArchiveStepSpec::Fail(ArchiveFetchError::Extract),
        None => if codes.len() == 0 {
            ArchiveStepSpec::Run(extract_program(kind, compression, src, dest))
        } else {
            ArchiveStepSpec::Done
        },
    }
}

/// What to do next to extract an archive, when the programs so far ended with the given exit
/// codes.
pub fn extract_archive(
    kind: &ArchiveKind,
    compression: &ArchiveCompression,
    src: &UnixPath,
    dest: &UnixPath,
    codes: &Vec<i32>,
) -> (r: ArchiveStep)
    ensures
        r@ == extract_step(*kind, *compression, src@, dest@, codes@),
{
    match find_failure(codes) {
        Some(_) => ArchiveStep::Fail(ArchiveFetchError::Extract),
        None => {
            if codes.len() > 0 {
                return ArchiveStep::Done;
            }
            let flag: &'static str = match compression {
                ArchiveCompression::Gzip => "--gzip",
                ArchiveCompression::Xz => "--xz",
                ArchiveCompression::Bzip2 => "--bzip2",
            };
            let mut script: String = EXTRACT_START.to_string();
            script.append(flag);
            script.append(EXTRACT_END);
            let mut mounts: Vec<Mount> = Vec::new();
            mounts.push(tmpfs("/chariot"));
            mounts.push(bind("/chariot/source", src.copy(), true, true));
            mounts.push(bind("/chariot/dest", dest.copy(), false, false));
            assert(mounts_of(mounts@) =~= extract_mounts(src@, dest@));
            match kind {
                ArchiveKind::Tar => ArchiveStep::Run(
                    plain_request(
                        "/",
                        mounts,
                        empty_env(),
                        Script::bash(script.as_str()).command(),
                        PkgSet::Bsdtar,
                    ),
                ),
            }
        },
    }
}

// ---------------------------------------------------------------------------
// The whole
// ---------------------------------------------------------------------------

/// What has come back so far from fetching an archive.
#[derive(Debug)]
pub struct ArchiveReplies {
    /// the work directory for the archive
    pub download_dir: Option<UnixPath>,
    /// the exit codes of the programs that download it
    pub download_codes: Vec<i32>,
    /// the work directory for what is in it
    pub work_directory: Option<UnixPath>,
    /// the exit codes of the programs that extract it
    pub extract_codes: Vec<i32>,
}

/// What to do next to fetch an archive.
#[derive(Debug)]
pub enum FetchArchiveStep {
    /// make a work directory for the archive
    MakeDownloadDirectory,
    /// run a program that downloads the archive, and hand back its exit code
    Download(ExecRequest),
    /// make a work directory for what is in the archive
    MakeWorkDirectory,
    /// run a program that extracts the archive, and hand back its exit code
    Extract(ExecRequest),
    /// stop
    Fail(ArchiveFetchError),
    /// the files are in the second work directory
    Done,
}

/// [`FetchArchiveStep`] by its paths and texts.
pub enum FetchArchiveStepSpec {
    MakeDownloadDirectory,
    Download(ExecSpec),
    MakeWorkDirectory,
    Extract(ExecSpec),
    Fail(ArchiveFetchError),
    Done,
}

impl View for FetchArchiveStep {
    type V = FetchArchiveStepSpec;

    open spec fn view(&self) -> FetchArchiveStepSpec {
        match self {
            FetchArchiveStep::MakeDownloadDirectory => FetchArchiveStepSpec::MakeDownloadDirectory,
            FetchArchiveStep::Download(request) => FetchArchiveStepSpec::Download(request@),
            FetchArchiveStep::MakeWorkDirectory => FetchArchiveStepSpec::MakeWorkDirectory,
            FetchArchiveStep::Extract(request) => FetchArchiveStepSpec::Extract(request@),
            FetchArchiveStep::Fail(error) => FetchArchiveStepSpec::Fail(*error),
            FetchArchiveStep::Done => FetchArchiveStepSpec::Done,
        }
    }
}

/// What to do next to fetch an archive: it is downloaded and compared with its checksum first,
/// and extracted then.
pub open spec fn fetch_archive_step(
    archive: Archive,
    replies: ArchiveReplies,
) -> FetchArchiveStepSpec {
    match replies.download_dir {
        None => FetchArchiveStepSpec::MakeDownloadDirectory,
        Some(download_dir) => match download_step(
            archive.url@,
            archive.checksum@,
            download_dir@,
            ARCHIVE_NAME@,
            replies.download_codes@,
        ) {
            ArchiveStepSpec::Run(request) => FetchArchiveStepSpec::Download(request),
            ArchiveStepSpec::Fail(error) => FetchArchiveStepSpec::Fail(error),
            ArchiveStepSpec::Done => match replies.work_directory {
                None => FetchArchiveStepSpec::MakeWorkDirectory,
                Some(work_directory) => match extract_step(
                    archive.kind,
                    archive.compression,
                    join_path(download_dir@, path_of(ARCHIVE_NAME@)),
                    work_directory@,
                    replies.extract_codes@,
                ) {
                    ArchiveStepSpec::Run(request) => FetchArchiveStepSpec::Extract(request),
                    ArchiveStepSpec::Fail(error) => FetchArchiveStepSpec::Fail(error),
                    ArchiveStepSpec::Done => FetchArchiveStepSpec::Done,
                },
            },
        },
    }
}

/// What to do next to fetch an archive.
pub fn fetch_archive(archive: &Archive, replies: &ArchiveReplies) -> (r: FetchArchiveStep)
    ensures
        r@ == fetch_archive_step(*archive, *replies),
{
    let download_dir: &UnixPath = match &replies.download_dir {
        None => return FetchArchiveStep::MakeDownloadDirectory,
        Some(download_dir) => download_dir,
    };
    match download_archive(
        archive.url.as_str(),
        archive.checksum.as_str(),
        download_dir,
        ARCHIVE_NAME,
        &replies.download_codes,
    ) {
        ArchiveStep::Run(request) => return FetchArchiveStep::Download(request),
        ArchiveStep::Fail(error) => return FetchArchiveStep::Fail(error),
        ArchiveStep::Done => {},
    }
    let work_directory: &UnixPath = match &replies.work_directory {
        None => return FetchArchiveStep::MakeWorkDirectory,
        Some(work_directory) => work_directory,
    };
    match extract_archive(
        &archive.kind,
        &archive.compression,
        &download_dir.join(ARCHIVE_NAME),
        work_directory,
        &replies.extract_codes,
    ) {
        ArchiveStep::Run(request) => FetchArchiveStep::Extract(request),
        ArchiveStep::Fail(error) => FetchArchiveStep::Fail(error),
        ArchiveStep::Done => FetchArchiveStep::Done,
    }
}

// ---------------------------------------------------------------------------
// Laws
// ---------------------------------------------------------------------------

/// An archive is extracted only after it has been downloaded and has passed the comparison with
/// its checksum, and it counts as fetched only after it has been extracted, too.
pub proof fn lemma_checked_before_extracted(archive: Archive, replies: ArchiveReplies)
    ensures
        (fetch_archive_step(archive, replies) is Extract || fetch_archive_step(
            archive,
            replies,
        ) is Done) ==> {
            &&& replies.download_dir is Some
            &&& replies.download_codes@.len() >= 2
            &&& replies.download_codes@[0] == 0
            &&& replies.download_codes@[1] == 0
            &&& replies.work_directory is Some
        },
        fetch_archive_step(archive, replies) is Done ==> replies.extract_codes@.len() >= 1
            && replies.extract_codes@[0] == 0,
{
    lemma_first_failure(replies.download_codes@);
    lemma_first_failure(replies.extract_codes@);
}

/// An archive whose checksum is another one is never extracted, whatever else came back.
pub proof fn lemma_wrong_checksum_is_refused(archive: Archive, replies: ArchiveReplies)
    requires
        replies.download_dir is Some,
        replies.download_codes@.len() >= 2,
        replies.download_codes@[0] == 0,
        replies.download_codes@[1] != 0,
    ensures
        fetch_archive_step(archive, replies) == FetchArchiveStepSpec::Fail(
            ArchiveFetchError::ChecksumMismatch,
        ),
{
    lemma_first_failure(replies.download_codes@);
}

} // verus!
