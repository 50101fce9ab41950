//! Fetching sources.

use std::sync::Arc;

use chariot::config::script::{Script, BASH_PREPROCESS};
use chariot::config::source::{
    Archive, ArchiveCompression, ArchiveKind, GitSource, LocalSource, Source, SourceBase,
    SourcePrepare,
};
use chariot::config::{Dependencies, GlobalEnvironment};
use chariot::execenv_create::CreateExecEnvError;
use chariot::hashes::get_outcome_hash;
use chariot::mount::{MountKind, OverlayUpperDirectory};
use chariot::request::{find_failure, ExecRequest, PkgSet, StderrTarget};
use chariot::source::archive::{
    download_archive, extract_archive, fetch_archive, ArchiveFetchError, ArchiveReplies,
    ArchiveStep, FetchArchiveStep,
};
use chariot::source::fetch::{
    fetch_source, BaseOrder, SourceFetchError, SourceReplies, SourceSearch, SourceStage, SourceStep,
};
use chariot::source::git::{fetch_git_repository, GitFetchError, GitStep};
use chariot::store::Store;
use chariot::util::names::{NameMap, NameSet};
use chariot::util::path::UnixPath;

fn path(text: &str) -> UnixPath {
    UnixPath::from_text(text)
}

fn as_text(path: &UnixPath) -> String {
    String::from_utf8(path.bytes.clone()).unwrap()
}

fn variables(map: &NameMap<String>) -> Vec<(String, String)> {
    map.entries.clone()
}

fn pair(name: &str, value: &str) -> (String, String) {
    (name.to_string(), value.to_string())
}

fn bash(text: &str) -> Vec<String> {
    vec![
        "bash".to_string(),
        "-e".to_string(),
        "-c".to_string(),
        format!("{}{}", BASH_PREPROCESS, text),
    ]
}

fn assert_plain(request: &ExecRequest) {
    assert!(!request.stdin);
    assert_eq!(request.stderr, StderrTarget::Merge);
    assert!(request.root_writable);
    assert!(request.root_overlay.is_none());
    assert!(request.root_layers.is_empty());
}

#[test]
fn the_first_failure_counts() {
    assert_eq!(find_failure(&vec![]), None);
    assert_eq!(find_failure(&vec![0, 0]), None);
    assert_eq!(find_failure(&vec![0, 3, 0, 4]), Some((1, 3)));
}

fn git_source() -> GitSource {
    GitSource {
        url: "https://example.org/r.git".to_string(),
        revision: "v1".to_string(),
    }
}

fn git_step(codes: Vec<i32>) -> GitStep {
    fetch_git_repository(&git_source(), &path("/w"), &codes)
}

#[test]
fn a_revision_is_fetched_in_four_programs() {
    let url = pair("GIT_URL", "https://example.org/r.git");
    let rev = pair("GIT_REV", "v1");
    let expected = [
        (vec![rev.clone(), url.clone()], "ls-remote"),
        (vec![url], "git clone --depth=1 \"$GIT_URL\" ."),
        (vec![rev], "git fetch --depth=1 origin \"$GIT_REV\""),
        (vec![], "git checkout FETCH_HEAD"),
    ];
    for (done, (env, script)) in expected.iter().enumerate() {
        match git_step(vec![0; done]) {
            GitStep::Run(request) => {
                assert_plain(&request);
                assert_eq!(as_text(&request.cwd), "/chariot/source");
                assert_eq!(request.pkgset, PkgSet::Git);
                assert_eq!(&variables(&request.environment), env);
                assert!(request.args[3].contains(script));
                assert_eq!(request.mounts.len(), 2);
                assert_eq!(as_text(&request.mounts[0].dest), "/chariot");
                match &request.mounts[1].kind {
                    MountKind::Bind {
                        from,
                        read_only,
                        is_file,
                    } => {
                        assert_eq!(as_text(from), "/w");
                        assert!(!read_only && !is_file);
                    }
                    _ => panic!("not bound"),
                }
            }
            _ => panic!("nothing run"),
        }
    }
    assert!(matches!(git_step(vec![0; 4]), GitStep::Done));
}

#[test]
fn every_program_has_its_error() {
    let error = |codes: Vec<i32>| match git_step(codes) {
        GitStep::Fail(error) => error,
        _ => panic!("no error"),
    };
    assert_eq!(error(vec![67]), GitFetchError::RefIsHead);
    assert_eq!(error(vec![1]), GitFetchError::LsRemote);
    assert_eq!(error(vec![0, 67]), GitFetchError::Clone);
    assert_eq!(error(vec![0, 0, 1]), GitFetchError::Fetch);
    assert_eq!(error(vec![0, 0, 0, -1]), GitFetchError::Checkout);
    assert_eq!(error(vec![67, 0, 0, 0]), GitFetchError::RefIsHead);
}

#[test]
fn errors_of_fetching_in_words() {
    assert_eq!(GitFetchError::LsRemote.message(), "Git ls-remote failed");
    assert_eq!(GitFetchError::Clone.message(), "Git clone failed");
    assert_eq!(GitFetchError::Fetch.message(), "Git fetch failed");
    assert_eq!(GitFetchError::RefIsHead.message(), "Git revision is a branch");
    assert_eq!(GitFetchError::Checkout.message(), "Git checkout failed for source");
    assert_eq!(ArchiveFetchError::Download.message(), "Failed to download source archive");
    assert_eq!(ArchiveFetchError::ChecksumMismatch.message(), "Checksum validation for archive failed");
    assert_eq!(ArchiveFetchError::Extract.message(), "Failed to extract source archive");
    assert_eq!(SourceFetchError::Patch.message(), "Patch failed");
    assert_eq!(SourceFetchError::Prepare.message(), "Prepare failed");
    assert_eq!(SourceFetchError::Git(GitFetchError::Clone).message(), "Git clone failed");
    assert_eq!(
        SourceFetchError::Archive(ArchiveFetchError::Extract).message(),
        "Failed to extract source archive"
    );
}

#[test]
fn an_archive_is_downloaded_and_checked() {
    match download_archive("u", "c", &path("/d"), "archive", &vec![]) {
        ArchiveStep::Run(request) => {
            assert_plain(&request);
            assert_eq!(as_text(&request.cwd), "/");
            assert_eq!(request.pkgset, PkgSet::Wget);
            assert_eq!(
                variables(&request.environment),
                vec![pair("ARCHIVE_PATH", "/chariot/archive"), pair("ARCHIVE_URL", "u")]
            );
            assert_eq!(request.args, bash("wget --no-hsts -q -O \"$ARCHIVE_PATH\" \"$ARCHIVE_URL\""));
            assert_eq!(request.mounts.len(), 1);
            assert_eq!(as_text(&request.mounts[0].dest), "/chariot");
        }
        _ => panic!("nothing run"),
    }
    match download_archive("u", "c", &path("/d"), "/abs", &vec![0]) {
        ArchiveStep::Run(request) => {
            assert_eq!(request.pkgset, PkgSet::Sha256sum);
            assert_eq!(
                variables(&request.environment),
                vec![pair("ARCHIVE_CHECKSUM", "c"), pair("ARCHIVE_PATH", "/abs")]
            );
            assert_eq!(request.args, bash("echo \"$ARCHIVE_CHECKSUM  $ARCHIVE_PATH\n\" | sha256sum -c -"));
        }
        _ => panic!("nothing run"),
    }
    assert!(matches!(
        download_archive("u", "c", &path("/d"), "a", &vec![4]),
        ArchiveStep::Fail(ArchiveFetchError::Download)
    ));
    assert!(matches!(
        download_archive("u", "c", &path("/d"), "a", &vec![0, 1]),
        ArchiveStep::Fail(ArchiveFetchError::ChecksumMismatch)
    ));
    assert!(matches!(download_archive("u", "c", &path("/d"), "a", &vec![0, 0]), ArchiveStep::Done));
}

#[test]
fn an_archive_is_extracted_by_its_compression() {
    for (compression, flag) in [
        (ArchiveCompression::Gzip, "--gzip"),
        (ArchiveCompression::Xz, "--xz"),
        (ArchiveCompression::Bzip2, "--bzip2"),
    ] {
        match extract_archive(&ArchiveKind::Tar, &compression, &path("/a"), &path("/d"), &vec![]) {
            ArchiveStep::Run(request) => {
                assert_plain(&request);
                assert_eq!(request.pkgset, PkgSet::Bsdtar);
                assert!(request.environment.entries.is_empty());
                assert_eq!(
                    request.args,
                    bash(&format!(
                        "bsdtar --no-same-owner --strip-components 1 -x {} -C /chariot/dest -f /chariot/source",
                        flag
                    ))
                );
                assert!(matches!(
                    &request.mounts[1].kind,
                    MountKind::Bind { read_only: true, is_file: true, .. }
                ));
                assert!(matches!(
                    &request.mounts[2].kind,
                    MountKind::Bind { read_only: false, is_file: false, .. }
                ));
            }
            _ => panic!("nothing run"),
        }
        assert!(matches!(
            extract_archive(&ArchiveKind::Tar, &compression, &path("/a"), &path("/d"), &vec![2]),
            ArchiveStep::Fail(ArchiveFetchError::Extract)
        ));
        assert!(matches!(
            extract_archive(&ArchiveKind::Tar, &compression, &path("/a"), &path("/d"), &vec![0]),
            ArchiveStep::Done
        ));
    }
}

fn archive() -> Archive {
    Archive {
        url: "u".to_string(),
        checksum: "c".to_string(),
        kind: ArchiveKind::Tar,
        compression: ArchiveCompression::Xz,
    }
}

#[test]
fn an_archive_is_checked_before_it_is_extracted() {
    let mut replies = ArchiveReplies {
        download_dir: None,
        download_codes: vec![],
        work_directory: None,
        extract_codes: vec![],
    };
    let archive = archive();
    assert!(matches!(fetch_archive(&archive, &replies), FetchArchiveStep::MakeDownloadDirectory));
    replies.download_dir = Some(path("/d"));
    assert!(matches!(fetch_archive(&archive, &replies), FetchArchiveStep::Download(_)));
    replies.download_codes = vec![0];
    assert!(matches!(fetch_archive(&archive, &replies), FetchArchiveStep::Download(_)));
    replies.download_codes = vec![0, 1];
    assert!(matches!(
        fetch_archive(&archive, &replies),
        FetchArchiveStep::Fail(ArchiveFetchError::ChecksumMismatch)
    ));
    replies.download_codes = vec![0, 0];
    assert!(matches!(fetch_archive(&archive, &replies), FetchArchiveStep::MakeWorkDirectory));
    replies.work_directory = Some(path("/w"));
    match fetch_archive(&archive, &replies) {
        FetchArchiveStep::Extract(request) => match &request.mounts[1].kind {
            MountKind::Bind { from, .. } => assert_eq!(as_text(from), "/d/archive"),
            _ => panic!("not bound"),
        },
        _ => panic!("not extracted"),
    }
    replies.extract_codes = vec![0];
    assert!(matches!(fetch_archive(&archive, &replies), FetchArchiveStep::Done));
}

fn global_env() -> Arc<GlobalEnvironment> {
    let mut variables = NameMap::new();
    variables.set("GLOBAL", "g");
    variables.set("BOTH", "global");
    variables.set("SOURCE_DIR", "wrong");
    Arc::new(GlobalEnvironment {
        rootfs_manifest_hash: "m".to_string(),
        global_environment_variables: variables,
        global_native_packages: NameSet::new(),
        target_arch: "riscv64".to_string(),
        target_prefix: "/usr".to_string(),
    })
}

fn source(patches: &[&str], prepared: bool) -> Source {
    let mut own = NameMap::new();
    own.set("BOTH", "own");
    Source {
        base: SourceBase::Local(LocalSource {
            path: path("/src"),
            hash: 5,
        }),
        patches: patches.iter().map(|p| p.to_string()).collect(),
        prepare: if prepared {
            Some(SourcePrepare {
                global_env: global_env(),
                dependencies: Dependencies::default(),
                environment_variables: own,
                script: Script::bash("autoreconf"),
            })
        } else {
            None
        },
    }
}

fn no_replies() -> SourceReplies {
    SourceReplies {
        base_found: None,
        base_dir: None,
        base_stored: false,
        patch_found: None,
        patch_dirs: None,
        patch_codes: vec![],
        patch_stored: false,
        prepare_lookup: None,
        prepare_cached: None,
        deps_hash: None,
        prepare_found: None,
        prepare_dirs: None,
        prepare_code: None,
        prepare_stored: false,
        prepare_recorded: false,
    }
}

fn dirs(upper: &str, work: &str) -> OverlayUpperDirectory {
    OverlayUpperDirectory {
        upper_directory: path(upper),
        work_directory: path(work),
    }
}

fn store() -> Store {
    Store::get(path("/s"))
}

#[test]
fn a_known_source_is_only_searched() {
    let source = source(&["p"], true);
    let store = store();
    let mut replies = no_replies();
    let base = source.get_base_hash();
    let patch = source.get_patch_hash(base);
    assert!(matches!(
        fetch_source(&store, &source, &replies),
        SourceStep::Find { search: SourceSearch::Base, category: "source.base", hash } if hash == base
    ));
    replies.base_found = Some(true);
    assert!(matches!(
        fetch_source(&store, &source, &replies),
        SourceStep::Find { search: SourceSearch::Patches, category: "source.patch", hash } if hash == patch
    ));
    replies.patch_found = Some(true);
    assert!(matches!(
        fetch_source(&store, &source, &replies),
        SourceStep::Lookup { category: "source.prepare", hash } if hash == source.get_hash()
    ));
    replies.prepare_lookup = Some(Some(77));
    assert!(matches!(
        fetch_source(&store, &source, &replies),
        SourceStep::Find { search: SourceSearch::KnownPreparation, category: "source.prepare", hash: 77 }
    ));
    replies.prepare_cached = Some(true);
    match fetch_source(&store, &source, &replies) {
        SourceStep::Done(entries) => {
            assert_eq!(entries, vec![("source.base", base), ("source.patch", patch), ("source.prepare", 77)])
        }
        _ => panic!("not done"),
    }
}

#[test]
fn a_base_is_fetched_and_put_into_the_store() {
    let source = source(&[], false);
    let store = store();
    let mut replies = no_replies();
    replies.base_found = Some(false);
    assert!(matches!(fetch_source(&store, &source, &replies), SourceStep::FetchBase(_)));
    replies.base_dir = Some(Err(SourceFetchError::Git(GitFetchError::Clone)));
    assert!(matches!(
        fetch_source(&store, &source, &replies),
        SourceStep::Fail(SourceFetchError::Git(GitFetchError::Clone))
    ));
    replies.base_dir = Some(Ok(path("/w/1")));
    match fetch_source(&store, &source, &replies) {
        SourceStep::Put { from, category, hash, .. } => {
            assert_eq!(as_text(&from), "/w/1");
            assert_eq!(category, "source.base");
            assert_eq!(hash, source.get_base_hash());
        }
        _ => panic!("nothing put"),
    }
    replies.base_stored = true;
    match fetch_source(&store, &source, &replies) {
        SourceStep::Done(entries) => assert_eq!(entries, vec![("source.base", source.get_base_hash())]),
        _ => panic!("not done"),
    }
}

#[test]
fn patches_are_applied_one_after_the_other() {
    let source = source(&["first", "second"], false);
    let store = store();
    let mut replies = no_replies();
    replies.base_found = Some(true);
    replies.patch_found = Some(false);
    assert!(matches!(fetch_source(&store, &source, &replies), SourceStep::MakePatchDirectories));
    replies.patch_dirs = Some(dirs("/w/1", "/w/2"));
    for (done, patch) in ["first", "second"].iter().enumerate() {
        replies.patch_codes = vec![0; done];
        match fetch_source(&store, &source, &replies) {
            SourceStep::Run(request) => {
                assert_plain(&request);
                assert_eq!(request.pkgset, PkgSet::Patch);
                assert_eq!(variables(&request.environment), vec![pair("CHARIOT_PATCH", patch)]);
                assert_eq!(request.args, bash("echo \"$CHARIOT_PATCH\" | patch -p1"));
                assert_eq!(as_text(&request.cwd), "/chariot/source");
                match &request.mounts[0].kind {
                    MountKind::OverlayFS(overlay) => {
                        let lower: Vec<String> = overlay.lower_directories.iter().map(as_text).collect();
                        assert_eq!(lower, vec![format!("/s/source.base-{:x}", source.get_base_hash())]);
                        let upper = overlay.upper_directory.as_ref().unwrap();
                        assert_eq!(as_text(&upper.upper_directory), "/w/1");
                        assert_eq!(as_text(&upper.work_directory), "/w/2");
                    }
                    _ => panic!("no overlay"),
                }
            }
            _ => panic!("nothing run"),
        }
    }
    replies.patch_codes = vec![0, 1];
    assert!(matches!(
        fetch_source(&store, &source, &replies),
        SourceStep::Fail(SourceFetchError::Patch)
    ));
    replies.patch_codes = vec![0, 0];
    assert!(matches!(
        fetch_source(&store, &source, &replies),
        SourceStep::Put { stage: SourceStage::Patches, category: "source.patch", .. }
    ));
    replies.patch_stored = true;
    assert!(matches!(fetch_source(&store, &source, &replies), SourceStep::Done(entries) if entries.len() == 2));
}

#[test]
fn a_preparation_is_run_stored_and_recorded() {
    let source = source(&["p"], true);
    let store = store();
    let mut replies = no_replies();
    replies.base_found = Some(true);
    replies.patch_found = Some(true);
    replies.prepare_lookup = Some(None);
    assert!(matches!(fetch_source(&store, &source, &replies), SourceStep::MakeEnvironment(_)));
    replies.deps_hash = Some(Ok(9));
    let base = source.get_base_hash();
    let patch = source.get_patch_hash(base);
    let effective = get_outcome_hash(source.get_prepare_base_hash(patch), 9);
    assert!(matches!(
        fetch_source(&store, &source, &replies),
        SourceStep::Find { search: SourceSearch::Preparation, category: "source.prepare", hash } if hash == effective
    ));
    replies.prepare_found = Some(false);
    assert!(matches!(fetch_source(&store, &source, &replies), SourceStep::MakePrepareDirectories));
    replies.prepare_dirs = Some(dirs("/w/3", "/w/4"));
    match fetch_source(&store, &source, &replies) {
        SourceStep::RunInEnvironment(request) => {
            assert_eq!(as_text(&request.cwd), "/chariot/source");
            assert_eq!(
                variables(&request.environment),
                vec![pair("BOTH", "own"), pair("GLOBAL", "g"), pair("SOURCE_DIR", "/chariot/source")]
            );
            assert_eq!(request.args, bash("autoreconf"));
            assert!(!request.stdin);
            assert_eq!(request.stderr, StderrTarget::Merge);
            match &request.mounts[0].kind {
                MountKind::OverlayFS(overlay) => {
                    let lower: Vec<String> = overlay.lower_directories.iter().map(as_text).collect();
                    assert_eq!(
                        lower,
                        vec![format!("/s/source.base-{:x}", base), format!("/s/source.patch-{:x}", patch)]
                    );
                }
                _ => panic!("no overlay"),
            }
        }
        _ => panic!("nothing run"),
    }
    replies.prepare_code = Some(2);
    assert!(matches!(
        fetch_source(&store, &source, &replies),
        SourceStep::Fail(SourceFetchError::Prepare)
    ));
    replies.prepare_code = Some(0);
    match fetch_source(&store, &source, &replies) {
        SourceStep::Put { from, category, hash, .. } => {
            assert_eq!(as_text(&from), "/w/3");
            assert_eq!((category, hash), ("source.prepare", effective));
        }
        _ => panic!("nothing put"),
    }
    replies.prepare_stored = true;
    match fetch_source(&store, &source, &replies) {
        SourceStep::Record {
            category,
            hash,
            effective_hash,
        } => {
            assert_eq!((category, hash, effective_hash), ("source.prepare", source.get_hash(), effective));
        }
        _ => panic!("nothing recorded"),
    }
    replies.prepare_recorded = true;
    match fetch_source(&store, &source, &replies) {
        SourceStep::Done(entries) => assert_eq!(entries[2], ("source.prepare", effective)),
        _ => panic!("not done"),
    }
}

#[test]
fn what_the_ledger_has_but_the_store_lost_is_made_anew() {
    let source = source(&[], true);
    let mut replies = no_replies();
    replies.base_found = Some(true);
    replies.prepare_lookup = Some(Some(3));
    replies.prepare_cached = Some(false);
    assert!(matches!(fetch_source(&store(), &source, &replies), SourceStep::MakeEnvironment(_)));
    replies.deps_hash = Some(Ok(1));
    replies.prepare_found = Some(true);
    assert!(matches!(fetch_source(&store(), &source, &replies), SourceStep::Record { .. }));
}

#[test]
fn the_base_is_fetched_as_it_says() {
    let mut replies = no_replies();
    replies.note_found(SourceSearch::Base, false);
    let mut source = source(&[], false);
    source.base = SourceBase::Archive(Archive {
        url: "u".to_string(),
        checksum: "c".to_string(),
        kind: ArchiveKind::Tar,
        compression: ArchiveCompression::Gzip,
    });
    match fetch_source(&store(), &source, &replies) {
        SourceStep::FetchBase(BaseOrder::Archive(archive)) => {
            assert_eq!((archive.url.as_str(), archive.checksum.as_str()), ("u", "c"));
            assert!(matches!(archive.compression, ArchiveCompression::Gzip));
        }
        _ => panic!("no archive"),
    }
    source.base = SourceBase::Git(GitSource {
        url: "g".to_string(),
        revision: "r".to_string(),
    });
    match fetch_source(&store(), &source, &replies) {
        SourceStep::FetchBase(BaseOrder::Git(git)) => assert_eq!((git.url.as_str(), git.revision.as_str()), ("g", "r")),
        _ => panic!("no repository"),
    }
    source.base = SourceBase::Local(LocalSource {
        path: path("/here"),
        hash: 5,
    });
    match fetch_source(&store(), &source, &replies) {
        SourceStep::FetchBase(BaseOrder::Local(from)) => assert_eq!(as_text(&from), "/here"),
        _ => panic!("no directory"),
    }
}

#[test]
fn an_environment_for_a_preparation_can_fail() {
    let mut source = source(&[], true);
    if let Some(prepare) = &mut source.prepare {
        prepare.dependencies.native.insert("cmake".to_string());
    }
    let mut replies = no_replies();
    replies.note_found(SourceSearch::Base, false);
    replies.base_dir = Some(Ok(path("/w/1")));
    replies.note_stored(SourceStage::Base);
    replies.prepare_lookup = Some(Some(3));
    replies.note_found(SourceSearch::KnownPreparation, false);
    match fetch_source(&store(), &source, &replies) {
        SourceStep::MakeEnvironment(order) => {
            assert!(order.root_native.is_none());
            assert!(order.dependencies.native.contains("cmake"));
        }
        _ => panic!("no environment"),
    }
    replies.deps_hash = Some(Err(Arc::new(CreateExecEnvError::FetchSource {
        name: "inner".to_string(),
        source: SourceFetchError::Patch,
    })));
    match fetch_source(&store(), &source, &replies) {
        SourceStep::Fail(error) => {
            assert_eq!(error.message(), "Failed to fetch source `inner`");
            assert_eq!(error.copy().message(), error.message());
            assert!(matches!(error, SourceFetchError::ResolveDependencies(_)));
        }
        _ => panic!("no error"),
    }
}
