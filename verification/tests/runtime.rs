//! The processes between the caller and the program.

use chariot::mount::{bind, overlay, tmpfs, Mount, MountKind, OverlayUpperDirectory};
use chariot::request::StderrTarget;
use chariot::runtime::{
    check_program_args, child, ensure_mountpoint, hand_on, init, program, runtime_execute_bare,
    stderr_dest, CallerAction, CallerEvent, ChildAction, FileKind, InitAction, MountFlags,
    MountpointStep, ProcessStatus, StderrDest, Stream,
};
use chariot::util::path::UnixPath;

fn path(text: &str) -> UnixPath {
    UnixPath::from_text(text)
}

fn as_text(path: &UnixPath) -> String {
    String::from_utf8(path.bytes.clone()).unwrap()
}

const TARGETS: [StderrTarget; 3] = [StderrTarget::Capture, StderrTarget::Discard, StderrTarget::Merge];

#[test]
fn errors_go_where_they_are_wanted() {
    assert_eq!(stderr_dest(true, StderrTarget::Capture), StderrDest::Pipe);
    assert_eq!(stderr_dest(false, StderrTarget::Capture), StderrDest::Pipe);
    assert_eq!(stderr_dest(true, StderrTarget::Merge), StderrDest::MergeWithStdout);
    assert_eq!(stderr_dest(false, StderrTarget::Merge), StderrDest::Null);
    assert_eq!(stderr_dest(true, StderrTarget::Discard), StderrDest::Null);
}

#[test]
fn streams_are_connected_to_pipes_that_are_there() {
    for stdout in [false, true] {
        for target in TARGETS {
            let streams = program(false, stdout, stderr_dest(stdout, target));
            assert_eq!(streams.stdin, Stream::Null);
            assert_eq!(streams.stdout == Stream::StdoutPipe, stdout);
            if streams.stderr == Stream::StdoutPipe {
                assert!(stdout);
            }
            assert_eq!(streams.stderr == Stream::StderrPipe, target == StderrTarget::Capture);
        }
    }
    assert_eq!(program(true, false, StderrDest::Null).stdin, Stream::Inherit);
}

#[test]
fn without_pipes_the_process_is_waited_for() {
    let next = |event| runtime_execute_bare(false, StderrTarget::Merge, event);
    assert_eq!(next(CallerEvent::Started), CallerAction::Wait);
    assert_eq!(next(CallerEvent::Waited(ProcessStatus::Exited(3))), CallerAction::Return(3));
    for status in [
        ProcessStatus::Signaled { signal: 9, core_dumped: false },
        ProcessStatus::Stopped(19),
        ProcessStatus::PtraceEvent { signal: 5, event: 1 },
        ProcessStatus::PtraceSyscall,
        ProcessStatus::Continued,
        ProcessStatus::StillAlive,
    ] {
        assert_eq!(next(CallerEvent::Waited(status)), CallerAction::InvalidWaitStatus(status));
    }
}

#[test]
fn with_pipes_the_output_is_copied_until_the_process_exits() {
    let next = |event| runtime_execute_bare(true, StderrTarget::Merge, event);
    assert_eq!(next(CallerEvent::Started), CallerAction::Look);
    assert_eq!(next(CallerEvent::Looked(ProcessStatus::StillAlive)), CallerAction::Poll);
    assert_eq!(next(CallerEvent::Looked(ProcessStatus::Exited(0))), CallerAction::Return(0));
    let killed = ProcessStatus::Signaled { signal: 11, core_dumped: true };
    assert_eq!(next(CallerEvent::Looked(killed)), CallerAction::InvalidWaitStatus(killed));
    let polled = |ready| CallerEvent::Polled {
        ready,
        stdout_readable: true,
        stderr_readable: true,
    };
    assert_eq!(next(polled(0)), CallerAction::Look);
    assert_eq!(
        next(polled(1)),
        CallerAction::Copy {
            stdout: true,
            stderr: false
        }
    );
    assert_eq!(
        runtime_execute_bare(false, StderrTarget::Capture, polled(1)),
        CallerAction::Copy {
            stdout: false,
            stderr: true
        }
    );
    assert_eq!(next(CallerEvent::Copied), CallerAction::Look);
}

#[test]
fn exit_codes_are_handed_on() {
    assert_eq!(hand_on(ProcessStatus::Exited(42)), Some(42));
    assert_eq!(hand_on(ProcessStatus::Continued), None);
    assert_eq!(hand_on(ProcessStatus::StillAlive), None);
}

#[test]
fn the_user_namespace_maps_one_user_and_one_group() {
    let actions = child(0, 5, 1000, 1001);
    assert_eq!(actions.len(), 7);
    assert!(matches!(actions[0], ChildAction::UnshareUser));
    let writes: Vec<(String, String)> = actions
        .iter()
        .filter_map(|a| match a {
            ChildAction::Write { path, text } => Some((path.to_string(), text.clone())),
            _ => None,
        })
        .collect();
    assert_eq!(
        writes,
        vec![
            ("/proc/self/setgroups".to_string(), "deny".to_string()),
            ("/proc/self/uid_map".to_string(), format!("{} {} 1", 0, 1000)),
            ("/proc/self/gid_map".to_string(), format!("{} {} 1", 5, 1001)),
        ]
    );
    assert!(matches!(actions[4], ChildAction::SetUid(0)));
    assert!(matches!(actions[5], ChildAction::SetGid(5)));
    assert!(matches!(actions[6], ChildAction::UnsharePid));
}

#[test]
fn places_for_mounts_are_made() {
    assert_eq!(ensure_mountpoint(true, None), MountpointStep::CreateFile);
    assert_eq!(ensure_mountpoint(false, None), MountpointStep::CreateDirectory);
    assert_eq!(ensure_mountpoint(true, Some(FileKind::File)), MountpointStep::Keep);
    assert_eq!(ensure_mountpoint(false, Some(FileKind::Directory)), MountpointStep::Keep);
    assert_eq!(ensure_mountpoint(true, Some(FileKind::Directory)), MountpointStep::ReplaceDirectory);
    assert_eq!(ensure_mountpoint(true, Some(FileKind::Other)), MountpointStep::ReplaceDirectory);
    assert_eq!(ensure_mountpoint(false, Some(FileKind::File)), MountpointStep::ReplaceFile);
    assert_eq!(ensure_mountpoint(false, Some(FileKind::Other)), MountpointStep::ReplaceFile);
}

fn describe(action: &InitAction) -> String {
    match action {
        InitAction::UnshareMounts => "unshare mounts".to_string(),
        InitAction::UnshareNetwork => "unshare network".to_string(),
        InitAction::MakeRootPrivate => "private".to_string(),
        InitAction::EnsureMountpoint { path, is_file } => format!("place {} {}", as_text(path), is_file),
        InitAction::Mount {
            from,
            dest,
            fstype,
            flags,
        } => format!(
            "mount {:?} {} {:?} {}",
            from.as_ref().map(as_text),
            as_text(dest),
            fstype,
            flag_text(flags)
        ),
        InitAction::MountOverlay { dest, overlay } => format!(
            "overlay {} {} {}",
            as_text(dest),
            overlay.lower_directories.len(),
            overlay.upper_directory.is_some()
        ),
        InitAction::ChangeDirectory(path) => format!("cd {}", as_text(path)),
        InitAction::PivotRoot => "pivot".to_string(),
        InitAction::DetachOldRoot => "detach".to_string(),
    }
}

fn flag_text(flags: &MountFlags) -> String {
    let mut out = String::new();
    for (set, letter) in [
        (flags.bind, 'b'),
        (flags.recursive, 'r'),
        (flags.remount, 'm'),
        (flags.read_only, 'o'),
    ] {
        if set {
            out.push(letter);
        }
    }
    out
}

#[test]
fn the_root_is_entered_after_everything_is_mounted() {
    let mounts = vec![
        tmpfs("/chariot"),
        bind("/chariot/source", path("/from"), true, false),
        bind("/chariot/file", path("/f"), false, true),
        overlay(
            "/chariot/o",
            vec![path("/l1"), path("/l2")],
            Some(OverlayUpperDirectory {
                upper_directory: path("/u"),
                work_directory: path("/w"),
            }),
        ),
        Mount {
            dest: path("/chariot"),
            kind: MountKind::Remount { readonly: true },
        },
        Mount {
            dest: path("/rw"),
            kind: MountKind::Remount { readonly: false },
        },
    ];
    let actions: Vec<String> = init(&path("/root"), true, &path("work"), &mounts).iter().map(describe).collect();
    assert_eq!(
        actions,
        vec![
            "unshare mounts",
            "unshare network",
            "private",
            "place /root/chariot false",
            "mount None /root/chariot Some(\"tmpfs\") ",
            "place /root/chariot/source false",
            "mount Some(\"/from\") /root/chariot/source None br",
            "mount None /root/chariot/source None bmo",
            "place /root/chariot/file true",
            "mount Some(\"/f\") /root/chariot/file None br",
            "place /root/chariot/o false",
            "overlay /root/chariot/o 2 true",
            "place /root/chariot false",
            "mount None /root/chariot None bmo",
            "place /root/rw false",
            "mount None /root/rw None bm",
            "cd /root",
            "pivot",
            "detach",
            "cd /work",
        ]
    );
    let shared: Vec<String> = init(&path("/root"), false, &path("/abs"), &vec![]).iter().map(describe).collect();
    assert_eq!(
        shared,
        vec!["unshare mounts", "private", "cd /root", "pivot", "detach", "cd /abs"]
    );
}

#[test]
fn arguments_can_be_handed_over() {
    assert!(!check_program_args(&vec![]));
    assert!(check_program_args(&vec!["bash".to_string(), "".to_string()]));
    assert!(!check_program_args(&vec!["bash".to_string(), "a\0b".to_string()]));
}
