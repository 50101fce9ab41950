//! Running programs: the processes in between see to it that a program finds what is mounted for it,
//! runs as the user that is wanted, and has its output go where it is wanted.

use crate::cli::progress::{last_line, latin_text, whole_lines, LINE_END};
use crate::mount::{MountKindSpec, MountSpec};
use crate::request::StderrTarget;
use crate::runtime::{
    all_mounts, caller_action, child_actions, entering, handed_on, init_actions, isolation,
    mountpoint_step, program_streams, stderr_dest_spec, whole_mount, CallerAction, CallerEvent, ChildActionSpec,
    FileKind, InitActionSpec, MountFlags, MountpointStep, ProcessStatus, Stream,
};
use crate::util::path::{join_path, path_of, path_within};
use crate::util::text::{decimal_text, lemma_split_not_empty};
use vstd::prelude::*;

verus! {

/// The streams of a program are connected to where they are wanted: errors that are captured go to their
/// own pipe, merged ones to where the output goes, and discarded ones nowhere.
pub proof fn lemma_streams_go_where_they_are_wanted(
    pipe_stdin: bool,
    stdout: bool,
    stderr: StderrTarget,
)
    ensures
        ({
            let streams = program_streams(pipe_stdin, stdout, stderr_dest_spec(stdout, stderr));
            &&& streams.stdin == (if pipe_stdin {
                Stream::Inherit
            } else {
                Stream::Null
            })
            &&& streams.stdout == (if stdout {
                Stream::StdoutPipe
            } else {
                Stream::Null
            })
            &&& stderr == StderrTarget::Capture ==> streams.stderr == Stream::StderrPipe
            &&& stderr == StderrTarget::Merge ==> streams.stderr == streams.stdout
            &&& stderr == StderrTarget::Discard ==> streams.stderr == Stream::Null
        }),
{
}

/// The caller of a program whose output goes nowhere waits for it; otherwise it looks at the process, and
/// as long as that lives it polls the pipes and reads from just those that are there and can be read. It
/// looks again after it has read, or when nothing was ready.
pub proof fn lemma_caller_reads_all_that_can_be_read(
    stdout: bool,
    stderr: StderrTarget,
    event: CallerEvent,
)
    ensures
        ({
            let action = caller_action(stdout, stderr, event);
            match event {
                CallerEvent::Started => action == (if stdout || stderr == StderrTarget::Capture {
                    CallerAction::Look
                } else {
                    CallerAction::Wait
                }),
                CallerEvent::Waited(status) => !(action is Look) && !(action is Wait)
                    && !(action is Poll) && !(action is Copy),
                CallerEvent::Looked(ProcessStatus::StillAlive) => action is Poll,
                CallerEvent::Looked(ProcessStatus::Exited(code)) => action
                    == CallerAction::Return(code),
                CallerEvent::Looked(status) => action == CallerAction::InvalidWaitStatus(status),
                CallerEvent::Polled { ready, stdout_readable, stderr_readable } => if ready == 0 {
                    action is Look
                } else {
                    action matches CallerAction::Copy { stdout: o, stderr: e } && (o <==> stdout
                        && stdout_readable) && (e <==> stderr == StderrTarget::Capture
                        && stderr_readable)
                },
                CallerEvent::Copied => action is Look,
            }
        }),
{
}

/// The process in the new user namespace becomes the user and the group that are wanted: they stand for
/// the user and the group of the caller outside, and no other is mapped. It enters the namespace first
/// of all, gives up setting groups before it maps its group, and maps both before it becomes them.
pub proof fn lemma_process_becomes_the_user(uid: u32, gid: u32, euid: u32, egid: u32)
    ensures
        ({
            let actions = child_actions(uid, gid, euid, egid);
            &&& actions[0] is UnshareUser
            &&& exists|a: int, b: int, c: int, d: int, e: int|
                #![trigger actions[a], actions[b], actions[c], actions[d], actions[e]]
                {
                    &&& 0 < a < c
                    &&& 0 < b < c
                    &&& c < d < actions.len()
                    &&& c < e < actions.len()
                    &&& b < d
                    &&& actions[a] == (ChildActionSpec::Write {
                        path: "/proc/self/setgroups"@,
                        text: "deny"@,
                    })
                    &&& actions[b] == (ChildActionSpec::Write {
                        path: "/proc/self/uid_map"@,
                        text: decimal_text(uid as nat) + " "@ + decimal_text(euid as nat) + " 1"@,
                    })
                    &&& actions[c] == (ChildActionSpec::Write {
                        path: "/proc/self/gid_map"@,
                        text: decimal_text(gid as nat) + " "@ + decimal_text(egid as nat) + " 1"@,
                    })
                    &&& actions[d] == ChildActionSpec::SetUid(uid)
                    &&& actions[e] == ChildActionSpec::SetGid(gid)
                }
            &&& actions.last() is UnsharePid
        }),
{
    let actions = child_actions(uid, gid, euid, egid);
    assert(actions[1] == (ChildActionSpec::Write {
        path: "/proc/self/setgroups"@,
        text: "deny"@,
    }));
    assert(actions[2] is Write);
    assert(actions[3] is Write);
    assert(actions[4] == ChildActionSpec::SetUid(uid));
    assert(actions[5] == ChildActionSpec::SetGid(gid));
}

proof fn lemma_mounts_in_order(root: Seq<u8>, mounts: Seq<MountSpec>, k: int)
    requires
        0 <= k < mounts.len(),
    ensures
        ({
            let at = all_mounts(root, mounts.take(k)).len() as int;
            let own = whole_mount(root, mounts[k]);
            &&& at + own.len() <= all_mounts(root, mounts).len()
            &&& all_mounts(root, mounts).subrange(at, at + own.len()) == own
        }),
    decreases mounts.len(),
{
    let front = mounts.drop_last();
    let all = all_mounts(root, mounts);
    let less = all_mounts(root, front);
    let at = all_mounts(root, mounts.take(k)).len() as int;
    let own = whole_mount(root, mounts[k]);
    if k < front.len() {
        lemma_mounts_in_order(root, front, k);
        assert(front.take(k) =~= mounts.take(k));
        assert(all.subrange(at, at + own.len()) =~= less.subrange(at, at + own.len()));
    } else {
        assert(mounts.take(k) =~= front);
        assert(all.subrange(at, at + own.len()) =~= own);
    }
}

/// Everything that is to be mounted is mounted, in its order, inside the root file system. First there is
/// made a place for it, and then it is mounted there: a file or directory of the host is bound, and closed
/// for writing if it may only be read; a fresh file system is made; directories are laid one over the
/// other; or what is there gets another access.
pub proof fn lemma_every_mount_is_made(
    root: Seq<u8>,
    network_isolation: bool,
    cwd: Seq<u8>,
    mounts: Seq<MountSpec>,
    k: int,
)
    requires
        0 <= k < mounts.len(),
    ensures
        ({
            let actions = init_actions(root, network_isolation, cwd, mounts);
            let at = (isolation(network_isolation).len() + all_mounts(
                root,
                mounts.take(k),
            ).len()) as int;
            let dest = path_within(root, mounts[k].dest);
            &&& at + 1 < actions.len()
            &&& actions[at] == (InitActionSpec::EnsureMountpoint {
                path: dest,
                is_file: match mounts[k].kind {
                    MountKindSpec::Bind { from, read_only, is_file } => is_file,
                    _ => false,
                },
            })
            &&& match mounts[k].kind {
                MountKindSpec::Bind { from, read_only, is_file } => {
                    &&& actions[at + 1] == (InitActionSpec::Mount {
                        from: Some(from),
                        dest,
                        fstype: None,
                        flags: MountFlags {
                            bind: true,
                            recursive: true,
                            remount: false,
                            read_only: false,
                        },
                    })
                    &&& read_only ==> at + 2 < actions.len() && actions[at + 2] == (
                    InitActionSpec::Mount {
                        from: None,
                        dest,
                        fstype: None,
                        flags: MountFlags {
                            bind: true,
                            recursive: false,
                            remount: true,
                            read_only: true,
                        },
                    })
                },
                MountKindSpec::Remount { readonly } => actions[at + 1] == (InitActionSpec::Mount {
                    from: None,
                    dest,
                    fstype: None,
                    flags: MountFlags {
                        bind: true,
                        recursive: false,
                        remount: true,
                        read_only: readonly,
                    },
                }),
                MountKindSpec::FS { fstype } => actions[at + 1] == (InitActionSpec::Mount {
                    from: None,
                    dest,
                    fstype: Some(fstype),
                    flags: MountFlags {
                        bind: false,
                        recursive: false,
                        remount: false,
                        read_only: false,
                    },
                }),
                MountKindSpec::OverlayFS { lower_directories, upper_directory } => actions[at + 1]
                    == (InitActionSpec::MountOverlay { dest, lower_directories, upper_directory }),
            }
        }),
{
    lemma_mounts_in_order(root, mounts, k);
    let actions = init_actions(root, network_isolation, cwd, mounts);
    let start = isolation(network_isolation).len() as int;
    let at = all_mounts(root, mounts.take(k)).len() as int;
    let own = whole_mount(root, mounts[k]);
    let middle = all_mounts(root, mounts);
    assert forall|j: int| 0 <= j < own.len() implies actions[start + at + j] == #[trigger] own[j] by {
        assert(middle.subrange(at, at + own.len())[j] == middle[at + j]);
    }
    assert(actions[start + at] == own[0]);
    assert(actions[start + at + 1] == own[1]);
    if let MountKindSpec::Bind { from, read_only, is_file } = mounts[k].kind {
        if read_only {
            assert(actions[start + at + 2] == own[2]);
        }
    }
}

/// The program runs in its root: after everything has been mounted the process goes to the root, makes it
/// its own, takes the old one away, and goes to the directory that the program is to run in, which is the
/// last thing that it does.
pub proof fn lemma_root_is_entered(
    root: Seq<u8>,
    network_isolation: bool,
    cwd: Seq<u8>,
    mounts: Seq<MountSpec>,
)
    ensures
        ({
            let actions = init_actions(root, network_isolation, cwd, mounts);
            let n = actions.len() as int;
            &&& n >= 6
            &&& actions[n - 4] == InitActionSpec::ChangeDirectory(root)
            &&& actions[n - 3] is PivotRoot
            &&& actions[n - 2] is DetachOldRoot
            &&& actions[n - 1] == InitActionSpec::ChangeDirectory(join_path(path_of("/"@), cwd))
        }),
{
    assert(entering(root, cwd).len() == 4);
}

/// What is at the place of a mount is left alone just if it is of the kind that the mount needs; where
/// there is nothing, something is made, and nothing is taken away.
pub proof fn lemma_fitting_place_is_left_alone(is_file: bool, existing: Option<FileKind>)
    ensures
        ({
            let step = mountpoint_step(is_file, existing);
            &&& step == MountpointStep::Keep <==> existing == Some(
                if is_file {
                    FileKind::File
                } else {
                    FileKind::Directory
                },
            )
            &&& existing is None ==> step == (if is_file {
                MountpointStep::CreateFile
            } else {
                MountpointStep::CreateDirectory
            })
            &&& existing is Some ==> step != MountpointStep::CreateFile && step
                != MountpointStep::CreateDirectory
        }),
{
}

/// A process in between hands on the exit code of the process below it, and nothing if that came to
/// another end.
pub proof fn lemma_exit_codes_are_handed_on(status: ProcessStatus)
    ensures
        handed_on(status) matches Some(code) ==> status == ProcessStatus::Exited(code),
        status is Exited ==> handed_on(status) is Some,
{
}

/// Lines, each with its end.
pub open spec fn with_ends(lines: Seq<Seq<u8>>) -> Seq<u8>
    decreases lines.len(),
{
    if lines.len() == 0 {
        Seq::empty()
    } else {
        with_ends(lines.drop_last()) + lines.last().push(LINE_END)
    }
}

/// Nothing that a program prints is lost or made up: the lines that have ended, each with its end, and
/// the one that has not are what was printed, and no line holds the end of another.
pub proof fn lemma_lines_are_what_was_printed(bytes: Seq<u8>)
    ensures
        with_ends(whole_lines(bytes)) + last_line(bytes) == bytes,
        forall|i: int| 0 <= i < whole_lines(bytes).len() ==> !(#[trigger] whole_lines(
            bytes,
        )[i]).contains(LINE_END),
        !last_line(bytes).contains(LINE_END),
    decreases bytes.len(),
{
    if bytes.len() == 0 {
        assert(with_ends(whole_lines(bytes)) + last_line(bytes) =~= bytes);
    } else {
        let front = bytes.drop_last();
        lemma_lines_are_what_was_printed(front);
        lemma_split_not_empty(front, LINE_END);
        let lines = whole_lines(front);
        let line = last_line(front);
        if bytes.last() == LINE_END {
            assert(whole_lines(bytes) =~= lines.push(line));
            assert(last_line(bytes) =~= Seq::<u8>::empty());
            assert(lines.push(line).drop_last() =~= lines);
            assert(with_ends(lines.push(line)) + last_line(bytes) =~= (with_ends(lines) + line).push(
                LINE_END,
            ));
            assert(front.push(LINE_END) =~= bytes);
        } else {
            assert(whole_lines(bytes) =~= lines);
            assert(last_line(bytes) =~= line.push(bytes.last()));
            assert(with_ends(lines) + last_line(bytes) =~= (with_ends(lines) + line).push(
                bytes.last(),
            ));
            assert(front.push(bytes.last()) =~= bytes);
            assert forall|i: int| 0 <= i < last_line(bytes).len() implies last_line(bytes)[i]
                != LINE_END by {
                if i < line.len() {
                    assert(line[i] != LINE_END);
                }
            }
        }
    }
}

/// A line is shown byte by byte.
pub proof fn lemma_lines_are_shown_as_they_are(line: Seq<u8>, i: int)
    requires
        0 <= i < line.len(),
    ensures
        latin_text(line).len() == line.len(),
        latin_text(line)[i] as u8 == line[i],
{
}

} // verus!
