//! Running a program in a root file system of its own: what the processes that stand between the
//! caller and the program do, and in which order.

use crate::mount::{
    copy_paths, copy_upper, mounts_of, upper_of, Mount, MountKind, MountKindSpec, MountSpec,
    Overlay, UpperSpec,
};
use crate::request::StderrTarget;
use crate::store::path_bytes;
use crate::util::path::{
    join_path, path_of, path_option, path_within, relative_rootfs_path, UnixPath,
};
use crate::util::text::{chars_of, decimal, decimal_text, texts};
use vstd::prelude::*;

verus! {

// ---------------------------------------------------------------------------
// The caller's side
// ---------------------------------------------------------------------------

/// Where the errors that the program prints go.
#[derive(Debug, Clone, Copy, PartialEq, Eq, Structural)]
pub enum StderrDest {
    /// to a pipe of their own
    Pipe,
    /// to the pipe of the other output
    MergeWithStdout,
    /// nowhere
    Null,
}

/// There is a pipe for the errors just when they are to be captured.
pub open spec fn stderr_piped(stderr: StderrTarget) -> bool {
    stderr == StderrTarget::Capture
}

/// Where the errors go: captured ones to their own pipe, merged ones to the pipe of the other
/// output if there is one, all others nowhere.
pub open spec fn stderr_dest_spec(stdout: bool, stderr: StderrTarget) -> StderrDest {
    match stderr {
        StderrTarget::Capture => StderrDest::Pipe,
        StderrTarget::Merge => if stdout {
            StderrDest::MergeWithStdout
        } else {
            StderrDest::Null
        },
        StderrTarget::Discard => StderrDest::Null,
    }
}

/// Where the errors go, if the other output is wanted or not.
pub fn stderr_dest(stdout: bool, stderr: StderrTarget) -> (r: StderrDest)
    ensures
        r == stderr_dest_spec(stdout, stderr),
{
    match stderr {
        StderrTarget::Capture => StderrDest::Pipe,
        StderrTarget::Merge => if stdout {
            StderrDest::MergeWithStdout
        } else {
            StderrDest::Null
        },
        StderrTarget::Discard => StderrDest::Null,
    }
}

/// What is known of a process.
#[derive(Debug, Clone, Copy, PartialEq, Eq, Structural)]
pub enum ProcessStatus {
    StillAlive,
    Exited(i32),
    /// it was ended by a signal
    Signaled { signal: i32, core_dumped: bool },
    /// it was stopped by a signal
    Stopped(i32),
    /// it was stopped by an event that is traced
    PtraceEvent { signal: i32, event: i32 },
    /// it was stopped at a system call that is traced
    PtraceSyscall,
    /// it went on
    Continued,
}

/// What has happened last on the caller's side.
#[derive(Debug, Clone, Copy, PartialEq, Eq, Structural)]
pub enum CallerEvent {
    /// the process has been started
    Started,
    /// the process has been waited for
    Waited(ProcessStatus),
    /// the process has been looked at
    Looked(ProcessStatus),
    /// the pipes have been polled: so many are ready, and these can be read
    Polled { ready: i32, stdout_readable: bool, stderr_readable: bool },
    /// what could be read has been read and written on
    Copied,
}

/// What to do next on the caller's side.
#[derive(Debug, Clone, Copy, PartialEq, Eq, Structural)]
pub enum CallerAction {
    /// wait for the process
    Wait,
    /// look at the process without waiting
    Look,
    /// poll the pipes for a while
    Poll,
    /// read once from the given pipes, that of the output first, and write on what came
    Copy { stdout: bool, stderr: bool },
    /// the program ended with this exit code
    Return(i32),
    /// the process came to another end than by exiting: this one
    InvalidWaitStatus(ProcessStatus),
}

/// What to do next on the caller's side. Without pipes the process is waited for; with pipes, it is
/// looked at and its output is copied in turn, until it has exited.
pub open spec fn caller_action(
    stdout: bool,
    stderr: StderrTarget,
    event: CallerEvent,
) -> CallerAction {
    match event {
        CallerEvent::Started => if stdout || stderr_piped(stderr) {
            CallerAction::Look
        } else {
            CallerAction::Wait
        },
        CallerEvent::Waited(ProcessStatus::Exited(code)) => CallerAction::Return(code),
        CallerEvent::Waited(status) => CallerAction::InvalidWaitStatus(status),
        CallerEvent::Looked(ProcessStatus::StillAlive) => CallerAction::Poll,
        CallerEvent::Looked(ProcessStatus::Exited(code)) => CallerAction::Return(code),
        CallerEvent::Looked(status) => CallerAction::InvalidWaitStatus(status),
        CallerEvent::Polled { ready, stdout_readable, stderr_readable } => if ready == 0 {
            CallerAction::Look
        } else {
            CallerAction::Copy {
                stdout: stdout && stdout_readable,
                stderr: stderr_piped(stderr) && stderr_readable,
            }
        },
        CallerEvent::Copied => CallerAction::Look,
    }
}

/// What to do next on the caller's side of a program whose output is wanted or not, and whose errors
/// go to the given place.
pub fn runtime_execute_bare(stdout: bool, stderr: StderrTarget, event: CallerEvent) -> (r:
    CallerAction)
    ensures
        r == caller_action(stdout, stderr, event),
{
    let stderr_pipe: bool = match stderr {
        StderrTarget::Capture => true,
        StderrTarget::Discard | StderrTarget::Merge => false,
    };
    match event {
        CallerEvent::Started => if stdout || stderr_pipe {
            CallerAction::Look
        } else {
            CallerAction::Wait
        },
        CallerEvent::Waited(ProcessStatus::Exited(code)) => CallerAction::Return(code),
        CallerEvent::Waited(status) => CallerAction::InvalidWaitStatus(status),
        CallerEvent::Looked(ProcessStatus::StillAlive) => CallerAction::Poll,
        CallerEvent::Looked(ProcessStatus::Exited(code)) => CallerAction::Return(code),
        CallerEvent::Looked(status) => CallerAction::InvalidWaitStatus(status),
        CallerEvent::Polled { ready, stdout_readable, stderr_readable } => if ready == 0 {
            CallerAction::Look
        } else {
            CallerAction::Copy {
                stdout: stdout && stdout_readable,
                stderr: stderr_pipe && stderr_readable,
            }
        },
        CallerEvent::Copied => CallerAction::Look,
    }
}

/// The exit code that a process that stands in between hands on, or none if there is nothing to
/// hand on.
pub open spec fn handed_on(status: ProcessStatus) -> Option<i32> {
    match status {
        ProcessStatus::Exited(code) => Some(code),
        _ => None,
    }
}

/// The exit code that a process that stands in between hands on.
pub fn hand_on(status: ProcessStatus) -> (r: Option<i32>)
    ensures
        r == handed_on(status),
{
    match status {
        ProcessStatus::Exited(code) => Some(code),
        _ => None,
    }
}

// ---------------------------------------------------------------------------
// The process in the new user namespace
// ---------------------------------------------------------------------------

/// What the process in the new user namespace does.
#[derive(Debug)]
pub enum ChildAction {
    /// enter a new user namespace
    UnshareUser,
    /// write a text to a file
    Write { path: &'static str, text: String },
    SetUid(u32),
    SetGid(u32),
    /// let the next process be the first in a new namespace of processes
    UnsharePid,
}

/// [`ChildAction`] by its texts.
pub enum ChildActionSpec {
    UnshareUser,
    Write { path: Seq<char>, text: Seq<char> },
    SetUid(u32),
    SetGid(u32),
    UnsharePid,
}

impl View for ChildAction {
    type V = ChildActionSpec;

    open spec fn view(&self) -> ChildActionSpec {
        match self {
            ChildAction::UnshareUser => ChildActionSpec::UnshareUser,
            ChildAction::Write { path, text } => ChildActionSpec::Write {
                path: path@,
                text: text@,
            },
            ChildAction::SetUid(uid) => ChildActionSpec::SetUid(*uid),
            ChildAction::SetGid(gid) => ChildActionSpec::SetGid(*gid),
            ChildAction::UnsharePid => ChildActionSpec::UnsharePid,
        }
    }
}

/// Actions by their texts.
pub open spec fn child_actions_of(s: Seq<ChildAction>) -> Seq<ChildActionSpec> {
    s.map_values(|a: ChildAction| a@)
}

/// The line that maps one number inside a user namespace to one outside.
pub open spec fn id_map(inside: nat, outside: nat) -> Seq<char> {
    decimal_text(inside) + " "@ + decimal_text(outside) + " 1"@
}

/// What the process in the new user namespace does, one after the other.
pub open spec fn child_actions(uid: u32, gid: u32, euid: u32, egid: u32) -> Seq<ChildActionSpec> {
    seq![
        ChildActionSpec::UnshareUser,
        ChildActionSpec::Write { path: "/proc/self/setgroups"@, text: "deny"@ },
        ChildActionSpec::Write {
            path: "/proc/self/uid_map"@,
            text: id_map(uid as nat, euid as nat),
        },
        ChildActionSpec::Write {
            path: "/proc/self/gid_map"@,
            text: id_map(gid as nat, egid as nat),
        },
        ChildActionSpec::SetUid(uid),
        ChildActionSpec::SetGid(gid),
        ChildActionSpec::UnsharePid,
    ]
}

fn format_id_map(inside: u32, outside: u32) -> (r: String)
    ensures
        r@ == id_map(inside as nat, outside as nat),
{
    let mut out: String = decimal(inside as u128);
    out.append(" ");
    out.append(decimal(outside as u128).as_str());
    out.append(" 1");
    out
}

/// What the process in the new user namespace does, one after the other, so that it runs as the
/// given user and group there, while it runs as `euid` and `egid` outside.
pub fn child(uid: u32, gid: u32, euid: u32, egid: u32) -> (r: Vec<ChildAction>)
    ensures
        child_actions_of(r@) == child_actions(uid, gid, euid, egid),
{
    let mut actions: Vec<ChildAction> = Vec::new();
    actions.push(ChildAction::UnshareUser);
    actions.push(
        ChildAction::Write { path: "/proc/self/setgroups", text: "deny".to_string() },
    );
    actions.push(
        ChildAction::Write { path: "/proc/self/uid_map", text: format_id_map(uid, euid) },
    );
    actions.push(
        ChildAction::Write { path: "/proc/self/gid_map", text: format_id_map(gid, egid) },
    );
    actions.push(ChildAction::SetUid(uid));
    actions.push(ChildAction::SetGid(gid));
    actions.push(ChildAction::UnsharePid);
    assert(child_actions_of(actions@) =~= child_actions(uid, gid, euid, egid));
    actions
}

// ---------------------------------------------------------------------------
// The first process in the root file system
// ---------------------------------------------------------------------------

/// What is to be removed where something is to be mounted.
#[derive(Debug, Clone, Copy, PartialEq, Eq, Structural)]
pub enum FileKind {
    File,
    Directory,
    Other,
}

/// How to make a place for a mount.
#[derive(Debug, Clone, Copy, PartialEq, Eq, Structural)]
pub enum MountpointStep {
    /// it is there already
    Keep,
    /// take away the directory that is there, and make a file in its place
    ReplaceDirectory,
    /// take away what is there, and make a directory in its place
    ReplaceFile,
    /// make a file, and the directories that it is in
    CreateFile,
    /// make a directory, and the directories that it is in
    CreateDirectory,
}

/// How to make a place for a mount: a file is mounted on a file, everything else on a directory.
pub open spec fn mountpoint_step(is_file: bool, existing: Option<FileKind>) -> MountpointStep {
    match existing {
        None => if is_file {
            MountpointStep::CreateFile
        } else {
            MountpointStep::CreateDirectory
        },
        Some(kind) => if is_file && kind != FileKind::File {
            MountpointStep::ReplaceDirectory
        } else if !is_file && kind != FileKind::Directory {
            MountpointStep::ReplaceFile
        } else {
            MountpointStep::Keep
        },
    }
}

/// How to make a place for a mount of a file or of something else, where something is already or
/// not.
pub fn ensure_mountpoint(is_file: bool, existing: Option<FileKind>) -> (r: MountpointStep)
    ensures
        r == mountpoint_step(is_file, existing),
{
    match existing {
        None => if is_file {
            MountpointStep::CreateFile
        } else {
            MountpointStep::CreateDirectory
        },
        Some(kind) => if is_file && kind != FileKind::File {
            MountpointStep::ReplaceDirectory
        } else if !is_file && kind != FileKind::Directory {
            MountpointStep::ReplaceFile
        } else {
            MountpointStep::Keep
        },
    }
}

/// How something is mounted.
#[derive(Debug, Clone, Copy, PartialEq, Eq, Structural)]
pub struct MountFlags {
    pub bind: bool,
    pub recursive: bool,
    pub remount: bool,
    pub read_only: bool,
}

/// What the first process in the root file system does.
#[derive(Debug)]
pub enum InitAction {
    /// enter a new namespace of mounts
    UnshareMounts,
    /// enter a new namespace of networks
    UnshareNetwork,
    /// let no mount be seen outside
    MakeRootPrivate,
    /// make a place for a mount
    EnsureMountpoint { path: UnixPath, is_file: bool },
    /// mount
    Mount { from: Option<UnixPath>, dest: UnixPath, fstype: Option<String>, flags: MountFlags },
    /// mount directories laid one over the other
    MountOverlay { dest: UnixPath, overlay: Overlay },
    /// go to a directory
    ChangeDirectory(UnixPath),
    /// let the current directory be the root
    PivotRoot,
    /// take the old root away
    DetachOldRoot,
}

/// [`InitAction`] by its paths and texts.
pub enum InitActionSpec {
    UnshareMounts,
    UnshareNetwork,
    MakeRootPrivate,
    EnsureMountpoint { path: Seq<u8>, is_file: bool },
    Mount { from: Option<Seq<u8>>, dest: Seq<u8>, fstype: Option<Seq<char>>, flags: MountFlags },
    MountOverlay {
        dest: Seq<u8>,
        lower_directories: Seq<Seq<u8>>,
        upper_directory: Option<UpperSpec>,
    },
    ChangeDirectory(Seq<u8>),
    PivotRoot,
    DetachOldRoot,
}

/// A text that may be absent.
pub open spec fn text_option(text: Option<String>) -> Option<Seq<char>> {
    match text {
        None => None,
        Some(text) => Some(text@),
    }
}

impl View for InitAction {
    type V = InitActionSpec;

    open spec fn view(&self) -> InitActionSpec {
        match self {
            InitAction::UnshareMounts => InitActionSpec::UnshareMounts,
            InitAction::UnshareNetwork => InitActionSpec::UnshareNetwork,
            InitAction::MakeRootPrivate => InitActionSpec::MakeRootPrivate,
            InitAction::EnsureMountpoint { path, is_file } => InitActionSpec::EnsureMountpoint {
                path: path@,
                is_file: *is_file,
            },
            InitAction::Mount { from, dest, fstype, flags } => InitActionSpec::Mount {
                from: path_option(*from),
                dest: dest@,
                fstype: text_option(*fstype),
                flags: *flags,
            },
            InitAction::MountOverlay { dest, overlay } => InitActionSpec::MountOverlay {
                dest: dest@,
                lower_directories: path_bytes(overlay.lower_directories@),
                upper_directory: upper_of(overlay.upper_directory),
            },
            InitAction::ChangeDirectory(path) => InitActionSpec::ChangeDirectory(path@),
            InitAction::PivotRoot => InitActionSpec::PivotRoot,
            InitAction::DetachOldRoot => InitActionSpec::DetachOldRoot,
        }
    }
}

/// Actions by their paths and texts.
pub open spec fn init_actions_of(s: Seq<InitAction>) -> Seq<InitActionSpec> {
    s.map_values(|a: InitAction| a@)
}

/// Something else than a directory is to be mounted.
pub open spec fn mounts_file(kind: MountKindSpec) -> bool {
    match kind {
        MountKindSpec::Bind { from, read_only, is_file } => is_file,
        _ => false,
    }
}

/// What is done for a mount once there is a place for it: all paths are taken inside the root file
/// system. A mount that may only be read is mounted first and closed for writing then.
pub open spec fn mount_actions(dest: Seq<u8>, kind: MountKindSpec) -> Seq<InitActionSpec> {
    match kind {
        MountKindSpec::Bind { from, read_only, is_file } => {
            let first = InitActionSpec::Mount {
                from: Some(from),
                dest,
                fstype: None,
                flags: MountFlags {
                    bind: true,
                    recursive: true,
                    remount: false,
                    read_only: false,
                },
            };
            if read_only {
                seq![first, remount_action(dest, true)]
            } else {
                seq![first]
            }
        },
        MountKindSpec::Remount { readonly } => seq![remount_action(dest, readonly)],
        MountKindSpec::FS { fstype } => seq![
            InitActionSpec::Mount {
                from: None,
                dest,
                fstype: Some(fstype),
                flags: MountFlags {
                    bind: false,
                    recursive: false,
                    remount: false,
                    read_only: false,
                },
            },
        ],
        MountKindSpec::OverlayFS { lower_directories, upper_directory } => seq![
            InitActionSpec::MountOverlay { dest, lower_directories, upper_directory },
        ],
    }
}

/// What is there is mounted anew, with another access.
pub open spec fn remount_action(dest: Seq<u8>, read_only: bool) -> InitActionSpec {
    InitActionSpec::Mount {
        from: None,
        dest,
        fstype: None,
        flags: MountFlags { bind: true, recursive: false, remount: true, read_only },
    }
}

/// What is done for one mount.
pub open spec fn whole_mount(root: Seq<u8>, mount: MountSpec) -> Seq<InitActionSpec> {
    let dest = path_within(root, mount.dest);
    seq![InitActionSpec::EnsureMountpoint { path: dest, is_file: mounts_file(mount.kind) }]
        + mount_actions(dest, mount.kind)
}

/// What is done for mounts, in their order.
pub open spec fn all_mounts(root: Seq<u8>, mounts: Seq<MountSpec>) -> Seq<InitActionSpec>
    decreases mounts.len(),
{
    if mounts.len() == 0 {
        Seq::empty()
    } else {
        all_mounts(root, mounts.drop_last()) + whole_mount(root, mounts.last())
    }
}

/// What the first process does before it mounts anything.
pub open spec fn isolation(network_isolation: bool) -> Seq<InitActionSpec> {
    if network_isolation {
        seq![
            InitActionSpec::UnshareMounts,
            InitActionSpec::UnshareNetwork,
            InitActionSpec::MakeRootPrivate,
        ]
    } else {
        seq![InitActionSpec::UnshareMounts, InitActionSpec::MakeRootPrivate]
    }
}

/// How the first process enters the root file system, and in it the directory that the program is
/// to run in.
pub open spec fn entering(root: Seq<u8>, cwd: Seq<u8>) -> Seq<InitActionSpec> {
    seq![
        InitActionSpec::ChangeDirectory(root),
        InitActionSpec::PivotRoot,
        InitActionSpec::DetachOldRoot,
        InitActionSpec::ChangeDirectory(join_path(path_of("/"@), cwd)),
    ]
}

/// What the first process in the root file system does, one after the other.
pub open spec fn init_actions(
    root: Seq<u8>,
    network_isolation: bool,
    cwd: Seq<u8>,
    mounts: Seq<MountSpec>,
) -> Seq<InitActionSpec> {
    isolation(network_isolation) + all_mounts(root, mounts) + entering(root, cwd)
}

fn push_action(actions: &mut Vec<InitAction>, action: InitAction)
    ensures
        init_actions_of(final(actions)@) == init_actions_of(old(actions)@).push(action@),
{
    let ghost before = init_actions_of(actions@);
    actions.push(action);
    assert(init_actions_of(actions@) =~= before.push(action@));
}

fn push_remount(actions: &mut Vec<InitAction>, dest: UnixPath, read_only: bool)
    ensures
        init_actions_of(final(actions)@) == init_actions_of(old(actions)@).push(
            remount_action(dest@, read_only),
        ),
{
    push_action(
        actions,
        InitAction::Mount {
            from: None,
            dest,
            fstype: None,
            flags: MountFlags { bind: true, recursive: false, remount: true, read_only },
        },
    );
}

fn push_mount(actions: &mut Vec<InitAction>, root: &UnixPath, mount: &Mount)
    ensures
        init_actions_of(final(actions)@) == init_actions_of(old(actions)@) + whole_mount(
            root@,
            mount@,
        ),
{
    let ghost before = init_actions_of(actions@);
    let dest: UnixPath = relative_rootfs_path(root, &mount.dest);
    let is_file: bool = match &mount.kind {
        MountKind::Bind { from, read_only, is_file } => *is_file,
        _ => false,
    };
    push_action(actions, InitAction::EnsureMountpoint { path: dest.copy(), is_file });
    match &mount.kind {
        MountKind::Bind { from, read_only, is_file } => {
            push_action(
                actions,
                InitAction::Mount {
                    from: Some(from.copy()),
                    dest: dest.copy(),
                    fstype: None,
                    flags: MountFlags {
                        bind: true,
                        recursive: true,
                        remount: false,
                        read_only: false,
                    },
                },
            );
            if *read_only {
                push_remount(actions, dest, true);
            }
        },
        MountKind::Remount { readonly } => {
            push_remount(actions, dest, *readonly);
        },
        MountKind::FS { fstype } => {
            push_action(
                actions,
                InitAction::Mount {
                    from: None,
                    dest,
                    fstype: Some(fstype.clone()),
                    flags: MountFlags {
                        bind: false,
                        recursive: false,
                        remount: false,
                        read_only: false,
                    },
                },
            );
        },
        MountKind::OverlayFS(overlay) => {
            push_action(
                actions,
                InitAction::MountOverlay {
                    dest,
                    overlay: Overlay {
                        lower_directories: copy_paths(&overlay.lower_directories),
                        upper_directory: copy_upper(&overlay.upper_directory),
                    },
                },
            );
        },
    }
    assert(init_actions_of(actions@) =~= before + whole_mount(root@, mount@));
}

/// What the first process in the root file system does, one after the other.
pub fn init(rootfs_path: &UnixPath, network_isolation: bool, cwd: &UnixPath, mounts: &Vec<Mount>)
    -> (r: Vec<InitAction>)
    ensures
        init_actions_of(r@) == init_actions(
            rootfs_path@,
            network_isolation,
            cwd@,
            mounts_of(mounts@),
        ),
{
    let mut actions: Vec<InitAction> = Vec::new();
    push_action(&mut actions, InitAction::UnshareMounts);
    if network_isolation {
        push_action(&mut actions, InitAction::UnshareNetwork);
    }
    push_action(&mut actions, InitAction::MakeRootPrivate);
    let ghost start = isolation(network_isolation);
    let ghost all = mounts_of(mounts@);
    assert(init_actions_of(actions@) =~= start + all_mounts(rootfs_path@, all.take(0)));
    let mut i: usize = 0;
    while i < mounts.len()
        invariant
            0 <= i <= mounts@.len(),
            all == mounts_of(mounts@),
            init_actions_of(actions@) == start + all_mounts(rootfs_path@, all.take(i as int)),
        decreases mounts@.len() - i,
    {
        push_mount(&mut actions, rootfs_path, &mounts[i]);
        proof {
            assert(all.take(i + 1).drop_last() =~= all.take(i as int));
            assert(all.take(i + 1).last() == mounts@[i as int]@);
            assert(init_actions_of(actions@) =~= start + all_mounts(
                rootfs_path@,
                all.take(i + 1),
            ));
        }
        i = i + 1;
    }
    assert(all.take(i as int) =~= all);
    let ghost before = init_actions_of(actions@);
    push_action(&mut actions, InitAction::ChangeDirectory(rootfs_path.copy()));
    push_action(&mut actions, InitAction::PivotRoot);
    push_action(&mut actions, InitAction::DetachOldRoot);
    push_action(
        &mut actions,
        InitAction::ChangeDirectory(UnixPath::from_text("/").join_bytes(cwd.bytes.as_slice())),
    );
    assert(init_actions_of(actions@) =~= before + entering(rootfs_path@, cwd@));
    actions
}

// ---------------------------------------------------------------------------
// The program
// ---------------------------------------------------------------------------

/// Where a stream of the program is connected to.
#[derive(Debug, Clone, Copy, PartialEq, Eq, Structural)]
pub enum Stream {
    /// to where the caller's is
    Inherit,
    /// to nothing
    Null,
    /// to the pipe for the output
    StdoutPipe,
    /// to the pipe for the errors
    StderrPipe,
}

/// The streams of the program.
#[derive(Debug, Clone, Copy, PartialEq, Eq, Structural)]
pub struct Streams {
    pub stdin: Stream,
    pub stdout: Stream,
    pub stderr: Stream,
}

/// The streams of the program.
pub open spec fn program_streams(pipe_stdin: bool, stdout: bool, stderr: StderrDest) -> Streams {
    Streams {
        stdin: if pipe_stdin {
            Stream::Inherit
        } else {
            Stream::Null
        },
        stdout: if stdout {
            Stream::StdoutPipe
        } else {
            Stream::Null
        },
        stderr: match stderr {
            StderrDest::Pipe => Stream::StderrPipe,
            StderrDest::MergeWithStdout => Stream::StdoutPipe,
            StderrDest::Null => Stream::Null,
        },
    }
}

/// A list of arguments can be handed to a program: it names the program, and no argument holds the
/// character that ends a text there.
pub open spec fn are_program_args(args: Seq<Seq<char>>) -> bool {
    args.len() > 0 && forall|i: int, k: int|
        0 <= i < args.len() && 0 <= k < args[i].len() ==> #[trigger] args[i][k] != '\0'
}

/// Whether a list of arguments can be handed to a program.
pub fn check_program_args(args: &Vec<String>) -> (r: bool)
    ensures
        r == are_program_args(texts(args@)),
{
    if args.len() == 0 {
        return false;
    }
    let mut i: usize = 0;
    while i < args.len()
        invariant
            0 <= i <= args@.len(),
            forall|a: int, k: int|
                0 <= a < i && 0 <= k < texts(args@)[a].len() ==> #[trigger] texts(args@)[a][k]
                    != '\0',
        decreases args@.len() - i,
    {
        let chars: Vec<char> = chars_of(args[i].as_str());
        let mut k: usize = 0;
        while k < chars.len()
            invariant
                0 <= k <= chars@.len(),
                0 <= i < args@.len(),
                chars@ == texts(args@)[i as int],
                forall|b: int| 0 <= b < k ==> #[trigger] chars@[b] != '\0',
            decreases chars@.len() - k,
        {
            if chars[k] == '\0' {
                assert(texts(args@)[i as int][k as int] == '\0');
                return false;
            }
            k = k + 1;
        }
        i = i + 1;
    }
    true
}

/// The streams of the program.
pub fn program(pipe_stdin: bool, stdout: bool, stderr: StderrDest) -> (r: Streams)
    requires
        stderr == StderrDest::MergeWithStdout ==> stdout,
    ensures
        r == program_streams(pipe_stdin, stdout, stderr),
{
    Streams {
        stdin: if pipe_stdin {
            Stream::Inherit
        } else {
            Stream::Null
        },
        stdout: if stdout {
            Stream::StdoutPipe
        } else {
            Stream::Null
        },
        stderr: match stderr {
            StderrDest::Pipe => Stream::StderrPipe,
            StderrDest::MergeWithStdout => Stream::StdoutPipe,
            StderrDest::Null => Stream::Null,
        },
    }
}

// ---------------------------------------------------------------------------
// Laws
// ---------------------------------------------------------------------------

/// The errors go to the pipe of the output only if there is such a pipe, and no stream is ever
/// connected to a pipe that is not there.
pub proof fn lemma_streams_have_their_pipes(pipe_stdin: bool, stdout: bool, stderr: StderrTarget)
    ensures
        stderr_dest_spec(stdout, stderr) == StderrDest::MergeWithStdout ==> stdout,
        ({
            let streams = program_streams(pipe_stdin, stdout, stderr_dest_spec(stdout, stderr));
            &&& (streams.stdout == Stream::StdoutPipe || streams.stderr == Stream::StdoutPipe)
                ==> stdout
            &&& streams.stderr == Stream::StderrPipe <==> stderr_piped(stderr)
        }),
{
}

/// Only pipes that are there are read, and only when they can be.
pub proof fn lemma_only_pipes_are_read(stdout: bool, stderr: StderrTarget, event: CallerEvent)
    ensures
        caller_action(stdout, stderr, event) matches CallerAction::Copy { stdout: o, stderr: e }
            ==> {
            &&& o ==> stdout
            &&& e ==> stderr_piped(stderr)
            &&& event is Polled
        },
{
}

/// The caller gets an exit code only if the process exited with it, and an error only if the
/// process came to another end, of which the error then tells.
pub proof fn lemma_exit_code_is_the_process_own(
    stdout: bool,
    stderr: StderrTarget,
    event: CallerEvent,
)
    ensures
        caller_action(stdout, stderr, event) matches CallerAction::Return(code) ==> event
            == CallerEvent::Waited(ProcessStatus::Exited(code)) || event == CallerEvent::Looked(
            ProcessStatus::Exited(code),
        ),
        caller_action(stdout, stderr, event) matches CallerAction::InvalidWaitStatus(status) ==> {
            &&& !(status is Exited)
            &&& event == CallerEvent::Waited(status) || event == CallerEvent::Looked(status)
        },
{
}

/// Whatever is already at a mount's place, afterwards there is something of the kind that the mount
/// needs.
pub proof fn lemma_mountpoint_fits(is_file: bool, existing: Option<FileKind>)
    ensures
        match mountpoint_step(is_file, existing) {
            MountpointStep::Keep => existing == Some(
                if is_file {
                    FileKind::File
                } else {
                    FileKind::Directory
                },
            ),
            MountpointStep::ReplaceDirectory | MountpointStep::CreateFile => is_file,
            MountpointStep::ReplaceFile | MountpointStep::CreateDirectory => !is_file,
        },
{
}

proof fn lemma_mounts_before(root: Seq<u8>, mounts: Seq<MountSpec>, k: int)
    requires
        0 <= k < all_mounts(root, mounts).len(),
    ensures
        match all_mounts(root, mounts)[k] {
            InitActionSpec::EnsureMountpoint { path, is_file } => true,
            InitActionSpec::Mount { from, dest, fstype, flags } => true,
            InitActionSpec::MountOverlay { dest, lower_directories, upper_directory } => true,
            _ => false,
        },
    decreases mounts.len(),
{
    let front = all_mounts(root, mounts.drop_last());
    if k < front.len() {
        lemma_mounts_before(root, mounts.drop_last(), k);
    }
}

/// Nothing is mounted before the mounts of the process are its own and cannot be seen outside, and
/// the root is entered only after everything has been mounted.
pub proof fn lemma_isolated_before_mounting(
    root: Seq<u8>,
    network_isolation: bool,
    cwd: Seq<u8>,
    mounts: Seq<MountSpec>,
    k: int,
)
    requires
        0 <= k < init_actions(root, network_isolation, cwd, mounts).len(),
    ensures
        ({
            let actions = init_actions(root, network_isolation, cwd, mounts);
            let own = isolation(network_isolation).len();
            &&& actions[0] == InitActionSpec::UnshareMounts
            &&& actions[own - 1] == InitActionSpec::MakeRootPrivate
            &&& (actions[k] is Mount || actions[k] is MountOverlay || actions[k] is EnsureMountpoint)
                ==> own <= k
            &&& actions[k] is PivotRoot ==> k >= own + all_mounts(root, mounts).len()
            &&& actions[k] is UnshareNetwork ==> network_isolation && k < own
        }),
{
    let own = isolation(network_isolation);
    let middle = all_mounts(root, mounts);
    let actions = init_actions(root, network_isolation, cwd, mounts);
    if own.len() <= k < own.len() + middle.len() {
        lemma_mounts_before(root, mounts, k - own.len());
        assert(actions[k] == middle[k - own.len()]);
    }
}

/// With network isolation the program never shares the network, without it it always does.
pub proof fn lemma_network_isolation(root: Seq<u8>, cwd: Seq<u8>, mounts: Seq<MountSpec>)
    ensures
        init_actions(root, true, cwd, mounts)[1] == InitActionSpec::UnshareNetwork,
        !init_actions(root, false, cwd, mounts).contains(InitActionSpec::UnshareNetwork),
{
    let actions = init_actions(root, false, cwd, mounts);
    assert forall|k: int| 0 <= k < actions.len() implies actions[k]
        != InitActionSpec::UnshareNetwork by {
        lemma_isolated_before_mounting(root, false, cwd, mounts, k);
    }
}

} // verus!
