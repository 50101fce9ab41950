//! What a program finds where, given the mounts that are made for it one after the other, and which
//! script it runs.

use crate::config::script::{Script, ScriptLanguage};
use crate::install::InstallOrder;
use crate::mount::{Mount, MountKind, MountKindSpec, MountSpec, UpperSpec};
use crate::request::{EnvRequest, ExecRequest};
use crate::util::names::env_of;
use crate::util::path::{path_of, SEPARATOR};
use vstd::prelude::*;
use vstd::utf8::{is_ascii_chars, is_ascii_chars_encode_utf8};

verus! {

/// A place is a directory or lies in it.
pub open spec fn lies_in(place: Seq<u8>, dir: Seq<u8>) -> bool {
    ||| place == dir
    ||| {
        &&& 0 < dir.len() < place.len()
        &&& place.take(dir.len() as int) == dir
        &&& place[dir.len() as int] == SEPARATOR || dir.last() == SEPARATOR
    }
}

/// A mount hides what has been at a place before: it is made there or further up. To mount something
/// anew with another access hides nothing.
pub open spec fn hides(mount: MountSpec, place: Seq<u8>) -> bool {
    !(mount.kind is Remount) && lies_in(place, mount.dest)
}

/// What a program finds at a place is what a mount of the given kind puts there: such a mount is made,
/// and none after it hides it.
pub open spec fn finds(mounts: Seq<MountSpec>, place: Seq<u8>, kind: MountKindSpec) -> bool {
    exists|i: int|
        0 <= i < mounts.len() && #[trigger] mounts[i] == (MountSpec { dest: place, kind })
            && forall|j: int| i < j < mounts.len() ==> !hides(#[trigger] mounts[j], place)
}

/// What a program writes at a place goes into a directory of the host.
pub open spec fn writes_into(mounts: Seq<MountSpec>, place: Seq<u8>, dir: Seq<u8>) -> bool {
    finds(mounts, place, MountKindSpec::Bind { from: dir, read_only: false, is_file: false })
}

/// What a program reads at a place comes from a directory of the host, which it cannot write to.
pub open spec fn reads_from(mounts: Seq<MountSpec>, place: Seq<u8>, dir: Seq<u8>) -> bool {
    finds(mounts, place, MountKindSpec::Bind { from: dir, read_only: true, is_file: false })
}

/// What a program finds at a place are directories laid one over the other, and what it writes there
/// goes into the upper directory.
pub open spec fn writes_over(
    mounts: Seq<MountSpec>,
    place: Seq<u8>,
    lower_directories: Seq<Seq<u8>>,
    upper: UpperSpec,
) -> bool {
    finds(
        mounts,
        place,
        MountKindSpec::OverlayFS { lower_directories, upper_directory: Some(upper) },
    )
}

/// What bash does before a script: it collects the variables whose names begin with `OPTION_` into an
/// array, under the rest of their names.
pub open spec fn collects_options() -> Seq<char> {
    "\n    declare -A OPTIONS\n    for key in \"${!OPTION_@}\"; do\n        OPTIONS[\"${key#\"OPTION_\"}\"]=\"${!key}\"\n    done\n    unset OPTION_PREFIX\n"@
}

/// A command line runs a bash script, in which a command that fails ends the script.
pub open spec fn runs_bash(args: Seq<Seq<char>>, text: Seq<char>) -> bool {
    &&& args.len() == 4
    &&& args[0] == "bash"@
    &&& args[1] == "-e"@
    &&& args[2] == "-c"@
    &&& args[3] == collects_options() + text
}

/// A command line runs a script.
pub open spec fn runs_script(args: Seq<Seq<char>>, script: Script) -> bool {
    match script.language {
        ScriptLanguage::Bash => runs_bash(args, script.text@),
        ScriptLanguage::Python => {
            &&& args.len() == 3
            &&& args[0] == "python3"@
            &&& args[1] == "-c"@
            &&& args[2] == script.text@
        },
    }
}

/// A command line hands a command to the shell.
pub open spec fn runs_command(args: Seq<Seq<char>>, command: Seq<char>) -> bool {
    &&& args.len() == 3
    &&& args[0] == "bash"@
    &&& args[1] == "-c"@
    &&& args[2] == command
}

/// A place does not lie in a directory from whose name its own name differs.
pub proof fn lemma_lies_elsewhere(place: Seq<char>, dir: Seq<char>, k: int)
    requires
        is_ascii_chars(place),
        is_ascii_chars(dir),
        0 <= k < dir.len(),
        k >= place.len() || place[k] != dir[k],
    ensures
        !lies_in(path_of(place), path_of(dir)),
{
    is_ascii_chars_encode_utf8(place);
    is_ascii_chars_encode_utf8(dir);
    let p = path_of(place);
    let d = path_of(dir);
    assert(p.len() == place.len());
    assert(d.len() == dir.len());
    if lies_in(p, d) && k < place.len() {
        if p == d {
            assert(p[k] == d[k]);
        } else {
            assert(p.take(d.len() as int)[k] == p[k]);
        }
        assert(place[k] as u8 == p[k]);
        assert(dir[k] as u8 == d[k]);
        assert(false);
    }
}

/// What the only mount puts somewhere is what is found there.
pub proof fn lemma_found_alone(mount: MountSpec)
    ensures
        finds(seq![mount], mount.dest, mount.kind),
{
    assert(seq![mount][0] == (MountSpec { dest: mount.dest, kind: mount.kind }));
}

/// What the last mount puts somewhere is what is found there.
pub proof fn lemma_found_last(mounts: Seq<MountSpec>, mount: MountSpec)
    ensures
        finds(mounts.push(mount), mount.dest, mount.kind),
{
    let all = mounts.push(mount);
    assert(all[mounts.len() as int] == (MountSpec { dest: mount.dest, kind: mount.kind }));
}

/// What is found somewhere is still found there after a mount that does not hide it.
pub proof fn lemma_found_still(
    mounts: Seq<MountSpec>,
    mount: MountSpec,
    place: Seq<u8>,
    kind: MountKindSpec,
)
    requires
        finds(mounts, place, kind),
        !hides(mount, place),
    ensures
        finds(mounts.push(mount), place, kind),
{
    let all = mounts.push(mount);
    let i = choose|i: int|
        0 <= i < mounts.len() && #[trigger] mounts[i] == (MountSpec { dest: place, kind })
            && forall|j: int| i < j < mounts.len() ==> !hides(#[trigger] mounts[j], place);
    assert(all[i] == (MountSpec { dest: place, kind }));
    assert forall|j: int| i < j < all.len() implies !hides(#[trigger] all[j], place) by {
        if j < mounts.len() {
            assert(all[j] == mounts[j]);
        }
    }
}

// ---------------------------------------------------------------------------
// Requests and orders
// ---------------------------------------------------------------------------

/// What is said of a program is said of all that its request holds.
pub proof fn lemma_request_is_seen_whole(request: ExecRequest, i: int)
    ensures
        request@.cwd == request.cwd@,
        request@.mounts.len() == request.mounts@.len(),
        0 <= i < request.mounts@.len() ==> request@.mounts[i] == request.mounts@[i]@,
        request@.environment == env_of(request.environment),
        request@.stdin == request.stdin,
        request@.stderr == request.stderr,
        request@.args.len() == request.args@.len(),
        0 <= i < request.args@.len() ==> request@.args[i] == request.args@[i]@,
        request@.pkgset == request.pkgset,
        request@.root_writable == request.root_writable,
        request@.root_overlay is Some <==> request.root_overlay is Some,
        request.root_overlay is Some ==> request@.root_overlay->0 == (request.root_overlay->0)@,
        request@.root_layers.len() == request.root_layers@.len(),
        0 <= i < request.root_layers@.len() ==> request@.root_layers[i]
            == request.root_layers@[i]@,
{
}

/// So it is with a program in the environment of a build.
pub proof fn lemma_environment_request_is_seen_whole(request: EnvRequest, i: int)
    ensures
        request@.cwd == request.cwd@,
        request@.mounts.len() == request.mounts@.len(),
        0 <= i < request.mounts@.len() ==> request@.mounts[i] == request.mounts@[i]@,
        request@.environment == env_of(request.environment),
        request@.stdin == request.stdin,
        request@.stderr == request.stderr,
        request@.args.len() == request.args@.len(),
        0 <= i < request.args@.len() ==> request@.args[i] == request.args@[i]@,
{
}

/// And so it is with a mount.
pub proof fn lemma_mount_is_seen_whole(mount: Mount, i: int)
    ensures
        mount@.dest == mount.dest@,
        match mount.kind {
            MountKind::Bind { from, read_only, is_file } => mount@.kind == (MountKindSpec::Bind {
                from: from@,
                read_only,
                is_file,
            }),
            MountKind::Remount { readonly } => mount@.kind == (MountKindSpec::Remount { readonly }),
            MountKind::FS { fstype } => mount@.kind == (MountKindSpec::FS { fstype: fstype@ }),
            MountKind::OverlayFS(overlay) => match mount@.kind {
                MountKindSpec::OverlayFS { lower_directories, upper_directory } => {
                    &&& lower_directories.len() == overlay.lower_directories@.len()
                    &&& 0 <= i < lower_directories.len() ==> lower_directories[i]
                        == overlay.lower_directories@[i]@
                    &&& upper_directory is Some <==> overlay.upper_directory is Some
                    &&& upper_directory matches Some(upper) ==> {
                        &&& upper.upper_directory == (
                        overlay.upper_directory->0).upper_directory@
                        &&& upper.work_directory == (overlay.upper_directory->0).work_directory@
                    }
                },
                _ => false,
            },
        },
{
}

/// And with an installation that is ordered.
pub proof fn lemma_order_is_seen_whole(order: InstallOrder)
    ensures
        order@.pkgset == order.pkgset,
        order@.package == order.package,
        order@.arch == order.arch@,
        order@.dest_dir == order.dest_dir@,
        order@.dest_root_overlay == order.dest_root_overlay,
        order@.force == order.force,
{
}

} // verus!
