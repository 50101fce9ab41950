//! Mounts: what a program in the root file system sees where.

use crate::store::path_bytes;
use crate::util::path::{path_of, UnixPath};
use vstd::prelude::*;

verus! {

/// The writable layer of an overlay.
#[derive(Debug)]
pub struct OverlayUpperDirectory {
    pub upper_directory: UnixPath,
    pub work_directory: UnixPath,
}

/// Directories laid one over the other.
#[derive(Debug)]
pub struct Overlay {
    pub lower_directories: Vec<UnixPath>,
    pub upper_directory: Option<OverlayUpperDirectory>,
}

/// What is mounted.
#[derive(Debug)]
pub enum MountKind {
    /// a file or directory of the host
    Bind { from: UnixPath, read_only: bool, is_file: bool },
    /// what is there already, with another access
    Remount { readonly: bool },
    /// a fresh file system
    FS { fstype: String },
    /// directories laid one over the other
    OverlayFS(Overlay),
}

/// A mount.
#[derive(Debug)]
pub struct Mount {
    pub dest: UnixPath,
    pub kind: MountKind,
}

/// [`OverlayUpperDirectory`] by its paths.
pub struct UpperSpec {
    pub upper_directory: Seq<u8>,
    pub work_directory: Seq<u8>,
}

/// [`MountKind`] by its paths and texts.
pub enum MountKindSpec {
    Bind { from: Seq<u8>, read_only: bool, is_file: bool },
    Remount { readonly: bool },
    FS { fstype: Seq<char> },
    OverlayFS { lower_directories: Seq<Seq<u8>>, upper_directory: Option<UpperSpec> },
}

/// [`Mount`] by its paths and texts.
pub struct MountSpec {
    pub dest: Seq<u8>,
    pub kind: MountKindSpec,
}

impl View for OverlayUpperDirectory {
    type V = UpperSpec;

    open spec fn view(&self) -> UpperSpec {
        UpperSpec {
            upper_directory: self.upper_directory@,
            work_directory: self.work_directory@,
        }
    }
}

/// A writable layer that may be absent, by its paths.
pub open spec fn upper_of(upper: Option<OverlayUpperDirectory>) -> Option<UpperSpec> {
    match upper {
        None => None,
        Some(upper) => Some(upper@),
    }
}

impl View for MountKind {
    type V = MountKindSpec;

    open spec fn view(&self) -> MountKindSpec {
        match self {
            MountKind::Bind { from, read_only, is_file } => MountKindSpec::Bind {
                from: from@,
                read_only: *read_only,
                is_file: *is_file,
            },
            MountKind::Remount { readonly } => MountKindSpec::Remount { readonly: *readonly },
            MountKind::FS { fstype } => MountKindSpec::FS { fstype: fstype@ },
            MountKind::OverlayFS(overlay) => MountKindSpec::OverlayFS {
                lower_directories: path_bytes(overlay.lower_directories@),
                upper_directory: upper_of(overlay.upper_directory),
            },
        }
    }
}

impl View for Mount {
    type V = MountSpec;

    open spec fn view(&self) -> MountSpec {
        MountSpec { dest: self.dest@, kind: self.kind@ }
    }
}

/// Mounts by their paths and texts.
pub open spec fn mounts_of(s: Seq<Mount>) -> Seq<MountSpec> {
    s.map_values(|m: Mount| m@)
}

/// A file or directory of the host at `dest`.
pub open spec fn bind_spec(
    dest: Seq<char>,
    from: Seq<u8>,
    read_only: bool,
    is_file: bool,
) -> MountSpec {
    MountSpec { dest: path_of(dest), kind: MountKindSpec::Bind { from, read_only, is_file } }
}

/// A fresh file system in memory at `dest`.
pub open spec fn tmpfs_spec(dest: Seq<char>) -> MountSpec {
    MountSpec { dest: path_of(dest), kind: MountKindSpec::FS { fstype: "tmpfs"@ } }
}

/// Directories laid one over the other at `dest`.
pub open spec fn overlay_spec(
    dest: Seq<char>,
    lower_directories: Seq<Seq<u8>>,
    upper_directory: Option<UpperSpec>,
) -> MountSpec {
    MountSpec {
        dest: path_of(dest),
        kind: MountKindSpec::OverlayFS { lower_directories, upper_directory },
    }
}

/// A file or directory of the host at `dest`.
pub fn bind(dest: &str, from: UnixPath, read_only: bool, is_file: bool) -> (r: Mount)
    ensures
        r@ == bind_spec(dest@, from@, read_only, is_file),
{
    Mount { dest: UnixPath::from_text(dest), kind: MountKind::Bind { from, read_only, is_file } }
}

/// A fresh file system in memory at `dest`.
pub fn tmpfs(dest: &str) -> (r: Mount)
    ensures
        r@ == tmpfs_spec(dest@),
{
    Mount { dest: UnixPath::from_text(dest), kind: MountKind::FS { fstype: "tmpfs".to_string() } }
}

/// Directories laid one over the other at `dest`.
pub fn overlay(
    dest: &str,
    lower_directories: Vec<UnixPath>,
    upper_directory: Option<OverlayUpperDirectory>,
) -> (r: Mount)
    ensures
        r@ == overlay_spec(dest@, path_bytes(lower_directories@), upper_of(upper_directory)),
{
    Mount {
        dest: UnixPath::from_text(dest),
        kind: MountKind::OverlayFS(Overlay { lower_directories, upper_directory }),
    }
}

impl OverlayUpperDirectory {
    /// A copy of this value.
    pub fn copy(&self) -> (r: OverlayUpperDirectory)
        ensures
            r@ == self@,
    {
        OverlayUpperDirectory {
            upper_directory: self.upper_directory.copy(),
            work_directory: self.work_directory.copy(),
        }
    }
}

/// A copy of a writable layer that may be absent.
pub fn copy_upper(upper: &Option<OverlayUpperDirectory>) -> (r: Option<OverlayUpperDirectory>)
    ensures
        upper_of(r) == upper_of(*upper),
{
    match upper {
        None => None,
        Some(upper) => Some(upper.copy()),
    }
}

/// Copies of paths.
pub fn copy_paths(s: &Vec<UnixPath>) -> (r: Vec<UnixPath>)
    ensures
        path_bytes(r@) == path_bytes(s@),
{
    let mut out: Vec<UnixPath> = Vec::new();
    let mut i: usize = 0;
    assert(path_bytes(out@) =~= path_bytes(s@).take(0));
    while i < s.len()
        invariant
            0 <= i <= s@.len(),
            path_bytes(out@) == path_bytes(s@).take(i as int),
        decreases s@.len() - i,
    {
        let ghost before = path_bytes(out@);
        let path: UnixPath = s[i].copy();
        out.push(path);
        assert(path_bytes(out@) =~= before.push(path@));
        assert(path_bytes(s@).take(i + 1) =~= path_bytes(s@).take(i as int).push(
            path_bytes(s@)[i as int],
        ));
        i = i + 1;
    }
    assert(path_bytes(s@).take(s@.len() as int) =~= path_bytes(s@));
    out
}

} // verus!
