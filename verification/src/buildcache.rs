//! The build cache: directories in which packages are built and that outlive the build, so that
//! the next build of the same package goes on where the last one ended.

use crate::config::package::{platform_name, PackagePlatform};
use crate::util::path::{join_path, path_of, UnixPath};
use crate::util::text::{has_prefix, starts_with};
use std::sync::Arc;
use vstd::prelude::*;

verus! {

/// The directory in a package's build directory that holds the build itself.
pub const CONTENT_SUBDIR: &'static str = "content";

/// The build cache.
#[derive(Debug)]
pub struct BuildCache {
    pub path: UnixPath,
}

/// The name of a package's build directory.
pub open spec fn dir_name(platform: PackagePlatform, arch: Seq<char>, name: Seq<char>) -> Seq<char> {
    platform_name(platform) + "."@ + name + "."@ + arch
}

/// What the names of a package's build directories begin with, whatever the architecture.
pub open spec fn dir_name_start(platform: PackagePlatform, name: Seq<char>) -> Seq<char> {
    platform_name(platform) + "."@ + name + "."@
}

/// A build directory is to stay.
pub open spec fn is_kept(file_name: Seq<char>, exclude: Seq<(PackagePlatform, String)>) -> bool {
    exists|i: int|
        0 <= i < exclude.len() && has_prefix(
            file_name,
            dir_name_start((#[trigger] exclude[i]).0, exclude[i].1@),
        )
}

fn format_start(platform: PackagePlatform, name: &str) -> (r: String)
    ensures
        r@ == dir_name_start(platform, name@),
{
    let mut out: String = platform.to_string();
    out.append(".");
    out.append(name);
    out.append(".");
    out
}

impl BuildCache {
    /// The build cache in the directory at `path`.
    pub fn get(path: UnixPath) -> (r: BuildCache)
        ensures
            r.path == path,
    {
        BuildCache { path }
    }

    /// Where a package's build directory is.
    pub fn dir_path(&self, platform: PackagePlatform, arch: &str, name: &str) -> (r: UnixPath)
        ensures
            r@ == join_path(self.path@, path_of(dir_name(platform, arch@, name@))),
    {
        let mut file_name: String = format_start(platform, name);
        file_name.append(arch);
        self.path.join(file_name.as_str())
    }

    /// Which directories in the cache are to be removed: those whose names do not begin like that
    /// of a build directory of one of the given packages.
    pub fn prune(
        &self,
        file_names: &Vec<String>,
        exclude: &Vec<(PackagePlatform, String)>,
    ) -> (r: Vec<bool>)
        ensures
            r@.len() == file_names@.len(),
            forall|i: int|
                0 <= i < r@.len() ==> #[trigger] r@[i] == !is_kept(file_names@[i]@, exclude@),
    {
        let mut out: Vec<bool> = Vec::new();
        let mut i: usize = 0;
        while i < file_names.len()
            invariant
                0 <= i <= file_names@.len(),
                out@.len() == i,
                forall|k: int|
                    0 <= k < i ==> #[trigger] out@[k] == !is_kept(file_names@[k]@, exclude@),
            decreases file_names@.len() - i,
        {
            out.push(!is_kept_directory(file_names[i].as_str(), exclude));
            i = i + 1;
        }
        out
    }
}

fn is_kept_directory(file_name: &str, exclude: &Vec<(PackagePlatform, String)>) -> (r: bool)
    ensures
        r == is_kept(file_name@, exclude@),
{
    let mut i: usize = 0;
    while i < exclude.len()
        invariant
            0 <= i <= exclude@.len(),
            forall|j: int|
                0 <= j < i ==> !has_prefix(
                    file_name@,
                    dir_name_start((#[trigger] exclude@[j]).0, exclude@[j].1@),
                ),
        decreases exclude@.len() - i,
    {
        let start: String = format_start(exclude[i].0, exclude[i].1.as_str());
        if starts_with(file_name, start.as_str()) {
            return true;
        }
        i = i + 1;
    }
    false
}

/// A package's build directory in use: locked against removal, and against other builds unless
/// it is only read.
#[derive(Debug)]
pub struct BuildDirectory {
    pub build_cache: Arc<BuildCache>,
    pub platform: PackagePlatform,
    pub arch: String,
    pub name: String,
    /// no other build may use the directory
    pub exclusive: bool,
}

/// Where the build itself lies in a package's build directory.
pub open spec fn content_path(
    cache: Seq<u8>,
    platform: PackagePlatform,
    arch: Seq<char>,
    name: Seq<char>,
) -> Seq<u8> {
    join_path(
        join_path(cache, path_of(dir_name(platform, arch, name))),
        path_of(CONTENT_SUBDIR@),
    )
}

impl BuildDirectory {
    /// This is a package's build directory in a cache.
    pub open spec fn is_directory_of(
        self,
        build_cache: Arc<BuildCache>,
        platform: PackagePlatform,
        arch: Seq<char>,
        name: Seq<char>,
    ) -> bool {
        &&& self.build_cache == build_cache
        &&& self.platform == platform
        &&& self.arch@ == arch
        &&& self.name@ == name
    }

    fn generic_get(
        build_cache: &Arc<BuildCache>,
        platform: PackagePlatform,
        arch: &str,
        name: &str,
        exclusive: bool,
    ) -> (r: BuildDirectory)
        ensures
            r.is_directory_of(*build_cache, platform, arch@, name@),
            r.exclusive == exclusive,
    {
        BuildDirectory {
            build_cache: build_cache.clone(),
            platform,
            arch: arch.to_string(),
            name: name.to_string(),
            exclusive,
        }
    }

    /// A package's build directory to build in.
    pub fn get(
        build_cache: &Arc<BuildCache>,
        platform: PackagePlatform,
        arch: &str,
        name: &str,
    ) -> (r: BuildDirectory)
        ensures
            r.is_directory_of(*build_cache, platform, arch@, name@),
            r.exclusive,
    {
        BuildDirectory::generic_get(build_cache, platform, arch, name, true)
    }

    /// A package's build directory to look into.
    pub fn get_read_only(
        build_cache: &Arc<BuildCache>,
        platform: PackagePlatform,
        arch: &str,
        name: &str,
    ) -> (r: BuildDirectory)
        ensures
            r.is_directory_of(*build_cache, platform, arch@, name@),
            !r.exclusive,
    {
        BuildDirectory::generic_get(build_cache, platform, arch, name, false)
    }

    /// The directory that is locked, shared, against removal.
    pub fn dir_path(&self) -> (r: UnixPath)
        ensures
            r@ == join_path(
                self.build_cache.path@,
                path_of(dir_name(self.platform, self.arch@, self.name@)),
            ),
    {
        self.build_cache.dir_path(self.platform, self.arch.as_str(), self.name.as_str())
    }

    /// Where the build itself lies.
    pub fn path(&self) -> (r: UnixPath)
        ensures
            r@ == content_path(self.build_cache.path@, self.platform, self.arch@, self.name@),
    {
        self.dir_path().join(CONTENT_SUBDIR)
    }
}

/// The build directory of a package that is to stay is never removed, whatever the architecture.
pub proof fn lemma_kept_directory(
    exclude: Seq<(PackagePlatform, String)>,
    i: int,
    arch: Seq<char>,
)
    requires
        0 <= i < exclude.len(),
    ensures
        is_kept(dir_name(exclude[i].0, arch, exclude[i].1@), exclude),
{
    let name = dir_name(exclude[i].0, arch, exclude[i].1@);
    let start = dir_name_start(exclude[i].0, exclude[i].1@);
    assert(name.take(start.len() as int) =~= start);
}

/// With no packages to keep, every build directory is removed.
pub proof fn lemma_empty_exclude_keeps_nothing(file_name: Seq<char>)
    ensures
        !is_kept(file_name, Seq::<(PackagePlatform, String)>::empty()),
{
}

} // verus!
