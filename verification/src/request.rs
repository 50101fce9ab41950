//! Requests to run a program in the root file system.

use crate::mount::{mounts_of, upper_of, Mount, MountSpec, OverlayUpperDirectory, UpperSpec};
use crate::store::path_bytes;
use crate::util::names::{env_of, NameMap};
use crate::util::path::{path_of, UnixPath};
use crate::util::text::texts;
use vstd::prelude::*;

verus! {

/// The set of native packages that a program runs with.
#[derive(Debug, Clone, Copy, PartialEq, Eq, Structural)]
pub enum PkgSet {
    /// none but those of the root file system
    Root,
    /// the one with `git`
    Git,
    /// the one with `wget`
    Wget,
    /// the one with `sha256sum`
    Sha256sum,
    /// the one with `bsdtar`
    Bsdtar,
    /// the one with `patch`
    Patch,
    /// the one that the environment of a build was made with
    Environment,
}

/// Where the errors that a program prints go.
#[derive(Debug, Clone, Copy, PartialEq, Eq, Structural)]
pub enum StderrTarget {
    /// to a place of their own
    Capture,
    /// nowhere
    Discard,
    /// where its other output goes
    Merge,
}

/// A program to run.
#[derive(Debug)]
pub struct ExecRequest {
    pub cwd: UnixPath,
    pub mounts: Vec<Mount>,
    pub environment: NameMap<String>,
    /// the program may read what the user types
    pub stdin: bool,
    pub stderr: StderrTarget,
    pub args: Vec<String>,
    pub pkgset: PkgSet,
    /// the program may write to the root file system
    pub root_writable: bool,
    /// where what it writes there goes
    pub root_overlay: Option<OverlayUpperDirectory>,
    /// directories laid over the root file system
    pub root_layers: Vec<UnixPath>,
}

/// [`ExecRequest`] by its paths and texts.
#[verifier::ext_equal]
pub struct ExecSpec {
    pub cwd: Seq<u8>,
    pub mounts: Seq<MountSpec>,
    pub environment: Map<Seq<char>, Seq<char>>,
    pub stdin: bool,
    pub stderr: StderrTarget,
    pub args: Seq<Seq<char>>,
    pub pkgset: PkgSet,
    pub root_writable: bool,
    pub root_overlay: Option<UpperSpec>,
    pub root_layers: Seq<Seq<u8>>,
}

impl View for ExecRequest {
    type V = ExecSpec;

    open spec fn view(&self) -> ExecSpec {
        ExecSpec {
            cwd: self.cwd@,
            mounts: mounts_of(self.mounts@),
            environment: env_of(self.environment),
            stdin: self.stdin,
            stderr: self.stderr,
            args: texts(self.args@),
            pkgset: self.pkgset,
            root_writable: self.root_writable,
            root_overlay: upper_of(self.root_overlay),
            root_layers: path_bytes(self.root_layers@),
        }
    }
}

/// A program that reads nothing, prints everything to one place, and sees the root file system
/// as it is.
pub open spec fn plain_exec(
    cwd: Seq<char>,
    mounts: Seq<MountSpec>,
    environment: Map<Seq<char>, Seq<char>>,
    args: Seq<Seq<char>>,
    pkgset: PkgSet,
) -> ExecSpec {
    ExecSpec {
        cwd: path_of(cwd),
        mounts,
        environment,
        stdin: false,
        stderr: StderrTarget::Merge,
        args,
        pkgset,
        root_writable: true,
        root_overlay: None,
        root_layers: Seq::empty(),
    }
}

/// A program that reads nothing, prints everything to one place, and sees the root file system
/// as it is.
pub fn plain_request(
    cwd: &str,
    mounts: Vec<Mount>,
    environment: NameMap<String>,
    args: Vec<String>,
    pkgset: PkgSet,
) -> (r: ExecRequest)
    ensures
        r@ == plain_exec(cwd@, mounts_of(mounts@), env_of(environment), texts(args@), pkgset),
{
    let r = ExecRequest {
        cwd: UnixPath::from_text(cwd),
        mounts,
        environment,
        stdin: false,
        stderr: StderrTarget::Merge,
        args,
        pkgset,
        root_writable: true,
        root_overlay: None,
        root_layers: Vec::new(),
    };
    assert(r@.root_layers =~= Seq::<Seq<u8>>::empty());
    r
}

/// No variables.
pub open spec fn no_env() -> Map<Seq<char>, Seq<char>> {
    Map::empty()
}

/// No variables.
pub fn empty_env() -> (r: NameMap<String>)
    ensures
        env_of(r) == no_env(),
        r.wf(),
{
    let r: NameMap<String> = NameMap::new();
    assert(env_of(r) =~= no_env());
    r
}

// ---------------------------------------------------------------------------
// Programs in the environment of a build
// ---------------------------------------------------------------------------

/// A program to run in the environment of a build, which adds to it what it has itself.
#[derive(Debug)]
pub struct EnvRequest {
    pub cwd: UnixPath,
    pub mounts: Vec<Mount>,
    pub environment: NameMap<String>,
    pub stdin: bool,
    pub stderr: StderrTarget,
    pub args: Vec<String>,
}

/// [`EnvRequest`] by its paths and texts.
#[verifier::ext_equal]
pub struct EnvSpec {
    pub cwd: Seq<u8>,
    pub mounts: Seq<MountSpec>,
    pub environment: Map<Seq<char>, Seq<char>>,
    pub stdin: bool,
    pub stderr: StderrTarget,
    pub args: Seq<Seq<char>>,
}

impl View for EnvRequest {
    type V = EnvSpec;

    open spec fn view(&self) -> EnvSpec {
        EnvSpec {
            cwd: self.cwd@,
            mounts: mounts_of(self.mounts@),
            environment: env_of(self.environment),
            stdin: self.stdin,
            stderr: self.stderr,
            args: texts(self.args@),
        }
    }
}

/// A program that reads nothing and prints everything to one place.
pub open spec fn plain_env_exec(
    cwd: Seq<char>,
    mounts: Seq<MountSpec>,
    environment: Map<Seq<char>, Seq<char>>,
    args: Seq<Seq<char>>,
) -> EnvSpec {
    EnvSpec {
        cwd: path_of(cwd),
        mounts,
        environment,
        stdin: false,
        stderr: StderrTarget::Merge,
        args,
    }
}

/// A program that reads nothing and prints everything to one place.
pub fn plain_env_request(
    cwd: &str,
    mounts: Vec<Mount>,
    environment: NameMap<String>,
    args: Vec<String>,
) -> (r: EnvRequest)
    ensures
        r@ == plain_env_exec(cwd@, mounts_of(mounts@), env_of(environment), texts(args@)),
{
    EnvRequest {
        cwd: UnixPath::from_text(cwd),
        mounts,
        environment,
        stdin: false,
        stderr: StderrTarget::Merge,
        args,
    }
}

// ---------------------------------------------------------------------------
// Programs one after the other
// ---------------------------------------------------------------------------

/// The first program that failed, and its exit code, if the programs ended with the given exit
/// codes.
pub open spec fn first_failure(codes: Seq<i32>) -> Option<(int, i32)>
    decreases codes.len(),
{
    if codes.len() == 0 {
        None
    } else {
        match first_failure(codes.drop_last()) {
            Some(failure) => Some(failure),
            None => if codes.last() != 0 {
                Some((codes.len() - 1, codes.last()))
            } else {
                None
            },
        }
    }
}

/// The first failure is a failure, and all programs before it succeeded; if there is none, all
/// programs succeeded.
pub proof fn lemma_first_failure(codes: Seq<i32>)
    ensures
        match first_failure(codes) {
            None => forall|i: int| 0 <= i < codes.len() ==> codes[i] == 0,
            Some((at, code)) => {
                &&& 0 <= at < codes.len()
                &&& codes[at] == code
                &&& code != 0
                &&& forall|i: int| 0 <= i < at ==> codes[i] == 0
            },
        },
    decreases codes.len(),
{
    if codes.len() > 0 {
        lemma_first_failure(codes.drop_last());
        assert forall|i: int| 0 <= i < codes.len() - 1 implies codes.drop_last()[i]
            == codes[i] by {}
    }
}

/// A failure stays the first one whatever runs after it.
pub proof fn lemma_first_failure_stays(codes: Seq<i32>, more: Seq<i32>)
    requires
        first_failure(codes) is Some,
    ensures
        first_failure(codes + more) == first_failure(codes),
    decreases more.len(),
{
    if more.len() == 0 {
        assert(codes + more =~= codes);
    } else {
        lemma_first_failure_stays(codes, more.drop_last());
        assert((codes + more).drop_last() =~= codes + more.drop_last());
    }
}

/// The first program that failed, and its exit code.
pub fn find_failure(codes: &Vec<i32>) -> (r: Option<(usize, i32)>)
    ensures
        match (r, first_failure(codes@)) {
            (None, None) => true,
            (Some((i, c)), Some((at, code))) => i == at && c == code,
            _ => false,
        },
{
    let mut i: usize = 0;
    while i < codes.len()
        invariant
            0 <= i <= codes@.len(),
            first_failure(codes@.take(i as int)) is None,
        decreases codes@.len() - i,
    {
        proof {
            assert(codes@.take(i + 1).drop_last() =~= codes@.take(i as int));
        }
        if codes[i] != 0 {
            proof {
                lemma_first_failure_stays(codes@.take(i + 1), codes@.skip(i + 1));
                assert(codes@.take(i + 1) + codes@.skip(i + 1) =~= codes@);
            }
            return Some((i, codes[i]));
        }
        i = i + 1;
    }
    assert(codes@.take(codes@.len() as int) =~= codes@);
    None
}

} // verus!
