//! Fetching a revision of a git repository.

use crate::config::script::{command_line, Script, ScriptLanguage};
use crate::config::source::GitSource;
use crate::mount::{bind, bind_spec, mounts_of, tmpfs, tmpfs_spec, Mount, MountSpec};
use crate::request::{
    empty_env, find_failure, first_failure, lemma_first_failure, no_env, plain_exec, plain_request,
    ExecRequest, ExecSpec, PkgSet,
};
use crate::util::names::NameMap;
use crate::util::path::UnixPath;
use vstd::prelude::*;

verus! {

/// Finds out whether the revision is a branch: the script then ends with [`REF_IS_HEAD`].
pub const LS_REMOTE_SCRIPT: &'static str =
    "\n            REMOTE_REF=$(git ls-remote \"$GIT_URL\" \"refs/heads/$GIT_REV\") || exit 1\n            if [[ -n \"$REMOTE_REF\" ]]; then\n                exit 67\n            fi\n        ";

pub const CLONE_SCRIPT: &'static str = "git clone --depth=1 \"$GIT_URL\" .";

pub const FETCH_SCRIPT: &'static str = "git fetch --depth=1 origin \"$GIT_REV\"";

pub const CHECKOUT_SCRIPT: &'static str = "git checkout FETCH_HEAD";

/// The exit code that says that the revision is a branch.
pub const REF_IS_HEAD: i32 = 67;

/// Why a revision could not be fetched.
#[derive(Debug, Clone, Copy, PartialEq, Eq, Structural)]
pub enum GitFetchError {
    LsRemote,
    Clone,
    Fetch,
    RefIsHead,
    Checkout,
}

impl GitFetchError {
    /// The error in words.
    pub open spec fn text(self) -> Seq<char> {
        match self {
            GitFetchError::LsRemote => "Git ls-remote failed"@,
            GitFetchError::Clone => "Git clone failed"@,
            GitFetchError::Fetch => "Git fetch failed"@,
            GitFetchError::RefIsHead => "Git revision is a branch"@,
            GitFetchError::Checkout => "Git checkout failed for source"@,
        }
    }

    /// The error in words.
    pub fn message(&self) -> (r: &'static str)
        ensures
            r@ == self.text(),
    {
        match self {
            GitFetchError::LsRemote => "Git ls-remote failed",
            GitFetchError::Clone => "Git clone failed",
            GitFetchError::Fetch => "Git fetch failed",
            GitFetchError::RefIsHead => "Git revision is a branch",
            GitFetchError::Checkout => "Git checkout failed for source",
        }
    }
}

/// What to do next to fetch a revision.
#[derive(Debug)]
pub enum GitStep {
    /// run a program and hand back its exit code
    Run(ExecRequest),
    /// stop
    Fail(GitFetchError),
    /// the revision is in the work directory
    Done,
}

/// [`GitStep`] by its paths and texts.
pub enum GitStepSpec {
    Run(ExecSpec),
    Fail(GitFetchError),
    Done,
}

impl View for GitStep {
    type V = GitStepSpec;

    open spec fn view(&self) -> GitStepSpec {
        match self {
            GitStep::Run(request) => GitStepSpec::Run(request@),
            GitStep::Fail(error) => GitStepSpec::Fail(*error),
            GitStep::Done => GitStepSpec::Done,
        }
    }
}

/// The number of programs that fetching a revision takes.
pub const GIT_PROGRAMS: usize = 4;

/// The script of the program with a number.
pub open spec fn git_script(number: int) -> Seq<char> {
    if number == 0 {
        LS_REMOTE_SCRIPT@
    } else if number == 1 {
        CLONE_SCRIPT@
    } else if number == 2 {
        FETCH_SCRIPT@
    } else {
        CHECKOUT_SCRIPT@
    }
}

/// The variables of the program with a number.
pub open spec fn git_env(number: int, url: Seq<char>, revision: Seq<char>) -> Map<
    Seq<char>,
    Seq<char>,
> {
    if number == 0 {
        no_env().insert("GIT_URL"@, url).insert("GIT_REV"@, revision)
    } else if number == 1 {
        no_env().insert("GIT_URL"@, url)
    } else if number == 2 {
        no_env().insert("GIT_REV"@, revision)
    } else {
        no_env()
    }
}

/// The mounts of all of the programs: the work directory is where the revision goes.
pub open spec fn git_mounts(workdir: Seq<u8>) -> Seq<MountSpec> {
    seq![tmpfs_spec("/chariot"@), bind_spec("/chariot/source"@, workdir, false, false)]
}

/// The program with a number.
pub open spec fn git_program(
    number: int,
    url: Seq<char>,
    revision: Seq<char>,
    workdir: Seq<u8>,
) -> ExecSpec {
    plain_exec(
        "/chariot/source"@,
        git_mounts(workdir),
        git_env(number, url, revision),
        command_line(ScriptLanguage::Bash, git_script(number)),
        PkgSet::Git,
    )
}

/// What is wrong if the program with a number fails with an exit code.
pub open spec fn git_failure(number: int, code: i32) -> GitFetchError {
    if number == 0 {
        if code == REF_IS_HEAD {
            GitFetchError::RefIsHead
        } else {
            GitFetchError::LsRemote
        }
    } else if number == 1 {
        GitFetchError::Clone
    } else if number == 2 {
        GitFetchError::Fetch
    } else {
        GitFetchError::Checkout
    }
}

/// What to do next when the programs so far ended with the given exit codes.
pub open spec fn git_step(
    url: Seq<char>,
    revision: Seq<char>,
    workdir: Seq<u8>,
    codes: Seq<i32>,
) -> GitStepSpec {
    match first_failure(codes) {
        Some((number, code)) => GitStepSpec::Fail(git_failure(number, code)),
        None => if codes.len() < GIT_PROGRAMS {
            GitStepSpec::Run(git_program(codes.len() as int, url, revision, workdir))
        } else {
            GitStepSpec::Done
        },
    }
}

fn program(number: usize, git_source: &GitSource, workdir: &UnixPath) -> (r: ExecRequest)
    requires
        number < GIT_PROGRAMS,
    ensures
        r@ == git_program(number as int, git_source.url@, git_source.revision@, workdir@),
{
    let mut mounts: Vec<Mount> = Vec::new();
    mounts.push(tmpfs("/chariot"));
    mounts.push(bind("/chariot/source", workdir.copy(), false, false));
    assert(mounts_of(mounts@) =~= git_mounts(workdir@));
    let mut environment: NameMap<String> = empty_env();
    if number == 0 || number == 1 {
        environment.set("GIT_URL", git_source.url.as_str());
    }
    if number == 0 || number == 2 {
        environment.set("GIT_REV", git_source.revision.as_str());
    }
    let script: &'static str = if number == 0 {
        LS_REMOTE_SCRIPT
    } else if number == 1 {
        CLONE_SCRIPT
    } else if number == 2 {
        FETCH_SCRIPT
    } else {
        CHECKOUT_SCRIPT
    };
    plain_request(
        "/chariot/source",
        mounts,
        environment,
        Script::bash(script).command(),
        PkgSet::Git,
    )
}

/// What to do next to fetch a revision into a work directory, when the programs so far ended
/// with the given exit codes.
pub fn fetch_git_repository(git_source: &GitSource, workdir: &UnixPath, codes: &Vec<i32>) -> (r:
    GitStep)
    ensures
        r@ == git_step(git_source.url@, git_source.revision@, workdir@, codes@),
{
    match find_failure(codes) {
        Some((number, code)) => GitStep::Fail(
            if number == 0 {
                if code == REF_IS_HEAD {
                    GitFetchError::RefIsHead
                } else {
                    GitFetchError::LsRemote
                }
            } else if number == 1 {
                GitFetchError::Clone
            } else if number == 2 {
                GitFetchError::Fetch
            } else {
                GitFetchError::Checkout
            },
        ),
        None => if codes.len() < GIT_PROGRAMS {
            GitStep::Run(program(codes.len(), git_source, workdir))
        } else {
            GitStep::Done
        },
    }
}

// ---------------------------------------------------------------------------
// Laws
// ---------------------------------------------------------------------------

/// A revision is fetched just when every program has run and succeeded.
pub proof fn lemma_git_done(
    url: Seq<char>,
    revision: Seq<char>,
    workdir: Seq<u8>,
    codes: Seq<i32>,
)
    ensures
        git_step(url, revision, workdir, codes) is Done <==> codes.len() >= GIT_PROGRAMS && forall|
            i: int,
        |
            0 <= i < codes.len() ==> codes[i] == 0,
{
    lemma_first_failure(codes);
}

/// A revision that is a branch is refused before anything is fetched.
pub proof fn lemma_branch_is_refused(
    url: Seq<char>,
    revision: Seq<char>,
    workdir: Seq<u8>,
    codes: Seq<i32>,
)
    requires
        codes.len() > 0,
        codes[0] == REF_IS_HEAD,
    ensures
        git_step(url, revision, workdir, codes) == GitStepSpec::Fail(GitFetchError::RefIsHead),
{
    lemma_first_failure(codes);
}

} // verus!
