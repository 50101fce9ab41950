//! Work directories: directories for the time of one job, which are removed when it is over
//! unless they have become something lasting.

use crate::lock::LockOutcome;
use crate::util::path::{join_path, path_of, UnixPath};
use crate::util::text::{hex, hex_text, lemma_numeral_injective, lemma_utf8_injective};
use std::sync::Arc;
use vstd::prelude::*;

verus! {

/// The directory that holds the work directories.
#[derive(Debug)]
pub struct WorkDirectoryParent {
    pub path: UnixPath,
}

/// Where the work directory with a number is, in the directory at `path`.
pub open spec fn child_path_in(path: Seq<u8>, id: u128) -> Seq<u8> {
    join_path(path, path_of(hex_text(id as nat)))
}

impl WorkDirectoryParent {
    /// The work directories in the directory at `path`.
    pub fn get(path: UnixPath) -> (r: WorkDirectoryParent)
        ensures
            r.path == path,
    {
        WorkDirectoryParent { path }
    }

    /// Where the work directory with a number is.
    pub fn child_path(&self, id: u128) -> (r: UnixPath)
        ensures
            r@ == child_path_in(self.path@, id),
    {
        self.path.join(hex(id).as_str())
    }
}

/// A work directory.
#[derive(Debug)]
pub struct WorkDirectory {
    pub parent: Arc<WorkDirectoryParent>,
    pub id: u128,
    /// the lock is still with this value
    pub locked: bool,
}

/// What to do when a new work directory could or could not be locked.
#[derive(Debug)]
pub enum CreateStep {
    /// the directory is there
    Created(WorkDirectory),
    /// somebody else was faster: try with another number
    Retry,
    /// stop with the error of the attempt to lock
    Fail,
}

impl WorkDirectory {
    /// Where the work directory is.
    pub open spec fn path_bytes(self) -> Seq<u8> {
        child_path_in(self.parent.path@, self.id)
    }

    /// What follows from an attempt to lock a work directory that has just been made.
    pub fn create(parent: &Arc<WorkDirectoryParent>, id: u128, lock: LockOutcome) -> (r: CreateStep)
        ensures
            match lock {
                LockOutcome::Acquired => r matches CreateStep::Created(dir) && dir.parent == *parent
                    && dir.id == id && dir.locked,
                LockOutcome::Blocked | LockOutcome::Missing => r is Retry,
                LockOutcome::Failed => r is Fail,
            },
    {
        match lock {
            LockOutcome::Acquired => CreateStep::Created(
                WorkDirectory { parent: parent.clone(), id, locked: true },
            ),
            LockOutcome::Blocked | LockOutcome::Missing => CreateStep::Retry,
            LockOutcome::Failed => CreateStep::Fail,
        }
    }

    /// Where the work directory is.
    pub fn path(&self) -> (r: UnixPath)
        ensures
            r@ == self.path_bytes(),
    {
        self.parent.child_path(self.id)
    }

    /// Takes the lock away, so that the directory outlives this value.
    pub fn persist(&mut self)
        requires
            old(self).locked,
        ensures
            !final(self).locked,
            final(self).parent == old(self).parent,
            final(self).id == old(self).id,
    {
        self.locked = false;
    }

    /// What is to be removed when this value is dropped: the directory, unless its lock has been
    /// taken away.
    pub fn removed_on_drop(&self) -> (r: Option<UnixPath>)
        ensures
            self.locked ==> (r matches Some(path) && path@ == self.path_bytes()),
            !self.locked ==> r is None,
    {
        if self.locked {
            Some(self.path())
        } else {
            None
        }
    }
}

/// Work directories with different numbers have different names.
pub proof fn lemma_child_names_distinct(a: u128, b: u128)
    requires
        path_of(hex_text(a as nat)) == path_of(hex_text(b as nat)),
    ensures
        a == b,
{
    lemma_utf8_injective(hex_text(a as nat), hex_text(b as nat));
    lemma_numeral_injective(a as nat, b as nat, 16);
}

} // verus!
