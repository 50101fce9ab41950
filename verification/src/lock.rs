//! What follows from an attempt to lock a directory.

use vstd::prelude::*;

verus! {

/// How an attempt to lock a directory without waiting went.
#[derive(Debug, Clone, Copy, PartialEq, Eq, Structural)]
pub enum LockOutcome {
    /// the lock is held
    Acquired,
    /// somebody else holds the lock
    Blocked,
    /// there is no such directory
    Missing,
    /// anything else went wrong
    Failed,
}

/// What to do with a directory that is to be removed.
#[derive(Debug, Clone, Copy, PartialEq, Eq, Structural)]
pub enum RemovalStep {
    /// remove it
    Remove,
    /// leave it, and go on with the next
    Skip,
    /// stop with the error of the attempt to lock it
    Fail,
}

/// A directory that may only be removed under its lock: it is left alone while somebody uses it.
pub open spec fn removal_step(outcome: LockOutcome, missing_is_fine: bool) -> RemovalStep {
    match outcome {
        LockOutcome::Acquired => RemovalStep::Remove,
        LockOutcome::Blocked => RemovalStep::Skip,
        LockOutcome::Missing => if missing_is_fine {
            RemovalStep::Skip
        } else {
            RemovalStep::Fail
        },
        LockOutcome::Failed => RemovalStep::Fail,
    }
}

/// What to do with a directory that is to be removed, where somebody else may remove it first or
/// not.
pub fn next_removal_step(outcome: LockOutcome, missing_is_fine: bool) -> (r: RemovalStep)
    ensures
        r == removal_step(outcome, missing_is_fine),
{
    match outcome {
        LockOutcome::Acquired => RemovalStep::Remove,
        LockOutcome::Blocked => RemovalStep::Skip,
        LockOutcome::Missing => if missing_is_fine {
            RemovalStep::Skip
        } else {
            RemovalStep::Fail
        },
        LockOutcome::Failed => RemovalStep::Fail,
    }
}

/// Nothing is ever removed without its lock.
pub proof fn lemma_removed_only_under_lock(outcome: LockOutcome, missing_is_fine: bool)
    ensures
        removal_step(outcome, missing_is_fine) == RemovalStep::Remove <==> outcome
            == LockOutcome::Acquired,
{
}

} // verus!
