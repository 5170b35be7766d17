//! One agent at a time: the first one holds a lock on a file for as long as it
//! runs.

use vstd::prelude::*;

use crate::text::join_path;

verus! {

/// What trying to lock the file came to.
#[derive(Debug, Clone, PartialEq, Eq)]
pub enum LockAttempt {
    Locked,
    /// Another agent holds it.
    WouldBlock,
    Failed(String),
}

/// The file, in the agent's data directory. What it holds does not matter.
pub fn lock_path(dir: &str, windows: bool) -> (r: String)
    ensures
        r@ == crate::text::joined(windows, dir@, "agent.lock"@),
{
    join_path(windows, dir, "agent.lock")
}

/// Whether this agent is the only one. That another one is running is no
/// failure.
pub fn acquire(attempt: LockAttempt) -> (r: Result<bool, String>)
    ensures
        match attempt {
            LockAttempt::Locked => r == Ok::<bool, String>(true),
            LockAttempt::WouldBlock => r == Ok::<bool, String>(false),
            LockAttempt::Failed(err) => r == Err::<bool, String>(err),
        },
{
    match attempt {
        LockAttempt::Locked => Ok(true),
        LockAttempt::WouldBlock => Ok(false),
        LockAttempt::Failed(err) => Err(err),
    }
}

} // verus!
