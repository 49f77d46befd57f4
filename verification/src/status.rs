//! The status a process exits with.

use vstd::prelude::*;

verus! {

/// Zero where the run ended in good order, one where it failed.
pub open spec fn exit_status<E>(outcome: Result<(), E>) -> i32 {
    match outcome {
        Ok(_) => 0,
        Err(_) => 1,
    }
}

/// The exit status for the outcome of a run.
pub fn exit_code<E>(outcome: &Result<(), E>) -> (code: i32)
    ensures
        code == exit_status(*outcome),
{
    match outcome {
        Ok(_) => 0,
        Err(_) => 1,
    }
}

} // verus!
