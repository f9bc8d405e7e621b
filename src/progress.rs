//! What a progress display shows while a job runs: the state of each input and
//! of the job as a whole. `done` counts the inputs handled so far; after a
//! failure it counts the failed input too.
use vstd::prelude::*;

verus! {

/// The state of one input in a progress display.
#[derive(Debug, Clone, Copy, PartialEq, Eq, Structural)]
pub enum FileStatus {
    /// Appended to the output.
    Done,
    /// Being appended now.
    Working,
    /// Not reached yet.
    Pending,
    /// Could not be read or processed; the job stopped here.
    Failed,
}

/// The state of the job as a whole.
#[derive(Debug, Clone, Copy, PartialEq, Eq, Structural)]
pub enum Phase {
    Done,
    Running,
    Failed,
}

pub open spec fn status_of(i: int, done: int, success: bool) -> FileStatus {
    if !success && i == done - 1 {
        FileStatus::Failed
    } else if i < done {
        FileStatus::Done
    } else if i == done && success {
        FileStatus::Working
    } else {
        FileStatus::Pending
    }
}

/// The state of input `i` once `done` inputs have been handled; `success` is
/// false when the last of them failed.
pub fn file_status(i: usize, done: usize, success: bool) -> (r: FileStatus)
    requires
        success || done >= 1,
    ensures
        r == status_of(i as int, done as int, success),
{
    if !success && i == done - 1 {
        FileStatus::Failed
    } else if i < done {
        FileStatus::Done
    } else if i == done && success {
        FileStatus::Working
    } else {
        FileStatus::Pending
    }
}

/// The job's phase and the number of inputs concatenated so far, once `done`
/// of `n_files` inputs have been handled.
pub fn job_phase(done: usize, n_files: usize, success: bool) -> (r: (Phase, usize))
    requires
        success || done >= 1,
    ensures
        r == (if success && done == n_files {
            (Phase::Done, done)
        } else if success {
            (Phase::Running, done)
        } else {
            (Phase::Failed, (done - 1) as usize)
        }),
{
    if done == n_files && success {
        (Phase::Done, done)
    } else if success {
        (Phase::Running, done)
    } else {
        (Phase::Failed, done - 1)
    }
}

} // verus!
