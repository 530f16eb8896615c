use vstd::prelude::*;
use crate::gpu::ids::QueueId;

verus! {

/// The reserved id of a submission that was never made.
pub const SUBMISSION_ID_UNINITIALIZED: u64 = 0xffff_ffff_ffff_ffff;
/// The reserved id of a submission that failed.
pub const SUBMISSION_ID_FAILED: u64 = 0xffff_ffff_ffff_fffe;

/// The timeline value a queue's submission signals.
#[derive(Debug, Clone, Copy, PartialEq, Eq, PartialOrd, Ord, Structural)]
pub struct SubmissionId(pub u64);

/// Why a submission id cannot be made.
#[derive(Debug, Clone, Copy, PartialEq, Eq, Structural)]
pub enum SubmissionError {
    Overflow,
}

impl SubmissionId {
    /// The id `id`, which must lie below the two reserved values.
    pub fn new(id: u64) -> (r: Result<Self, SubmissionError>)
        requires
            id < SUBMISSION_ID_FAILED,
        ensures
            r == Ok::<Self, SubmissionError>(SubmissionId(id)),
    {
        Ok(SubmissionId(id))
    }

    /// A real submission: neither zero nor one of the reserved values.
    pub fn is_set(&self) -> (r: bool)
        ensures
            r == (self.0 != 0 && self.0 != SUBMISSION_ID_UNINITIALIZED && self.0
                != SUBMISSION_ID_FAILED),
    {
        !self.zero() && !self.uninitialized() && !self.failed()
    }

    pub fn zero(&self) -> (r: bool)
        ensures
            r == (self.0 == 0),
    {
        self.0 == 0
    }

    pub fn uninitialized(&self) -> (r: bool)
        ensures
            r == (self.0 == SUBMISSION_ID_UNINITIALIZED),
    {
        self.0 == SUBMISSION_ID_UNINITIALIZED
    }

    pub fn failed(&self) -> (r: bool)
        ensures
            r == (self.0 == SUBMISSION_ID_FAILED),
    {
        self.0 == SUBMISSION_ID_FAILED
    }

    /// The raw timeline value.
    pub fn into_u64(self) -> (r: u64)
        ensures
            r == self.0,
    {
        self.0
    }
}

/// Hands out the submission ids of one queue: 1, 2, 3, ...
#[derive(Debug, Clone, Copy)]
pub struct SubmissionCounter {
    pub id: QueueId,
    pub counter: u64,
}

impl SubmissionCounter {
    pub fn new(id: QueueId) -> (r: Self)
        ensures
            r.id == id,
            r.counter == 0,
    {
        SubmissionCounter { id, counter: 0 }
    }

    /// Reserves the next id: one more than the number of ids reserved before.
    pub fn reserve(&mut self) -> (r: Result<SubmissionId, SubmissionError>)
        requires
            old(self).counter + 1 < SUBMISSION_ID_FAILED,
        ensures
            final(self).id == old(self).id,
            final(self).counter == old(self).counter + 1,
            r == Ok::<SubmissionId, SubmissionError>(SubmissionId((old(self).counter + 1) as u64)),
    {
        let value = self.counter;
        self.counter = value + 1;
        SubmissionId::new(value + 1)
    }
}

} // verus!
