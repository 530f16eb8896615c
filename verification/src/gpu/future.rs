//! A GPU future holds the timeline value at which some GPU work completes.
//! It is a state machine over one shared atomic word:
//!
//! ```text
//!   UNSET -> WAITING   send()
//! WAITING -> SET       set()
//! WAITING -> POISONED  the writer was dropped without setting a value
//!     SET -> UNSET     reset()
//! ```
//!
//! The three highest `u64` values encode the non-set states; every other value
//! is a timeline value.

use std::sync::Arc;
use std::sync::atomic::{AtomicU64, Ordering};
use vstd::prelude::*;
use crate::arc::share;
use crate::gpu::ids::QueueId;

verus! {

/// The word of a future that has not been handed to a writer.
pub const GPU_FUTURE_UNSET: u64 = 0xffff_ffff_ffff_ffff;

/// The word of a future whose writer has not written yet.
pub const GPU_FUTURE_WAITING: u64 = 0xffff_ffff_ffff_fffe;

/// The word of a future whose writer went away without writing.
pub const GPU_FUTURE_POISONED: u64 = 0xffff_ffff_ffff_fffd;

/// True for the three words that do not hold a timeline value.
pub open spec fn is_reserved(value: u64) -> bool {
    value == GPU_FUTURE_UNSET || value == GPU_FUTURE_WAITING || value == GPU_FUTURE_POISONED
}

/// A timeline semaphore value at which GPU work is complete.
#[derive(Debug, Clone, Copy, PartialEq, Eq, Structural)]
pub struct TimelineValue(pub u64);

impl TimelineValue {
    /// The semaphore value.
    pub fn into_u64(self) -> (r: u64)
        ensures
            r == self.0,
    {
        self.0
    }
}

/// What a future currently holds.
#[derive(Debug, Clone, Copy, PartialEq, Eq, Structural)]
pub enum GpuFutureState {
    Unset,
    Waiting,
    Written(TimelineValue),
}

/// Why an operation on a future failed.
#[derive(Debug, Clone, Copy, PartialEq, Eq, Structural)]
pub enum GpuFutureError {
    /// The writer went away without writing a value.
    Poisoned,
    /// The future was never handed to a writer.
    Unset,
    /// The writer has not written yet.
    Waiting,
    /// The future was already handed to a writer.
    DuplicateSend,
    /// The future holds a value and must be reset before it is sent again.
    WrittenNotReset,
    /// A reset was asked for while a write is pending.
    ResetPendingWrite,
    /// The value to write is one of the reserved words.
    ReservedValue,
    /// The writer's value was already written.
    WriterAlreadySet,
}

/// The state encoded by a future's word.
pub open spec fn decode_spec(value: u64) -> Result<GpuFutureState, GpuFutureError> {
    if value == GPU_FUTURE_UNSET {
        Ok(GpuFutureState::Unset)
    } else if value == GPU_FUTURE_WAITING {
        Ok(GpuFutureState::Waiting)
    } else if value == GPU_FUTURE_POISONED {
        Err(GpuFutureError::Poisoned)
    } else {
        Ok(GpuFutureState::Written(TimelineValue(value)))
    }
}

/// Decodes a future's word.
pub fn decode_future_word(value: u64) -> (r: Result<GpuFutureState, GpuFutureError>)
    ensures
        r == decode_spec(value),
{
    if value == GPU_FUTURE_UNSET {
        return Ok(GpuFutureState::Unset);
    }
    if value == GPU_FUTURE_WAITING {
        return Ok(GpuFutureState::Waiting);
    }
    if value == GPU_FUTURE_POISONED {
        return Err(GpuFutureError::Poisoned);
    }
    Ok(GpuFutureState::Written(TimelineValue(value)))
}

/// The timeline value of a decoded state, or why there is none.
pub open spec fn value_of_spec(state: Result<GpuFutureState, GpuFutureError>) -> Result<
    TimelineValue,
    GpuFutureError,
> {
    match state {
        Ok(GpuFutureState::Written(value)) => Ok(value),
        Ok(GpuFutureState::Unset) => Err(GpuFutureError::Unset),
        Ok(GpuFutureState::Waiting) => Err(GpuFutureError::Waiting),
        Err(e) => Err(e),
    }
}

/// Why `send` fails when the word was `current` instead of unset.
pub open spec fn send_failure_spec(current: u64) -> GpuFutureError {
    if current == GPU_FUTURE_WAITING {
        GpuFutureError::DuplicateSend
    } else if current == GPU_FUTURE_POISONED {
        GpuFutureError::Poisoned
    } else {
        GpuFutureError::WrittenNotReset
    }
}

/// Why `send` fails when the word was `current` instead of unset.
pub fn send_failure(current: u64) -> (r: GpuFutureError)
    ensures
        r == send_failure_spec(current),
{
    if current == GPU_FUTURE_WAITING {
        GpuFutureError::DuplicateSend
    } else if current == GPU_FUTURE_POISONED {
        GpuFutureError::Poisoned
    } else {
        GpuFutureError::WrittenNotReset
    }
}

/// The word a reset stores over `current`: unset over a timeline value, and
/// nothing over a reserved word.
pub open spec fn reset_target_spec(current: u64) -> Option<u64> {
    if is_reserved(current) {
        None
    } else {
        Some(GPU_FUTURE_UNSET)
    }
}

/// The word a reset stores over `current`, if any.
pub fn reset_target(current: u64) -> (r: Option<u64>)
    ensures
        r == reset_target_spec(current),
{
    if current == GPU_FUTURE_UNSET || current == GPU_FUTURE_WAITING || current
        == GPU_FUTURE_POISONED {
        None
    } else {
        Some(GPU_FUTURE_UNSET)
    }
}

/// What a reset returns when it found `current` and stored nothing.
pub open spec fn reset_refusal_spec(current: u64) -> Result<(), GpuFutureError> {
    if current == GPU_FUTURE_WAITING {
        Err(GpuFutureError::ResetPendingWrite)
    } else if current == GPU_FUTURE_POISONED {
        Err(GpuFutureError::Poisoned)
    } else {
        Ok(())
    }
}

/// What a reset returns for the result of its update of the word: `Ok` with
/// the word it replaced, or `Err` with the word it left alone.
pub open spec fn reset_outcome_spec(fetched: Result<u64, u64>) -> Result<(), GpuFutureError> {
    match fetched {
        Ok(_) => Ok(()),
        Err(current) => reset_refusal_spec(current),
    }
}

/// What a reset returns for the result of its update of the word.
pub fn reset_outcome(fetched: Result<u64, u64>) -> (r: Result<(), GpuFutureError>)
    ensures
        r == reset_outcome_spec(fetched),
{
    match fetched {
        Ok(_) => Ok(()),
        Err(current) => if current == GPU_FUTURE_WAITING {
            Err(GpuFutureError::ResetPendingWrite)
        } else if current == GPU_FUTURE_POISONED {
            Err(GpuFutureError::Poisoned)
        } else {
            Ok(())
        },
    }
}

/// Why a writer's `set` fails when the word was `current` instead of waiting.
pub open spec fn set_failure_spec(current: u64) -> GpuFutureError {
    if current == GPU_FUTURE_UNSET {
        GpuFutureError::Unset
    } else if current == GPU_FUTURE_POISONED {
        GpuFutureError::Poisoned
    } else {
        GpuFutureError::WriterAlreadySet
    }
}

/// Why a writer's `set` fails when the word was `current` instead of waiting.
pub fn set_failure(current: u64) -> (r: GpuFutureError)
    ensures
        r == set_failure_spec(current),
{
    if current == GPU_FUTURE_UNSET {
        GpuFutureError::Unset
    } else if current == GPU_FUTURE_POISONED {
        GpuFutureError::Poisoned
    } else {
        GpuFutureError::WriterAlreadySet
    }
}

/// `AtomicU64::fetch_update` with `reset_target` as the update: it reads the
/// word and stores `reset_target(word)` over it when that is `Some`, retrying
/// while other threads change the word in between. As its documentation
/// states, it returns `Ok(previous)` when it stored a value and
/// `Err(previous)` when the update gave `None`.
#[verifier::external_body]
fn fetch_update_reset(word: &AtomicU64) -> (r: Result<u64, u64>)
    ensures
        match r {
            Ok(previous) => reset_target_spec(previous) is Some,
            Err(previous) => reset_target_spec(previous) is None,
        },
{
    word.fetch_update(Ordering::Release, Ordering::Acquire, |current| reset_target(current))
}

/// `AtomicU64::compare_exchange` from the waiting word to the poisoned word,
/// with its result dropped. Its documentation says it panics only for a
/// release or acquire-release failure ordering; the ordering here is acquire,
/// so it returns normally. Nothing is stated of the word afterwards.
#[verifier::external_body]
fn poison_if_waiting(word: &AtomicU64)
    opens_invariants none
    no_unwind
{
    let _ = word.compare_exchange(
        GPU_FUTURE_WAITING,
        GPU_FUTURE_POISONED,
        Ordering::Release,
        Ordering::Acquire,
    );
}

/// A future for the work submitted on one queue.
#[derive(Debug, Clone)]
pub struct GpuFuture {
    value: Arc<AtomicU64>,
    queue_id: QueueId,
}

impl GpuFuture {
    /// The queue whose work this future tracks.
    pub closed spec fn queue_spec(&self) -> QueueId {
        self.queue_id
    }

    /// A new, unset future for work on `queue_id`.
    pub fn new(queue_id: QueueId) -> (r: Self)
        ensures
            r.queue_spec() == queue_id,
    {
        GpuFuture { value: Arc::new(AtomicU64::new(GPU_FUTURE_UNSET)), queue_id }
    }

    /// The queue whose work this future tracks.
    pub fn queue_id(&self) -> (r: QueueId)
        ensures
            r == self.queue_spec(),
    {
        self.queue_id
    }

    /// The state of the future. Other threads change the word, so this is the
    /// decoding of whatever word was read.
    pub fn get(&self) -> (r: Result<GpuFutureState, GpuFutureError>)
        ensures
            exists|word: u64| r == decode_spec(word),
    {
        let word = self.value.load(Ordering::Acquire);
        decode_future_word(word)
    }

    /// The timeline value, or why the future holds none.
    pub fn get_or_err(&self) -> (r: Result<TimelineValue, GpuFutureError>)
        ensures
            exists|word: u64| r == value_of_spec(decode_spec(word)),
    {
        let word = self.value.load(Ordering::Acquire);
        match decode_future_word(word) {
            Ok(GpuFutureState::Written(value)) => Ok(value),
            Ok(GpuFutureState::Unset) => Err(GpuFutureError::Unset),
            Ok(GpuFutureState::Waiting) => Err(GpuFutureError::Waiting),
            Err(e) => Err(e),
        }
    }

    /// Moves the future from unset to waiting and hands out the one writer
    /// that may set it, a writer of this very future. Fails, saying why,
    /// when the future was not unset.
    pub fn send(&self) -> (r: Result<GpuFutureWriter, GpuFutureError>)
        ensures
            r matches Ok(writer) ==> writer.future_spec() == *self,
            r matches Err(e) ==> exists|word: u64| e == send_failure_spec(word),
    {
        match self.value.compare_exchange(
            GPU_FUTURE_UNSET,
            GPU_FUTURE_WAITING,
            Ordering::Release,
            Ordering::Acquire,
        ) {
            Ok(_) => Ok(
                GpuFutureWriter {
                    future: GpuFuture { value: share(&self.value), queue_id: self.queue_id },
                },
            ),
            Err(current) => Err(send_failure(current)),
        }
    }

    /// Moves a set future back to unset. An unset future stays unset; a
    /// future with a pending write or a poisoned one cannot be reset. Other
    /// threads change the word, so this is the outcome for whatever the
    /// update of the word found.
    pub fn reset(&self) -> (r: Result<(), GpuFutureError>)
        ensures
            exists|fetched: Result<u64, u64>|
                {
                    &&& r == reset_outcome_spec(fetched)
                    &&& match fetched {
                        Ok(previous) => reset_target_spec(previous) is Some,
                        Err(previous) => reset_target_spec(previous) is None,
                    }
                },
    {
        reset_outcome(fetch_update_reset(&self.value))
    }
}

/// The one writer of a sent future.
#[derive(Debug)]
pub struct GpuFutureWriter {
    future: GpuFuture,
}

impl GpuFutureWriter {
    /// The future the writer sets.
    pub closed spec fn future_spec(&self) -> GpuFuture {
        self.future
    }

    /// Writes the timeline value. The reserved words are refused; otherwise
    /// the write fails, saying why, when the future is no longer waiting.
    pub fn set(self, value: u64) -> (r: Result<(), GpuFutureError>)
        ensures
            is_reserved(value) ==> r == Err::<(), GpuFutureError>(GpuFutureError::ReservedValue),
            !is_reserved(value) ==> (r matches Err(e) ==> exists|word: u64|
                e == set_failure_spec(word)),
    {
        if value == GPU_FUTURE_UNSET || value == GPU_FUTURE_WAITING || value
            == GPU_FUTURE_POISONED {
            return Err(GpuFutureError::ReservedValue);
        }
        match self.future.value.compare_exchange(
            GPU_FUTURE_WAITING,
            value,
            Ordering::Release,
            Ordering::Acquire,
        ) {
            Ok(_) => Ok(()),
            Err(current) => Err(set_failure(current)),
        }
    }
}

impl Drop for GpuFutureWriter {
    /// A writer that goes away without writing poisons its future: the owning
    /// thread panicked or forgot to set it.
    fn drop(&mut self)
        opens_invariants none
        no_unwind
    {
        poison_if_waiting(&self.future.value);
    }
}

} // verus!
