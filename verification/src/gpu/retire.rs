//! Tokens that follow a resource through the command buffers that use it,
//! so that the resource can be reused once the GPU is done with it.

use std::sync::Arc;
use std::sync::atomic::{AtomicBool, AtomicU64, AtomicUsize, Ordering};
use vstd::prelude::*;
use crate::gpu::epoch::EpochValue;
use crate::gpu::ids::QueueId;
use crate::gpu::lane_key::LaneKey;
use crate::gpu::roles::QueueRoleFlags;

verus! {

/// A queue a command pool records for: its id and roles.
#[derive(Debug, Clone, Copy, PartialEq, Eq, Structural)]
pub struct QueueLane {
    pub id: QueueId,
    pub roles: QueueRoleFlags,
}

/// A queue handed to a queue group, with the roles it plays there.
#[derive(Debug, Clone, Copy, PartialEq, Eq, Structural)]
pub struct QueueAllocation {
    pub queue_id: QueueId,
    pub roles: QueueRoleFlags,
}

/// Why a token cannot be retired.
#[derive(Debug, Clone, Copy, PartialEq, Eq, Structural)]
pub enum RetireError {
    /// The token was retired before.
    AlreadyRetired,
    /// The token was used on a lane the queue does not have.
    InvalidLane,
}

/// The bit of lane `key` in a word of lanes, by the lane's position.
fn lane_mask(key: LaneKey) -> (r: usize)
    requires
        (key.offset + key.index) < usize::BITS,
    ensures
        r == 1usize << ((key.offset + key.index) as usize),
{
    let bit = key.position() as usize;
    1usize << bit
}

/// The shared state of a token: the lanes it was used on (one bit per lane
/// position), the last epoch it was used in, whether it was retired, and the
/// resource handle.
#[derive(Debug)]
struct RetireState<T: Copy> {
    dirty: AtomicUsize,
    last_epoch: AtomicU64,
    retired: AtomicBool,
    handle: T,
}

/// A token for one resource, shared by everything that uses it.
#[derive(Debug, Clone)]
pub struct RetireToken<T: Copy> {
    state: Arc<RetireState<T>>,
}

impl<T: Copy> RetireToken<T> {
    /// The resource handle of the token.
    pub closed spec fn handle_spec(&self) -> T {
        self.state.handle
    }

    /// A token for `handle`, used on no lane yet and not retired.
    pub fn new(handle: T) -> (r: Self)
        ensures
            r.handle_spec() == handle,
    {
        RetireToken {
            state: Arc::new(
                RetireState {
                    dirty: AtomicUsize::new(0),
                    last_epoch: AtomicU64::new(0xffff_ffff_ffff_ffff),
                    retired: AtomicBool::new(false),
                    handle,
                },
            ),
        }
    }

    /// The resource handle.
    pub fn handle(&self) -> (r: T)
        ensures
            r == self.handle_spec(),
    {
        self.state.handle
    }

    /// Records a use of the resource in `epoch` on lane `key`: sets the
    /// lane's bit and raises the last epoch to `epoch`. The lane's position
    /// must be below the word size. A token that was retired is not touched:
    /// the call fails with `AlreadyRetired`. The flag is shared with the
    /// token's other holders, so which of the two outcomes comes is not
    /// stated; only that a failure is that one.
    pub fn touch(&self, epoch: EpochValue, key: LaneKey) -> (r: Result<(), RetireError>)
        requires
            (key.offset + key.index) < usize::BITS,
        ensures
            r matches Err(e) ==> e == RetireError::AlreadyRetired,
    {
        if self.state.retired.load(Ordering::Relaxed) {
            return Err(RetireError::AlreadyRetired);
        }
        let mask = lane_mask(key);
        self.state.dirty.fetch_or(mask, Ordering::Relaxed);
        self.state.last_epoch.fetch_max(epoch, Ordering::Relaxed);
        Ok(())
    }

    /// Marks the token retired and reads what its uses recorded: its handle,
    /// its lanes (one bit per lane position) and its last epoch. Fails when
    /// the token was retired before. Other holders of the token may touch it
    /// meanwhile, so nothing is stated of the lanes and epoch read.
    pub fn mark_retired(&self) -> (r: Result<(T, usize, EpochValue), RetireError>)
        ensures
            r matches Ok((handle, _, _)) ==> handle == self.handle_spec(),
            r matches Err(e) ==> e == RetireError::AlreadyRetired,
    {
        if self.state.retired.swap(true, Ordering::Relaxed) {
            return Err(RetireError::AlreadyRetired);
        }
        let dirty = self.state.dirty.load(Ordering::Relaxed);
        let last_epoch = self.state.last_epoch.load(Ordering::Relaxed);
        Ok((self.state.handle, dirty, last_epoch))
    }
}

} // verus!
