//! The lanes of a queue group as a command pool sees them: a queue and the
//! future of the work last submitted on it.

use vstd::prelude::*;
use crate::gpu::future::{GpuFuture, GpuFutureError};
use crate::gpu::queue_group_table::QueueBinding;
use crate::gpu::retire::QueueLane;

verus! {

/// The ways resetting a future can fail.
pub open spec fn reset_outcome(r: Result<(), GpuFutureError>) -> bool {
    r is Ok || r == Err::<(), GpuFutureError>(GpuFutureError::ResetPendingWrite) || r
        == Err::<(), GpuFutureError>(GpuFutureError::Poisoned)
}

/// A queue and the future of the work last submitted on it.
#[derive(Debug, Clone)]
pub struct PoolLane {
    pub queue: QueueLane,
    pub future: GpuFuture,
}

impl PoolLane {
    /// Resets the lane's future so the lane can take new work.
    pub fn reset(&mut self) -> (r: Result<(), GpuFutureError>)
        ensures
            *final(self) == *old(self),
            reset_outcome(r),
    {
        self.future.reset()
    }
}

/// The lane a binding gives: the binding's queue and roles, and a new future
/// for that queue.
pub open spec fn lane_of_binding(binding: QueueBinding, lane: PoolLane) -> bool {
    &&& lane.queue == QueueLane { id: binding.id, roles: binding.roles }
    &&& lane.future.queue_spec() == binding.id
}

/// One lane per queue binding of a group, in lane order.
#[derive(Debug, Clone)]
pub struct PoolLanes(pub Vec<PoolLane>);

impl PoolLanes {
    /// A lane for each binding, in order.
    pub fn new(bindings: &[QueueBinding]) -> (r: Self)
        ensures
            r.0@.len() == bindings@.len(),
            forall|i: int| 0 <= i < bindings@.len() ==> lane_of_binding(bindings@[i], #[trigger] r.0@[i]),
    {
        let mut lanes: Vec<PoolLane> = Vec::with_capacity(bindings.len());
        let mut i: usize = 0;
        while i < bindings.len()
            invariant
                i <= bindings@.len(),
                lanes@.len() == i,
                forall|k: int| 0 <= k < i ==> lane_of_binding(bindings@[k], #[trigger] lanes@[k]),
            decreases bindings@.len() - i,
        {
            let binding = bindings[i];
            let queue = QueueLane { id: binding.id, roles: binding.roles };
            lanes.push(PoolLane { queue, future: GpuFuture::new(binding.id) });
            i = i + 1;
        }
        PoolLanes(lanes)
    }

    /// Resets the future of every lane, in order, stopping at the first that
    /// cannot be reset and returning its error.
    pub fn reset(&mut self) -> (r: Result<(), GpuFutureError>)
        ensures
            final(self).0@ == old(self).0@,
            reset_outcome(r),
    {
        let mut i: usize = 0;
        while i < self.0.len()
            invariant
                i <= self.0@.len(),
                self.0@ == old(self).0@,
            decreases self.0@.len() - i,
        {
            let r = self.0[i].future.reset();
            if r.is_err() {
                return r;
            }
            i = i + 1;
        }
        Ok(())
    }

    /// The lanes, in order.
    pub fn lanes(&self) -> (r: &[PoolLane])
        ensures
            r@ == self.0@,
    {
        self.0.as_slice()
    }
}

} // verus!
