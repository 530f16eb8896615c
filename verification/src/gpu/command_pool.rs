//! A command pool per lane of a queue group, and the raw command buffers it
//! recycles: buffers handed out since the last reset are active; a reset
//! sends them back to wait for reuse, first in first out.

use std::collections::VecDeque;
use vstd::prelude::*;
use vstd::multiset::Multiset;
use crate::gpu::command_buffer::BufferLane;
use crate::gpu::future::{GpuFuture, GpuFutureError};
use crate::gpu::ids::QueueGroupId;
use crate::gpu::lane_vec::{LaneVec, LaneVecBuilder};
use crate::gpu::queue_lane::reset_outcome;
use crate::gpu::retire::QueueLane;
use crate::gpu::tokens::{LivenessGuard, LivenessToken};

verus! {

broadcast use vstd::seq_lib::group_to_multiset_ensures;

/// One lane of a command pool: its queue, the future of its last submission,
/// its raw pool handle, and the raw command buffers it owns.
#[derive(Debug)]
pub struct PoolLane {
    queue: QueueLane,
    future: GpuFuture,
    pool: u64,
    waiting: VecDeque<u64>,
    active: Vec<u64>,
}

impl PoolLane {
    /// The lane's queue.
    pub closed spec fn queue_spec(&self) -> QueueLane {
        self.queue
    }

    /// The future of the lane's last submission.
    pub closed spec fn future_spec(&self) -> GpuFuture {
        self.future
    }

    /// The raw pool handle.
    pub closed spec fn pool_spec(&self) -> u64 {
        self.pool
    }

    /// The buffers waiting for reuse, the next one first.
    pub closed spec fn waiting_spec(&self) -> Seq<u64> {
        self.waiting@
    }

    /// The buffers handed out since the last reset, in order.
    pub closed spec fn active_spec(&self) -> Seq<u64> {
        self.active@
    }

    /// Every buffer the lane owns, waiting or active.
    pub open spec fn owned(&self) -> Multiset<u64> {
        (self.waiting_spec() + self.active_spec()).to_multiset()
    }

    /// A lane for `queue` over the raw pool `pool`, owning no buffer yet.
    pub fn new(queue: QueueLane, pool: u64) -> (r: Self)
        ensures
            r.queue_spec() == queue,
            r.future_spec().queue_spec() == queue.id,
            r.pool_spec() == pool,
            r.waiting_spec() == Seq::<u64>::empty(),
            r.active_spec() == Seq::<u64>::empty(),
    {
        PoolLane {
            queue,
            future: GpuFuture::new(queue.id),
            pool,
            waiting: VecDeque::new(),
            active: Vec::new(),
        }
    }

    /// The lane's queue.
    pub fn queue(&self) -> (r: QueueLane)
        ensures
            r == self.queue_spec(),
    {
        self.queue
    }

    /// The future of the lane's last submission.
    pub fn future(&self) -> (r: &GpuFuture)
        ensures
            *r == self.future_spec(),
    {
        &self.future
    }

    /// The raw pool handle.
    pub fn pool(&self) -> (r: u64)
        ensures
            r == self.pool_spec(),
    {
        self.pool
    }

    /// Whether no buffer waits, so the next one must be newly allocated.
    pub fn needs_fresh(&self) -> (r: bool)
        ensures
            r == (self.waiting_spec().len() == 0),
    {
        self.waiting.len() == 0
    }

    /// Hands out the next buffer: the first waiting one, or else `fresh`,
    /// a buffer newly allocated from the pool. It becomes active.
    pub fn take(&mut self, fresh: Option<u64>) -> (r: Option<u64>)
        ensures
            r == next_buffer(*old(self), fresh),
            took(*old(self), *final(self), fresh),
            final(self).owned() == (if old(self).waiting_spec().len() == 0 && fresh is Some {
                old(self).owned().insert(fresh->0)
            } else {
                old(self).owned()
            }),
    {
        let r = match self.waiting.pop_front() {
            Some(buffer) => Some(buffer),
            None => fresh,
        };
        if let Some(buffer) = r {
            self.active.push(buffer);
        }
        proof {
            let w = old(self).waiting@;
            let a = old(self).active@;
            assert(self.waiting@ =~= (if w.len() > 0 { w.drop_first() } else { w }));
            vstd::seq_lib::lemma_multiset_commutative(w, a);
            vstd::seq_lib::lemma_multiset_commutative(self.waiting@, self.active@);
            if w.len() > 0 {
                assert(w.drop_first() =~= w.remove(0));
            }
        }
        r
    }

    /// Resets the lane's future and sends every active buffer back to wait,
    /// after those already waiting. When the future cannot be reset the lane
    /// is left as it was.
    pub fn recycle(&mut self) -> (r: Result<(), GpuFutureError>)
        ensures
            reset_outcome(r),
            r is Ok ==> recycled(*old(self), *final(self)),
            r is Err ==> *final(self) == *old(self),
            final(self).owned() == old(self).owned(),
    {
        let r = self.future.reset();
        if r.is_err() {
            return r;
        }
        let mut i: usize = 0;
        while i < self.active.len()
            invariant
                i <= self.active@.len(),
                self.active@ == old(self).active@,
                self.waiting@ == old(self).waiting@ + self.active@.subrange(0, i as int),
                self.queue == old(self).queue,
                self.pool == old(self).pool,
                self.future == old(self).future,
            decreases self.active@.len() - i,
        {
            self.waiting.push_back(self.active[i]);
            assert(self.active@.subrange(0, i + 1) =~= self.active@.subrange(0, i as int).push(
                self.active@[i as int],
            ));
            i = i + 1;
        }
        assert(self.active@.subrange(0, self.active@.len() as int) =~= self.active@);
        self.active = Vec::new();
        assert(self.waiting@ + self.active@ =~= old(self).waiting@ + old(self).active@);
        Ok(())
    }
}

/// The buffer a lane hands out next: its first waiting buffer, or else
/// `fresh`.
pub open spec fn next_buffer(lane: PoolLane, fresh: Option<u64>) -> Option<u64> {
    if lane.waiting_spec().len() > 0 {
        Some(lane.waiting_spec()[0])
    } else {
        fresh
    }
}

/// `after` is `before` once it handed out its next buffer.
pub open spec fn took(before: PoolLane, after: PoolLane, fresh: Option<u64>) -> bool {
    &&& after.queue_spec() == before.queue_spec()
    &&& after.future_spec() == before.future_spec()
    &&& after.pool_spec() == before.pool_spec()
    &&& after.waiting_spec() == (if before.waiting_spec().len() > 0 {
        before.waiting_spec().drop_first()
    } else {
        before.waiting_spec()
    })
    &&& after.active_spec() == (match next_buffer(before, fresh) {
        Some(b) => before.active_spec().push(b),
        None => before.active_spec(),
    })
}

/// `after` is `before` once its active buffers went back to wait.
pub open spec fn recycled(before: PoolLane, after: PoolLane) -> bool {
    &&& after.queue_spec() == before.queue_spec()
    &&& after.future_spec() == before.future_spec()
    &&& after.pool_spec() == before.pool_spec()
    &&& after.waiting_spec() == before.waiting_spec() + before.active_spec()
    &&& after.active_spec() == Seq::<u64>::empty()
}

/// The lanes `after` are the lanes `before` with those below `k` recycled
/// and the others as they were.
pub open spec fn reset_before(before: Seq<PoolLane>, after: Seq<PoolLane>, k: int) -> bool {
    &&& after.len() == before.len()
    &&& forall|i: int| 0 <= i < k ==> recycled(before[i], #[trigger] after[i])
    &&& forall|i: int| k <= i < before.len() ==> #[trigger] after[i] == before[i]
}

/// The command buffer lane a pool lane gives out with `buffer`.
pub open spec fn buffer_lane_of(lane: PoolLane, buffer: u64) -> BufferLane {
    BufferLane { queue: lane.queue_spec(), dirty: false, cmdbuf: buffer }
}

/// Command pools for every lane of a queue group, handed out by one
/// allocator.
pub struct CommandPool {
    allocator_id: usize,
    lanes: LaneVec<PoolLane>,
    liveness: LivenessToken,
    guard: LivenessGuard,
}

impl CommandPool {
    /// The lanes, by lane index.
    pub closed spec fn lanes_spec(&self) -> Seq<PoolLane> {
        self.lanes.values()
    }

    /// The queue group of the pool.
    pub closed spec fn group_spec(&self) -> QueueGroupId {
        self.lanes.group_spec()
    }

    /// The token that counts the pool's live command buffers.
    pub closed spec fn liveness_spec(&self) -> LivenessToken {
        self.liveness
    }

    /// The allocator that handed out the pool.
    pub closed spec fn allocator_spec(&self) -> usize {
        self.allocator_id
    }

    /// A pool of allocator `allocator_id` over `lanes`, whose raw pools were
    /// created for the lanes' queue families.
    pub fn new(allocator_id: usize, lanes: LaneVec<PoolLane>, guard: LivenessGuard) -> (r: Self)
        ensures
            r.allocator_spec() == allocator_id,
            r.lanes_spec() == lanes.values(),
            r.group_spec() == lanes.group_spec(),
            r.liveness_spec().counter == 0,
    {
        CommandPool { allocator_id, lanes, liveness: LivenessToken::new(), guard }
    }

    /// The allocator that handed out the pool.
    pub fn allocator_id(&self) -> (r: usize)
        ensures
            r == self.allocator_spec(),
    {
        self.allocator_id
    }

    /// The queue group of the pool.
    pub fn queue_group_id(&self) -> (r: QueueGroupId)
        ensures
            r == self.group_spec(),
    {
        self.lanes.queue_group_id()
    }

    /// The lanes.
    pub fn lanes(&self) -> (r: &LaneVec<PoolLane>)
        ensures
            r.values() == self.lanes_spec(),
            r.group_spec() == self.group_spec(),
    {
        &self.lanes
    }

    /// The token that counts the pool's live command buffers.
    pub fn liveness(&self) -> (r: &LivenessToken)
        ensures
            *r == self.liveness_spec(),
    {
        &self.liveness
    }

    /// For each lane, whether it has no buffer waiting, so the next
    /// allocation needs a new raw buffer there.
    pub fn needs_fresh(&self) -> (r: Vec<bool>)
        ensures
            r@.len() == self.lanes_spec().len(),
            forall|i: int|
                0 <= i < r@.len() ==> #[trigger] r@[i] == (self.lanes_spec()[i].waiting_spec().len()
                    == 0),
    {
        let lanes = self.lanes.iter();
        let mut out: Vec<bool> = Vec::with_capacity(lanes.len());
        let mut i: usize = 0;
        while i < lanes.len()
            invariant
                lanes@ == self.lanes_spec(),
                i <= lanes@.len(),
                out@.len() == i,
                forall|k: int|
                    0 <= k < i ==> #[trigger] out@[k] == (lanes@[k].waiting_spec().len() == 0),
            decreases lanes@.len() - i,
        {
            out.push(lanes[i].needs_fresh());
            i = i + 1;
        }
        out
    }

    /// A command buffer lane for every lane: each lane hands out its next
    /// buffer, the first waiting one or else the new raw buffer in `fresh`,
    /// which must be there for every lane with nothing waiting.
    pub fn allocate(&mut self, fresh: &Vec<Option<u64>>) -> (r: LaneVec<BufferLane>)
        requires
            fresh@.len() == old(self).lanes_spec().len(),
            forall|i: int|
                0 <= i < fresh@.len() && (#[trigger] old(self).lanes_spec()[i]).waiting_spec().len()
                    == 0 ==> fresh@[i] is Some,
        ensures
            r.group_spec() == old(self).group_spec(),
            final(self).group_spec() == old(self).group_spec(),
            final(self).allocator_spec() == old(self).allocator_spec(),
            r.values().len() == old(self).lanes_spec().len(),
            final(self).lanes_spec().len() == old(self).lanes_spec().len(),
            forall|i: int|
                0 <= i < r.values().len() ==> #[trigger] r.values()[i] == buffer_lane_of(
                    old(self).lanes_spec()[i],
                    next_buffer(old(self).lanes_spec()[i], fresh@[i])->0,
                ),
            forall|i: int|
                0 <= i < r.values().len() ==> took(
                    old(self).lanes_spec()[i],
                    #[trigger] final(self).lanes_spec()[i],
                    fresh@[i],
                ),
    {
        let ghost before = self.lanes.values();
        let mut out: LaneVecBuilder<BufferLane> = LaneVecBuilder::with_lanes(&self.lanes);
        let n = self.lanes.len();
        let mut i: usize = 0;
        while i < n
            invariant
                n == before.len(),
                before == old(self).lanes_spec(),
                fresh@.len() == n,
                forall|k: int|
                    0 <= k < n && (#[trigger] before[k]).waiting_spec().len() == 0 ==> fresh@[k] is Some,
                i <= n,
                self.lanes.values().len() == n,
                self.lanes.group_spec() == old(self).group_spec(),
                self.allocator_id == old(self).allocator_id,
                out.group_spec() == old(self).group_spec(),
                out.len_spec() == n,
                out.values().len() == i,
                forall|k: int|
                    0 <= k < i ==> #[trigger] out.values()[k] == buffer_lane_of(
                        before[k],
                        next_buffer(before[k], fresh@[k])->0,
                    ),
                forall|k: int| 0 <= k < i ==> took(before[k], #[trigger] self.lanes.values()[k], fresh@[k]),
                forall|k: int| i <= k < n ==> #[trigger] self.lanes.values()[k] == before[k],
            decreases n - i,
        {
            let lane = self.lanes.at_mut(i);
            let queue = lane.queue();
            let taken = lane.take(fresh[i]);
            let buffer = match taken {
                Some(b) => b,
                None => {
                    proof {
                        assert(before[i as int].waiting_spec().len() == 0);
                    }
                    0
                },
            };
            out.push(BufferLane::new(queue, buffer));
            i = i + 1;
        }
        out.build()
    }

    /// Resets every lane in order: its future goes back to unset and its
    /// active buffers back to wait. Stops at the first lane whose future
    /// cannot be reset and returns that error; the lanes before it are reset,
    /// it and those after it are as they were.
    pub fn reset(&mut self) -> (r: Result<(), GpuFutureError>)
        ensures
            reset_outcome(r),
            final(self).group_spec() == old(self).group_spec(),
            final(self).allocator_spec() == old(self).allocator_spec(),
            final(self).lanes_spec().len() == old(self).lanes_spec().len(),
            r is Ok ==> forall|i: int|
                0 <= i < old(self).lanes_spec().len() ==> recycled(
                    old(self).lanes_spec()[i],
                    #[trigger] final(self).lanes_spec()[i],
                ),
            r is Err ==> exists|k: int|
                0 <= k < old(self).lanes_spec().len() && #[trigger] reset_before(
                    old(self).lanes_spec(),
                    final(self).lanes_spec(),
                    k,
                ),
    {
        let ghost before = self.lanes.values();
        let n = self.lanes.len();
        let mut i: usize = 0;
        while i < n
            invariant
                n == before.len(),
                before == old(self).lanes_spec(),
                i <= n,
                self.lanes.values().len() == n,
                self.lanes.group_spec() == old(self).group_spec(),
                self.allocator_id == old(self).allocator_id,
                forall|k: int| 0 <= k < i ==> recycled(before[k], #[trigger] self.lanes.values()[k]),
                forall|k: int| i <= k < n ==> #[trigger] self.lanes.values()[k] == before[k],
            decreases n - i,
        {
            let lane = self.lanes.at_mut(i);
            let r = lane.recycle();
            if r.is_err() {
                proof {
                    assert(self.lanes.values()[i as int] == before[i as int]);
                    assert(reset_before(before, self.lanes.values(), i as int));
                }
                return r;
            }
            i = i + 1;
        }
        Ok(())
    }
}

} // verus!
