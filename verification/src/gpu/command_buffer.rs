//! A command buffer records for every queue of a group at once: one raw
//! command buffer per lane, marked dirty once something is recorded for it.

use vstd::prelude::*;
use crate::gpu::ids::{QueueGroupId, QueueId};
use crate::gpu::lane_vec::LaneVec;
use crate::gpu::retire::QueueLane;
use crate::gpu::roles::QueueRoleFlags;
use crate::gpu::tokens::{LivenessGuard, UsageToken};

verus! {

/// One lane of a command buffer: its queue, whether anything was recorded
/// for it, and its raw command buffer handle.
#[derive(Debug, Clone, Copy, PartialEq, Eq, Structural)]
pub struct BufferLane {
    pub queue: QueueLane,
    pub dirty: bool,
    pub cmdbuf: u64,
}

impl BufferLane {
    /// A clean lane for `queue` recording into `cmdbuf`.
    pub fn new(queue: QueueLane, cmdbuf: u64) -> (r: Self)
        ensures
            r == (BufferLane { queue, dirty: false, cmdbuf }),
    {
        BufferLane { queue, dirty: false, cmdbuf }
    }
}

/// The lane after a touch that `hit` it or not: dirty when it was or when hit.
pub open spec fn touched(lane: BufferLane, hit: bool) -> BufferLane {
    BufferLane { queue: lane.queue, dirty: lane.dirty || hit, cmdbuf: lane.cmdbuf }
}

/// Whether the lane runs on queue `id`.
pub open spec fn on_queue(lane: BufferLane, id: QueueId) -> bool {
    lane.queue.id == id
}

/// Whether the lane's queue plays every role of `roles`.
pub open spec fn has_roles(lane: BufferLane, roles: QueueRoleFlags) -> bool {
    lane.queue.roles.bits & roles.bits == roles.bits
}

/// Commands recorded for the lanes of one queue group.
pub struct CommandBuffer {
    lanes: LaneVec<BufferLane>,
    guard: LivenessGuard,
    usage: Option<UsageToken>,
}

impl CommandBuffer {
    /// The lanes, by lane index.
    pub closed spec fn lanes_spec(&self) -> Seq<BufferLane> {
        self.lanes.values()
    }

    /// The queue group the buffer records for.
    pub closed spec fn group_spec(&self) -> QueueGroupId {
        self.lanes.group_spec()
    }

    /// Whether anything was recorded since the buffer was made or disarmed.
    pub closed spec fn in_use(&self) -> bool {
        self.usage is Some
    }

    /// A buffer over `lanes`, with nothing recorded.
    pub fn new(lanes: LaneVec<BufferLane>, guard: LivenessGuard) -> (r: Self)
        ensures
            r.lanes_spec() == lanes.values(),
            r.group_spec() == lanes.group_spec(),
            !r.in_use(),
    {
        CommandBuffer { lanes, guard, usage: None }
    }

    /// The queue group the buffer records for.
    pub fn queue_group_id(&self) -> (r: QueueGroupId)
        ensures
            r == self.group_spec(),
    {
        self.lanes.queue_group_id()
    }

    /// The lanes.
    pub fn lanes(&self) -> (r: &LaneVec<BufferLane>)
        ensures
            r.values() == self.lanes_spec(),
            r.group_spec() == self.group_spec(),
    {
        &self.lanes
    }

    /// Marks dirty every lane on queue `id`; the buffer is in use from then
    /// on when some lane was hit.
    pub fn touch_by_id(&mut self, id: QueueId)
        ensures
            final(self).group_spec() == old(self).group_spec(),
            final(self).lanes_spec().len() == old(self).lanes_spec().len(),
            forall|i: int|
                0 <= i < old(self).lanes_spec().len() ==> #[trigger] final(self).lanes_spec()[i]
                    == touched(old(self).lanes_spec()[i], on_queue(old(self).lanes_spec()[i], id)),
            final(self).in_use() == (old(self).in_use() || exists|i: int|
                0 <= i < old(self).lanes_spec().len() && on_queue(
                    #[trigger] old(self).lanes_spec()[i],
                    id,
                )),
    {
        let ghost before = self.lanes.values();
        let n = self.lanes.len();
        let mut i: usize = 0;
        while i < n
            invariant
                n == before.len(),
                i <= n,
                self.lanes.values().len() == n,
                self.lanes.group_spec() == old(self).lanes.group_spec(),
                before == old(self).lanes.values(),
                forall|k: int| 0 <= k < i ==> #[trigger] self.lanes.values()[k] == touched(before[k], on_queue(before[k], id)),
                forall|k: int| i <= k < n ==> #[trigger] self.lanes.values()[k] == before[k],
                (self.usage is Some) == (old(self).usage is Some || exists|k: int|
                    0 <= k < i && on_queue(#[trigger] before[k], id)),
            decreases n - i,
        {
            let hit = self.lanes.iter()[i].queue.id == id;
            if hit {
                let lane = self.lanes.at_mut(i);
                lane.dirty = true;
                if self.usage.is_none() {
                    self.usage = Some(UsageToken::new());
                }
                assert(on_queue(before[i as int], id));
            }
            i = i + 1;
        }
    }

    /// Marks dirty every lane whose queue plays all of `roles`; the buffer is
    /// in use from then on when some lane was hit.
    pub fn touch_by_roles(&mut self, roles: QueueRoleFlags)
        ensures
            final(self).group_spec() == old(self).group_spec(),
            final(self).lanes_spec().len() == old(self).lanes_spec().len(),
            forall|i: int|
                0 <= i < old(self).lanes_spec().len() ==> #[trigger] final(self).lanes_spec()[i]
                    == touched(old(self).lanes_spec()[i], has_roles(old(self).lanes_spec()[i], roles)),
            final(self).in_use() == (old(self).in_use() || exists|i: int|
                0 <= i < old(self).lanes_spec().len() && has_roles(
                    #[trigger] old(self).lanes_spec()[i],
                    roles,
                )),
    {
        let ghost before = self.lanes.values();
        let n = self.lanes.len();
        let mut i: usize = 0;
        while i < n
            invariant
                n == before.len(),
                i <= n,
                self.lanes.values().len() == n,
                self.lanes.group_spec() == old(self).lanes.group_spec(),
                before == old(self).lanes.values(),
                forall|k: int| 0 <= k < i ==> #[trigger] self.lanes.values()[k] == touched(before[k], has_roles(before[k], roles)),
                forall|k: int| i <= k < n ==> #[trigger] self.lanes.values()[k] == before[k],
                (self.usage is Some) == (old(self).usage is Some || exists|k: int|
                    0 <= k < i && has_roles(#[trigger] before[k], roles)),
            decreases n - i,
        {
            let hit = self.lanes.iter()[i].queue.roles.contains(roles);
            if hit {
                let lane = self.lanes.at_mut(i);
                lane.dirty = true;
                if self.usage.is_none() {
                    self.usage = Some(UsageToken::new());
                }
                assert(has_roles(before[i as int], roles));
            }
            i = i + 1;
        }
    }

    /// The lanes, taking the buffer apart. The buffer must not be in use: a
    /// usage token may only go away once consumed, so a buffer that recorded
    /// something is disarmed first.
    pub fn take_lanes(self) -> (r: LaneVec<BufferLane>)
        requires
            !self.in_use(),
        ensures
            r.values() == self.lanes_spec(),
            r.group_spec() == self.group_spec(),
    {
        self.lanes
    }

    /// Ends the buffer's use: the usage token, if any, is consumed and
    /// dropped.
    pub fn disarm(&mut self)
        ensures
            final(self).lanes_spec() == old(self).lanes_spec(),
            final(self).group_spec() == old(self).group_spec(),
            !final(self).in_use(),
    {
        if let Some(mut usage) = self.usage.take() {
            usage.consume();
        }
    }
}

} // verus!
