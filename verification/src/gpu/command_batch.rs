//! Gathers the command buffers of one frame into a single submission: for
//! every lane, the raw buffers that recorded something for it, in the order
//! they were added.

use vstd::prelude::*;
use crate::gpu::command_buffer::{BufferLane, CommandBuffer};
use crate::gpu::ids::QueueGroupId;
use crate::gpu::lane_vec::LaneVec;

verus! {

/// Why a batch cannot be submitted.
#[derive(Debug, Clone, Copy, PartialEq, Eq, Structural)]
pub enum CommandBatchError {
    /// Nothing was added, so the batch belongs to no frame.
    NoFrame,
    /// The batch has no lanes.
    Empty,
}

/// The raw buffers of one lane, as plain handles.
pub open spec fn handles_of(lanes: Seq<Vec<u64>>) -> Seq<Seq<u64>> {
    lanes.map_values(|v: Vec<u64>| v@)
}

/// What a lane held before an add: its handles, or none before the first.
pub open spec fn prior_handles(before: Option<Seq<Seq<u64>>>, i: int) -> Seq<u64> {
    match before {
        Some(h) => h[i],
        None => Seq::empty(),
    }
}

/// What an add puts on a lane: the lane's raw buffer when it is dirty.
pub open spec fn pushed_handles(lane: BufferLane) -> Seq<u64> {
    if lane.dirty {
        seq![lane.cmdbuf]
    } else {
        Seq::empty()
    }
}

/// The handles of every lane after adding a buffer with `lanes` to a batch
/// that held `before`.
pub open spec fn batch_after(before: Option<Seq<Seq<u64>>>, lanes: Seq<BufferLane>) -> Seq<
    Seq<u64>,
> {
    Seq::new(lanes.len(), |i: int| prior_handles(before, i) + pushed_handles(lanes[i]))
}

/// An empty list of raw buffers.
fn no_handles() -> (r: Vec<u64>)
    ensures
        r@ == Seq::<u64>::empty(),
{
    Vec::new()
}

/// The work of one frame, ready to submit: per lane, the raw buffers.
pub struct Submission<F> {
    pub frame: F,
    pub lanes: LaneVec<Vec<u64>>,
}

/// Command buffers of one frame, gathered lane by lane.
pub struct CommandBatch<F> {
    frame: Option<F>,
    lanes: Option<LaneVec<Vec<u64>>>,
}

impl<F> CommandBatch<F> {
    /// The frame of the batch, once something was added.
    pub closed spec fn frame_spec(&self) -> Option<F> {
        self.frame
    }

    /// The queue group of the lanes, once something was added.
    pub closed spec fn group_spec(&self) -> Option<QueueGroupId> {
        match self.lanes {
            Some(l) => Some(l.group_spec()),
            None => None,
        }
    }

    /// The raw buffers of every lane, once something was added.
    pub closed spec fn handles_spec(&self) -> Option<Seq<Seq<u64>>> {
        match self.lanes {
            Some(l) => Some(handles_of(l.values())),
            None => None,
        }
    }

    /// An empty batch.
    pub fn new() -> (r: Self)
        ensures
            r.frame_spec() is None,
            r.group_spec() is None,
            r.handles_spec() is None,
    {
        CommandBatch { frame: None, lanes: None }
    }

    /// Whether nothing was added yet.
    pub fn is_empty(&self) -> (r: bool)
        ensures
            r == self.frame_spec() is None,
    {
        self.frame.is_none()
    }

    /// Adds a command buffer of `frame`: the raw buffer of each of its dirty
    /// lanes goes to the end of that lane's list. The first add fixes the
    /// frame and the lanes; every later buffer must be of the same frame and
    /// queue group, with as many lanes, and disarmed.
    pub fn add(&mut self, frame: F, cmdbuf: CommandBuffer)
        requires
            !cmdbuf.in_use(),
            old(self).frame_spec() matches Some(f) ==> f == frame,
            old(self).group_spec() matches Some(g) ==> g == cmdbuf.group_spec(),
            old(self).handles_spec() matches Some(h) ==> h.len() == cmdbuf.lanes_spec().len(),
        ensures
            final(self).frame_spec() == Some(frame),
            final(self).group_spec() == Some(cmdbuf.group_spec()),
            final(self).handles_spec() == Some(
                batch_after(old(self).handles_spec(), cmdbuf.lanes_spec()),
            ),
    {
        let incoming = cmdbuf.take_lanes();
        let ghost lanes = incoming.values();
        let ghost before = self.handles_spec();
        let mut batch = match self.lanes.take() {
            Some(l) => l,
            None => LaneVec::filled(&incoming, no_handles),
        };
        let n = incoming.len();
        proof {
            assert forall|k: int| 0 <= k < n implies #[trigger] batch.values()[k]@ == prior_handles(
                before,
                k,
            ) by {}
        }
        let mut i: usize = 0;
        while i < n
            invariant
                n == lanes.len(),
                incoming.values() == lanes,
                i <= n,
                batch.values().len() == n,
                batch.group_spec() == incoming.group_spec(),
                forall|k: int|
                    0 <= k < i ==> #[trigger] batch.values()[k]@ == prior_handles(before, k)
                        + pushed_handles(lanes[k]),
                forall|k: int| i <= k < n ==> #[trigger] batch.values()[k]@ == prior_handles(before, k),
            decreases n - i,
        {
            let lane = incoming.iter()[i];
            if lane.dirty {
                let handles = batch.at_mut(i);
                handles.push(lane.cmdbuf);
            } else {
                assert(pushed_handles(lane) =~= Seq::<u64>::empty());
                assert(prior_handles(before, i as int) + pushed_handles(lane) =~= prior_handles(before, i as int));
            }
            i = i + 1;
        }
        proof {
            assert(handles_of(batch.values()) =~= batch_after(before, lanes));
        }
        self.lanes = Some(batch);
        self.frame = Some(frame);
    }

    /// The submission of the batch: its frame and, per lane, the raw buffers
    /// added. Fails when nothing was added.
    pub fn finish(self) -> (r: Result<Submission<F>, CommandBatchError>)
        ensures
            self.frame_spec() is None ==> (r matches Err(e) && e == CommandBatchError::NoFrame),
            self.frame_spec() is Some && self.handles_spec() is None ==> (r matches Err(e) && e
                == CommandBatchError::Empty),
            self.frame_spec() is Some && self.handles_spec() is Some ==> (r matches Ok(s) && Some(
                s.frame,
            ) == self.frame_spec() && Some(handles_of(s.lanes.values())) == self.handles_spec()
                && Some(s.lanes.group_spec()) == self.group_spec()),
    {
        let frame = match self.frame {
            Some(f) => f,
            None => return Err(CommandBatchError::NoFrame),
        };
        let lanes = match self.lanes {
            Some(l) => l,
            None => return Err(CommandBatchError::Empty),
        };
        Ok(Submission { frame, lanes })
    }
}

} // verus!
