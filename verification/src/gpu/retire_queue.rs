//! Holds retired resources until the GPU is done with them: a resource comes
//! back for reuse once every lane it was used on has completed the last
//! epoch it was used in.

use std::collections::VecDeque;
use vstd::prelude::*;
use vstd::multiset::Multiset;
use crate::gpu::epoch::EpochValue;
use crate::gpu::progress::ProgressTracker;
use crate::gpu::retire::{RetireError, RetireToken};

verus! {

broadcast use vstd::seq_lib::group_to_multiset_ensures;

/// Lane position `lane` is among the lanes of `dirty`, one bit per position.
pub open spec fn lane_bit(dirty: usize, lane: int) -> bool {
    0 <= lane < usize::BITS && (dirty >> (lane as usize)) & 1usize == 1usize
}

/// Every lane of `dirty` is below `lane_count`.
pub open spec fn lanes_fit(dirty: usize, lane_count: int) -> bool {
    forall|i: int| #[trigger] lane_bit(dirty, i) ==> i < lane_count
}

/// Every lane of `dirty` has completed epoch `epoch`.
pub open spec fn settled(progress: ProgressTracker, dirty: usize, epoch: EpochValue) -> bool {
    forall|i: int| #[trigger] lane_bit(dirty, i) ==> progress.complete_spec(i, epoch)
}

/// A retired resource that some lane may still use: its handle, its lanes
/// and the last epoch it was used in.
#[derive(Debug, Clone, Copy)]
pub struct Pending<T: Copy> {
    pub handle: T,
    pub dirty: usize,
    pub epoch: EpochValue,
}

/// Every lane of the pending resource is done with it.
pub open spec fn is_settled<T: Copy>(progress: ProgressTracker, p: Pending<T>) -> bool {
    settled(progress, p.dirty, p.epoch)
}

/// The resources of `pending` that every lane is done with, in order.
pub open spec fn settled_of<T: Copy>(progress: ProgressTracker, pending: Seq<Pending<T>>) -> Seq<Pending<T>> {
    pending.filter(|p: Pending<T>| is_settled(progress, p))
}

/// The resources of `pending` that some lane may still use, in order.
pub open spec fn unsettled_of<T: Copy>(progress: ProgressTracker, pending: Seq<Pending<T>>) -> Seq<Pending<T>> {
    pending.filter(|p: Pending<T>| !is_settled(progress, p))
}

/// The handles of pending resources, in order.
pub open spec fn handles_of<T: Copy>(pending: Seq<Pending<T>>) -> Seq<T> {
    pending.map_values(|p: Pending<T>| p.handle)
}

/// Splitting pending resources into settled and unsettled ones keeps every
/// handle.
proof fn lemma_split_handles<T: Copy>(progress: ProgressTracker, s: Seq<Pending<T>>)
    ensures
        handles_of(s).to_multiset() =~= handles_of(settled_of(progress, s)).to_multiset().add(
            handles_of(unsettled_of(progress, s)).to_multiset(),
        ),
    decreases s.len(),
{
    broadcast use vstd::multiset::group_multiset_axioms;

    reveal_with_fuel(Seq::filter, 1);
    if s.len() == 0 {
        assert(handles_of(s) =~= Seq::<T>::empty());
        assert(handles_of(settled_of(progress, s)) =~= Seq::<T>::empty());
        assert(handles_of(unsettled_of(progress, s)) =~= Seq::<T>::empty());
    } else {
        let rest = s.drop_last();
        let last = s.last();
        lemma_split_handles(progress, rest);
        assert(handles_of(s) =~= handles_of(rest).push(last.handle));
        if is_settled(progress, last) {
            assert(handles_of(settled_of(progress, s)) =~= handles_of(settled_of(progress, rest)).push(
                last.handle,
            ));
            assert(unsettled_of(progress, s) =~= unsettled_of(progress, rest));
        } else {
            assert(handles_of(unsettled_of(progress, s)) =~= handles_of(
                unsettled_of(progress, rest),
            ).push(last.handle));
            assert(settled_of(progress, s) =~= settled_of(progress, rest));
        }
    }
}

/// A resource handed out when nothing was ready is one whose every lane
/// completed the last epoch it was used in, and it was pending.
pub proof fn lemma_acquired_is_settled<T: Copy>(progress: ProgressTracker, pending: Seq<Pending<T>>)
    requires
        settled_of(progress, pending).len() > 0,
    ensures
        is_settled(progress, settled_of(progress, pending)[0]),
        pending.contains(settled_of(progress, pending)[0]),
{
    let pred = |p: Pending<T>| is_settled(progress, p);
    let first = pending.filter(pred)[0];
    pending.filter_lemma(pred);
    assert(pending.filter(pred).contains(first));
    pending.lemma_filter_contains_rev(pred, first);
}

/// `after` and `r` are what retiring `handle`, used on the lanes of `dirty`
/// up to epoch `epoch`, makes of `before`: a lane the queue does not have is
/// refused with nothing changed; otherwise the handle is ready at once when
/// every one of its lanes has completed the epoch, and pending if not.
pub open spec fn retired_with<T: Copy>(
    before: RetireQueue<T>,
    after: RetireQueue<T>,
    progress: ProgressTracker,
    handle: T,
    dirty: usize,
    epoch: EpochValue,
    r: Result<(), RetireError>,
) -> bool {
    &&& after.lane_count_spec() == before.lane_count_spec()
    &&& !lanes_fit(dirty, before.lane_count_spec() as int) ==> {
        &&& r == Err::<(), RetireError>(RetireError::InvalidLane)
        &&& after.pending_spec() == before.pending_spec()
        &&& after.ready_entries_spec() == before.ready_entries_spec()
    }
    &&& lanes_fit(dirty, before.lane_count_spec() as int) ==> {
        &&& r is Ok
        &&& if settled(progress, dirty, epoch) {
            &&& after.ready_entries_spec() == before.ready_entries_spec().push(Pending { handle, dirty, epoch })
            &&& after.pending_spec() == before.pending_spec()
        } else {
            &&& after.pending_spec() == before.pending_spec().push(Pending { handle, dirty, epoch })
            &&& after.ready_entries_spec() == before.ready_entries_spec()
        }
    }
}

/// Retired resources of a device with `lane_count` lanes: those some lane
/// may still use, and those ready for reuse, first in first out.
#[derive(Debug)]
pub struct RetireQueue<T: Copy> {
    lane_count: usize,
    pending: Vec<Pending<T>>,
    ready: VecDeque<Pending<T>>,
}

impl<T: Copy> RetireQueue<T> {
    /// The number of lanes.
    pub closed spec fn lane_count_spec(&self) -> usize {
        self.lane_count
    }

    /// The resources some lane may still use, in the order they were retired.
    pub closed spec fn pending_spec(&self) -> Seq<Pending<T>> {
        self.pending@
    }

    /// The resources ready for reuse, the next one first, each with the
    /// lanes and epoch it was retired with.
    pub closed spec fn ready_entries_spec(&self) -> Seq<Pending<T>> {
        self.ready@
    }

    /// The resources ready for reuse, the next one first.
    pub open spec fn ready_spec(&self) -> Seq<T> {
        handles_of(self.ready_entries_spec())
    }

    /// Every resource the queue holds, pending or ready.
    pub open spec fn handles(&self) -> Multiset<T> {
        handles_of(self.pending_spec()).to_multiset().add(self.ready_spec().to_multiset())
    }

    /// An empty queue for `lane_count` lanes.
    pub fn new(lane_count: usize) -> (r: Self)
        ensures
            r.lane_count_spec() == lane_count,
            r.pending_spec() == Seq::<Pending<T>>::empty(),
            r.ready_spec() == Seq::<T>::empty(),
    {
        RetireQueue { lane_count, pending: Vec::new(), ready: VecDeque::new() }
    }

    /// The number of lanes.
    pub fn lane_count(&self) -> (r: usize)
        ensures
            r == self.lane_count_spec(),
    {
        self.lane_count
    }

    /// Whether lane position `i` is among the lanes of `dirty`.
    fn has_lane(dirty: usize, i: usize) -> (r: bool)
        requires
            i < usize::BITS,
        ensures
            r == lane_bit(dirty, i as int),
    {
        (dirty >> i) & 1usize == 1usize
    }

    /// Whether every lane of `dirty` is below `lane_count`.
    fn fits(dirty: usize, lane_count: usize) -> (r: bool)
        ensures
            r == lanes_fit(dirty, lane_count as int),
    {
        let bits = usize::BITS as usize;
        let mut i: usize = lane_count;
        while i < bits
            invariant
                bits == usize::BITS,
                lane_count <= i || bits <= i,
                forall|k: int| lane_count <= k < i ==> !#[trigger] lane_bit(dirty, k),
            decreases bits - i,
        {
            if Self::has_lane(dirty, i) {
                return false;
            }
            i = i + 1;
        }
        true
    }

    /// Whether every lane of `dirty` has completed epoch `epoch`.
    fn settled_now(progress: &ProgressTracker, dirty: usize, epoch: EpochValue) -> (r: bool)
        ensures
            r == settled(*progress, dirty, epoch),
    {
        let bits = usize::BITS as usize;
        let mut i: usize = 0;
        while i < bits
            invariant
                bits == usize::BITS,
                i <= bits,
                forall|k: int|
                    0 <= k < i && #[trigger] lane_bit(dirty, k) ==> progress.complete_spec(k, epoch),
            decreases bits - i,
        {
            if Self::has_lane(dirty, i) {
                if i >= progress.lanes.len() {
                    return false;
                }
                if !progress.is_complete_at(i, epoch) {
                    return false;
                }
            }
            i = i + 1;
        }
        true
    }

    /// Retires `handle`, used on the lanes of `dirty` up to epoch `epoch`:
    /// ready at once when every one of those lanes has completed the epoch,
    /// pending otherwise. Fails, changing nothing, when a lane is not one of
    /// the queue's.
    pub fn retire_handle(&mut self, progress: &ProgressTracker, handle: T, dirty: usize, epoch: EpochValue) -> (r:
        Result<(), RetireError>)
        ensures
            final(self).lane_count_spec() == old(self).lane_count_spec(),
            !lanes_fit(dirty, old(self).lane_count_spec() as int) ==> r == Err::<(), RetireError>(
                RetireError::InvalidLane,
            ) && final(self).pending_spec() == old(self).pending_spec() && final(self).ready_entries_spec()
                == old(self).ready_entries_spec(),
            lanes_fit(dirty, old(self).lane_count_spec() as int) ==> r is Ok && if settled(
                *progress,
                dirty,
                epoch,
            ) {
                &&& final(self).ready_entries_spec() == old(self).ready_entries_spec().push(
                    Pending { handle, dirty, epoch },
                )
                &&& final(self).pending_spec() == old(self).pending_spec()
            } else {
                &&& final(self).pending_spec() == old(self).pending_spec().push(
                    Pending { handle, dirty, epoch },
                )
                &&& final(self).ready_entries_spec() == old(self).ready_entries_spec()
            },
            r is Ok ==> final(self).handles() == old(self).handles().insert(handle),
            queue_call(*old(self), *final(self), *progress, None),
    {
        if !Self::fits(dirty, self.lane_count) {
            return Err(RetireError::InvalidLane);
        }
        if Self::settled_now(progress, dirty, epoch) {
            self.ready.push_back(Pending { handle, dirty, epoch });
            proof {
                assert(handles_of(self.ready@) =~= handles_of(old(self).ready@).push(handle));
            }
        } else {
            self.pending.push(Pending { handle, dirty, epoch });
            proof {
                let p = Pending { handle, dirty, epoch };
                assert(handles_of(self.pending@) =~= handles_of(old(self).pending@).push(handle));
            }
        }
        Ok(())
    }

    /// Retires the resource of `token` with the lanes and last epoch its uses
    /// recorded, as `retire_handle` does. Fails when the token was retired
    /// before, or was used on a lane the queue does not have; the queue is
    /// then unchanged. Other holders of the token may touch or retire it
    /// meanwhile, so which lanes and epoch are read is not stated.
    pub fn retire(&mut self, progress: &ProgressTracker, token: &RetireToken<T>) -> (r: Result<
        (),
        RetireError,
    >)
        ensures
            final(self).lane_count_spec() == old(self).lane_count_spec(),
            (r == Err::<(), RetireError>(RetireError::AlreadyRetired) && final(self).pending_spec()
                == old(self).pending_spec() && final(self).ready_spec() == old(self).ready_spec())
                || exists|dirty: usize, epoch: EpochValue|
                #[trigger] retired_with(
                    *old(self),
                    *final(self),
                    *progress,
                    token.handle_spec(),
                    dirty,
                    epoch,
                    r,
                ),
            r is Ok ==> final(self).handles() == old(self).handles().insert(token.handle_spec()),
            r is Ok ==> retire_event_step(*old(self), *final(self), RetireEvent::Retired(token.handle_spec())),
            r is Err ==> retire_event_step(*old(self), *final(self), RetireEvent::Nothing),
            r is Err ==> final(self).pending_spec() == old(self).pending_spec()
                && final(self).ready_entries_spec() == old(self).ready_entries_spec(),
            queue_call(*old(self), *final(self), *progress, None),
    {
        match token.mark_retired() {
            Err(e) => Err(e),
            Ok((handle, dirty, epoch)) => {
                let r = self.retire_handle(progress, handle, dirty, epoch);
                proof {
                    assert(retired_with(
                        *old(self),
                        *self,
                        *progress,
                        token.handle_spec(),
                        dirty,
                        epoch,
                        r,
                    ));
                }
                r
            },
        }
    }

    /// The next resource ready for reuse. When none is ready, the pending
    /// resources that every lane is done with become ready first, in the
    /// order they were retired.
    pub fn acquire(&mut self, progress: &ProgressTracker) -> (r: Option<T>)
        ensures
            final(self).lane_count_spec() == old(self).lane_count_spec(),
            old(self).ready_spec().len() > 0 ==> {
                &&& r == Some(old(self).ready_spec()[0])
                &&& final(self).ready_entries_spec() == old(self).ready_entries_spec().drop_first()
                &&& final(self).pending_spec() == old(self).pending_spec()
            },
            old(self).ready_spec().len() == 0 ==> {
                let done = settled_of(*progress, old(self).pending_spec());
                &&& final(self).pending_spec() == unsettled_of(*progress, old(self).pending_spec())
                &&& r == (if done.len() > 0 {
                    Some(done[0].handle)
                } else {
                    None
                })
                &&& final(self).ready_entries_spec() == (if done.len() > 0 {
                    done.drop_first()
                } else {
                    done
                })
            },
            r matches Some(h) ==> final(self).handles() == old(self).handles().remove(h),
            r matches Some(h) ==> old(self).handles().count(h) > 0,
            r matches Some(h) ==> retire_event_step(*old(self), *final(self), RetireEvent::Acquired(h)),
            r is None ==> retire_event_step(*old(self), *final(self), RetireEvent::Nothing),
            r is None ==> final(self).handles() == old(self).handles(),
            queue_call(*old(self), *final(self), *progress, r),
    {
        let ghost old_ready = handles_of(old(self).ready@);
        proof {
            broadcast use vstd::multiset::group_multiset_axioms;

            if old(self).ready@.len() > 0 {
                assert(old_ready.drop_first() =~= old_ready.remove(0));
                assert(old_ready.contains(old_ready[0]));
            }
        }
        if let Some(entry) = self.ready.pop_front() {
            proof {
                broadcast use vstd::multiset::group_multiset_axioms;

                assert(handles_of(self.ready@) =~= old_ready.drop_first());
                assert(self.handles() =~= old(self).handles().remove(entry.handle));
                assert(old(self).ready@.contains(entry));
                assert forall|i: int| 0 <= i < self.ready@.len() implies #[trigger] old(
                    self,
                ).ready@.contains(self.ready@[i]) by {
                    assert(self.ready@[i] == old(self).ready@[i + 1]);
                }
            }
            return Some(entry.handle);
        }
        let ghost all = self.pending@;
        let ghost is_done = |p: Pending<T>| is_settled(*progress, p);
        let ghost not_done = |p: Pending<T>| !is_settled(*progress, p);
        let mut still: Vec<Pending<T>> = Vec::new();
        let mut i: usize = 0;
        proof {
            assert(all.take(0) =~= Seq::<Pending<T>>::empty());
            assert(self.ready@ =~= all.take(0).filter(is_done));
        }
        while i < self.pending.len()
            invariant
                all == old(self).pending@,
                self.pending@ == all,
                self.lane_count == old(self).lane_count,
                i <= all.len(),
                is_done == (|p: Pending<T>| is_settled(*progress, p)),
                not_done == (|p: Pending<T>| !is_settled(*progress, p)),
                still@ == all.take(i as int).filter(not_done),
                self.ready@ == all.take(i as int).filter(is_done),
            decreases all.len() - i,
        {
            let p = self.pending[i];
            proof {
                reveal_with_fuel(Seq::filter, 1);
                assert(all.take(i as int + 1).drop_last() =~= all.take(i as int));
                assert(all.take(i as int + 1).last() == p);
            }
            if Self::settled_now(progress, p.dirty, p.epoch) {
                self.ready.push_back(p);
            } else {
                still.push(p);
            }
            i = i + 1;
        }
        proof {
            broadcast use vstd::multiset::group_multiset_axioms;

            assert(all.take(all.len() as int) =~= all);
            lemma_split_handles(*progress, all);
            let done = handles_of(self.ready@);
            if done.len() > 0 {
                assert(done.drop_first() =~= done.remove(0));
                assert(done.contains(done[0]));
            }
            assert(old_ready.to_multiset() =~= Multiset::empty());
        }
        self.pending = still;
        let ghost moved = self.ready@;
        let r = match self.ready.pop_front() {
            Some(entry) => Some(entry.handle),
            None => None,
        };
        proof {
            broadcast use vstd::multiset::group_multiset_axioms;

            if moved.len() > 0 {
                assert(handles_of(self.ready@) =~= handles_of(moved).drop_first());
                assert(self.ready@ =~= moved.drop_first());
            }
            match r {
                Some(h) => {
                    assert(self.handles() =~= old(self).handles().remove(h));
                },
                None => {
                    assert(self.handles() =~= old(self).handles());
                },
            }
            lemma_settled_of_facts(*progress, all);
        }
        r
    }
}

/// The pending resources every lane is done with are pending ones, and
/// every lane is done with each of them.
proof fn lemma_settled_of_facts<T: Copy>(progress: ProgressTracker, pending: Seq<Pending<T>>)
    ensures
        forall|i: int|
            0 <= i < settled_of(progress, pending).len() ==> {
                &&& is_settled(progress, #[trigger] settled_of(progress, pending)[i])
                &&& pending.contains(settled_of(progress, pending)[i])
            },
{
    let pred = |p: Pending<T>| is_settled(progress, p);
    pending.filter_lemma(pred);
    assert forall|i: int| 0 <= i < settled_of(progress, pending).len() implies {
        &&& is_settled(progress, #[trigger] settled_of(progress, pending)[i])
        &&& pending.contains(settled_of(progress, pending)[i])
    } by {
        let e = pending.filter(pred)[i];
        assert(pending.filter(pred).contains(e));
        pending.lemma_filter_contains_rev(pred, e);
    }
}

/// Every resource of `q` that is ready for reuse is done on all its lanes
/// by the time of `progress`.
pub open spec fn ready_settled<T: Copy>(q: RetireQueue<T>, progress: ProgressTracker) -> bool {
    forall|i: int|
        0 <= i < q.ready_entries_spec().len() ==> is_settled(
            progress,
            #[trigger] q.ready_entries_spec()[i],
        )
}

/// What one call on the queue, made with the tracker `progress` and handing
/// out `out`, keeps: a queue whose ready resources are all settled stays so,
/// and a resource it hands out is one the queue held, retired on lanes that
/// have all completed the epoch it was last used in.
pub open spec fn queue_call<T: Copy>(
    before: RetireQueue<T>,
    after: RetireQueue<T>,
    progress: ProgressTracker,
    out: Option<T>,
) -> bool {
    &&& ready_settled(before, progress) ==> ready_settled(after, progress)
    &&& out matches Some(h) ==> (ready_settled(before, progress) ==> exists|e: Pending<T>|
        (before.pending_spec().contains(e) || before.ready_entries_spec().contains(e)) && e.handle
            == h && is_settled(progress, e))
}

/// `later` has completed on every lane every epoch `earlier` had.
pub open spec fn advances(earlier: ProgressTracker, later: ProgressTracker) -> bool {
    forall|lane: int, e: u64| #[trigger]
        earlier.complete_spec(lane, e) ==> later.complete_spec(lane, e)
}

/// Over any run of calls on a queue that starts with nothing ready, made
/// with a tracker that only moves forward between calls, a resource is
/// handed out only when it was held and every lane it was retired on had
/// completed the last epoch it was used in, by the tracker of that call.
pub proof fn lemma_handed_out_when_settled<T: Copy>(
    states: Seq<RetireQueue<T>>,
    trackers: Seq<ProgressTracker>,
    outs: Seq<Option<T>>,
)
    requires
        states.len() == outs.len() + 1,
        trackers.len() == outs.len(),
        states[0].ready_entries_spec().len() == 0,
        forall|i: int|
            0 <= i < outs.len() ==> #[trigger] queue_call(states[i], states[i + 1], trackers[i], outs[i]),
        forall|i: int| 0 <= i < outs.len() - 1 ==> #[trigger] advances(trackers[i], trackers[i + 1]),
    ensures
        forall|i: int|
            0 <= i < outs.len() ==> (#[trigger] outs[i] matches Some(h) ==> exists|e: Pending<T>|
                (states[i].pending_spec().contains(e) || states[i].ready_entries_spec().contains(e))
                    && e.handle == h && is_settled(trackers[i], e)),
{
    assert forall|i: int| 0 <= i < outs.len() implies (#[trigger] outs[i] matches Some(h) ==> exists|e: Pending<T>|
        (states[i].pending_spec().contains(e) || states[i].ready_entries_spec().contains(e))
            && e.handle == h && is_settled(trackers[i], e)) by {
        lemma_ready_settled_along(states, trackers, outs, i);
        assert(queue_call(states[i], states[i + 1], trackers[i], outs[i]));
    }
}

proof fn lemma_ready_settled_along<T: Copy>(
    states: Seq<RetireQueue<T>>,
    trackers: Seq<ProgressTracker>,
    outs: Seq<Option<T>>,
    k: int,
)
    requires
        states.len() == outs.len() + 1,
        trackers.len() == outs.len(),
        states[0].ready_entries_spec().len() == 0,
        forall|i: int|
            0 <= i < outs.len() ==> #[trigger] queue_call(states[i], states[i + 1], trackers[i], outs[i]),
        forall|i: int| 0 <= i < outs.len() - 1 ==> #[trigger] advances(trackers[i], trackers[i + 1]),
        0 <= k < outs.len(),
    ensures
        ready_settled(states[k], trackers[k]),
    decreases k,
{
    if k > 0 {
        lemma_ready_settled_along(states, trackers, outs, k - 1);
        let j = k - 1;
        assert(queue_call(states[j], states[j + 1], trackers[j], outs[j]));
        assert(advances(trackers[j], trackers[j + 1]));
        assert(states[j + 1] == states[k]);
        assert(trackers[j + 1] == trackers[k]);
        assert forall|i: int| 0 <= i < states[k].ready_entries_spec().len() implies is_settled(
            trackers[k],
            #[trigger] states[k].ready_entries_spec()[i],
        ) by {
            let e = states[k].ready_entries_spec()[i];
            assert(is_settled(trackers[k - 1], e));
            assert forall|j: int| #[trigger] lane_bit(e.dirty, j) implies trackers[k].complete_spec(
                j,
                e.epoch,
            ) by {
                assert(trackers[k - 1].complete_spec(j, e.epoch));
            }
        }
    }
}

/// What a call on a retire queue did to the resources it holds.
#[derive(Debug, Clone, Copy)]
pub enum RetireEvent<T> {
    /// The resource was retired into the queue.
    Retired(T),
    /// The resource was handed out for reuse.
    Acquired(T),
    /// Nothing went in or out.
    Nothing,
}

/// The resources `after` holds are those `before` held, changed as `event`
/// says; a resource handed out was held.
pub open spec fn retire_event_step<T: Copy>(before: RetireQueue<T>, after: RetireQueue<T>, event: RetireEvent<T>) -> bool {
    match event {
        RetireEvent::Retired(h) => after.handles() == before.handles().insert(h),
        RetireEvent::Acquired(h) => before.handles().count(h) > 0 && after.handles()
            == before.handles().remove(h),
        RetireEvent::Nothing => after.handles() == before.handles(),
    }
}

/// The resources retired by a run of events.
pub open spec fn retired_of<T>(events: Seq<RetireEvent<T>>) -> Multiset<T>
    decreases events.len(),
{
    if events.len() == 0 {
        Multiset::empty()
    } else {
        let rest = retired_of(events.drop_last());
        match events.last() {
            RetireEvent::Retired(h) => rest.insert(h),
            _ => rest,
        }
    }
}

/// The resources handed out by a run of events.
pub open spec fn acquired_of<T>(events: Seq<RetireEvent<T>>) -> Multiset<T>
    decreases events.len(),
{
    if events.len() == 0 {
        Multiset::empty()
    } else {
        let rest = acquired_of(events.drop_last());
        match events.last() {
            RetireEvent::Acquired(h) => rest.insert(h),
            _ => rest,
        }
    }
}

/// `states` are the queues a run of calls goes through: each is the one
/// before it changed as the matching event says.
pub open spec fn retire_run<T: Copy>(states: Seq<RetireQueue<T>>, events: Seq<RetireEvent<T>>) -> bool {
    &&& states.len() == events.len() + 1
    &&& forall|i: int|
        0 <= i < events.len() ==> #[trigger] retire_event_step(states[i], states[i + 1], events[i])
}

/// Over any run of retires and acquires, no resource is lost or handed out
/// twice: what the queue holds at the end, with what was handed out, is what
/// it held at the start with what was retired. So a resource comes out at
/// most as often as it went in.
pub proof fn lemma_retire_run_conserves<T: Copy>(states: Seq<RetireQueue<T>>, events: Seq<RetireEvent<T>>)
    requires
        retire_run(states, events),
    ensures
        states.last().handles().add(acquired_of(events)) =~= states[0].handles().add(
            retired_of(events),
        ),
    decreases events.len(),
{
    broadcast use vstd::multiset::group_multiset_axioms;

    if events.len() > 0 {
        let n = events.len() - 1;
        let earlier = states.drop_last();
        let first_events = events.drop_last();
        assert forall|i: int| 0 <= i < first_events.len() implies #[trigger] retire_event_step(
            earlier[i],
            earlier[i + 1],
            first_events[i],
        ) by {
            assert(retire_event_step(states[i], states[i + 1], events[i]));
        }
        lemma_retire_run_conserves(earlier, first_events);
        assert(retire_event_step(states[n], states[n + 1], events[n]));
        assert(earlier.last() == states[n]);
        assert(states.last() == states[n + 1]);
        let prev = states[n].handles();
        let a0 = acquired_of(first_events);
        let r0 = retired_of(first_events);
        assert(prev.add(a0) =~= states[0].handles().add(r0));
        match events[n] {
            RetireEvent::Retired(h) => {
                assert(retired_of(events) == r0.insert(h));
                assert(acquired_of(events) == a0);
                assert(prev.insert(h).add(a0) =~= prev.add(a0).insert(h));
                assert(states[0].handles().add(r0.insert(h)) =~= states[0].handles().add(r0).insert(h));
            },
            RetireEvent::Acquired(h) => {
                assert(retired_of(events) == r0);
                assert(acquired_of(events) == a0.insert(h));
                assert(prev.remove(h).insert(h) =~= prev);
                assert(prev.remove(h).add(a0.insert(h)) =~= prev.remove(h).insert(h).add(a0));
            },
            RetireEvent::Nothing => {
                assert(retired_of(events) == r0);
                assert(acquired_of(events) == a0);
            },
        }
    }
}

} // verus!
