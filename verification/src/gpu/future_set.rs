//! A small set of GPU futures, at most one per queue.

use vstd::prelude::*;
use crate::gpu::future::GpuFuture;
use crate::gpu::ids::QueueId;

verus! {

/// A set of futures, kept in insertion order, at most one per queue.
#[derive(Debug, Clone)]
pub struct GpuFutureSet {
    futures: Vec<GpuFuture>,
}

impl GpuFutureSet {
    /// The futures, in the order they were added.
    pub closed spec fn futures_spec(&self) -> Seq<GpuFuture> {
        self.futures@
    }

    /// Some future of the set tracks queue `id`.
    pub open spec fn has_queue(&self, id: QueueId) -> bool {
        exists|i: int|
            0 <= i < self.futures_spec().len() && (#[trigger] self.futures_spec()[i]).queue_spec()
                == id
    }

    /// No two futures of the set track the same queue.
    pub open spec fn wf(&self) -> bool {
        forall|i: int, j: int|
            0 <= i < j < self.futures_spec().len() ==> (#[trigger] self.futures_spec()[i]).queue_spec()
                != (#[trigger] self.futures_spec()[j]).queue_spec()
    }

    /// `i` is the place of the future of queue `id`.
    pub open spec fn is_place_of(&self, id: QueueId, i: int) -> bool {
        0 <= i < self.futures_spec().len() && self.futures_spec()[i].queue_spec() == id
    }

    /// An empty set.
    pub fn new() -> (r: Self)
        ensures
            r.wf(),
            r.futures_spec() == Seq::<GpuFuture>::empty(),
    {
        GpuFutureSet { futures: Vec::new() }
    }

    /// An empty set with room for `capacity` futures.
    pub fn with_capacity(capacity: usize) -> (r: Self)
        ensures
            r.wf(),
            r.futures_spec() == Seq::<GpuFuture>::empty(),
    {
        GpuFutureSet { futures: Vec::with_capacity(capacity) }
    }

    /// The number of futures.
    pub fn len(&self) -> (r: usize)
        ensures
            r == self.futures_spec().len(),
    {
        self.futures.len()
    }

    fn position(&self, id: QueueId) -> (r: Option<usize>)
        ensures
            match r {
                Some(i) => self.is_place_of(id, i as int) && forall|j: int|
                    0 <= j < i ==> (#[trigger] self.futures_spec()[j]).queue_spec() != id,
                None => !self.has_queue(id),
            },
    {
        let mut i: usize = 0;
        while i < self.futures.len()
            invariant
                i <= self.futures@.len(),
                forall|j: int| 0 <= j < i ==> (#[trigger] self.futures@[j]).queue_spec() != id,
            decreases self.futures.len() - i,
        {
            if self.futures[i].queue_id() == id {
                return Some(i);
            }
            i = i + 1;
        }
        None
    }

    /// Whether some future of the set tracks queue `id`.
    pub fn has(&self, id: QueueId) -> (r: bool)
        ensures
            r == self.has_queue(id),
    {
        self.position(id).is_some()
    }

    /// Adds `future` unless the set already has one for its queue.
    pub fn add_if_not_present(&mut self, future: GpuFuture)
        requires
            old(self).wf(),
        ensures
            final(self).wf(),
            add_step(*old(self), *final(self), future),
            old(self).has_queue(future.queue_spec()) ==> final(self).futures_spec()
                == old(self).futures_spec(),
            !old(self).has_queue(future.queue_spec()) ==> final(self).futures_spec()
                == old(self).futures_spec().push(future),
    {
        if self.has(future.queue_id()) {
            return;
        }
        self.futures.push(future);
        proof {
            assert forall|i: int, j: int|
                0 <= i < j < self.futures_spec().len() implies (#[trigger] self.futures_spec()[i]).queue_spec()
                != (#[trigger] self.futures_spec()[j]).queue_spec() by {
                if j == self.futures_spec().len() - 1 {
                    assert(old(self).futures_spec()[i] == self.futures_spec()[i]);
                }
            }
        }
    }

    /// The future of queue `id`, which the set must have.
    pub fn get(&self, id: QueueId) -> (r: &GpuFuture)
        requires
            self.has_queue(id),
        ensures
            exists|i: int| self.is_place_of(id, i) && *r == self.futures_spec()[i],
    {
        let i = self.position(id).unwrap();
        &self.futures[i]
    }

    /// The future of queue `id`, which the set must have, to change in place.
    pub fn get_mut(&mut self, id: QueueId) -> (r: &mut GpuFuture)
        requires
            old(self).has_queue(id),
        ensures
            exists|i: int|
                old(self).is_place_of(id, i) && *r == old(self).futures_spec()[i]
                    && final(self).futures_spec() == old(self).futures_spec().update(
                    i,
                    *final(r),
                ),
    {
        let i = self.position(id).unwrap();
        &mut self.futures[i]
    }

    /// The futures, in the order they were added.
    pub fn iter(&self) -> (r: &[GpuFuture])
        ensures
            r@ == self.futures_spec(),
    {
        self.futures.as_slice()
    }

    /// The futures, in the order they were added.
    pub fn into_futures(self) -> (r: Vec<GpuFuture>)
        ensures
            r@ == self.futures_spec(),
    {
        self.futures
    }

    /// Takes the futures out, leaving the set empty.
    pub fn take_futures(&mut self) -> (r: Vec<GpuFuture>)
        ensures
            r@ == old(self).futures_spec(),
            final(self).futures_spec() == Seq::<GpuFuture>::empty(),
            final(self).wf(),
    {
        let mut taken: Vec<GpuFuture> = Vec::new();
        std::mem::swap(&mut taken, &mut self.futures);
        taken
    }
}

/// `after` is `before` once `future` was offered to it: unchanged when a
/// future of the same queue is there already, with `future` added last if
/// not.
pub open spec fn add_step(before: GpuFutureSet, after: GpuFutureSet, future: GpuFuture) -> bool {
    if before.has_queue(future.queue_spec()) {
        after.futures_spec() == before.futures_spec()
    } else {
        after.futures_spec() == before.futures_spec().push(future)
    }
}

/// `states` are the sets a run of additions goes through: each is the one
/// before it once the matching future of `added` was offered.
pub open spec fn add_run(states: Seq<GpuFutureSet>, added: Seq<GpuFuture>) -> bool {
    &&& states.len() == added.len() + 1
    &&& forall|i: int| 0 <= i < added.len() ==> #[trigger] add_step(states[i], states[i + 1], added[i])
}

/// One addition: the set has a future of queue `id` afterwards exactly when
/// it had one before or the offered future is of that queue.
proof fn lemma_add_step_membership(before: GpuFutureSet, after: GpuFutureSet, future: GpuFuture, id: QueueId)
    requires
        add_step(before, after, future),
    ensures
        after.has_queue(id) <==> (before.has_queue(id) || future.queue_spec() == id),
{
    if !before.has_queue(future.queue_spec()) {
        let b = before.futures_spec();
        let a = after.futures_spec();
        if before.has_queue(id) {
            let i = choose|i: int| 0 <= i < b.len() && (#[trigger] b[i]).queue_spec() == id;
            assert(a[i] == b[i]);
        }
        if future.queue_spec() == id {
            assert(a[b.len() as int] == future);
        }
        if after.has_queue(id) {
            let i = choose|i: int| 0 <= i < a.len() && (#[trigger] a[i]).queue_spec() == id;
            if i < b.len() {
                assert(a[i] == b[i]);
            }
        }
    } else {
        if future.queue_spec() == id {
            assert(before.has_queue(id));
        }
    }
}

/// After any run of additions, the set has a future of queue `id` exactly
/// when it had one at the start or some added future is of that queue.
pub proof fn lemma_membership_after_adds(states: Seq<GpuFutureSet>, added: Seq<GpuFuture>, id: QueueId)
    requires
        add_run(states, added),
    ensures
        states.last().has_queue(id) <==> (states[0].has_queue(id) || exists|i: int|
            0 <= i < added.len() && (#[trigger] added[i]).queue_spec() == id),
    decreases added.len(),
{
    if added.len() == 0 {
    } else {
        let n = added.len() - 1;
        let earlier = states.drop_last();
        let first_added = added.drop_last();
        assert forall|i: int| 0 <= i < first_added.len() implies #[trigger] add_step(
            earlier[i],
            earlier[i + 1],
            first_added[i],
        ) by {
            assert(add_step(states[i], states[i + 1], added[i]));
        }
        lemma_membership_after_adds(earlier, first_added, id);
        assert(add_step(states[n], states[n + 1], added[n]));
        lemma_add_step_membership(states[n], states[n + 1], added[n], id);
        assert(earlier.last() == states[n]);
        if exists|i: int| 0 <= i < added.len() && (#[trigger] added[i]).queue_spec() == id {
            let i = choose|i: int| 0 <= i < added.len() && (#[trigger] added[i]).queue_spec() == id;
            if i < n {
                assert(first_added[i] == added[i]);
            }
        }
        if exists|i: int| 0 <= i < first_added.len() && (#[trigger] first_added[i]).queue_spec() == id {
            let i = choose|i: int| 0 <= i < first_added.len() && (#[trigger] first_added[i]).queue_spec() == id;
            assert(added[i] == first_added[i]);
        }
    }
}

} // verus!
