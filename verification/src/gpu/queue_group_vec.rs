//! An optional value per lane of a device, indexed by lane position.

use vstd::prelude::*;
use crate::gpu::lane_key::LaneKey;
use crate::gpu::queue_group_table::{flat_bindings, flat_entry_keys, QueueGroupTable};

verus! {

/// The number of entries that hold a value.
pub open spec fn count_some<T>(entries: Seq<(LaneKey, Option<T>)>) -> nat
    decreases entries.len(),
{
    if entries.len() == 0 {
        0
    } else {
        count_some(entries.drop_last()) + if entries.last().1 is Some {
            1nat
        } else {
            0nat
        }
    }
}

/// The entries that hold a value, with their keys, in order.
pub open spec fn present<T>(entries: Seq<(LaneKey, Option<T>)>) -> Seq<(LaneKey, T)>
    decreases entries.len(),
{
    if entries.len() == 0 {
        Seq::empty()
    } else {
        let rest = present(entries.drop_last());
        match entries.last().1 {
            Some(v) => rest.push((entries.last().0, v)),
            None => rest,
        }
    }
}

/// An optional value per lane, in the table's lane order.
#[derive(Debug)]
pub struct QueueGroupVec<T> {
    vec: Vec<(LaneKey, Option<T>)>,
}

impl<T> QueueGroupVec<T> {
    /// The entries: each lane's key and its value, if any.
    pub closed spec fn entries(&self) -> Seq<(LaneKey, Option<T>)> {
        self.vec@
    }

    /// One empty entry per lane of `queue_groups`, keyed as the table hands
    /// out its lanes.
    pub fn new(queue_groups: &QueueGroupTable) -> (r: Self)
        ensures
            r.entries().len() == flat_bindings(queue_groups.infos_spec()).len(),
            forall|i: int|
                0 <= i < r.entries().len() ==> (#[trigger] r.entries()[i]).0 == flat_entry_keys(
                    queue_groups.infos_spec(),
                )[i] && r.entries()[i].1 is None,
    {
        let bindings = queue_groups.iter_bindings();
        let mut vec: Vec<(LaneKey, Option<T>)> = Vec::with_capacity(bindings.len());
        let mut i: usize = 0;
        while i < bindings.len()
            invariant
                i <= bindings@.len(),
                vec@.len() == i,
                forall|k: int|
                    0 <= k < i ==> (#[trigger] vec@[k]).0 == bindings@[k].0 && vec@[k].1 is None,
            decreases bindings.len() - i,
        {
            vec.push((bindings[i].0, None));
            i = i + 1;
        }
        QueueGroupVec { vec }
    }

    /// The number of lanes that hold a value.
    pub fn len(&self) -> (r: usize)
        ensures
            r == count_some(self.entries()),
    {
        let mut n: usize = 0;
        let mut i: usize = 0;
        while i < self.vec.len()
            invariant
                i <= self.vec@.len(),
                n == count_some(self.vec@.take(i as int)),
                n <= i,
            decreases self.vec.len() - i,
        {
            proof {
                assert(self.vec@.take(i as int + 1).drop_last() =~= self.vec@.take(i as int));
            }
            if self.vec[i].1.is_some() {
                n = n + 1;
            }
            i = i + 1;
        }
        proof {
            assert(self.vec@.take(i as int) =~= self.vec@);
        }
        n
    }

    /// The entry at lane position `lane.position()`, which must be in range:
    /// its key and its value, if any.
    pub fn get(&self, lane: LaneKey) -> (r: (LaneKey, Option<&T>))
        requires
            (lane.offset + lane.index) < self.entries().len(),
        ensures
            r.0 == self.entries()[lane.offset + lane.index].0,
            match r.1 {
                Some(v) => self.entries()[lane.offset + lane.index].1 == Some(*v),
                None => self.entries()[lane.offset + lane.index].1 is None,
            },
    {
        let p = lane.position() as usize;
        let entry = &self.vec[p];
        (entry.0, entry.1.as_ref())
    }

    /// The entry at lane position `lane.position()`, which must be in range:
    /// its key, and its value slot to change in place.
    pub fn get_mut(&mut self, lane: LaneKey) -> (r: (LaneKey, &mut Option<T>))
        requires
            (lane.offset + lane.index) < old(self).entries().len(),
        ensures
            r.0 == old(self).entries()[lane.offset + lane.index].0,
            *r.1 == old(self).entries()[lane.offset + lane.index].1,
            final(self).entries() == old(self).entries().update(
                lane.offset + lane.index,
                (r.0, *final(r.1)),
            ),
    {
        let p = lane.position() as usize;
        let entry = &mut self.vec[p];
        (entry.0, &mut entry.1)
    }

    /// The lanes that hold a value, with their keys, in order.
    pub fn iter(&self) -> (r: Vec<(LaneKey, &T)>)
        ensures
            r@.len() == present(self.entries()).len(),
            forall|i: int|
                0 <= i < r@.len() ==> (#[trigger] r@[i]).0 == present(self.entries())[i].0 && *r@[i].1
                    == present(self.entries())[i].1,
    {
        let mut out: Vec<(LaneKey, &T)> = Vec::new();
        let mut i: usize = 0;
        while i < self.vec.len()
            invariant
                i <= self.vec@.len(),
                out@.len() == present(self.vec@.take(i as int)).len(),
                forall|k: int|
                    0 <= k < out@.len() ==> (#[trigger] out@[k]).0 == present(
                        self.vec@.take(i as int),
                    )[k].0 && *out@[k].1 == present(self.vec@.take(i as int))[k].1,
            decreases self.vec.len() - i,
        {
            proof {
                assert(self.vec@.take(i as int + 1).drop_last() =~= self.vec@.take(i as int));
            }
            let entry = &self.vec[i];
            match &entry.1 {
                Some(v) => {
                    out.push((entry.0, v));
                },
                None => {},
            }
            i = i + 1;
        }
        proof {
            assert(self.vec@.take(i as int) =~= self.vec@);
        }
        out
    }

    /// Visits the lanes that hold a value, in order, and replaces each value
    /// with what `f` makes of the lane's key and the value. Empty lanes stay
    /// empty.
    pub fn iter_mut<F: Fn(LaneKey, T) -> T>(&mut self, f: F)
        requires
            forall|k: LaneKey, v: T| call_requires(f, (k, v)),
        ensures
            final(self).entries().len() == old(self).entries().len(),
            forall|i: int|
                0 <= i < old(self).entries().len() ==> {
                    &&& (#[trigger] final(self).entries()[i]).0 == old(self).entries()[i].0
                    &&& match old(self).entries()[i].1 {
                        Some(v) => final(self).entries()[i].1 matches Some(w) && call_ensures(
                            f,
                            (old(self).entries()[i].0, v),
                            w,
                        ),
                        None => final(self).entries()[i].1 is None,
                    }
                },
    {
        let ghost before = self.vec@;
        let n = self.vec.len();
        let mut i: usize = 0;
        while i < n
            invariant
                n == before.len(),
                i <= n,
                self.vec@.len() == n,
                forall|k: LaneKey, v: T| call_requires(f, (k, v)),
                forall|j: int|
                    0 <= j < i ==> {
                        &&& (#[trigger] self.vec@[j]).0 == before[j].0
                        &&& match before[j].1 {
                            Some(v) => self.vec@[j].1 matches Some(w) && call_ensures(
                                f,
                                (before[j].0, v),
                                w,
                            ),
                            None => self.vec@[j].1 is None,
                        }
                    },
                forall|j: int| i <= j < n ==> #[trigger] self.vec@[j] == before[j],
            decreases n - i,
        {
            let entry = &mut self.vec[i];
            if let Some(value) = entry.1.take() {
                let key = entry.0;
                entry.1 = Some(f(key, value));
            }
            i = i + 1;
        }
    }
}

impl<T: Default> QueueGroupVec<T> {
    /// The value of lane position `lane.position()`, which must be in range;
    /// an empty entry first gets `T::default()`.
    pub fn get_mut_or_default(&mut self, lane: LaneKey) -> (r: (LaneKey, &mut T))
        requires
            (lane.offset + lane.index) < old(self).entries().len(),
        ensures
            r.0 == old(self).entries()[lane.offset + lane.index].0,
            old(self).entries()[lane.offset + lane.index].1 matches Some(v) ==> *r.1 == v,
            final(self).entries() == old(self).entries().update(
                lane.offset + lane.index,
                (r.0, Some(*final(r.1))),
            ),
    {
        let p = lane.position() as usize;
        let key = self.vec[p].0;
        if self.vec[p].1.is_none() {
            let value = T::default();
            self.vec.set(p, (key, Some(value)));
        }
        let entry = &mut self.vec[p];
        match &mut entry.1 {
            Some(value) => (key, value),
            None => vstd::pervasive::unreached(),
        }
    }
}

} // verus!
