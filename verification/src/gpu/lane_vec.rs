//! One value per lane of a queue group.

use vstd::prelude::*;
use crate::gpu::ids::QueueGroupId;
use crate::gpu::lane_key::LaneKey;

verus! {

/// The key a lane vector gives its `index`-th value: offset 0, the group,
/// and the index's low 8 bits.
pub open spec fn entry_key(group: QueueGroupId, index: int) -> LaneKey {
    LaneKey { offset: 0, group: group.0, index: index as u8 }
}

/// Collects exactly `len` values for the lanes of a group.
#[derive(Debug)]
pub struct LaneVecBuilder<T> {
    queue_group_id: QueueGroupId,
    len: usize,
    vec: Vec<T>,
}

impl<T> LaneVecBuilder<T> {
    /// The group of the values.
    pub closed spec fn group_spec(&self) -> QueueGroupId {
        self.queue_group_id
    }

    /// The number of values the builder takes.
    pub closed spec fn len_spec(&self) -> usize {
        self.len
    }

    /// The values pushed so far.
    pub closed spec fn values(&self) -> Seq<T> {
        self.vec@
    }

    /// A builder for `len` values of group `queue_group_id`.
    pub fn new(queue_group_id: QueueGroupId, len: usize) -> (r: Self)
        ensures
            r.group_spec() == queue_group_id,
            r.len_spec() == len,
            r.values() == Seq::<T>::empty(),
    {
        LaneVecBuilder { queue_group_id, len, vec: Vec::with_capacity(len) }
    }

    /// A builder for as many values as `lanes` has, of the same group.
    pub fn with_lanes<U>(lanes: &LaneVec<U>) -> (r: Self)
        ensures
            r.group_spec() == lanes.group_spec(),
            r.len_spec() == lanes.values().len(),
            r.values() == Seq::<T>::empty(),
    {
        Self::new(lanes.queue_group_id(), lanes.len())
    }

    /// Adds the next value; the builder must not be full.
    pub fn push(&mut self, value: T)
        requires
            old(self).values().len() < old(self).len_spec(),
        ensures
            final(self).values() == old(self).values().push(value),
            final(self).group_spec() == old(self).group_spec(),
            final(self).len_spec() == old(self).len_spec(),
    {
        self.vec.push(value);
    }

    /// The lane vector; every value must have been pushed.
    pub fn build(self) -> (r: LaneVec<T>)
        requires
            self.values().len() == self.len_spec(),
        ensures
            r.group_spec() == self.group_spec(),
            r.values() == self.values(),
    {
        LaneVec { queue_group_id: self.queue_group_id, vec: self.vec }
    }
}

/// One value per lane of a queue group, indexed by the lane's index.
#[derive(Debug, Clone)]
pub struct LaneVec<T> {
    queue_group_id: QueueGroupId,
    vec: Vec<T>,
}

impl<T> LaneVec<T> {
    /// The group of the values.
    pub closed spec fn group_spec(&self) -> QueueGroupId {
        self.queue_group_id
    }

    /// The values, by lane index.
    pub closed spec fn values(&self) -> Seq<T> {
        self.vec@
    }

    /// The group of the values.
    pub fn queue_group_id(&self) -> (r: QueueGroupId)
        ensures
            r == self.group_spec(),
    {
        self.queue_group_id
    }

    /// The number of lanes.
    pub fn len(&self) -> (r: usize)
        ensures
            r == self.values().len(),
    {
        self.vec.len()
    }

    /// The value of lane `key`, whose index must be in range.
    pub fn get(&self, key: LaneKey) -> (r: &T)
        requires
            (key.index as int) < self.values().len(),
        ensures
            *r == self.values()[key.index as int],
    {
        &self.vec[key.index()]
    }

    /// The value of lane `key`, to change in place; the index must be in range.
    pub fn get_mut(&mut self, key: LaneKey) -> (r: &mut T)
        requires
            (key.index as int) < old(self).values().len(),
        ensures
            *r == old(self).values()[key.index as int],
            final(self).values() == old(self).values().update(key.index as int, *final(r)),
            final(self).group_spec() == old(self).group_spec(),
    {
        &mut self.vec[key.index()]
    }

    /// The value at position `index`, to change in place; walking the
    /// positions with it changes every lane in turn.
    pub fn at_mut(&mut self, index: usize) -> (r: &mut T)
        requires
            index < old(self).values().len(),
        ensures
            *r == old(self).values()[index as int],
            final(self).values() == old(self).values().update(index as int, *final(r)),
            final(self).group_spec() == old(self).group_spec(),
    {
        &mut self.vec[index]
    }

    /// Replaces the value of lane `key`; the index must be in range.
    pub fn set(&mut self, key: LaneKey, value: T)
        requires
            (key.index as int) < old(self).values().len(),
        ensures
            final(self).values() == old(self).values().update(key.index as int, value),
            final(self).group_spec() == old(self).group_spec(),
    {
        self.vec.set(key.index(), value);
    }

    /// The key of every lane, in order.
    pub fn each(&self) -> (r: Vec<LaneKey>)
        ensures
            r@.len() == self.values().len(),
            forall|i: int| 0 <= i < r@.len() ==> #[trigger] r@[i] == entry_key(self.group_spec(), i),
    {
        let mut keys: Vec<LaneKey> = Vec::with_capacity(self.vec.len());
        let mut i: usize = 0;
        while i < self.vec.len()
            invariant
                i <= self.vec@.len(),
                keys@.len() == i,
                forall|k: int| 0 <= k < i ==> #[trigger] keys@[k] == entry_key(self.queue_group_id, k),
            decreases self.vec.len() - i,
        {
            keys.push(LaneKey::from_group_index(self.queue_group_id, i));
            i = i + 1;
        }
        keys
    }

    /// The values, by lane index.
    pub fn iter(&self) -> (r: &[T])
        ensures
            r@ == self.values(),
    {
        self.vec.as_slice()
    }

    /// The values, by lane index.
    pub fn into_iter(self) -> (r: Vec<T>)
        ensures
            r@ == self.values(),
    {
        self.vec
    }

    /// Every lane's key with its value, in order.
    pub fn iter_entries(&self) -> (r: Vec<(LaneKey, &T)>)
        ensures
            r@.len() == self.values().len(),
            forall|i: int|
                0 <= i < r@.len() ==> (#[trigger] r@[i]).0 == entry_key(self.group_spec(), i)
                    && *r@[i].1 == self.values()[i],
    {
        let mut out: Vec<(LaneKey, &T)> = Vec::with_capacity(self.vec.len());
        let mut i: usize = 0;
        while i < self.vec.len()
            invariant
                i <= self.vec@.len(),
                out@.len() == i,
                forall|k: int|
                    0 <= k < i ==> (#[trigger] out@[k]).0 == entry_key(self.queue_group_id, k)
                        && *out@[k].1 == self.vec@[k],
            decreases self.vec.len() - i,
        {
            out.push((LaneKey::from_group_index(self.queue_group_id, i), &self.vec[i]));
            i = i + 1;
        }
        out
    }

    /// Every lane's key with its value, in order, taking the values.
    pub fn into_entries(self) -> (r: Vec<(LaneKey, T)>)
        ensures
            r@.len() == self.values().len(),
            forall|i: int|
                0 <= i < r@.len() ==> (#[trigger] r@[i]).0 == entry_key(self.group_spec(), i)
                    && r@[i].1 == self.values()[i],
    {
        let ghost all = self.vec@;
        let group = self.queue_group_id;
        let mut rest = self.vec;
        let mut out: Vec<(LaneKey, T)> = Vec::with_capacity(rest.len());
        let mut i: usize = 0;
        proof {
            assert(all.skip(0) =~= all);
            assert(all.len() == rest@.len());
        }
        while rest.len() > 0
            invariant
                i <= all.len(),
                all.len() <= usize::MAX,
                rest@ == all.skip(i as int),
                out@.len() == i,
                forall|k: int|
                    0 <= k < i ==> (#[trigger] out@[k]).0 == entry_key(group, k) && out@[k].1
                        == all[k],
            decreases rest.len(),
        {
            let value = rest.remove(0);
            proof {
                assert(all.skip(i as int)[0] == all[i as int]);
                assert(all.skip(i as int + 1) =~= all.skip(i as int).subrange(1, all.skip(i as int).len() as int));
            }
            out.push((LaneKey::from_group_index(group, i), value));
            i = i + 1;
        }
        out
    }

    /// A lane vector with as many lanes as `lanes`, of the same group, each
    /// value made by a call of `f`.
    pub fn filled<U, F: Fn() -> T>(lanes: &LaneVec<U>, f: F) -> (r: LaneVec<T>)
        requires
            call_requires(f, ()),
        ensures
            r.group_spec() == lanes.group_spec(),
            r.values().len() == lanes.values().len(),
            forall|i: int| 0 <= i < r.values().len() ==> call_ensures(f, (), #[trigger] r.values()[i]),
    {
        let n = lanes.len();
        let mut vec: Vec<T> = Vec::with_capacity(n);
        while vec.len() < n
            invariant
                call_requires(f, ()),
                vec@.len() <= n,
                forall|i: int| 0 <= i < vec@.len() ==> call_ensures(f, (), #[trigger] vec@[i]),
            decreases n - vec@.len(),
        {
            let value = f();
            vec.push(value);
        }
        LaneVec { queue_group_id: lanes.queue_group_id(), vec }
    }

    /// The first value for which `predicate` answers true, asking it of the
    /// values in lane order; `None` when it answers false for every one.
    pub fn find<P: Fn(&T) -> bool>(&self, predicate: P) -> (r: Option<&T>)
        requires
            forall|i: int| 0 <= i < self.values().len() ==> call_requires(predicate, (&#[trigger] self.values()[i],)),
        ensures
            match r {
                Some(v) => exists|i: int|
                    0 <= i < self.values().len() && *v == self.values()[i] && call_ensures(
                        predicate,
                        (&self.values()[i],),
                        true,
                    ) && forall|j: int|
                        0 <= j < i ==> call_ensures(predicate, (&#[trigger] self.values()[j],), false),
                None => forall|i: int|
                    0 <= i < self.values().len() ==> call_ensures(predicate, (&#[trigger] self.values()[i],), false),
            },
    {
        let mut i: usize = 0;
        while i < self.vec.len()
            invariant
                i <= self.values().len(),
                self.vec@ == self.values(),
                forall|k: int| 0 <= k < self.values().len() ==> call_requires(predicate, (&#[trigger] self.values()[k],)),
                forall|j: int| 0 <= j < i ==> call_ensures(predicate, (&#[trigger] self.values()[j],), false),
            decreases self.vec.len() - i,
        {
            let v = &self.vec[i];
            assert(*v == self.values()[i as int]);
            if predicate(v) {
                assert(call_ensures(predicate, (&self.values()[i as int],), true));
                return Some(v);
            }
            i = i + 1;
        }
        None
    }

    /// The values for which `f` answers true, in lane order, taking the
    /// values; `f` is asked once of each value, in order.
    pub fn retain_into<F: Fn(&T) -> bool>(self, f: F) -> (r: Vec<T>)
        requires
            forall|i: int| 0 <= i < self.values().len() ==> call_requires(f, (&#[trigger] self.values()[i],)),
        ensures
            exists|keep: Seq<bool>|
                keep.len() == self.values().len() && (forall|i: int|
                    0 <= i < keep.len() ==> call_ensures(f, (&self.values()[i],), #[trigger] keep[i]))
                    && r@ == kept(self.values(), keep),
    {
        let ghost all = self.values();
        let mut rest = self.vec;
        let mut out: Vec<T> = Vec::new();
        let ghost mut keep: Seq<bool> = Seq::empty();
        let mut i: usize = 0;
        let total = rest.len();
        proof {
            assert(all.skip(0) =~= all);
            assert(all.take(0) =~= Seq::<T>::empty());
            assert(all.len() == total);
            assert forall|k: int| 0 <= k < all.len() implies call_requires(f, (&#[trigger] all[k],)) by {
                assert(all[k] == self.values()[k]);
            }
        }
        while rest.len() > 0
            invariant
                i <= all.len(),
                all.len() <= usize::MAX,
                rest@ == all.skip(i as int),
                keep.len() == i,
                forall|k: int| 0 <= k < all.len() ==> call_requires(f, (&#[trigger] all[k],)),
                forall|k: int| 0 <= k < i ==> call_ensures(f, (&all[k],), #[trigger] keep[k]),
                out@ == kept(all.take(i as int), keep),
            decreases rest.len(),
        {
            let value = rest.remove(0);
            proof {
                assert(all.skip(i as int)[0] == all[i as int]);
                assert(all.skip(i as int + 1) =~= all.skip(i as int).subrange(1, all.skip(i as int).len() as int));
                assert(all.take(i as int + 1).drop_last() =~= all.take(i as int));
            }
            let answer = f(&value);
            let ghost old_keep = keep;
            let ghost old_out = out@;
            proof {
                keep = keep.push(answer);
                assert(keep.drop_last() =~= old_keep);
                assert(all.take(i as int + 1).last() == value);
            }
            if answer {
                out.push(value);
            }
            proof {
                assert(kept(all.take(i as int + 1), keep) == (if answer {
                    kept(all.take(i as int), old_keep).push(value)
                } else {
                    kept(all.take(i as int), old_keep)
                }));
            }
            i = i + 1;
        }
        proof {
            assert(all.take(i as int) =~= all);
        }
        out
    }
}

/// The values whose answer in `keep` is true, in order.
pub open spec fn kept<T>(values: Seq<T>, keep: Seq<bool>) -> Seq<T>
    decreases values.len(),
{
    if values.len() == 0 || keep.len() == 0 {
        Seq::empty()
    } else {
        let rest = kept(values.drop_last(), keep.drop_last());
        if keep.last() {
            rest.push(values.last())
        } else {
            rest
        }
    }
}

} // verus!

