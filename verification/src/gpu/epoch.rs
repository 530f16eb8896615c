use vstd::prelude::*;
use crate::gpu::lane_key::LaneKey;

verus! {

/// Numbers the epochs of submissions.
pub type EpochValue = u64;

/// Why an epoch cannot be advanced.
#[derive(Debug, Clone, Copy, PartialEq, Eq, Structural)]
pub enum EpochError {
    AlreadyConsumed,
}

/// An open epoch: counts the submissions made on each lane while it lasts.
pub struct Epoch {
    pub number: EpochValue,
    pub consumed: bool,
    pub submissions: Vec<u64>,
}

/// A holder's handle on an epoch: its number. What the holder sees of the
/// epoch is read through the live epoch, so counts added after the handle
/// was taken are seen, and the epoch reads as complete once a later epoch
/// replaced it.
#[derive(Debug, Clone, Copy, PartialEq, Eq, Structural)]
pub struct EpochRef {
    pub number: EpochValue,
}

fn zeros(len: usize) -> (r: Vec<u64>)
    ensures
        r@ == Seq::new(len as nat, |i: int| 0u64),
{
    let mut v: Vec<u64> = Vec::with_capacity(len);
    let mut i: usize = 0;
    while i < len
        invariant
            i <= len,
            v@ == Seq::new(i as nat, |k: int| 0u64),
        decreases len - i,
    {
        v.push(0);
        i = i + 1;
    }
    v
}

impl Epoch {
    /// Epoch 0, with no submission yet on any of `lane_count` lanes.
    pub fn new(lane_count: usize) -> (r: Self)
        ensures
            r.number == 0,
            !r.consumed,
            r.submissions@ == Seq::new(lane_count as nat, |i: int| 0u64),
    {
        Epoch { number: 0, consumed: false, submissions: zeros(lane_count) }
    }

    /// Ends this epoch and opens the next one. Besides the new epoch, returns
    /// the ended epoch: its number and its final submission counts, which no
    /// later increment can change and which its references go on reading.
    pub fn next(self, lane_count: usize) -> (r: Result<(Epoch, EndedEpoch), EpochError>)
        requires
            self.number < u64::MAX,
        ensures
            self.consumed ==> r == Err::<(Epoch, EndedEpoch), EpochError>(
                EpochError::AlreadyConsumed,
            ),
            !self.consumed ==> r is Ok,
            r matches Ok((e, ended)) ==> {
                &&& e.number == self.number + 1
                &&& !e.consumed
                &&& e.submissions@ == Seq::new(lane_count as nat, |i: int| 0u64)
                &&& ended.number == self.number
                &&& ended.submissions@ == self.submissions@
            },
    {
        if self.consumed {
            return Err(EpochError::AlreadyConsumed);
        }
        let e = Epoch { number: self.number + 1, consumed: false, submissions: zeros(lane_count) };
        Ok((e, EndedEpoch { number: self.number, submissions: self.submissions }))
    }

    pub fn number(&self) -> (r: EpochValue)
        ensures
            r == self.number,
    {
        self.number
    }

    /// Counts one more submission on the lane `key`; the count wraps around
    /// as an atomic add does.
    pub fn increment(&mut self, key: LaneKey)
        requires
            (key.offset + key.index) < old(self).submissions@.len(),
        ensures
            final(self).number == old(self).number,
            final(self).consumed == old(self).consumed,
            final(self).submissions@ == old(self).submissions@.update(
                key.offset + key.index,
                old(self).submissions@[key.offset + key.index].wrapping_add(1),
            ),
    {
        let i = key.position() as usize;
        let c = self.submissions[i];
        self.submissions.set(i, c.wrapping_add(1));
    }

    /// A handle on this epoch.
    pub fn reference(&self) -> (r: EpochRef)
        ensures
            r.number == self.number,
    {
        EpochRef { number: self.number }
    }
}

/// An epoch that a later one replaced: its number and its final counts.
#[derive(Debug)]
pub struct EndedEpoch {
    pub number: EpochValue,
    pub submissions: Vec<u64>,
}

/// Whether the epoch numbered `number` is over, given the current epoch:
/// a later epoch replaced it, or it is the current one and was consumed.
pub open spec fn epoch_over(number: EpochValue, current: Epoch) -> bool {
    current.number > number || (current.number == number && current.consumed)
}

/// The counts a reference to epoch `number` reads: the live ones while the
/// epoch is current, the final ones once it ended (when they are given).
pub open spec fn counts_of(number: EpochValue, current: Epoch, ended: Option<EndedEpoch>) -> Option<
    Seq<u64>,
> {
    if current.number == number {
        Some(current.submissions@)
    } else {
        match ended {
            Some(e) => if e.number == number {
                Some(e.submissions@)
            } else {
                None
            },
            None => None,
        }
    }
}

impl EpochRef {
    pub fn number(&self) -> (r: EpochValue)
        ensures
            r == self.number,
    {
        self.number
    }

    /// The epoch is over, read through the current epoch: no submission will
    /// be added to it.
    pub fn is_complete(&self, current: &Epoch) -> (r: bool)
        ensures
            r == epoch_over(self.number, *current),
    {
        current.number > self.number || (current.number == self.number && current.consumed)
    }

    /// The submissions of each lane: read through the current epoch while it
    /// is this one, and through `ended`, its final counts, once it ended. One
    /// of the two must be the referenced epoch.
    pub fn submissions<'a>(&self, current: &'a Epoch, ended: Option<&'a EndedEpoch>) -> (r: &'a Vec<
        u64,
    >)
        requires
            current.number == self.number || (ended matches Some(e) && e.number == self.number),
        ensures
            counts_of(
                self.number,
                *current,
                match ended {
                    Some(e) => Some(*e),
                    None => None,
                },
            ) == Some(r@),
    {
        if current.number == self.number {
            return &current.submissions;
        }
        match ended {
            Some(e) => &e.submissions,
            None => &current.submissions,
        }
    }

    /// The submissions on the lane `key` so far: the live count while the
    /// epoch is current, its final count once it ended. One of the two must
    /// be the referenced epoch, with the lane in range.
    pub fn submission_count(&self, current: &Epoch, ended: Option<&EndedEpoch>, key: LaneKey) -> (r:
        u64)
        requires
            current.number == self.number || (ended matches Some(e) && e.number == self.number),
            current.number == self.number ==> (key.offset + key.index) < current.submissions@.len(),
            current.number != self.number ==> (ended matches Some(e) && (key.offset + key.index)
                < e.submissions@.len()),
        ensures
            counts_of(
                self.number,
                *current,
                match ended {
                    Some(e) => Some(*e),
                    None => None,
                },
            ) matches Some(counts) && r == counts[key.offset + key.index],
    {
        let counts = self.submissions(current, ended);
        counts[key.position() as usize]
    }
}

/// The ended epoch that `next` hands back keeps, for a reference to it,
/// the counts the reference read through the epoch before `next`.
pub proof fn lemma_counts_survive_next(before: Epoch, after: Epoch, ended: EndedEpoch)
    requires
        after.number == before.number + 1,
        ended.number == before.number,
        ended.submissions@ == before.submissions@,
    ensures
        counts_of(before.number, after, Some(ended)) == counts_of(before.number, before, None),
        counts_of(before.number, before, None) == Some(before.submissions@),
{
}

/// One increment of the epoch on the lane at position `pos`.
pub open spec fn increment_step(before: Epoch, after: Epoch, pos: int) -> bool {
    &&& 0 <= pos < before.submissions@.len()
    &&& after.number == before.number
    &&& after.consumed == before.consumed
    &&& after.submissions@ == before.submissions@.update(
        pos,
        before.submissions@[pos].wrapping_add(1),
    )
}

/// How many of the increments went to the lane at position `pos`.
pub open spec fn hits(positions: Seq<int>, pos: int) -> nat
    decreases positions.len(),
{
    if positions.len() == 0 {
        0
    } else {
        hits(positions.drop_last(), pos) + if positions.last() == pos {
            1nat
        } else {
            0nat
        }
    }
}

/// A lane's count goes up by exactly the increments made on it, as long as
/// it does not wrap: what a reference reads is the number of increments.
pub proof fn lemma_counts_increments(epochs: Seq<Epoch>, positions: Seq<int>, pos: int)
    requires
        epochs.len() == positions.len() + 1,
        forall|i: int|
            0 <= i < positions.len() ==> increment_step(
                #[trigger] epochs[i],
                epochs[i + 1],
                positions[i],
            ),
        0 <= pos < epochs[0].submissions@.len(),
        epochs[0].submissions@[pos] + positions.len() <= u64::MAX,
    ensures
        epochs.last().number == epochs[0].number,
        epochs.last().submissions@.len() == epochs[0].submissions@.len(),
        epochs.last().submissions@[pos] == epochs[0].submissions@[pos] + hits(positions, pos),
    decreases positions.len(),
{
    if positions.len() > 0 {
        let n = positions.len() - 1;
        lemma_hits_bound(positions.drop_last(), pos);
        lemma_counts_increments(epochs.drop_last(), positions.drop_last(), pos);
        assert(increment_step(epochs[n], epochs[n + 1], positions[n]));
        assert(epochs.drop_last().last() == epochs[n]);
    }
}

proof fn lemma_hits_bound(positions: Seq<int>, pos: int)
    ensures
        hits(positions, pos) <= positions.len(),
    decreases positions.len(),
{
    if positions.len() > 0 {
        lemma_hits_bound(positions.drop_last(), pos);
    }
}

/// One step of an epoch's life: an increment keeps its number and whether
/// it was consumed; `next` opens the epoch numbered one more.
pub open spec fn epoch_step(before: Epoch, after: Epoch) -> bool {
    ||| (after.number == before.number && after.consumed == before.consumed)
    ||| after.number == before.number + 1
}

/// Once an epoch is over it stays over, whatever the current epoch goes
/// through after.
pub proof fn lemma_over_stays_over(number: EpochValue, epochs: Seq<Epoch>)
    requires
        epochs.len() > 0,
        epoch_over(number, epochs[0]),
        forall|i: int| 0 <= i < epochs.len() - 1 ==> epoch_step(#[trigger] epochs[i], epochs[i + 1]),
    ensures
        forall|i: int| 0 <= i < epochs.len() ==> #[trigger] epoch_over(number, epochs[i]),
    decreases epochs.len(),
{
    if epochs.len() > 1 {
        let rest = epochs.drop_first();
        assert(epoch_step(epochs[0], epochs[1]));
        assert forall|i: int| 0 <= i < rest.len() - 1 implies epoch_step(#[trigger] rest[i], rest[i + 1]) by {
            assert(epoch_step(epochs[i + 1], epochs[i + 2]));
        }
        lemma_over_stays_over(number, rest);
        assert forall|i: int| 0 <= i < epochs.len() implies #[trigger] epoch_over(number, epochs[i]) by {
            if i > 0 {
                assert(epochs[i] == rest[i - 1]);
            }
        }
    }
}

} // verus!
