use vstd::prelude::*;
use std::collections::{HashMap, VecDeque};
use crate::gpu::epoch::{EpochRef, EpochValue};
use crate::gpu::lane_key::LaneKey;
use crate::gpu::lane_progress::{LaneProgress, settle, count_sum, lemma_settle_push, lemma_count_sum_push, lemma_count_sum_concat, lemma_count_sum_nonneg};

verus! {

broadcast use vstd::std_specs::hash::group_hash_axioms;

/// Why progress tracking failed.
#[derive(Debug, Clone, Copy, PartialEq, Eq, Structural)]
pub enum ProgressError {
    InvalidLane,
}

/// The number of leading epochs of `epochs` that `completed` reports done.
pub open spec fn complete_prefix(epochs: Seq<EpochRef>, completed: Map<u64, Vec<u64>>) -> nat
    decreases epochs.len(),
{
    if epochs.len() == 0 || !completed.contains_key(epochs[0].number) {
        0
    } else {
        1 + complete_prefix(epochs.drop_first(), completed)
    }
}

/// What the first `k` epochs add to lane `lane`: each epoch's number with its
/// submission count on that lane.
pub open spec fn lane_entries(
    epochs: Seq<EpochRef>,
    completed: Map<u64, Vec<u64>>,
    lane: int,
    k: int,
) -> Seq<(u64, u64)> {
    Seq::new(k as nat, |j: int| (epochs[j].number, completed[epochs[j].number]@[lane]))
}

/// A lane as a pair of its signaled epoch and its queue.
pub open spec fn lane_state(l: LaneProgress) -> (Option<(u64, u64)>, Seq<(u64, u64)>) {
    (l.signaled, l.unsignaled@)
}

/// Follows the epochs as they complete and as each lane's timeline semaphore
/// signals their submissions.
pub struct ProgressTracker {
    /// Epochs that arrived before their predecessors, by number.
    pub blocked: HashMap<EpochValue, EpochRef>,
    /// Epochs in order whose submissions are not yet given to the lanes.
    pub epochs: VecDeque<EpochRef>,
    /// One progress record per lane.
    pub lanes: Vec<LaneProgress>,
    /// The number the next epoch in order must have.
    pub next_epoch: EpochValue,
}

impl ProgressTracker {
    /// The first epoch number not yet handed to the lanes.
    pub open spec fn pending_start(&self) -> u64 {
        if self.epochs@.len() > 0 {
            self.epochs@[0].number
        } else {
            self.next_epoch
        }
    }

    pub open spec fn wf(&self) -> bool {
        &&& forall|i: int|
            0 <= i < self.epochs@.len() ==> #[trigger] self.epochs@[i].number == self.epochs@[0].number
                + i
        &&& forall|i: int| 0 <= i < self.epochs@.len() ==> #[trigger] self.epochs@[i].number < u64::MAX
        &&& self.epochs@.len() > 0 ==> self.next_epoch == self.epochs@.last().number + 1
        &&& forall|k: u64| #[trigger]
            self.blocked@.contains_key(k) ==> k > self.next_epoch && k < u64::MAX
                && self.blocked@[k].number == k
        &&& forall|i: int| 0 <= i < self.lanes@.len() ==> (#[trigger] self.lanes@[i]).wf()
        &&& forall|i: int|
            0 <= i < self.lanes@.len() ==> (#[trigger] self.lanes@[i]).below(self.pending_start())
    }

    /// The lane at position `lane` signals epoch `epoch`.
    pub open spec fn complete_spec(&self, lane: int, epoch: u64) -> bool {
        0 <= lane < self.lanes@.len() && self.lanes@[lane].signals(epoch)
    }

    /// A tracker for `lane_count` lanes, expecting epoch 0 first.
    pub fn new(lane_count: usize) -> (r: Self)
        ensures
            r.wf(),
            r.next_epoch == 0,
            r.epochs@.len() == 0,
            r.blocked@ == Map::<u64, EpochRef>::empty(),
            r.lanes@.len() == lane_count,
            forall|i: int|
                0 <= i < lane_count ==> (#[trigger] r.lanes@[i]).signaled is None
                    && r.lanes@[i].unsignaled@.len() == 0,
    {
        let mut lanes: Vec<LaneProgress> = Vec::with_capacity(lane_count);
        let mut i: usize = 0;
        while i < lane_count
            invariant
                i <= lane_count,
                lanes@.len() == i,
                forall|j: int|
                    0 <= j < i ==> (#[trigger] lanes@[j]).signaled is None
                        && lanes@[j].unsignaled@.len() == 0,
            decreases lane_count - i,
        {
            lanes.push(LaneProgress::new());
            i = i + 1;
        }
        let r = ProgressTracker {
            blocked: HashMap::new(),
            epochs: VecDeque::new(),
            lanes,
            next_epoch: 0,
        };
        assert forall|j: int| 0 <= j < r.lanes@.len() implies (#[trigger] r.lanes@[j]).wf() by {
            assert(r.lanes@[j].unsignaled@ =~= Seq::<(u64, u64)>::empty());
        }
        r
    }

    /// The number the next epoch in order must have.
    fn next_epoch_number(&mut self) -> (r: EpochValue)
        requires
            old(self).epochs@.len() > 0 ==> old(self).epochs@.last().number < u64::MAX,
        ensures
            final(self).epochs == old(self).epochs,
            final(self).blocked == old(self).blocked,
            final(self).lanes == old(self).lanes,
            old(self).epochs@.len() > 0 ==> final(self).next_epoch == old(self).epochs@.last().number
                + 1,
            old(self).epochs@.len() == 0 ==> final(self).next_epoch == old(self).next_epoch,
            r == final(self).next_epoch,
    {
        let n = self.epochs.len();
        if n > 0 {
            self.next_epoch = self.epochs[n - 1].number + 1;
        }
        self.next_epoch
    }

    /// The epochs an accepted push makes known: those already blocked and
    /// the pushed one.
    pub open spec fn known_after_push(&self, epoch: EpochRef) -> Map<u64, EpochRef> {
        self.blocked@.insert(epoch.number, epoch)
    }

    /// Takes an epoch in. One older than the next expected number is ignored;
    /// one later than it waits among the blocked; the next expected one is
    /// queued, followed by every blocked epoch that now continues the run.
    pub fn push(&mut self, epoch: EpochRef) -> (r: Result<(), ProgressError>)
        requires
            old(self).wf(),
            epoch.number < u64::MAX,
            epoch.number > old(self).next_epoch ==> !old(self).blocked@.contains_key(epoch.number),
        ensures
            r is Ok,
            final(self).wf(),
            final(self).lanes == old(self).lanes,
            push_step(*old(self), *final(self), epoch),
            epoch.number < old(self).next_epoch ==> {
                &&& final(self).epochs@ == old(self).epochs@
                &&& final(self).blocked@ == old(self).blocked@
                &&& final(self).next_epoch == old(self).next_epoch
            },
            epoch.number >= old(self).next_epoch ==> {
                let known = old(self).known_after_push(epoch);
                let n0 = old(self).next_epoch;
                let n1 = final(self).next_epoch;
                &&& n0 <= n1
                &&& epoch.number == n0 ==> n0 < n1
                &&& !known.contains_key(n1)
                &&& forall|n: u64| n0 <= n < n1 ==> known.contains_key(n)
                &&& final(self).epochs@ == old(self).epochs@ + Seq::new(
                    (n1 - n0) as nat,
                    |i: int| known[(n0 + i) as u64],
                )
                &&& final(self).blocked@ == known.remove_keys(Set::new(|n: u64| n0 <= n < n1))
            },
    {
        let n0 = self.next_epoch_number();
        if epoch.number < n0 {
            return Ok(());
        }
        let ghost known = old(self).known_after_push(epoch);
        let ghost old_epochs = self.epochs@;
        let ghost old_blocked = self.blocked@;
        if epoch.number == n0 {
            self.epochs.push_back(epoch);
        } else {
            let _ = self.blocked.insert(epoch.number, epoch);
        }
        let mut next = self.next_epoch_number();
        proof {
            if epoch.number == n0 {
                assert(self.epochs@ =~= old_epochs + Seq::new(
                    (next - n0) as nat,
                    |i: int| known[(n0 + i) as u64],
                ));
                assert(self.blocked@ =~= known.remove_keys(Set::new(|n: u64| n0 <= n < next)));
            } else {
                assert(self.epochs@ =~= old_epochs + Seq::new(
                    (next - n0) as nat,
                    |i: int| known[(n0 + i) as u64],
                ));
                assert(self.blocked@ =~= known.remove_keys(Set::new(|n: u64| n0 <= n < next)));
            }
        }
        let mut done = false;
        while !done
            invariant
                old(self).wf(),
                n0 == old(self).next_epoch,
                known == old(self).known_after_push(epoch),
                old_epochs == old(self).epochs@,
                forall|k: u64| #[trigger] known.contains_key(k) ==> k >= n0 && k < u64::MAX && known[k].number == k,
                n0 <= next <= u64::MAX,
                epoch.number == n0 ==> n0 < next,
                forall|n: u64| n0 <= n < next ==> known.contains_key(n),
                self.epochs@ == old_epochs + Seq::new(
                    (next - n0) as nat,
                    |i: int| known[(n0 + i) as u64],
                ),
                self.blocked@ == known.remove_keys(Set::new(|n: u64| n0 <= n < next)),
                self.next_epoch == next,
                self.lanes == old(self).lanes,
                done ==> !known.contains_key(next),
            decreases u64::MAX - next, if done { 0int } else { 1int },
        {
            match self.blocked.remove(&next) {
                Some(e) => {
                    let ghost prev = next;
                    self.epochs.push_back(e);
                    next = self.next_epoch_number();
                    proof {
                        assert(next == prev + 1);
                        assert(self.epochs@ =~= old_epochs + Seq::new(
                            (next - n0) as nat,
                            |i: int| known[(n0 + i) as u64],
                        ));
                        assert(self.blocked@ =~= known.remove_keys(
                            Set::new(|n: u64| n0 <= n < next),
                        ));
                    }
                },
                None => {
                    done = true;
                },
            }
        }
        proof {
            let ol = old_epochs.len() as int;
            if ol > 0 {
                assert(old_epochs[ol - 1].number == old_epochs[0].number + ol - 1);
                assert(old_epochs[0].number + ol == n0);
            }
            assert forall|i: int| 0 <= i < self.epochs@.len() implies #[trigger] self.epochs@[i].number
                == self.epochs@[0].number + i by {
                if ol == 0 {
                    assert(self.epochs@[0] == known[n0]);
                    assert(known.contains_key(n0));
                } else {
                    assert(self.epochs@[0] == old_epochs[0]);
                }
                if i >= ol {
                    let k = (n0 + (i - ol)) as u64;
                    assert(self.epochs@[i] == known[k]);
                    assert(known.contains_key(k));
                } else {
                    assert(self.epochs@[i] == old_epochs[i]);
                }
            }
            assert forall|i: int| 0 <= i < self.epochs@.len() implies #[trigger] self.epochs@[i].number
                < u64::MAX by {
                if i >= ol {
                    let k = (n0 + (i - ol)) as u64;
                    assert(self.epochs@[i] == known[k]);
                    assert(known.contains_key(k));
                } else {
                    assert(self.epochs@[i] == old_epochs[i]);
                }
            }
            if ol == 0 && self.epochs@.len() > 0 {
                assert(self.epochs@[0] == known[n0]);
                assert(known.contains_key(n0));
            }
            assert(self.pending_start() == old(self).pending_start());
            assert forall|i: int| ol <= i < self.epochs@.len() implies #[trigger] self.epochs@[i].number
                == n0 + (i - ol) by {
                let k = (n0 + (i - ol)) as u64;
                assert(self.epochs@[i] == known[k]);
                assert(known.contains_key(k));
            }
            assert forall|i: int| 0 <= i < ol implies #[trigger] self.epochs@[i] == old_epochs[i] by {
            }
        }
        Ok(())
    }

    /// The lane `key` signals epoch `epoch`.
    pub fn is_complete(&self, key: LaneKey, epoch: EpochValue) -> (r: bool)
        requires
            (key.offset + key.index) < self.lanes@.len(),
        ensures
            r == self.complete_spec(key.offset + key.index, epoch),
    {
        let lane = &self.lanes[key.position() as usize];
        match lane.signaled {
            Some((signaled, _)) => epoch <= signaled,
            None => false,
        }
    }

    /// The lane at position `position` signals epoch `epoch`.
    pub fn is_complete_at(&self, position: usize, epoch: EpochValue) -> (r: bool)
        requires
            position < self.lanes@.len(),
        ensures
            r == self.complete_spec(position as int, epoch),
    {
        match self.lanes[position].signaled {
            Some((signaled, _)) => epoch <= signaled,
            None => false,
        }
    }

    /// Hands the submissions of the leading completed epochs to the lanes and
    /// settles every lane at its timeline value. `values[i]` is the value of
    /// lane `i`'s timeline semaphore; `completed` maps each completed epoch
    /// to its final submission count per lane. When no epoch completes, the
    /// lanes still settle at their new values.
    pub fn update(&mut self, values: &Vec<u64>, completed: &HashMap<u64, Vec<u64>>)
        requires
            old(self).wf(),
            values@.len() == old(self).lanes@.len(),
            forall|k: u64| #[trigger]
                completed@.contains_key(k) ==> completed@[k]@.len() == old(self).lanes@.len(),
            forall|i: int|
                0 <= i < old(self).lanes@.len() ==> (#[trigger] old(self).lanes@[i]).total()
                    + count_sum(
                    lane_entries(
                        old(self).epochs@,
                        completed@,
                        i,
                        complete_prefix(old(self).epochs@, completed@) as int,
                    ),
                ) <= u64::MAX,
        ensures
            final(self).wf(),
            final(self).blocked@ == old(self).blocked@,
            final(self).next_epoch == old(self).next_epoch,
            final(self).lanes@.len() == old(self).lanes@.len(),
            ({
                let k = complete_prefix(old(self).epochs@, completed@) as int;
                &&& final(self).epochs@ == old(self).epochs@.subrange(k, old(self).epochs@.len() as int)
                &&& forall|i: int|
                    0 <= i < old(self).lanes@.len() ==> #[trigger] lane_state(final(self).lanes@[i])
                        == settle(
                        old(self).lanes@[i].signaled,
                        old(self).lanes@[i].unsignaled@ + lane_entries(
                            old(self).epochs@,
                            completed@,
                            i,
                            k,
                        ),
                        values@[i],
                    )
            }),
            forall|lane: int, e: u64| #[trigger]
                old(self).complete_spec(lane, e) ==> final(self).complete_spec(lane, e),
    {
        let ghost k = complete_prefix(old(self).epochs@, completed@) as int;
        let ghost oe = old(self).epochs@;
        let ghost ol = old(self).lanes@;
        let ghost cm = completed@;
        let ghost mut j: int = 0;
        let mut epoch_completed = false;
        let mut stop = false;
        proof {
            assert(oe.subrange(0, oe.len() as int) =~= oe);
            assert forall|i: int| 0 <= i < ol.len() implies #[trigger] ol[i].unsignaled@ + lane_entries(oe, cm, i, 0) =~= ol[i].unsignaled@ by {}
        }
        while !stop && self.epochs.len() > 0
            invariant
                old(self).wf(),
                oe == old(self).epochs@,
                ol == old(self).lanes@,
                cm == completed@,
                k == complete_prefix(oe, cm) as int,
                values@.len() == ol.len(),
                forall|kk: u64| #[trigger] cm.contains_key(kk) ==> cm[kk]@.len() == ol.len(),
                forall|i: int|
                    0 <= i < ol.len() ==> (#[trigger] ol[i]).total() + count_sum(
                        lane_entries(oe, cm, i, k),
                    ) <= u64::MAX,
                0 <= j <= oe.len(),
                self.epochs@ == oe.subrange(j, oe.len() as int),
                complete_prefix(oe, cm) == j + complete_prefix(self.epochs@, cm),
                epoch_completed <==> j > 0,
                stop ==> j == k,
                self.blocked@ == old(self).blocked@,
                self.next_epoch == old(self).next_epoch,
                self.lanes@.len() == ol.len(),
                forall|i: int|
                    0 <= i < ol.len() ==> #[trigger] lane_state(self.lanes@[i]) == (if j == 0 {
                        lane_state(ol[i])
                    } else {
                        settle(
                            ol[i].signaled,
                            ol[i].unsignaled@ + lane_entries(oe, cm, i, j),
                            values@[i],
                        )
                    }),
                forall|i: int| 0 <= i < ol.len() ==> (#[trigger] self.lanes@[i]).wf(),
                forall|i: int|
                    0 <= i < ol.len() ==> (#[trigger] self.lanes@[i]).total() == ol[i].total()
                        + count_sum(lane_entries(oe, cm, i, j)),
                forall|i: int| 0 <= i < ol.len() ==> (#[trigger] self.lanes@[i]).below(self.pending_start()),
                forall|lane: int, e: u64| #[trigger]
                    old(self).complete_spec(lane, e) ==> self.complete_spec(lane, e),
            decreases self.epochs@.len(), if stop { 0int } else { 1int },
        {
            let number = self.epochs[0].number;
            match completed.get(&number) {
                None => {
                    stop = true;
                },
                Some(counts) => {
                    proof {
                        assert(self.epochs@[0] == oe[j]);
                        assert(complete_prefix(self.epochs@, cm) == 1 + complete_prefix(self.epochs@.drop_first(), cm));
                        assert(j < k);
                    }
                    let ghost before = self.lanes@;
                    let mut i: usize = 0;
                    while i < self.lanes.len()
                        invariant
                            0 <= j < k,
                            k == complete_prefix(oe, cm) as int,
                            j < oe.len(),
                            oe[j].number == number,
                            cm.contains_key(number),
                            counts@ == cm[number]@,
                            counts@.len() == ol.len(),
                            values@.len() == ol.len(),
                            self.epochs@.len() > 0,
                            self.epochs@[0].number == number,
                            number < u64::MAX,
                            before.len() == ol.len(),
                            self.lanes@.len() == ol.len(),
                            self.blocked@ == old(self).blocked@,
                            self.next_epoch == old(self).next_epoch,
                            self.epochs@ == oe.subrange(j, oe.len() as int),
                            0 <= i <= ol.len(),
                            forall|ii: int|
                                0 <= ii < ol.len() ==> (#[trigger] ol[ii]).total() + count_sum(
                                    lane_entries(oe, cm, ii, k),
                                ) <= u64::MAX,
                            forall|ii: int|
                                0 <= ii < ol.len() ==> #[trigger] lane_state(before[ii]) == (if j == 0 {
                                    lane_state(ol[ii])
                                } else {
                                    settle(
                                        ol[ii].signaled,
                                        ol[ii].unsignaled@ + lane_entries(oe, cm, ii, j),
                                        values@[ii],
                                    )
                                }),
                            forall|ii: int| 0 <= ii < ol.len() ==> (#[trigger] before[ii]).wf(),
                            forall|ii: int|
                                0 <= ii < ol.len() ==> (#[trigger] before[ii]).total() == ol[ii].total()
                                    + count_sum(lane_entries(oe, cm, ii, j)),
                            forall|ii: int| 0 <= ii < ol.len() ==> (#[trigger] before[ii]).below(number),
                            forall|ii: int| i <= ii < ol.len() ==> self.lanes@[ii] == before[ii],
                            forall|ii: int|
                                0 <= ii < i ==> #[trigger] lane_state(self.lanes@[ii]) == settle(
                                    ol[ii].signaled,
                                    ol[ii].unsignaled@ + lane_entries(oe, cm, ii, j + 1),
                                    values@[ii],
                                ),
                            forall|ii: int| 0 <= ii < i ==> (#[trigger] self.lanes@[ii]).wf(),
                            forall|ii: int|
                                0 <= ii < i ==> (#[trigger] self.lanes@[ii]).total() == ol[ii].total()
                                    + count_sum(lane_entries(oe, cm, ii, j + 1)),
                            forall|ii: int| 0 <= ii < i ==> (#[trigger] self.lanes@[ii]).below((number + 1) as u64),
                            forall|ii: int, e: u64|
                                0 <= ii < i && before[ii].signals(e) ==> #[trigger] self.lanes@[ii].signals(e),
                        decreases ol.len() - i,
                    {
                        let v = values[i];
                        let c = counts[i];
                        proof {
                            let ii = i as int;
                            let ej = lane_entries(oe, cm, ii, j);
                            let ej1 = lane_entries(oe, cm, ii, j + 1);
                            let ek = lane_entries(oe, cm, ii, k);
                            assert(ej1 =~= ej.push((number, c)));
                            lemma_count_sum_push(ej, (number, c));
                            assert(ek =~= ej1 + ek.subrange(j + 1, k));
                            lemma_count_sum_concat(ej1, ek.subrange(j + 1, k));
                            lemma_count_sum_nonneg(ek.subrange(j + 1, k));
                            assert(ol[ii].unsignaled@ + ej1 =~= (ol[ii].unsignaled@ + ej).push((number, c)));
                            if j == 0 {
                                assert(ol[ii].unsignaled@ + ej =~= ol[ii].unsignaled@);
                            } else {
                                lemma_settle_push(ol[ii].signaled, ol[ii].unsignaled@ + ej, (number, c), v);
                            }
                            assert(self.lanes@[ii] == before[ii]);
                            assert(lane_state(before[ii]) == (if j == 0 {
                                lane_state(ol[ii])
                            } else {
                                settle(ol[ii].signaled, ol[ii].unsignaled@ + ej, v)
                            }));
                            assert(before[ii].wf());
                            assert(before[ii].below(number));
                            assert(c == cm[number]@[ii]);
                            assert(ej1[j] == (number, c));
                        }
                        self.lanes[i].push(number, c, v);
                        proof {
                            let ii = i as int;
                            assert(lane_state(self.lanes@[ii]) == settle(
                                before[ii].signaled,
                                before[ii].unsignaled@.push((number, c)),
                                v,
                            ));
                            assert(lane_state(self.lanes@[ii]) == settle(
                                ol[ii].signaled,
                                ol[ii].unsignaled@ + lane_entries(oe, cm, ii, j + 1),
                                values@[ii],
                            ));
                        }
                        i = i + 1;
                    }
                    let _ = self.epochs.pop_front();
                    proof {
                        j = j + 1;
                        assert(self.epochs@ =~= oe.subrange(j, oe.len() as int));
                        assert(oe.subrange(j - 1, oe.len() as int).drop_first() =~= self.epochs@);
                        if self.epochs@.len() > 0 {
                            assert(self.epochs@[0] == oe[j]);
                            assert(oe[j].number == oe[0].number + j);
                            assert(oe[j - 1].number == oe[0].number + j - 1);
                        } else {
                            assert(oe.len() > 0);
                            assert(oe.last().number == oe[0].number + oe.len() - 1);
                            assert(oe[j - 1].number == oe[0].number + j - 1);
                        }
                        assert(self.pending_start() == number + 1);
                        assert forall|lane: int, e: u64| #[trigger] old(self).complete_spec(lane, e) implies self.complete_spec(lane, e) by {
                            assert(before[lane].signals(e));
                        }
                    }
                    epoch_completed = true;
                },
            }
        }
        proof {
            if !stop {
                assert(self.epochs@.len() == 0);
            }
        }
        if !epoch_completed {
            let mut i: usize = 0;
            while i < self.lanes.len()
                invariant
                    j == 0,
                    k == 0,
                    self.lanes@.len() == ol.len(),
                    values@.len() == ol.len(),
                    0 <= i <= ol.len(),
                    self.epochs@ == old(self).epochs@,
                    self.blocked@ == old(self).blocked@,
                    self.next_epoch == old(self).next_epoch,
                    forall|ii: int| i <= ii < ol.len() ==> #[trigger] lane_state(self.lanes@[ii]) == lane_state(ol[ii]),
                    forall|ii: int| i <= ii < ol.len() ==> (#[trigger] self.lanes@[ii]).wf(),
                    forall|ii: int| 0 <= ii < ol.len() ==> (#[trigger] ol[ii]).wf(),
                    forall|ii: int| 0 <= ii < ol.len() ==> (#[trigger] ol[ii]).below(self.pending_start()),
                    forall|ii: int|
                        0 <= ii < i ==> #[trigger] lane_state(self.lanes@[ii]) == settle(
                            ol[ii].signaled,
                            ol[ii].unsignaled@,
                            values@[ii],
                        ),
                    forall|ii: int| 0 <= ii < i ==> (#[trigger] self.lanes@[ii]).wf(),
                    forall|ii: int| 0 <= ii < i ==> (#[trigger] self.lanes@[ii]).total() == ol[ii].total(),
                    forall|ii: int| 0 <= ii < i ==> (#[trigger] self.lanes@[ii]).below(self.pending_start()),
                    forall|ii: int, e: u64|
                        0 <= ii < i && ol[ii].signals(e) ==> #[trigger] self.lanes@[ii].signals(e),
                decreases ol.len() - i,
            {
                let v = values[i];
                proof {
                    assert(lane_state(self.lanes@[i as int]) == lane_state(ol[i as int]));
                    assert(ol[i as int].below(self.pending_start()));
                }
                self.lanes[i].update(v);
                i = i + 1;
            }
            proof {
                assert forall|ii: int| 0 <= ii < ol.len() implies #[trigger] ol[ii].unsignaled@ + lane_entries(oe, cm, ii, 0) =~= ol[ii].unsignaled@ by {}
                assert forall|lane: int, e: u64| #[trigger] old(self).complete_spec(lane, e) implies self.complete_spec(lane, e) by {
                    assert(ol[lane].signals(e));
                }
            }
        }
    }
}

/// Epochs complete in order on every lane: a lane that signals an epoch
/// signals every earlier one.
pub proof fn lemma_complete_in_order(tracker: ProgressTracker, lane: int, epoch: u64, earlier: u64)
    requires
        tracker.complete_spec(lane, epoch),
        earlier <= epoch,
    ensures
        tracker.complete_spec(lane, earlier),
{
}

/// What a push does to the queue of epochs in order: `after` is well formed,
/// the next expected number never goes down (and goes up when the pushed
/// epoch was the expected one, stays when it was older), and the queue only
/// grows at its end, by the epochs numbered from the old next expected
/// number on, one after the other.
pub open spec fn push_step(before: ProgressTracker, after: ProgressTracker, epoch: EpochRef) -> bool {
    let ol = before.epochs@.len() as int;
    &&& after.wf()
    &&& before.next_epoch <= after.next_epoch
    &&& epoch.number == before.next_epoch ==> before.next_epoch < after.next_epoch
    &&& epoch.number < before.next_epoch ==> after.next_epoch == before.next_epoch
    &&& after.epochs@.len() == ol + (after.next_epoch - before.next_epoch)
    &&& forall|i: int| 0 <= i < ol ==> #[trigger] after.epochs@[i] == before.epochs@[i]
    &&& forall|i: int|
        ol <= i < after.epochs@.len() ==> #[trigger] after.epochs@[i].number == before.next_epoch
            + (i - ol)
}

/// `states` are the trackers a run of pushes goes through.
pub open spec fn push_run(states: Seq<ProgressTracker>, pushed: Seq<EpochRef>) -> bool {
    &&& states.len() == pushed.len() + 1
    &&& forall|i: int| 0 <= i < pushed.len() ==> #[trigger] push_step(states[i], states[i + 1], pushed[i])
}

/// Over any run of pushes, in any order, the queue of epochs in order only
/// grows at its end, by the epochs numbered from the first next expected
/// number on, each once and in increasing order: no gap, no repeat.
pub proof fn lemma_pushes_queue_in_order(states: Seq<ProgressTracker>, pushed: Seq<EpochRef>)
    requires
        push_run(states, pushed),
    ensures
        states[0].next_epoch <= states.last().next_epoch,
        states.last().epochs@.len() == states[0].epochs@.len() + (states.last().next_epoch
            - states[0].next_epoch),
        forall|i: int|
            0 <= i < states[0].epochs@.len() ==> #[trigger] states.last().epochs@[i]
                == states[0].epochs@[i],
        forall|i: int|
            states[0].epochs@.len() <= i < states.last().epochs@.len() ==> #[trigger] states.last().epochs@[i].number
                == states[0].next_epoch + (i - states[0].epochs@.len()),
    decreases pushed.len(),
{
    if pushed.len() > 0 {
        let n = pushed.len() - 1;
        let earlier = states.drop_last();
        let first_pushed = pushed.drop_last();
        assert forall|i: int| 0 <= i < first_pushed.len() implies #[trigger] push_step(
            earlier[i],
            earlier[i + 1],
            first_pushed[i],
        ) by {
            assert(push_step(states[i], states[i + 1], pushed[i]));
        }
        lemma_pushes_queue_in_order(earlier, first_pushed);
        assert(push_step(states[n], states[n + 1], pushed[n]));
        assert(earlier.last() == states[n]);
        assert(states.last() == states[n + 1]);
        let first = states[0];
        let mid = states[n];
        let last = states[n + 1];
        assert forall|i: int| 0 <= i < first.epochs@.len() implies #[trigger] last.epochs@[i]
            == first.epochs@[i] by {
            assert(mid.epochs@[i] == first.epochs@[i]);
        }
        assert forall|i: int| first.epochs@.len() <= i < last.epochs@.len() implies #[trigger] last.epochs@[i].number
            == first.next_epoch + (i - first.epochs@.len()) by {
            if i < mid.epochs@.len() {
                assert(last.epochs@[i] == mid.epochs@[i]);
                assert(mid.epochs@[i].number == first.next_epoch + (i - first.epochs@.len()));
            }
        }
    }
}

} // verus!
