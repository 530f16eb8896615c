use vstd::prelude::*;
use std::collections::VecDeque;

verus! {

/// The timeline value a lane must reach before `signaled` holds: the value
/// of the last signaled epoch, or 0 when none has been signaled.
pub open spec fn base_value(signaled: Option<(u64, u64)>) -> int {
    match signaled {
        Some(p) => p.1 as int,
        None => 0,
    }
}

/// The total number of submissions of the queued epochs.
pub open spec fn count_sum(q: Seq<(u64, u64)>) -> int
    decreases q.len(),
{
    if q.len() == 0 {
        0
    } else {
        q[0].1 + count_sum(q.drop_first())
    }
}

/// What a lane looks like after its timeline semaphore reached `value`: the
/// queued epochs are signaled from the front for as long as the value covers
/// the submissions of every epoch up to and including them.
pub open spec fn settle(signaled: Option<(u64, u64)>, q: Seq<(u64, u64)>, value: u64) -> (
    Option<(u64, u64)>,
    Seq<(u64, u64)>,
)
    decreases q.len(),
{
    if q.len() == 0 {
        (signaled, q)
    } else {
        let required = base_value(signaled) + q[0].1;
        if value >= required {
            settle(Some((q[0].0, required as u64)), q.drop_first(), value)
        } else {
            (signaled, q)
        }
    }
}

/// Queued epochs are strictly increasing and all later than the signaled one.
pub open spec fn ordered_lane(signaled: Option<(u64, u64)>, q: Seq<(u64, u64)>) -> bool {
    &&& forall|i: int, j: int| #![trigger q[i], q[j]] 0 <= i < j < q.len() ==> q[i].0 < q[j].0
    &&& forall|i: int|
        #![trigger q[i]]
        0 <= i < q.len() ==> match signaled {
            Some(s) => s.0 < q[i].0,
            None => true,
        }
}

pub proof fn lemma_count_sum_push(q: Seq<(u64, u64)>, x: (u64, u64))
    ensures
        count_sum(q.push(x)) == count_sum(q) + x.1,
    decreases q.len(),
{
    if q.len() == 0 {
        assert(q.push(x)[0] == x);
        assert(q.push(x).drop_first() =~= Seq::<(u64, u64)>::empty());
        assert(count_sum(Seq::<(u64, u64)>::empty()) == 0);
    } else {
        lemma_count_sum_push(q.drop_first(), x);
        assert(q.push(x)[0] == q[0]);
        assert(q.push(x).drop_first() =~= q.drop_first().push(x));
    }
}

pub proof fn lemma_count_sum_nonneg(q: Seq<(u64, u64)>)
    ensures
        count_sum(q) >= 0,
    decreases q.len(),
{
    if q.len() > 0 {
        lemma_count_sum_nonneg(q.drop_first());
    }
}

/// Settling keeps the lane's total: signaled value plus queued submissions.
pub proof fn lemma_settle_total(signaled: Option<(u64, u64)>, q: Seq<(u64, u64)>, value: u64)
    requires
        base_value(signaled) + count_sum(q) <= u64::MAX,
        base_value(signaled) >= 0,
    ensures
        ({
            let (s2, q2) = settle(signaled, q, value);
            base_value(s2) + count_sum(q2) == base_value(signaled) + count_sum(q)
        }),
    decreases q.len(),
{
    if q.len() > 0 {
        let required = base_value(signaled) + q[0].1;
        lemma_count_sum_nonneg(q.drop_first());
        if value >= required {
            lemma_settle_total(Some((q[0].0, required as u64)), q.drop_first(), value);
        }
    }
}

/// Settling keeps the lane ordered and never moves the signaled epoch back.
pub proof fn lemma_settle_ordered(signaled: Option<(u64, u64)>, q: Seq<(u64, u64)>, value: u64)
    requires
        ordered_lane(signaled, q),
    ensures
        ({
            let (s2, q2) = settle(signaled, q, value);
            &&& ordered_lane(s2, q2)
            &&& signaled is Some ==> s2 is Some && signaled.unwrap().0 <= s2.unwrap().0
            &&& q2.len() <= q.len()
            &&& q2 =~= q.subrange(q.len() - q2.len(), q.len() as int)
            &&& q2.len() < q.len() ==> s2 is Some && s2.unwrap().0 == q[q.len() - q2.len() - 1].0
            &&& q2.len() == q.len() ==> s2 == signaled
        }),
    decreases q.len(),
{
    if q.len() > 0 {
        let required = base_value(signaled) + q[0].1;
        if value >= required {
            let s1 = Some((q[0].0, required as u64));
            let q1 = q.drop_first();
            assert(ordered_lane(s1, q1));
            lemma_settle_ordered(s1, q1, value);
            let (s2, q2) = settle(s1, q1, value);
            assert(settle(signaled, q, value) == (s2, q2));
            assert(q2 =~= q.subrange(q.len() - q2.len(), q.len() as int));
            if q2.len() == q1.len() {
                assert(s2 == s1);
            } else {
                assert(q1[q1.len() - q2.len() - 1] == q[q.len() - q2.len() - 1]);
            }
        }
    }
}

/// Settling, queueing one more epoch and settling again at the same value is
/// the same as queueing it first and settling once.
pub proof fn lemma_settle_push(
    signaled: Option<(u64, u64)>,
    q: Seq<(u64, u64)>,
    x: (u64, u64),
    value: u64,
)
    ensures
        ({
            let (s1, q1) = settle(signaled, q, value);
            settle(s1, q1.push(x), value) == settle(signaled, q.push(x), value)
        }),
    decreases q.len(),
{
    if q.len() == 0 {
        assert(q.push(x) =~= seq![x]);
    } else {
        let required = base_value(signaled) + q[0].1;
        assert(q.push(x)[0] == q[0]);
        assert(q.push(x).drop_first() =~= q.drop_first().push(x));
        if value >= required {
            lemma_settle_push(Some((q[0].0, required as u64)), q.drop_first(), x, value);
        } else {
            let (s1, q1) = settle(signaled, q, value);
            assert(s1 == signaled && q1 == q);
        }
    }
}

/// Settling twice at the same value changes nothing more.
pub proof fn lemma_settle_idempotent(signaled: Option<(u64, u64)>, q: Seq<(u64, u64)>, value: u64)
    ensures
        ({
            let (s1, q1) = settle(signaled, q, value);
            settle(s1, q1, value) == (s1, q1)
        }),
    decreases q.len(),
{
    if q.len() > 0 {
        let required = base_value(signaled) + q[0].1;
        if value >= required {
            lemma_settle_idempotent(Some((q[0].0, required as u64)), q.drop_first(), value);
        }
    }
}

/// Every epoch number of a lane lies below `bound`.
pub open spec fn numbers_below(signaled: Option<(u64, u64)>, q: Seq<(u64, u64)>, bound: u64) -> bool {
    &&& forall|i: int| 0 <= i < q.len() ==> #[trigger] q[i].0 < bound
    &&& (signaled is Some ==> signaled.unwrap().0 < bound)
}

pub proof fn lemma_settle_below(signaled: Option<(u64, u64)>, q: Seq<(u64, u64)>, value: u64, bound: u64)
    requires
        numbers_below(signaled, q, bound),
    ensures
        ({
            let (s2, q2) = settle(signaled, q, value);
            numbers_below(s2, q2, bound)
        }),
    decreases q.len(),
{
    if q.len() > 0 {
        let required = base_value(signaled) + q[0].1;
        if value >= required {
            let s1 = Some((q[0].0, required as u64));
            let q1 = q.drop_first();
            assert(numbers_below(s1, q1, bound));
            lemma_settle_below(s1, q1, value, bound);
        }
    }
}

pub proof fn lemma_count_sum_concat(a: Seq<(u64, u64)>, b: Seq<(u64, u64)>)
    ensures
        count_sum(a + b) == count_sum(a) + count_sum(b),
    decreases a.len(),
{
    if a.len() == 0 {
        assert(a + b =~= b);
    } else {
        lemma_count_sum_concat(a.drop_first(), b);
        assert((a + b)[0] == a[0]);
        assert((a + b).drop_first() =~= a.drop_first() + b);
    }
}

/// How far one lane's timeline semaphore has progressed through the epochs.
pub struct LaneProgress {
    /// The last epoch signaled and the timeline value that signals it.
    pub signaled: Option<(u64, u64)>,
    /// Completed epochs not yet signaled, with their submission counts.
    pub unsignaled: VecDeque<(u64, u64)>,
}

impl LaneProgress {
    /// Signaled value plus the submissions still queued.
    pub open spec fn total(&self) -> int {
        base_value(self.signaled) + count_sum(self.unsignaled@)
    }

    pub open spec fn wf(&self) -> bool {
        &&& self.total() <= u64::MAX
        &&& ordered_lane(self.signaled, self.unsignaled@)
    }

    /// Every epoch number the lane holds lies below `bound`.
    pub open spec fn below(&self, bound: u64) -> bool {
        numbers_below(self.signaled, self.unsignaled@, bound)
    }

    /// The lane signals epoch `epoch` (and every earlier one).
    pub open spec fn signals(&self, epoch: u64) -> bool {
        match self.signaled {
            Some(s) => epoch <= s.0,
            None => false,
        }
    }

    pub fn new() -> (r: Self)
        ensures
            r.signaled is None,
            r.unsignaled@ == Seq::<(u64, u64)>::empty(),
            r.wf(),
    {
        LaneProgress { signaled: None, unsignaled: VecDeque::new() }
    }

    /// Queues a completed epoch with its submission count, then settles the
    /// lane at timeline value `value`.
    pub fn push(&mut self, epoch: u64, count: u64, value: u64)
        requires
            old(self).wf(),
            old(self).total() + count <= u64::MAX,
            forall|i: int|
                0 <= i < old(self).unsignaled@.len() ==> old(self).unsignaled@[i].0 < epoch,
            old(self).signaled is Some ==> old(self).signaled.unwrap().0 < epoch,
        ensures
            (final(self).signaled, final(self).unsignaled@) == settle(
                old(self).signaled,
                old(self).unsignaled@.push((epoch, count)),
                value,
            ),
            final(self).wf(),
            final(self).total() == old(self).total() + count,
            old(self).signaled is Some ==> final(self).signaled is Some
                && old(self).signaled.unwrap().0 <= final(self).signaled.unwrap().0,
            forall|b: u64| old(self).below(b) && epoch < b ==> #[trigger] final(self).below(b),
    {
        proof {
            lemma_count_sum_push(self.unsignaled@, (epoch, count));
        }
        self.unsignaled.push_back((epoch, count));
        assert(ordered_lane(self.signaled, self.unsignaled@));
        self.update(value);
    }

    /// Settles the lane at timeline value `value`.
    pub fn update(&mut self, value: u64)
        requires
            old(self).wf(),
        ensures
            (final(self).signaled, final(self).unsignaled@) == settle(
                old(self).signaled,
                old(self).unsignaled@,
                value,
            ),
            final(self).wf(),
            final(self).total() == old(self).total(),
            old(self).signaled is Some ==> final(self).signaled is Some
                && old(self).signaled.unwrap().0 <= final(self).signaled.unwrap().0,
            forall|b: u64| old(self).below(b) ==> #[trigger] final(self).below(b),
    {
        proof {
            assert forall|b: u64| old(self).below(b) implies #[trigger] numbers_below(
                settle(self.signaled, self.unsignaled@, value).0,
                settle(self.signaled, self.unsignaled@, value).1,
                b,
            ) by {
                lemma_settle_below(self.signaled, self.unsignaled@, value, b);
            }
            lemma_settle_total(self.signaled, self.unsignaled@, value);
            lemma_settle_ordered(self.signaled, self.unsignaled@, value);
        }
        let ghost goal = settle(self.signaled, self.unsignaled@, value);
        let ghost total = self.total();
        let mut required: u64 = match self.signaled {
            Some(s) => s.1,
            None => 0,
        };
        let mut done = false;
        while !done && self.unsignaled.len() > 0
            invariant
                settle(self.signaled, self.unsignaled@, value) == goal,
                required == base_value(self.signaled),
                self.total() == total,
                total <= u64::MAX,
                done ==> goal == (self.signaled, self.unsignaled@),
            decreases self.unsignaled@.len() + (if done { 0int } else { 1int }),
        {
            let (epoch, count) = self.unsignaled[0];
            proof {
                lemma_count_sum_nonneg(self.unsignaled@.drop_first());
            }
            let next = required + count;
            if value >= next {
                self.signaled = Some((epoch, next));
                let _ = self.unsignaled.pop_front();
                required = next;
            } else {
                done = true;
            }
        }
    }
}

} // verus!
