//! The checks a device makes on its planned queue groups before it builds
//! them: every group has a queue, every queue was created on the device,
//! and no queue serves two groups.

use vstd::prelude::*;
use crate::gpu::ids::{QueueGroupId, QueueId};
use crate::gpu::retire::QueueAllocation;

verus! {

/// Why planned queue groups cannot be built.
#[derive(Debug, Clone, Copy, PartialEq, Eq, Structural)]
pub enum QueueGroupCheckError {
    /// The group has no queue.
    EmptyQueueGroup(QueueGroupId),
    /// The queue was not created on the device.
    QueueNotCreated(QueueId),
    /// The queue is already assigned to another group (or earlier in this one).
    QueueAlreadyAssigned(QueueId),
}

/// The queue ids of a group's allocations, in order.
pub open spec fn ids_of(allocations: Seq<QueueAllocation>) -> Seq<QueueId> {
    allocations.map_values(|a: QueueAllocation| a.queue_id)
}

/// The queue ids of the groups before group `g`, group after group.
pub open spec fn ids_before(groups: Seq<(QueueGroupId, Seq<QueueAllocation>)>, g: int) -> Seq<QueueId>
    decreases g,
{
    if g <= 0 {
        Seq::empty()
    } else {
        ids_before(groups, g - 1) + ids_of(groups[g - 1].1)
    }
}

/// The first fault among the allocations of group `g` from the `a`-th on,
/// each checked against the created queues and the queues claimed before it.
pub open spec fn allocation_fault(
    groups: Seq<(QueueGroupId, Seq<QueueAllocation>)>,
    created: Seq<QueueId>,
    g: int,
    a: int,
) -> Option<QueueGroupCheckError>
    decreases groups[g].1.len() - a,
{
    if a < 0 || a >= groups[g].1.len() {
        None
    } else {
        let q = groups[g].1[a].queue_id;
        if !created.contains(q) {
            Some(QueueGroupCheckError::QueueNotCreated(q))
        } else if (ids_before(groups, g) + ids_of(groups[g].1).take(a)).contains(q) {
            Some(QueueGroupCheckError::QueueAlreadyAssigned(q))
        } else {
            allocation_fault(groups, created, g, a + 1)
        }
    }
}

/// The first fault of the groups from the `g`-th on, in order: an empty
/// group, or the first fault among its allocations.
pub open spec fn group_fault(
    groups: Seq<(QueueGroupId, Seq<QueueAllocation>)>,
    created: Seq<QueueId>,
    g: int,
) -> Option<QueueGroupCheckError>
    decreases groups.len() - g,
{
    if g < 0 || g >= groups.len() {
        None
    } else if groups[g].1.len() == 0 {
        Some(QueueGroupCheckError::EmptyQueueGroup(groups[g].0))
    } else {
        match allocation_fault(groups, created, g, 0) {
            Some(e) => Some(e),
            None => group_fault(groups, created, g + 1),
        }
    }
}

/// The groups with their allocations as plain sequences.
pub open spec fn group_views(groups: Seq<(QueueGroupId, Vec<QueueAllocation>)>) -> Seq<
    (QueueGroupId, Seq<QueueAllocation>),
> {
    groups.map_values(|g: (QueueGroupId, Vec<QueueAllocation>)| (g.0, g.1@))
}

/// Whether `ids` holds `q`.
fn holds(ids: &Vec<QueueId>, q: QueueId) -> (r: bool)
    ensures
        r == ids@.contains(q),
{
    let mut i: usize = 0;
    while i < ids.len()
        invariant
            i <= ids@.len(),
            forall|k: int| 0 <= k < i ==> ids@[k] != q,
        decreases ids.len() - i,
    {
        if ids[i] == q {
            assert(ids@[i as int] == q);
            return true;
        }
        i = i + 1;
    }
    false
}

/// Checks planned queue groups, in order of their ids, against the queues
/// created on the device: the first empty group, queue not created, or
/// queue claimed twice is the error.
pub fn check_queue_groups(groups: &Vec<(QueueGroupId, Vec<QueueAllocation>)>, created: &Vec<QueueId>) -> (r:
    Result<(), QueueGroupCheckError>)
    ensures
        r == match group_fault(group_views(groups@), created@, 0) {
            Some(e) => Err(e),
            None => Ok(()),
        },
{
    let ghost gs = group_views(groups@);
    let mut claimed: Vec<QueueId> = Vec::new();
    let mut g: usize = 0;
    while g < groups.len()
        invariant
            gs == group_views(groups@),
            g <= groups@.len(),
            claimed@ == ids_before(gs, g as int),
            group_fault(gs, created@, 0) == group_fault(gs, created@, g as int),
        decreases groups.len() - g,
    {
        let allocations = &groups[g].1;
        assert(gs[g as int].1 == allocations@);
        if allocations.len() == 0 {
            return Err(QueueGroupCheckError::EmptyQueueGroup(groups[g].0));
        }
        let mut a: usize = 0;
        while a < allocations.len()
            invariant
                gs == group_views(groups@),
                g < groups@.len(),
                gs[g as int].1 == allocations@,
                a <= allocations@.len(),
                claimed@ == ids_before(gs, g as int) + ids_of(gs[g as int].1).take(a as int),
                group_fault(gs, created@, 0) == group_fault(gs, created@, g as int),
                allocation_fault(gs, created@, g as int, 0) == allocation_fault(
                    gs,
                    created@,
                    g as int,
                    a as int,
                ),
            decreases allocations.len() - a,
        {
            let q = allocations[a].queue_id;
            if !holds(created, q) {
                return Err(QueueGroupCheckError::QueueNotCreated(q));
            }
            if holds(&claimed, q) {
                return Err(QueueGroupCheckError::QueueAlreadyAssigned(q));
            }
            claimed.push(q);
            proof {
                assert(ids_of(gs[g as int].1).take(a as int + 1) =~= ids_of(gs[g as int].1).take(
                    a as int,
                ).push(q));
            }
            a = a + 1;
        }
        proof {
            assert(ids_of(gs[g as int].1).take(a as int) =~= ids_of(gs[g as int].1));
            assert(ids_before(gs, g as int + 1) == ids_before(gs, g as int) + ids_of(gs[g as int].1));
        }
        g = g + 1;
    }
    Ok(())
}

} // verus!
