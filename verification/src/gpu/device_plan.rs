//! Planning a logical device: how many queues of each family are reserved,
//! and which queues each queue group gets.

use vstd::prelude::*;
use crate::gpu::device_select::QueueFamily;
use crate::gpu::ids::{QueueFamilyId, QueueGroupId, QueueId};
use crate::gpu::retire::QueueAllocation;
use crate::gpu::roles::{QueueRoleFlags, ROLE_COMPUTE, ROLE_GRAPHICS, ROLE_PRESENT, ROLE_TRANSFER};
use crate::sort::{sort_by_key_stable, stable_sort_by_key, SortKey};
use crate::sorted_set::{sorted_insert, strictly_sorted, views, SetKey};

verus! {

/// How many queues of a family are reserved.
#[derive(Debug, Clone, Copy, PartialEq, Eq, Structural)]
pub struct Reservation {
    pub family: QueueFamilyId,
    pub count: u32,
}

impl View for Reservation {
    type V = u32;

    open spec fn view(&self) -> u32 {
        self.family.0
    }
}

impl SetKey for Reservation {
    /// Reservations are ordered by family index.
    open spec fn key_lt(a: u32, b: u32) -> bool {
        a < b
    }

    proof fn lemma_lt_irreflexive(a: u32) {
    }

    proof fn lemma_lt_transitive(a: u32, b: u32, c: u32) {
    }

    proof fn lemma_lt_total(a: u32, b: u32) {
    }

    fn less(&self, other: &Self) -> (r: bool) {
        self.family.0 < other.family.0
    }

    fn same(&self, other: &Self) -> (r: bool) {
        self.family.0 == other.family.0
    }
}

impl SortKey for QueueAllocation {
    /// Allocations sort by queue family.
    open spec fn sort_key(&self) -> u128 {
        self.queue_id.family.0 as u128
    }

    fn key(&self) -> (r: u128) {
        self.queue_id.family.0 as u128
    }
}

/// Why a device plan was refused.
#[derive(Debug, Clone, Copy, PartialEq, Eq, Structural)]
pub enum DeviceBuildError {
    /// A queue group of this id was already planned.
    DuplicateQueueGroup(QueueGroupId),
    /// The device has no family of this id.
    FamilyNotFound(QueueFamilyId),
    /// Every queue of this family is already reserved.
    NotEnoughQueues(QueueFamilyId),
    /// No queue group was planned.
    NoQueueGroups,
    /// No family can serve the queue group asked for.
    NoQueueGroupFound,
}

/// The number of queues of family `family` reserved in `rs`.
pub open spec fn reserved(rs: Seq<Reservation>, family: u32) -> nat {
    if exists|i: int| 0 <= i < rs.len() && rs[i].family.0 == family {
        rs[choose|i: int| 0 <= i < rs.len() && rs[i].family.0 == family].count as nat
    } else {
        0
    }
}

/// The first family of `families` with id `id`.
pub open spec fn family_with_id(families: Seq<QueueFamily>, id: u32) -> Option<QueueFamily>
    decreases families.len(),
{
    if families.len() == 0 {
        None
    } else if families[0].id.0 == id {
        Some(families[0])
    } else {
        family_with_id(families.drop_first(), id)
    }
}

/// How often family `family` occurs in `s`.
pub open spec fn occurrences(s: Seq<QueueFamilyId>, family: u32) -> nat
    decreases s.len(),
{
    if s.len() == 0 {
        0
    } else {
        occurrences(s.drop_last(), family) + if s.last().0 == family {
            1nat
        } else {
            0nat
        }
    }
}

/// The queue that the `j`-th selected family gets when the reservations
/// were `rs` before the selection: the next unreserved queue of its family,
/// counting the earlier selections of the same family.
pub open spec fn selected_queue(
    rs: Seq<Reservation>,
    families: Seq<QueueFamily>,
    selected: Seq<QueueFamilyId>,
    j: int,
) -> Result<QueueAllocation, DeviceBuildError> {
    let f = selected[j];
    match family_with_id(families, f.0) {
        None => Err(DeviceBuildError::FamilyNotFound(f)),
        Some(info) => {
            let index = reserved(rs, f.0) + occurrences(selected.take(j), f.0);
            if index >= info.count {
                Err(DeviceBuildError::NotEnoughQueues(f))
            } else {
                Ok(
                    QueueAllocation {
                        queue_id: QueueId { family: f, index: index as u32 },
                        roles: info.roles,
                    },
                )
            }
        },
    }
}

/// Some planned group has id `id`.
pub open spec fn has_group(groups: Seq<(QueueGroupId, Vec<QueueAllocation>)>, id: QueueGroupId) -> bool {
    exists|i: int| 0 <= i < groups.len() && groups[i].0 == id
}

/// The reserved queues per family and the queues of each queue group.
#[derive(Debug)]
pub struct DeviceBuilder {
    reservations: Vec<Reservation>,
    queue_groups: Vec<(QueueGroupId, Vec<QueueAllocation>)>,
    next_queue_group_id: u32,
}

proof fn lemma_reserved_at(rs: Seq<Reservation>, i: int)
    requires
        strictly_sorted::<Reservation>(views(rs)),
        0 <= i < rs.len(),
    ensures
        reserved(rs, rs[i].family.0) == rs[i].count,
{
    let f = rs[i].family.0;
    assert(rs[i].family.0 == f);
    let c = choose|k: int| 0 <= k < rs.len() && rs[k].family.0 == f;
    if c != i {
        if c < i {
            assert(views(rs)[c] < views(rs)[i]);
        } else {
            assert(views(rs)[i] < views(rs)[c]);
        }
    }
}

proof fn lemma_reserved_update(old_rs: Seq<Reservation>, new_rs: Seq<Reservation>, f: u32, g: u32)
    requires
        strictly_sorted::<Reservation>(views(old_rs)),
        strictly_sorted::<Reservation>(views(new_rs)),
        f != g,
        forall|k: int|
            0 <= k < old_rs.len() && old_rs[k].family.0 != f ==> exists|m: int|
                0 <= m < new_rs.len() && new_rs[m] == old_rs[k],
        forall|m: int|
            0 <= m < new_rs.len() && new_rs[m].family.0 != f ==> exists|k: int|
                0 <= k < old_rs.len() && old_rs[k] == new_rs[m],
    ensures
        reserved(new_rs, g) == reserved(old_rs, g),
{
    if exists|k: int| 0 <= k < old_rs.len() && old_rs[k].family.0 == g {
        let k = choose|k: int| 0 <= k < old_rs.len() && old_rs[k].family.0 == g;
        lemma_reserved_at(old_rs, k);
        let m = choose|m: int| 0 <= m < new_rs.len() && new_rs[m] == old_rs[k];
        lemma_reserved_at(new_rs, m);
    } else if exists|m: int| 0 <= m < new_rs.len() && new_rs[m].family.0 == g {
        let m = choose|m: int| 0 <= m < new_rs.len() && new_rs[m].family.0 == g;
        let k = choose|k: int| 0 <= k < old_rs.len() && old_rs[k] == new_rs[m];
        assert(old_rs[k].family.0 == g);
    }
}

/// The first family of `families` with the id of `family`.
fn find_family(families: &Vec<QueueFamily>, family: QueueFamilyId) -> (r: Option<QueueFamily>)
    ensures
        r == family_with_id(families@, family.0),
{
    let mut fi: usize = 0;
    proof {
        assert(families@.skip(0) =~= families@);
    }
    while fi < families.len()
        invariant
            fi <= families@.len(),
            family_with_id(families@, family.0) == family_with_id(families@.skip(fi as int), family.0),
        decreases families.len() - fi,
    {
        proof {
            assert(families@.skip(fi as int).drop_first() =~= families@.skip(fi as int + 1));
        }
        if families[fi].id.0 == family.0 {
            return Some(families[fi]);
        }
        fi = fi + 1;
    }
    proof {
        assert(families@.skip(fi as int) =~= Seq::<QueueFamily>::empty());
    }
    None
}

/// Counts one more reserved queue of `family`, of which `reserved_now` were
/// reserved.
fn bump_reservation(rs: &mut Vec<Reservation>, family: QueueFamilyId, reserved_now: u32)
    requires
        strictly_sorted::<Reservation>(views(old(rs)@)),
        reserved_now == reserved(old(rs)@, family.0),
        reserved_now < u32::MAX,
    ensures
        strictly_sorted::<Reservation>(views(final(rs)@)),
        reserved(final(rs)@, family.0) == reserved(old(rs)@, family.0) + 1,
        forall|g: u32| g != family.0 ==> #[trigger] reserved(final(rs)@, g) == reserved(old(rs)@, g),
{
    let ghost before = rs@;
    let mut i: usize = 0;
    while i < rs.len() && rs[i].family.0 != family.0
        invariant
            i <= rs@.len(),
            rs@ == before,
            forall|k: int| 0 <= k < i ==> (#[trigger] rs@[k]).family.0 != family.0,
        decreases rs.len() - i,
    {
        i = i + 1;
    }
    if i < rs.len() {
        proof {
            lemma_reserved_at(before, i as int);
        }
        rs.set(i, Reservation { family, count: reserved_now + 1 });
        proof {
            assert(views(rs@) =~= views(before));
            lemma_reserved_at(rs@, i as int);
            assert forall|g: u32| g != family.0 implies #[trigger] reserved(rs@, g) == reserved(
                before,
                g,
            ) by {
                assert forall|k: int|
                    0 <= k < before.len() && before[k].family.0 != family.0 implies exists|m: int|
                    0 <= m < rs@.len() && rs@[m] == before[k] by {
                    assert(rs@[k] == before[k]);
                }
                assert forall|m: int|
                    0 <= m < rs@.len() && rs@[m].family.0 != family.0 implies exists|k: int|
                    0 <= k < before.len() && before[k] == rs@[m] by {
                    assert(before[m] == rs@[m]);
                }
                lemma_reserved_update(before, rs@, family.0, g);
            }
        }
    } else {
        proof {
            assert(!views(before).contains(family.0)) by {
                if views(before).contains(family.0) {
                    let k = choose|k: int| 0 <= k < views(before).len() && views(before)[k] == family.0;
                    assert(before[k].family.0 == family.0);
                }
            }
            assert(reserved(before, family.0) == 0) by {
                if exists|k: int| 0 <= k < before.len() && before[k].family.0 == family.0 {
                    let k = choose|k: int| 0 <= k < before.len() && before[k].family.0 == family.0;
                    assert(views(before)[k] == family.0);
                }
            }
        }
        let entry = Reservation { family, count: 1 };
        let ghost e = entry;
        sorted_insert(rs, entry);
        proof {
            let p = choose|p: int| 0 <= p <= before.len() && rs@ == before.insert(p, e);
            assert(rs@[p] == e);
            lemma_reserved_at(rs@, p);
            assert forall|g: u32| g != family.0 implies #[trigger] reserved(rs@, g) == reserved(
                before,
                g,
            ) by {
                assert forall|k: int|
                    0 <= k < before.len() && before[k].family.0 != family.0 implies exists|m: int|
                    0 <= m < rs@.len() && rs@[m] == before[k] by {
                    if k < p {
                        assert(rs@[k] == before[k]);
                    } else {
                        assert(rs@[k + 1] == before[k]);
                    }
                }
                assert forall|m: int|
                    0 <= m < rs@.len() && rs@[m].family.0 != family.0 implies exists|k: int|
                    0 <= k < before.len() && before[k] == rs@[m] by {
                    if m < p {
                        assert(before[m] == rs@[m]);
                    } else {
                        assert(before[m - 1] == rs@[m]);
                    }
                }
                lemma_reserved_update(before, rs@, family.0, g);
            }
        }
    }
}

impl DeviceBuilder {
    /// No family is reserved twice, and reservations are in family order.
    pub closed spec fn wf(&self) -> bool {
        strictly_sorted::<Reservation>(views(self.reservations@))
    }

    /// The reservations, in family order.
    pub closed spec fn reservation_list(&self) -> Seq<Reservation> {
        self.reservations@
    }

    /// The planned groups, in the order they were planned.
    pub closed spec fn group_list(&self) -> Seq<(QueueGroupId, Vec<QueueAllocation>)> {
        self.queue_groups@
    }

    /// The number the next queue group gets.
    pub closed spec fn next_group_spec(&self) -> u32 {
        self.next_queue_group_id
    }

    /// A plan with nothing reserved and no group.
    pub fn new() -> (r: Self)
        ensures
            r.wf(),
            r.reservation_list().len() == 0,
            r.group_list().len() == 0,
            r.next_group_spec() == 0,
    {
        DeviceBuilder { reservations: Vec::new(), queue_groups: Vec::new(), next_queue_group_id: 0 }
    }

    /// The reservations, in family order; no family twice.
    pub fn reservations(&self) -> (r: &Vec<Reservation>)
        requires
            self.wf(),
        ensures
            r@ == self.reservation_list(),
            strictly_sorted::<Reservation>(views(r@)),
    {
        &self.reservations
    }

    /// The planned groups and their queues.
    pub fn queue_groups(&self) -> (r: &Vec<(QueueGroupId, Vec<QueueAllocation>)>)
        ensures
            r@ == self.group_list(),
    {
        &self.queue_groups
    }

    /// The number of the next queue group, which it then hands out; the
    /// counter must not be exhausted.
    pub fn next_queue_group_id(&mut self) -> (r: u32)
        requires
            old(self).next_group_spec() < u32::MAX,
        ensures
            final(self).wf() == old(self).wf(),
            r == old(self).next_group_spec(),
            final(self).next_group_spec() == r + 1,
            final(self).reservation_list() == old(self).reservation_list(),
            final(self).group_list() == old(self).group_list(),
    {
        let id = self.next_queue_group_id;
        self.next_queue_group_id = id + 1;
        id
    }

    /// The number of queues of `family` reserved so far.
    pub fn reserved_count(&self, family: QueueFamilyId) -> (r: u32)
        requires
            self.wf(),
        ensures
            r == reserved(self.reservation_list(), family.0),
    {
        let mut i: usize = 0;
        while i < self.reservations.len()
            invariant
                self.wf(),
                i <= self.reservations@.len(),
                forall|k: int| 0 <= k < i ==> (#[trigger] self.reservations@[k]).family.0 != family.0,
            decreases self.reservations.len() - i,
        {
            if self.reservations[i].family.0 == family.0 {
                proof {
                    lemma_reserved_at(self.reservations@, i as int);
                }
                return self.reservations[i].count;
            }
            i = i + 1;
        }
        0
    }

    /// Reserves the next queue of `family` among `families`, the device's
    /// families: fails when the device has no such family or every queue of
    /// it is reserved.
    pub fn allocate_queue(&mut self, families: &Vec<QueueFamily>, family: QueueFamilyId) -> (r: Result<
        QueueAllocation,
        DeviceBuildError,
    >)
        requires
            old(self).wf(),
        ensures
            final(self).wf(),
            final(self).group_list() == old(self).group_list(),
            final(self).next_group_spec() == old(self).next_group_spec(),
            match family_with_id(families@, family.0) {
                None => r == Err::<QueueAllocation, DeviceBuildError>(
                    DeviceBuildError::FamilyNotFound(family),
                ) && final(self).reservation_list() == old(self).reservation_list(),
                Some(info) => if reserved(old(self).reservation_list(), family.0) >= info.count {
                    r == Err::<QueueAllocation, DeviceBuildError>(
                        DeviceBuildError::NotEnoughQueues(family),
                    ) && final(self).reservation_list() == old(self).reservation_list()
                } else {
                    &&& r == Ok::<QueueAllocation, DeviceBuildError>(
                        QueueAllocation {
                            queue_id: QueueId {
                                family,
                                index: reserved(old(self).reservation_list(), family.0) as u32,
                            },
                            roles: info.roles,
                        },
                    )
                    &&& reserved(final(self).reservation_list(), family.0) == reserved(
                        old(self).reservation_list(),
                        family.0,
                    ) + 1
                    &&& forall|g: u32|
                        g != family.0 ==> #[trigger] reserved(final(self).reservation_list(), g)
                            == reserved(old(self).reservation_list(), g)
                },
            },
    {
        let info = match find_family(families, family) {
            None => return Err(DeviceBuildError::FamilyNotFound(family)),
            Some(info) => info,
        };
        let reserved_now = self.reserved_count(family);
        if reserved_now >= info.count {
            return Err(DeviceBuildError::NotEnoughQueues(family));
        }
        bump_reservation(&mut self.reservations, family, reserved_now);
        Ok(
            QueueAllocation {
                queue_id: QueueId { family, index: reserved_now },
                roles: info.roles,
            },
        )
    }

    /// Plans queue group `id` for `roles` on the families `selected` for it
    /// among `families`, the device's families: no group when no role is
    /// asked for or no family was selected; a group id planned before is
    /// refused. Each selected family gets its next unreserved queue; the
    /// group's queues are kept in family order.
    pub fn allocate_group(
        &mut self,
        families: &Vec<QueueFamily>,
        id: QueueGroupId,
        roles: QueueRoleFlags,
        selected: &Vec<QueueFamilyId>,
    ) -> (r: Result<Option<QueueGroupId>, DeviceBuildError>)
        requires
            old(self).wf(),
        ensures
            final(self).wf(),
            final(self).next_group_spec() == old(self).next_group_spec(),
            roles.bits == 0 ==> r == Ok::<Option<QueueGroupId>, DeviceBuildError>(None)
                && final(self).reservation_list() == old(self).reservation_list()
                && final(self).group_list() == old(self).group_list(),
            roles.bits != 0 && has_group(old(self).group_list(), id) ==> r == Err::<
                Option<QueueGroupId>,
                DeviceBuildError,
            >(DeviceBuildError::DuplicateQueueGroup(id))
                && final(self).reservation_list() == old(self).reservation_list()
                && final(self).group_list() == old(self).group_list(),
            roles.bits != 0 && !has_group(old(self).group_list(), id) && selected@.len() == 0 ==> r
                == Ok::<Option<QueueGroupId>, DeviceBuildError>(None)
                && final(self).reservation_list() == old(self).reservation_list()
                && final(self).group_list() == old(self).group_list(),
            roles.bits != 0 && !has_group(old(self).group_list(), id) && selected@.len() > 0 ==> ({
                let rs = old(self).reservation_list();
                match r {
                    Ok(found) => {
                        &&& found == Some(id)
                        &&& forall|j: int|
                            0 <= j < selected@.len() ==> (#[trigger] selected_queue(
                                rs,
                                families@,
                                selected@,
                                j,
                            )) is Ok
                        &&& final(self).group_list().len() == old(self).group_list().len() + 1
                        &&& final(self).group_list().drop_last() == old(self).group_list()
                        &&& final(self).group_list().last().0 == id
                        &&& final(self).group_list().last().1@ == stable_sort_by_key(
                            Seq::new(
                                selected@.len(),
                                |j: int| selected_queue(rs, families@, selected@, j)->Ok_0,
                            ),
                        )
                        &&& forall|g: u32|
                            #[trigger] reserved(final(self).reservation_list(), g) == reserved(rs, g)
                                + occurrences(selected@, g)
                    },
                    Err(e) => exists|k: int|
                        0 <= k < selected@.len() && selected_queue(rs, families@, selected@, k)
                            == Err::<QueueAllocation, DeviceBuildError>(e) && (forall|j: int|
                            0 <= j < k ==> (#[trigger] selected_queue(rs, families@, selected@, j))
                                is Ok) && final(self).group_list() == old(self).group_list()
                            && forall|g: u32|
                            #[trigger] reserved(final(self).reservation_list(), g) == reserved(rs, g)
                                + occurrences(selected@.take(k), g),
                }
            }),
    {
        if roles.is_empty() {
            return Ok(None);
        }
        let mut i: usize = 0;
        while i < self.queue_groups.len()
            invariant
                i <= self.queue_groups@.len(),
                roles.bits != 0,
                self.wf(),
                self.reservations@ == old(self).reservations@,
                self.queue_groups@ == old(self).queue_groups@,
                self.next_queue_group_id == old(self).next_queue_group_id,
                forall|k: int| 0 <= k < i ==> (#[trigger] self.queue_groups@[k]).0 != id,
            decreases self.queue_groups.len() - i,
        {
            if self.queue_groups[i].0 == id {
                return Err(DeviceBuildError::DuplicateQueueGroup(id));
            }
            i = i + 1;
        }
        if selected.len() == 0 {
            return Ok(None);
        }
        let ghost rs = self.reservations@;
        let ghost groups = self.queue_groups@;
        let ghost next = self.next_queue_group_id;
        let mut allocations: Vec<QueueAllocation> = Vec::with_capacity(selected.len());
        let mut j: usize = 0;
        proof {
            assert(selected@.take(0) =~= Seq::<QueueFamilyId>::empty());
        }
        while j < selected.len()
            invariant
                j <= selected@.len(),
                self.wf(),
                roles.bits != 0,
                !has_group(groups, id),
                rs == old(self).reservation_list(),
                groups == old(self).group_list(),
                next == old(self).next_group_spec(),
                self.queue_groups@ == groups,
                self.next_queue_group_id == next,
                allocations@.len() == j,
                forall|k: int|
                    0 <= k < j ==> selected_queue(rs, families@, selected@, k) == Ok::<
                        QueueAllocation,
                        DeviceBuildError,
                    >(#[trigger] allocations@[k]),
                forall|g: u32|
                    #[trigger] reserved(self.reservations@, g) == reserved(rs, g) + occurrences(
                        selected@.take(j as int),
                        g,
                    ),
            decreases selected.len() - j,
        {
            let f = selected[j];
            let ghost cur = self.reservations@;
            let result = self.allocate_queue(families, f);
            proof {
                assert(selected@.take(j as int + 1).drop_last() =~= selected@.take(j as int));
                assert(selected@.take(j as int + 1).last() == f);
                assert(reserved(cur, f.0) == reserved(rs, f.0) + occurrences(
                    selected@.take(j as int),
                    f.0,
                ));
            }
            match result {
                Err(e) => {
                    proof {
                        assert(selected_queue(rs, families@, selected@, j as int) == Err::<
                            QueueAllocation,
                            DeviceBuildError,
                        >(e));
                        assert(self.reservations@ == cur);
                        assert forall|jj: int| 0 <= jj < j implies (#[trigger] selected_queue(
                            rs,
                            families@,
                            selected@,
                            jj,
                        )) is Ok by {
                            assert(selected_queue(rs, families@, selected@, jj) == Ok::<
                                QueueAllocation,
                                DeviceBuildError,
                            >(allocations@[jj]));
                        }
                        assert(0 <= j < selected@.len() && selected_queue(rs, families@, selected@, j as int)
                            == Err::<QueueAllocation, DeviceBuildError>(e) && (forall|jj: int|
                            0 <= jj < j ==> (#[trigger] selected_queue(rs, families@, selected@, jj))
                                is Ok) && self.queue_groups@ == groups
                            && forall|g: u32|
                            #[trigger] reserved(self.reservations@, g) == reserved(rs, g)
                                + occurrences(selected@.take(j as int), g));
                    }
                    return Err(e);
                },
                Ok(a) => {
                    allocations.push(a);
                },
            }
            j = j + 1;
        }
        proof {
            assert(selected@.take(j as int) =~= selected@);
            assert(allocations@ =~= Seq::new(
                selected@.len(),
                |k: int| selected_queue(rs, families@, selected@, k)->Ok_0,
            ));
        }
        let ghost unsorted = allocations@;
        let sorted = sort_by_key_stable(allocations);
        self.queue_groups.push((id, sorted));
        proof {
            assert(self.queue_groups@.drop_last() =~= groups);
            assert(self.queue_groups@.last().1@ == stable_sort_by_key(unsorted));
            assert forall|jj: int| 0 <= jj < selected@.len() implies (#[trigger] selected_queue(
                rs,
                families@,
                selected@,
                jj,
            )) is Ok by {
                assert(selected_queue(rs, families@, selected@, jj) == Ok::<
                    QueueAllocation,
                    DeviceBuildError,
                >(unsorted[jj]));
            }
            assert forall|g: u32| #[trigger] reserved(self.reservations@, g) == reserved(rs, g)
                + occurrences(selected@, g) by {
                assert(reserved(self.reservations@, g) == reserved(rs, g) + occurrences(
                    selected@.take(j as int),
                    g,
                ));
            }
        }
        Ok(Some(id))
    }

    /// Starts asking for a queue group under the next group number, which
    /// must fit a group id.
    pub fn queue_group(&mut self) -> (r: QueueGroupBuilder)
        requires
            old(self).next_group_spec() < 255,
        ensures
            final(self).wf() == old(self).wf(),
            r.id.0 == old(self).next_group_spec(),
            r.roles.bits == 0,
            final(self).next_group_spec() == old(self).next_group_spec() + 1,
            final(self).reservation_list() == old(self).reservation_list(),
            final(self).group_list() == old(self).group_list(),
    {
        let id = self.next_queue_group_id();
        QueueGroupBuilder::new(QueueGroupId(id as u8))
    }

    /// Checks that the plan can be built: some queue must be reserved.
    pub fn check_buildable(&self) -> (r: Result<(), DeviceBuildError>)
        ensures
            self.reservation_list().len() == 0 <==> r == Err::<(), DeviceBuildError>(
                DeviceBuildError::NoQueueGroups,
            ),
            r is Err ==> r == Err::<(), DeviceBuildError>(DeviceBuildError::NoQueueGroups),
    {
        if self.reservations.len() == 0 {
            return Err(DeviceBuildError::NoQueueGroups);
        }
        Ok(())
    }
}

/// A queue group being asked for: its id and the roles its queues must
/// play together.
#[derive(Debug, Clone, Copy, PartialEq, Eq, Structural)]
pub struct QueueGroupBuilder {
    pub id: QueueGroupId,
    pub roles: QueueRoleFlags,
}

impl QueueGroupBuilder {
    /// A request for group `id` with no role yet.
    pub fn new(id: QueueGroupId) -> (r: Self)
        ensures
            r.id == id,
            r.roles.bits == 0,
    {
        QueueGroupBuilder { id, roles: QueueRoleFlags::empty() }
    }

    /// Asks for the graphics role too.
    pub fn graphics(self) -> (r: Self)
        ensures
            r.id == self.id,
            r.roles.bits == self.roles.bits | ROLE_GRAPHICS,
    {
        QueueGroupBuilder { id: self.id, roles: self.roles.union(QueueRoleFlags::graphics()) }
    }

    /// Asks for the present role too.
    pub fn present(self) -> (r: Self)
        ensures
            r.id == self.id,
            r.roles.bits == self.roles.bits | ROLE_PRESENT,
    {
        QueueGroupBuilder { id: self.id, roles: self.roles.union(QueueRoleFlags::present()) }
    }

    /// Asks for the compute role too.
    pub fn compute(self) -> (r: Self)
        ensures
            r.id == self.id,
            r.roles.bits == self.roles.bits | ROLE_COMPUTE,
    {
        QueueGroupBuilder { id: self.id, roles: self.roles.union(QueueRoleFlags::compute()) }
    }

    /// Asks for the transfer role too.
    pub fn transfer(self) -> (r: Self)
        ensures
            r.id == self.id,
            r.roles.bits == self.roles.bits | ROLE_TRANSFER,
    {
        QueueGroupBuilder { id: self.id, roles: self.roles.union(QueueRoleFlags::transfer()) }
    }

    /// Plans the group in `builder` on the families `selected` for its roles
    /// among the device's `families`. A request with no role, or for which
    /// no family was selected, finds no group; a group id planned before is
    /// refused; otherwise the group is planned as `allocate_group` does.
    pub fn build(
        self,
        builder: &mut DeviceBuilder,
        families: &Vec<QueueFamily>,
        selected: &Vec<QueueFamilyId>,
    ) -> (r: Result<QueueGroupId, DeviceBuildError>)
        requires
            old(builder).wf(),
        ensures
            final(builder).wf(),
            self.roles.bits == 0 ==> r == Err::<QueueGroupId, DeviceBuildError>(
                DeviceBuildError::NoQueueGroupFound,
            ) && final(builder).reservation_list() == old(builder).reservation_list()
                && final(builder).group_list() == old(builder).group_list(),
            self.roles.bits != 0 && has_group(old(builder).group_list(), self.id) ==> r == Err::<
                QueueGroupId,
                DeviceBuildError,
            >(DeviceBuildError::DuplicateQueueGroup(self.id)) && final(builder).reservation_list()
                == old(builder).reservation_list() && final(builder).group_list() == old(builder).group_list(),
            self.roles.bits != 0 && !has_group(old(builder).group_list(), self.id)
                && selected@.len() == 0 ==> r == Err::<QueueGroupId, DeviceBuildError>(
                DeviceBuildError::NoQueueGroupFound,
            ) && final(builder).reservation_list() == old(builder).reservation_list()
                && final(builder).group_list() == old(builder).group_list(),
            self.roles.bits != 0 && !has_group(old(builder).group_list(), self.id) && selected@.len()
                > 0 ==> ({
                let rs = old(builder).reservation_list();
                match r {
                    Ok(found) => {
                        &&& found == self.id
                        &&& forall|j: int|
                            0 <= j < selected@.len() ==> (#[trigger] selected_queue(
                                rs,
                                families@,
                                selected@,
                                j,
                            )) is Ok
                        &&& final(builder).group_list().len() == old(builder).group_list().len() + 1
                        &&& final(builder).group_list().drop_last() == old(builder).group_list()
                        &&& final(builder).group_list().last().0 == self.id
                        &&& final(builder).group_list().last().1@ == stable_sort_by_key(
                            Seq::new(
                                selected@.len(),
                                |j: int| selected_queue(rs, families@, selected@, j)->Ok_0,
                            ),
                        )
                        &&& forall|g: u32|
                            #[trigger] reserved(final(builder).reservation_list(), g) == reserved(rs, g)
                                + occurrences(selected@, g)
                    },
                    Err(e) => exists|k: int|
                        0 <= k < selected@.len() && selected_queue(rs, families@, selected@, k)
                            == Err::<QueueAllocation, DeviceBuildError>(e) && (forall|j: int|
                            0 <= j < k ==> (#[trigger] selected_queue(rs, families@, selected@, j))
                                is Ok) && forall|g: u32|
                            #[trigger] reserved(final(builder).reservation_list(), g) == reserved(rs, g)
                                + occurrences(selected@.take(k), g),
                }
            }),
            r is Ok ==> r == Ok::<QueueGroupId, DeviceBuildError>(self.id),
            r is Err ==> final(builder).group_list() == old(builder).group_list(),
    {
        match builder.allocate_group(families, self.id, self.roles, selected) {
            Ok(Some(id)) => Ok(id),
            Ok(None) => Err(DeviceBuildError::NoQueueGroupFound),
            Err(e) => Err(e),
        }
    }
}

} // verus!
