//! The table of queue groups of a device: groups in id order, and every
//! queue of every group numbered as a lane.

use vstd::prelude::*;
use crate::gpu::ids::{QueueGroupId, QueueId};
use crate::gpu::lane_key::LaneKey;
use crate::gpu::lane_vec::{entry_key, LaneVec, LaneVecBuilder};
use crate::gpu::roles::QueueRoleFlags;

verus! {

/// A queue of a group: its id, roles and timeline semaphore handle.
#[derive(Debug, Clone, Copy, PartialEq, Eq, Structural)]
pub struct QueueDesc {
    pub id: QueueId,
    pub roles: QueueRoleFlags,
    pub semaphore: u64,
}

/// A queue group and its queues, in lane order.
#[derive(Debug, Clone)]
pub struct QueueGroupDesc {
    pub id: QueueGroupId,
    pub queues: Vec<QueueDesc>,
}

/// A queue as a lane: its id, its lane key, its roles and its semaphore.
#[derive(Debug, Clone, Copy, PartialEq, Eq, Structural)]
pub struct QueueBinding {
    pub id: QueueId,
    pub key: LaneKey,
    pub roles: QueueRoleFlags,
    pub semaphore: u64,
}

/// A group of the table: its id, the position of its first lane among all
/// lanes, and its lanes.
#[derive(Debug, Clone)]
pub struct QueueGroupInfo {
    pub id: QueueGroupId,
    pub offset: u16,
    pub bindings: LaneVec<QueueBinding>,
}

/// Why a lane cannot be looked up.
#[derive(Debug, Clone, Copy, PartialEq, Eq, Structural)]
pub enum QueueGroupTableError {
    LaneNotFound,
}

/// The group of `groups` whose id is `id`, if any.
pub open spec fn group_with_id(groups: Seq<QueueGroupDesc>, id: int) -> Option<QueueGroupDesc> {
    if exists|j: int| 0 <= j < groups.len() && groups[j].id.0 == id {
        Some(groups[choose|j: int| 0 <= j < groups.len() && groups[j].id.0 == id])
    } else {
        None
    }
}

/// The groups whose ids are below `bound`, in increasing id order.
pub open spec fn groups_below(groups: Seq<QueueGroupDesc>, bound: int) -> Seq<QueueGroupDesc>
    decreases bound,
{
    if bound <= 0 {
        Seq::empty()
    } else {
        let rest = groups_below(groups, bound - 1);
        match group_with_id(groups, bound - 1) {
            Some(g) => rest.push(g),
            None => rest,
        }
    }
}

/// All groups in increasing id order.
pub open spec fn sorted_groups(groups: Seq<QueueGroupDesc>) -> Seq<QueueGroupDesc> {
    groups_below(groups, 256)
}

/// The number of lanes of the first `k` groups.
pub open spec fn lanes_before(groups: Seq<QueueGroupDesc>, k: int) -> nat
    decreases k,
{
    if k <= 0 {
        0
    } else {
        lanes_before(groups, k - 1) + groups[k - 1].queues@.len()
    }
}

/// The number of lanes of the groups whose ids are below `bound`.
pub open spec fn lanes_below(groups: Seq<QueueGroupDesc>, bound: int) -> nat {
    lanes_before(groups_below(groups, bound), groups_below(groups, bound).len() as int)
}

/// The number of lanes of all groups.
pub open spec fn total_lanes_of(groups: Seq<QueueGroupDesc>) -> nat {
    lanes_before(sorted_groups(groups), sorted_groups(groups).len() as int)
}

/// No two groups share an id.
pub open spec fn distinct_group_ids(groups: Seq<QueueGroupDesc>) -> bool {
    forall|i: int, j: int|
        0 <= i < j < groups.len() ==> (#[trigger] groups[i]).id != (#[trigger] groups[j]).id
}

/// The lane of queue `q`, the `index`-th of group `id` whose lanes start at
/// `offset`.
pub open spec fn binding_of(id: QueueGroupId, offset: u16, index: int, q: QueueDesc) -> QueueBinding {
    QueueBinding {
        id: q.id,
        key: LaneKey { offset, group: id.0, index: index as u8 },
        roles: q.roles,
        semaphore: q.semaphore,
    }
}

/// `info` holds the lanes of group `g`, starting at `offset`.
pub open spec fn info_matches(info: QueueGroupInfo, g: QueueGroupDesc, offset: u16) -> bool {
    &&& info.id == g.id
    &&& info.offset == offset
    &&& info.bindings.group_spec() == g.id
    &&& info.bindings.values().len() == g.queues@.len()
    &&& forall|i: int|
        0 <= i < g.queues@.len() ==> #[trigger] info.bindings.values()[i] == binding_of(
            g.id,
            offset,
            i,
            g.queues@[i],
        )
}

/// The lanes of the infos, group after group.
pub open spec fn flat_bindings(infos: Seq<QueueGroupInfo>) -> Seq<QueueBinding>
    decreases infos.len(),
{
    if infos.len() == 0 {
        Seq::empty()
    } else {
        flat_bindings(infos.drop_last()) + infos.last().bindings.values()
    }
}

/// The lane keys the table hands out with its lanes: each group's lanes
/// numbered from 0 within the group.
pub open spec fn flat_entry_keys(infos: Seq<QueueGroupInfo>) -> Seq<LaneKey>
    decreases infos.len(),
{
    if infos.len() == 0 {
        Seq::empty()
    } else {
        flat_entry_keys(infos.drop_last()) + Seq::new(
            infos.last().bindings.values().len(),
            |i: int| entry_key(infos.last().bindings.group_spec(), i),
        )
    }
}

/// The lanes of all queue groups of a device.
#[derive(Debug, Clone)]
pub struct QueueGroupTable {
    infos: Vec<QueueGroupInfo>,
    total_lanes: u16,
}

impl QueueGroupTable {
    /// The groups, in increasing id order.
    pub closed spec fn infos_spec(&self) -> Seq<QueueGroupInfo> {
        self.infos@
    }

    /// The number of lanes.
    pub closed spec fn total_spec(&self) -> u16 {
        self.total_lanes
    }

    /// The table of `groups`: groups in increasing id order, each group's
    /// lanes numbered after those of the groups before it.
    pub fn new(groups: &Vec<QueueGroupDesc>) -> (r: Self)
        requires
            distinct_group_ids(groups@),
            total_lanes_of(groups@) <= u16::MAX,
        ensures
            r.infos_spec().len() == sorted_groups(groups@).len(),
            forall|k: int|
                0 <= k < r.infos_spec().len() ==> info_matches(
                    #[trigger] r.infos_spec()[k],
                    sorted_groups(groups@)[k],
                    lanes_before(sorted_groups(groups@), k) as u16,
                ),
            r.total_spec() == total_lanes_of(groups@),
    {
        let mut infos: Vec<QueueGroupInfo> = Vec::with_capacity(groups.len());
        let mut offset: u16 = 0;
        let mut id: u16 = 0;
        proof {
            lemma_lanes_below_bound(groups@, 256);
        }
        while id < 256
            invariant
                id <= 256,
                distinct_group_ids(groups@),
                total_lanes_of(groups@) <= u16::MAX,
                forall|b: int| 0 <= b <= 256 ==> #[trigger] lanes_below(groups@, b) <= lanes_below(groups@, 256),
                infos@.len() == groups_below(groups@, id as int).len(),
                offset == lanes_before(groups_below(groups@, id as int), infos@.len() as int),
                forall|k: int|
                    0 <= k < infos@.len() ==> info_matches(
                        #[trigger] infos@[k],
                        groups_below(groups@, id as int)[k],
                        lanes_before(groups_below(groups@, id as int), k) as u16,
                    ),
            decreases 256 - id,
        {
            let found = find_group(groups, id as u8);
            let ghost below = groups_below(groups@, id as int);
            let ghost next = groups_below(groups@, id as int + 1);
            match found {
                None => {
                    proof {
                        assert(!exists|k: int| 0 <= k < groups@.len() && groups@[k].id.0 == id);
                        assert(next == below);
                    }
                },
                Some(j) => {
                    let g = &groups[j];
                    proof {
                        let c = choose|k: int| 0 <= k < groups@.len() && groups@[k].id.0 == id;
                        assert(groups@[j as int].id.0 == id);
                        if c != j {
                            if c < j {
                                assert(groups@[c].id != groups@[j as int].id);
                            } else {
                                assert(groups@[j as int].id != groups@[c].id);
                            }
                        }
                        assert(group_with_id(groups@, id as int) == Some(*g));
                        assert(next == below.push(*g));
                        assert(next.drop_last() =~= below);
                        lemma_lanes_before_prefix(below, next, below.len() as int);
                        assert(lanes_before(next, next.len() as int) == offset + g.queues@.len());
                        assert(lanes_below(groups@, id as int + 1) <= lanes_below(groups@, 256));
                        assert(lanes_before(next, next.len() as int) <= u16::MAX);
                    }
                    let mut bindings: LaneVecBuilder<QueueBinding> = LaneVecBuilder::new(
                        g.id,
                        g.queues.len(),
                    );
                    let mut i: usize = 0;
                    while i < g.queues.len()
                        invariant
                            i <= g.queues@.len(),
                            bindings.group_spec() == g.id,
                            bindings.len_spec() == g.queues@.len(),
                            bindings.values().len() == i,
                            forall|k: int|
                                0 <= k < i ==> #[trigger] bindings.values()[k] == binding_of(
                                    g.id,
                                    offset,
                                    k,
                                    g.queues@[k],
                                ),
                        decreases g.queues.len() - i,
                    {
                        let q = g.queues[i];
                        bindings.push(
                            QueueBinding {
                                id: q.id,
                                key: LaneKey { offset, group: g.id.0, index: i as u8 },
                                roles: q.roles,
                                semaphore: q.semaphore,
                            },
                        );
                        i = i + 1;
                    }
                    let info = QueueGroupInfo { id: g.id, offset, bindings: bindings.build() };
                    let ghost old_infos = infos@;
                    infos.push(info);
                    offset = offset + g.queues.len() as u16;
                    proof {
                        assert forall|k: int| 0 <= k < infos@.len() implies info_matches(
                            #[trigger] infos@[k],
                            next[k],
                            lanes_before(next, k) as u16,
                        ) by {
                            if k < old_infos.len() {
                                assert(infos@[k] == old_infos[k]);
                                assert(next[k] == below[k]);
                                lemma_lanes_before_prefix(below, next, k);
                            }
                        }
                    }
                },
            }
            id = id + 1;
        }
        QueueGroupTable { infos, total_lanes: offset }
    }

    /// The number of lanes of all groups.
    pub fn total_lanes(&self) -> (r: u16)
        ensures
            r == self.total_spec(),
    {
        self.total_lanes
    }

    /// The group `id`, if the table has it.
    pub fn get_info(&self, id: QueueGroupId) -> (r: Option<&QueueGroupInfo>)
        ensures
            match r {
                Some(info) => exists|k: int|
                    0 <= k < self.infos_spec().len() && *info == self.infos_spec()[k] && info.id
                        == id && forall|m: int|
                        0 <= m < k ==> (#[trigger] self.infos_spec()[m]).id != id,
                None => forall|k: int|
                    0 <= k < self.infos_spec().len() ==> (#[trigger] self.infos_spec()[k]).id != id,
            },
    {
        let mut k: usize = 0;
        while k < self.infos.len()
            invariant
                k <= self.infos@.len(),
                forall|m: int| 0 <= m < k ==> (#[trigger] self.infos@[m]).id != id,
            decreases self.infos.len() - k,
        {
            if self.infos[k].id == id {
                proof {
                    assert(0 <= k < self.infos_spec().len() && self.infos[k as int] == self.infos_spec()[k as int]);
                }
                return Some(&self.infos[k]);
            }
            k = k + 1;
        }
        None
    }

    /// The `n`-th lane, counting group after group, if there is one.
    pub fn get_nth_binding(&self, n: usize) -> (r: Option<&QueueBinding>)
        ensures
            match r {
                Some(b) => n < flat_bindings(self.infos_spec()).len() && *b == flat_bindings(
                    self.infos_spec(),
                )[n as int],
                None => n >= flat_bindings(self.infos_spec()).len(),
            },
    {
        let mut seen: usize = 0;
        let mut k: usize = 0;
        while k < self.infos.len()
            invariant
                k <= self.infos@.len(),
                seen == flat_bindings(self.infos@.take(k as int)).len(),
                seen <= n,
            decreases self.infos.len() - k,
        {
            let bindings = self.infos[k].bindings.iter();
            proof {
                assert(self.infos@.take(k as int + 1).drop_last() =~= self.infos@.take(k as int));
            }
            if n - seen < bindings.len() {
                proof {
                    lemma_flat_prefix(self.infos@, k as int + 1);
                    assert(flat_bindings(self.infos@.take(k as int + 1)) =~= flat_bindings(
                        self.infos@.take(k as int),
                    ) + bindings@);
                    lemma_flat_take_prefix(self.infos@, k as int + 1);
                    assert(flat_bindings(self.infos@.take(k as int + 1))[n as int] == bindings@[(n - seen) as int]);
                }
                return Some(&bindings[n - seen]);
            }
            seen = seen + bindings.len();
            k = k + 1;
        }
        proof {
            assert(self.infos@.take(k as int) =~= self.infos@);
        }
        None
    }
}

impl QueueGroupTable {
    /// The lane `key`: lane `key.index` of group `key.group`. Fails when the
    /// table has no such group; the index must be in range of that group.
    pub fn get_binding(&self, key: LaneKey) -> (r: Result<&QueueBinding, QueueGroupTableError>)
        requires
            forall|k: int|
                0 <= k < self.infos_spec().len() && (#[trigger] self.infos_spec()[k]).id.0
                    == key.group ==> (key.index as int) < self.infos_spec()[k].bindings.values().len(),
        ensures
            match r {
                Ok(b) => exists|k: int|
                    0 <= k < self.infos_spec().len() && self.infos_spec()[k].id.0 == key.group
                        && *b == self.infos_spec()[k].bindings.values()[key.index as int]
                        && forall|m: int|
                        0 <= m < k ==> (#[trigger] self.infos_spec()[m]).id.0 != key.group,
                Err(e) => e == QueueGroupTableError::LaneNotFound && forall|k: int|
                    0 <= k < self.infos_spec().len() ==> (#[trigger] self.infos_spec()[k]).id.0
                        != key.group,
            },
    {
        match self.get_info(key.queue_group()) {
            Some(info) => Ok(info.bindings.get(key)),
            None => Err(QueueGroupTableError::LaneNotFound),
        }
    }

    /// Every lane with the key the table hands out for it (numbered from 0
    /// within its group), group after group.
    pub fn iter_bindings(&self) -> (r: Vec<(LaneKey, &QueueBinding)>)
        ensures
            r@.len() == flat_bindings(self.infos_spec()).len(),
            flat_entry_keys(self.infos_spec()).len() == flat_bindings(self.infos_spec()).len(),
            forall|i: int|
                0 <= i < r@.len() ==> (#[trigger] r@[i]).0 == flat_entry_keys(self.infos_spec())[i]
                    && *r@[i].1 == flat_bindings(self.infos_spec())[i],
    {
        let mut out: Vec<(LaneKey, &QueueBinding)> = Vec::new();
        let mut k: usize = 0;
        while k < self.infos.len()
            invariant
                k <= self.infos@.len(),
                out@.len() == flat_bindings(self.infos@.take(k as int)).len(),
                flat_entry_keys(self.infos@.take(k as int)).len() == flat_bindings(
                    self.infos@.take(k as int),
                ).len(),
                forall|i: int|
                    0 <= i < out@.len() ==> (#[trigger] out@[i]).0 == flat_entry_keys(
                        self.infos@.take(k as int),
                    )[i] && *out@[i].1 == flat_bindings(self.infos@.take(k as int))[i],
            decreases self.infos.len() - k,
        {
            let entries = self.infos[k].bindings.iter_entries();
            let ghost before = out@;
            proof {
                assert(self.infos@.take(k as int + 1).drop_last() =~= self.infos@.take(k as int));
            }
            let mut i: usize = 0;
            while i < entries.len()
                invariant
                    i <= entries@.len(),
                    out@.len() == before.len() + i,
                    forall|m: int| 0 <= m < before.len() ==> #[trigger] out@[m] == before[m],
                    forall|m: int| 0 <= m < i ==> #[trigger] out@[before.len() + m] == entries@[m],
                decreases entries.len() - i,
            {
                out.push(entries[i]);
                i = i + 1;
            }
            proof {
                let fb = flat_bindings(self.infos@.take(k as int + 1));
                let fk = flat_entry_keys(self.infos@.take(k as int + 1));
                assert(fb =~= flat_bindings(self.infos@.take(k as int)) + self.infos@[k as int].bindings.values());
                assert(fk =~= flat_entry_keys(self.infos@.take(k as int)) + Seq::new(
                    self.infos@[k as int].bindings.values().len(),
                    |j: int| entry_key(self.infos@[k as int].bindings.group_spec(), j),
                ));
                assert forall|m: int| 0 <= m < out@.len() implies (#[trigger] out@[m]).0 == fk[m]
                    && *out@[m].1 == fb[m] by {
                    if m >= before.len() {
                        let j = m - before.len();
                        assert(out@[before.len() + j] == entries@[j]);
                        assert(fb[m] == self.infos@[k as int].bindings.values()[j]);
                        assert(fk[m] == entry_key(self.infos@[k as int].bindings.group_spec(), j));
                    } else {
                        assert(out@[m] == before[m]);
                    }
                }
            }
            k = k + 1;
        }
        proof {
            assert(self.infos@.take(k as int) =~= self.infos@);
        }
        out
    }
}

/// The position of the first group of `groups` with id `id`, if any.
fn find_group(groups: &Vec<QueueGroupDesc>, id: u8) -> (r: Option<usize>)
    ensures
        match r {
            Some(j) => j < groups@.len() && groups@[j as int].id.0 == id,
            None => forall|k: int| 0 <= k < groups@.len() ==> (#[trigger] groups@[k]).id.0 != id,
        },
{
    let mut j: usize = 0;
    while j < groups.len()
        invariant
            j <= groups@.len(),
            forall|k: int| 0 <= k < j ==> (#[trigger] groups@[k]).id.0 != id,
        decreases groups.len() - j,
    {
        if groups[j].id.0 == id {
            return Some(j);
        }
        j = j + 1;
    }
    None
}

/// The lanes of the first `j` groups come first among the lanes of all.
proof fn lemma_flat_take_prefix(infos: Seq<QueueGroupInfo>, j: int)
    requires
        0 <= j <= infos.len(),
    ensures
        flat_bindings(infos.take(j)).len() <= flat_bindings(infos).len(),
        forall|i: int|
            0 <= i < flat_bindings(infos.take(j)).len() ==> #[trigger] flat_bindings(infos.take(j))[i]
                == flat_bindings(infos)[i],
    decreases infos.len(),
{
    if j == infos.len() {
        assert(infos.take(j) =~= infos);
    } else {
        let shorter = infos.drop_last();
        assert(infos.take(j) =~= shorter.take(j));
        lemma_flat_take_prefix(shorter, j);
    }
}

/// Adding a group with an id at or above the bound leaves the groups below
/// unchanged; the lanes below any bound are at most those below 256.
proof fn lemma_lanes_below_bound(groups: Seq<QueueGroupDesc>, bound: int)
    requires
        0 <= bound <= 256,
    ensures
        forall|b: int| 0 <= b <= bound ==> #[trigger] lanes_below(groups, b) <= lanes_below(groups, bound),
    decreases bound,
{
    if bound > 0 {
        lemma_lanes_below_bound(groups, bound - 1);
        let prev = groups_below(groups, bound - 1);
        let cur = groups_below(groups, bound);
        match group_with_id(groups, bound - 1) {
            Some(g) => {
                assert(cur == prev.push(g));
                assert(cur.drop_last() =~= prev);
                lemma_lanes_before_prefix(prev, cur, prev.len() as int);
            },
            None => {},
        }
    }
}

/// The lanes of the first `k` groups depend only on those groups.
proof fn lemma_lanes_before_prefix(a: Seq<QueueGroupDesc>, b: Seq<QueueGroupDesc>, k: int)
    requires
        0 <= k <= a.len(),
        k <= b.len(),
        forall|i: int| 0 <= i < k ==> a[i] == b[i],
    ensures
        lanes_before(a, k) == lanes_before(b, k),
    decreases k,
{
    if k > 0 {
        lemma_lanes_before_prefix(a, b, k - 1);
    }
}

/// The lanes of the first `k` groups, group after group.
proof fn lemma_flat_prefix(infos: Seq<QueueGroupInfo>, k: int)
    requires
        0 < k <= infos.len(),
    ensures
        flat_bindings(infos.take(k)) == flat_bindings(infos.take(k - 1)) + infos[k - 1].bindings.values(),
{
    assert(infos.take(k).drop_last() =~= infos.take(k - 1));
}

impl QueueGroupInfo {
    /// The key of the group's `index`-th lane, which must exist.
    pub fn get_queue_lane_key(&self, index: usize) -> (r: LaneKey)
        requires
            index < self.bindings.values().len(),
        ensures
            r == (LaneKey { offset: self.offset, group: self.id.0, index: index as u8 }),
    {
        LaneKey { offset: self.offset, group: self.id.0, index: index as u8 }
    }
}

} // verus!
