//! Hands out command pools for one queue group, up to a capacity, and takes
//! them back. A slot per pool: empty while the pool is out, holding the
//! pool's state while it waits, released, for the GPU to finish with it.

use vstd::prelude::*;
use crate::gpu::ids::QueueGroupId;
use crate::gpu::queue_group_table::{QueueGroupInfo, QueueGroupTable};

verus! {

/// Names a pool: the allocator that made it and its slot there.
#[derive(Debug, Clone, Copy, PartialEq, Eq, Hash, Structural)]
pub struct CommandPoolId {
    pub allocator_id: usize,
    pub index: usize,
}

/// Why an allocator refused a request.
#[derive(Debug, Clone, Copy, PartialEq, Eq, Structural)]
pub enum CommandAllocatorError {
    /// An allocator needs room for at least one pool.
    ZeroCapacity,
    /// The queue group is not in the table.
    QueueGroupNotFound,
    /// The pool's slot does not exist.
    PoolNotFound,
    /// The retired pool was handed out already.
    AlreadyAcquired,
    /// The pool belongs to another allocator.
    AllocatorMismatch,
    /// A released pool's slot was not empty.
    InconsistentState,
}

/// What an allocator hands out.
#[derive(Debug)]
pub enum Acquired<S> {
    /// A retired pool, with its state, to reset and reuse.
    Reused { id: CommandPoolId, state: S },
    /// A new slot, for a pool whose state is yet to be made.
    Fresh { id: CommandPoolId },
    /// Every slot is taken and none was retired.
    Exhausted,
}

/// The slots and the outcome of an acquire on slots `pools` of allocator
/// `id` with room for `capacity`, given the pool the retirement queue gave
/// back, if any.
pub open spec fn acquire_spec<S>(
    id: usize,
    capacity: usize,
    pools: Seq<Option<S>>,
    retired: Option<CommandPoolId>,
) -> (Seq<Option<S>>, Result<Acquired<S>, CommandAllocatorError>) {
    match retired {
        Some(pool) => if pool.index >= pools.len() {
            (pools, Err(CommandAllocatorError::PoolNotFound))
        } else {
            match pools[pool.index as int] {
                Some(state) => (
                    pools.update(pool.index as int, None),
                    Ok(Acquired::Reused { id: pool, state }),
                ),
                None => (pools, Err(CommandAllocatorError::AlreadyAcquired)),
            }
        },
        None => if pools.len() < capacity {
            (pools.push(None), Ok(Acquired::Fresh { id: CommandPoolId { allocator_id: id, index: pools.len() as usize } }))
        } else {
            (pools, Ok(Acquired::Exhausted))
        },
    }
}

/// The slots and the outcome of releasing pool `pool` with its `state` into
/// slots `pools` of allocator `id`.
pub open spec fn release_spec<S>(id: usize, pools: Seq<Option<S>>, pool: CommandPoolId, state: S) -> (
    Seq<Option<S>>,
    Result<(), CommandAllocatorError>,
) {
    if pool.allocator_id != id {
        (pools, Err(CommandAllocatorError::AllocatorMismatch))
    } else if pool.index >= pools.len() {
        (pools, Err(CommandAllocatorError::PoolNotFound))
    } else if pools[pool.index as int] is Some {
        (pools, Err(CommandAllocatorError::InconsistentState))
    } else {
        (pools.update(pool.index as int, Some(state)), Ok(()))
    }
}

/// A pool released without error is the one the next acquire hands back,
/// when the retirement queue gives it back: with the same state, and the
/// slots as they were before the release.
pub proof fn lemma_release_then_acquire<S>(
    id: usize,
    capacity: usize,
    pools: Seq<Option<S>>,
    pool: CommandPoolId,
    state: S,
)
    requires
        release_spec(id, pools, pool, state).1 is Ok,
    ensures
        acquire_spec(id, capacity, release_spec(id, pools, pool, state).0, Some(pool)) == (
            pools,
            Ok::<Acquired<S>, CommandAllocatorError>(Acquired::Reused { id: pool, state }),
        ),
{
    let released = release_spec(id, pools, pool, state).0;
    assert(released.update(pool.index as int, None) =~= pools);
}

/// A fresh pool released without error waits in the slot it was given.
pub proof fn lemma_fresh_then_release<S>(
    id: usize,
    capacity: usize,
    pools: Seq<Option<S>>,
    state: S,
)
    requires
        pools.len() < capacity,
    ensures
        ({
            let (slots, outcome) = acquire_spec(id, capacity, pools, None);
            let fresh = CommandPoolId { allocator_id: id, index: pools.len() as usize };
            &&& outcome == Ok::<Acquired<S>, CommandAllocatorError>(Acquired::Fresh { id: fresh })
            &&& release_spec(id, slots, fresh, state) == (
                pools.push(Some(state)),
                Ok::<(), CommandAllocatorError>(()),
            )
        }),
{
    let slots = pools.push(None);
    assert(slots.update(pools.len() as int, Some(state)) =~= pools.push(Some(state)));
}

/// The command pool slots of one queue group. `S` is a pool's state: its
/// raw pools and buffers.
#[derive(Debug)]
pub struct CommandAllocator<S> {
    id: usize,
    queue_group_table: QueueGroupTable,
    queue_group_id: QueueGroupId,
    capacity: usize,
    pools: Vec<Option<S>>,
}

impl<S> CommandAllocator<S> {
    /// The allocator's id.
    pub closed spec fn id_spec(&self) -> usize {
        self.id
    }

    /// The number of pools the allocator may make.
    pub closed spec fn capacity_spec(&self) -> usize {
        self.capacity
    }

    /// The queue group of the pools.
    pub closed spec fn group_spec(&self) -> QueueGroupId {
        self.queue_group_id
    }

    /// The queue group table the allocator was made with.
    pub closed spec fn table_spec(&self) -> QueueGroupTable {
        self.queue_group_table
    }

    /// The slots: empty for a pool that is out, the state of a released one.
    pub closed spec fn pools_spec(&self) -> Seq<Option<S>> {
        self.pools@
    }

    /// An allocator `id` for up to `capacity` pools of group
    /// `queue_group_id`, which `table` must hold; the capacity must not be
    /// zero.
    pub fn new(id: usize, table: QueueGroupTable, queue_group_id: QueueGroupId, capacity: usize) -> (r:
        Result<Self, CommandAllocatorError>)
        ensures
            capacity == 0 ==> r == Err::<Self, CommandAllocatorError>(
                CommandAllocatorError::ZeroCapacity,
            ),
            capacity != 0 && (forall|k: int|
                0 <= k < table.infos_spec().len() ==> (#[trigger] table.infos_spec()[k]).id
                    != queue_group_id) ==> r == Err::<Self, CommandAllocatorError>(
                CommandAllocatorError::QueueGroupNotFound,
            ),
            capacity != 0 && (exists|k: int|
                0 <= k < table.infos_spec().len() && (#[trigger] table.infos_spec()[k]).id
                    == queue_group_id) ==> r is Ok,
            r matches Ok(a) ==> a.id_spec() == id && a.capacity_spec() == capacity
                && a.group_spec() == queue_group_id && a.table_spec() == table
                && a.pools_spec() == Seq::<Option<S>>::empty(),
    {
        if capacity == 0 {
            return Err(CommandAllocatorError::ZeroCapacity);
        }
        if table.get_info(queue_group_id).is_none() {
            return Err(CommandAllocatorError::QueueGroupNotFound);
        }
        Ok(CommandAllocator { id, queue_group_table: table, queue_group_id, capacity, pools: Vec::new() })
    }

    /// The allocator's id.
    pub fn id(&self) -> (r: usize)
        ensures
            r == self.id_spec(),
    {
        self.id
    }

    /// The number of pools the allocator may make.
    pub fn capacity(&self) -> (r: usize)
        ensures
            r == self.capacity_spec(),
    {
        self.capacity
    }

    /// The queue group of the pools, as the table describes it.
    pub fn queue_info(&self) -> (r: Option<&QueueGroupInfo>)
        ensures
            match r {
                Some(info) => info.id == self.group_spec() && exists|k: int|
                    0 <= k < self.table_spec().infos_spec().len() && *info
                        == #[trigger] self.table_spec().infos_spec()[k],
                None => forall|k: int|
                    0 <= k < self.table_spec().infos_spec().len() ==> (
                    #[trigger] self.table_spec().infos_spec()[k]).id != self.group_spec(),
            },
    {
        let r = self.queue_group_table.get_info(self.queue_group_id);
        proof {
            if let Some(info) = r {
                let infos = self.queue_group_table.infos_spec();
                let k = choose|k: int| 0 <= k < infos.len() && *info == infos[k] && info.id == self.queue_group_id;
                assert(*info == self.table_spec().infos_spec()[k]);
            }
        }
        r
    }

    /// Hands out a pool: the one the retirement queue gave back, if any,
    /// whose state leaves its slot; else a new slot while there is room;
    /// else nothing.
    pub fn acquire(&mut self, retired: Option<CommandPoolId>) -> (r: Result<
        Acquired<S>,
        CommandAllocatorError,
    >)
        ensures
            (final(self).pools_spec(), r) == acquire_spec(
                old(self).id_spec(),
                old(self).capacity_spec(),
                old(self).pools_spec(),
                retired,
            ),
            final(self).id_spec() == old(self).id_spec(),
            final(self).capacity_spec() == old(self).capacity_spec(),
            final(self).group_spec() == old(self).group_spec(),
            final(self).table_spec() == old(self).table_spec(),
    {
        match retired {
            Some(pool) => {
                if pool.index >= self.pools.len() {
                    return Err(CommandAllocatorError::PoolNotFound);
                }
                match self.pools[pool.index].take() {
                    Some(state) => Ok(Acquired::Reused { id: pool, state }),
                    None => Err(CommandAllocatorError::AlreadyAcquired),
                }
            },
            None => {
                if self.pools.len() < self.capacity {
                    let index = self.pools.len();
                    self.pools.push(None);
                    Ok(Acquired::Fresh { id: CommandPoolId { allocator_id: self.id, index } })
                } else {
                    Ok(Acquired::Exhausted)
                }
            },
        }
    }

    /// Takes back pool `pool` with its state, to wait in its slot until the
    /// retirement queue gives it back.
    pub fn release(&mut self, pool: CommandPoolId, state: S) -> (r: Result<(), CommandAllocatorError>)
        ensures
            (final(self).pools_spec(), r) == release_spec(old(self).id_spec(), old(self).pools_spec(), pool, state),
            final(self).id_spec() == old(self).id_spec(),
            final(self).capacity_spec() == old(self).capacity_spec(),
            final(self).group_spec() == old(self).group_spec(),
            final(self).table_spec() == old(self).table_spec(),
    {
        if pool.allocator_id != self.id {
            return Err(CommandAllocatorError::AllocatorMismatch);
        }
        if pool.index >= self.pools.len() {
            return Err(CommandAllocatorError::PoolNotFound);
        }
        if self.pools[pool.index].is_some() {
            return Err(CommandAllocatorError::InconsistentState);
        }
        self.pools.set(pool.index, Some(state));
        Ok(())
    }
}

} // verus!
