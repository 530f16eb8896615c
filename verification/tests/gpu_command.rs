use vulka::gpu::command_allocator::{
    Acquired, CommandAllocator, CommandAllocatorError, CommandPoolId,
};
use vulka::gpu::command_batch::{CommandBatch, CommandBatchError};
use vulka::gpu::command_buffer::{BufferLane, CommandBuffer};
use vulka::gpu::command_pool::{CommandPool, PoolLane};
use vulka::gpu::future::{GpuFutureError, GpuFutureState};
use vulka::gpu::ids::{QueueFamilyId, QueueGroupId, QueueId};
use vulka::gpu::lane_key::LaneKey;
use vulka::gpu::lane_vec::{LaneVec, LaneVecBuilder};
use vulka::gpu::queue_group_table::{QueueDesc, QueueGroupDesc, QueueGroupTable};
use vulka::gpu::queue_lane::PoolLanes;
use vulka::gpu::retire::QueueLane;
use vulka::gpu::roles::QueueRoleFlags;
use vulka::gpu::tokens::{LivenessGuard, LivenessToken};

fn qid(family: u32, index: u32) -> QueueId {
    QueueId { family: QueueFamilyId(family), index }
}

fn graphics_lane() -> QueueLane {
    QueueLane { id: qid(0, 0), roles: QueueRoleFlags::graphics().union(QueueRoleFlags::present()) }
}

fn compute_lane() -> QueueLane {
    QueueLane { id: qid(1, 0), roles: QueueRoleFlags::compute() }
}

fn guard() -> LivenessGuard {
    let mut token = LivenessToken::new();
    token.guard()
}

fn buffer_lanes() -> LaneVec<BufferLane> {
    let mut builder = LaneVecBuilder::new(QueueGroupId(2), 2);
    builder.push(BufferLane::new(graphics_lane(), 10));
    builder.push(BufferLane::new(compute_lane(), 11));
    builder.build()
}

fn table() -> QueueGroupTable {
    QueueGroupTable::new(&vec![QueueGroupDesc {
        id: QueueGroupId(2),
        queues: vec![QueueDesc { id: qid(0, 0), roles: QueueRoleFlags::graphics(), semaphore: 7 }],
    }])
}

#[test]
fn touching_by_queue_marks_only_that_lane() {
    let mut buffer = CommandBuffer::new(buffer_lanes(), guard());
    buffer.touch_by_id(qid(1, 0));
    let lanes = buffer.lanes().iter();
    assert!(!lanes[0].dirty);
    assert!(lanes[1].dirty);
    assert_eq!(lanes[1].cmdbuf, 11);
    assert_eq!(buffer.queue_group_id(), QueueGroupId(2));
    buffer.disarm();
}

#[test]
fn touching_by_roles_needs_every_role() {
    let mut buffer = CommandBuffer::new(buffer_lanes(), guard());
    buffer.touch_by_roles(QueueRoleFlags::graphics().union(QueueRoleFlags::compute()));
    assert!(buffer.lanes().iter().iter().all(|lane| !lane.dirty));
    buffer.touch_by_roles(QueueRoleFlags::present());
    let lanes = buffer.lanes().iter();
    assert!(lanes[0].dirty);
    assert!(!lanes[1].dirty);
    buffer.disarm();
}

#[test]
fn pool_lane_reuses_waiting_buffers_in_order() {
    let mut lane = PoolLane::new(graphics_lane(), 99);
    assert!(lane.needs_fresh());
    assert_eq!(lane.take(Some(1)), Some(1));
    assert_eq!(lane.take(Some(2)), Some(2));
    assert_eq!(lane.take(None), None);
    assert_eq!(lane.recycle(), Ok(()));
    assert!(!lane.needs_fresh());
    assert_eq!(lane.take(Some(50)), Some(1));
    assert_eq!(lane.take(None), Some(2));
    assert!(lane.needs_fresh());
    assert_eq!(lane.pool(), 99);
    assert_eq!(lane.queue(), graphics_lane());
    assert_eq!(lane.future().get(), Ok(GpuFutureState::Unset));
}

#[test]
fn pool_lane_keeps_buffers_when_its_future_is_pending() {
    let mut lane = PoolLane::new(compute_lane(), 5);
    assert_eq!(lane.take(Some(3)), Some(3));
    let writer = lane.future().send().unwrap();
    assert_eq!(lane.recycle(), Err(GpuFutureError::ResetPendingWrite));
    assert!(lane.needs_fresh());
    writer.set(40).unwrap();
    assert_eq!(lane.recycle(), Ok(()));
    assert_eq!(lane.take(None), Some(3));
}

#[test]
fn command_pool_allocates_one_buffer_per_lane() {
    let mut builder = LaneVecBuilder::new(QueueGroupId(2), 2);
    builder.push(PoolLane::new(graphics_lane(), 20));
    builder.push(PoolLane::new(compute_lane(), 21));
    let mut pool = CommandPool::new(4, builder.build(), guard());
    assert_eq!(pool.needs_fresh(), vec![true, true]);
    let first = pool.allocate(&vec![Some(100), Some(200)]);
    assert_eq!(first.iter()[0], BufferLane::new(graphics_lane(), 100));
    assert_eq!(first.iter()[1], BufferLane::new(compute_lane(), 200));
    assert_eq!(pool.reset(), Ok(()));
    assert_eq!(pool.needs_fresh(), vec![false, false]);
    let second = pool.allocate(&vec![None, None]);
    assert_eq!(second.iter()[0].cmdbuf, 100);
    assert_eq!(second.iter()[1].cmdbuf, 200);
    assert_eq!(pool.allocator_id(), 4);
    assert_eq!(pool.queue_group_id(), QueueGroupId(2));
    assert_eq!(pool.liveness().counter, 0);
}

#[test]
fn pool_lanes_follow_the_bindings() {
    let table = table();
    let info = table.get_info(QueueGroupId(2)).unwrap();
    let mut lanes = PoolLanes::new(info.bindings.iter());
    assert_eq!(lanes.lanes().len(), 1);
    assert_eq!(lanes.lanes()[0].queue.id, qid(0, 0));
    assert_eq!(lanes.lanes()[0].future.queue_id(), qid(0, 0));
    assert_eq!(lanes.reset(), Ok(()));
    assert_eq!(lanes.0[0].reset(), Ok(()));
}

#[test]
fn allocator_refuses_zero_capacity_and_unknown_groups() {
    assert_eq!(
        CommandAllocator::<u32>::new(1, table(), QueueGroupId(2), 0).err(),
        Some(CommandAllocatorError::ZeroCapacity)
    );
    assert_eq!(
        CommandAllocator::<u32>::new(1, table(), QueueGroupId(9), 2).err(),
        Some(CommandAllocatorError::QueueGroupNotFound)
    );
    let allocator = CommandAllocator::<u32>::new(1, table(), QueueGroupId(2), 2).unwrap();
    assert_eq!(allocator.queue_info().unwrap().id, QueueGroupId(2));
    assert_eq!(allocator.capacity(), 2);
    assert_eq!(allocator.id(), 1);
}

#[test]
fn allocator_hands_out_up_to_capacity_and_reuses_released_pools() {
    let mut allocator = CommandAllocator::<u32>::new(7, table(), QueueGroupId(2), 2).unwrap();
    let first = CommandPoolId { allocator_id: 7, index: 0 };
    let second = CommandPoolId { allocator_id: 7, index: 1 };
    assert!(matches!(allocator.acquire(None), Ok(Acquired::Fresh { id }) if id == first));
    assert!(matches!(allocator.acquire(None), Ok(Acquired::Fresh { id }) if id == second));
    assert!(matches!(allocator.acquire(None), Ok(Acquired::Exhausted)));
    assert!(matches!(allocator.acquire(Some(first)), Err(CommandAllocatorError::AlreadyAcquired)));

    assert_eq!(allocator.release(first, 42), Ok(()));
    assert_eq!(allocator.release(first, 43), Err(CommandAllocatorError::InconsistentState));
    assert_eq!(
        allocator.release(CommandPoolId { allocator_id: 8, index: 1 }, 1),
        Err(CommandAllocatorError::AllocatorMismatch)
    );
    assert_eq!(
        allocator.release(CommandPoolId { allocator_id: 7, index: 5 }, 1),
        Err(CommandAllocatorError::PoolNotFound)
    );
    assert!(matches!(
        allocator.acquire(Some(first)),
        Ok(Acquired::Reused { id, state: 42 }) if id == first
    ));
    assert!(matches!(
        allocator.acquire(Some(CommandPoolId { allocator_id: 7, index: 9 })),
        Err(CommandAllocatorError::PoolNotFound)
    ));
}

#[test]
fn lane_keys_index_the_lanes_in_order() {
    let lanes = buffer_lanes();
    let keys = lanes.each();
    assert_eq!(keys, vec![LaneKey { offset: 0, group: 2, index: 0 }, LaneKey { offset: 0, group: 2, index: 1 }]);
    assert_eq!(lanes.get(keys[1]).cmdbuf, 11);
}

#[test]
fn lane_vectors_fill_and_hand_out_entries() {
    let lanes = buffer_lanes();
    let filled: LaneVec<Vec<u64>> = LaneVec::filled(&lanes, || Vec::new());
    assert_eq!(filled.len(), 2);
    assert_eq!(filled.queue_group_id(), QueueGroupId(2));
    assert!(filled.iter().iter().all(|v| v.is_empty()));
    let entries = lanes.into_entries();
    assert_eq!(entries.len(), 2);
    assert_eq!(entries[1].0, LaneKey { offset: 0, group: 2, index: 1 });
    assert_eq!(entries[1].1.cmdbuf, 11);
}

#[test]
fn lane_vectors_find_and_retain() {
    let lanes = buffer_lanes();
    assert_eq!(lanes.find(|lane| lane.cmdbuf > 10).map(|lane| lane.cmdbuf), Some(11));
    assert_eq!(lanes.find(|lane| lane.cmdbuf > 20), None);
    let kept = lanes.retain_into(|lane| lane.queue.roles.contains(QueueRoleFlags::compute()));
    assert_eq!(kept, vec![BufferLane::new(compute_lane(), 11)]);
}

#[test]
fn liveness_counts_guards_taken_and_released() {
    let mut token = LivenessToken::new();
    let first = token.guard();
    let second = token.guard();
    assert_eq!(token.counter, 2);
    token.release(first);
    assert_eq!(token.counter, 1);
    token.release(second);
    assert_eq!(token.counter, 0);
}

fn lanes_with(graphics: u64, compute: u64) -> LaneVec<BufferLane> {
    let mut builder = LaneVecBuilder::new(QueueGroupId(2), 2);
    builder.push(BufferLane::new(graphics_lane(), graphics));
    builder.push(BufferLane::new(compute_lane(), compute));
    builder.build()
}

#[test]
fn a_batch_gathers_the_dirty_lanes_of_each_buffer() {
    let mut batch: CommandBatch<u64> = CommandBatch::new();
    assert!(batch.is_empty());

    let mut first = CommandBuffer::new(lanes_with(10, 11), guard());
    first.touch_by_id(qid(0, 0));
    first.disarm();
    batch.add(7, first);
    assert!(!batch.is_empty());

    let mut second = CommandBuffer::new(lanes_with(20, 21), guard());
    second.touch_by_roles(QueueRoleFlags::compute());
    second.touch_by_id(qid(0, 0));
    second.disarm();
    batch.add(7, second);

    let clean = CommandBuffer::new(lanes_with(30, 31), guard());
    batch.add(7, clean);

    let submission = batch.finish().ok().unwrap();
    assert_eq!(submission.frame, 7);
    assert_eq!(submission.lanes.queue_group_id(), QueueGroupId(2));
    let lanes = submission.lanes.iter();
    assert_eq!(lanes[0], vec![10, 20]);
    assert_eq!(lanes[1], vec![21]);
}

#[test]
fn an_empty_batch_has_no_frame() {
    let batch: CommandBatch<u64> = CommandBatch::new();
    assert_eq!(batch.finish().err(), Some(CommandBatchError::NoFrame));
}
