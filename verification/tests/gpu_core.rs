use vulka::gpu::future::{
    decode_future_word, reset_outcome, GpuFuture, GpuFutureError, GpuFutureState, TimelineValue,
    GPU_FUTURE_POISONED, GPU_FUTURE_UNSET, GPU_FUTURE_WAITING,
};
use vulka::gpu::ids::{QueueFamilyId, QueueGroupId, QueueGroupIdError, QueueId};
use vulka::gpu::lane_key::LaneKey;
use vulka::gpu::queue_group_table::{QueueDesc, QueueGroupDesc, QueueGroupTable, QueueGroupTableError};
use vulka::gpu::queue_group_vec::QueueGroupVec;
use vulka::gpu::roles::QueueRoleFlags;
use vulka::gpu::submission::{SubmissionCounter, SubmissionId};

fn queue(family: u32, index: u32, roles: QueueRoleFlags) -> QueueDesc {
    QueueDesc { id: QueueId { family: QueueFamilyId(family), index }, roles, semaphore: 100 + family as u64 }
}

fn table() -> QueueGroupTable {
    QueueGroupTable::new(&vec![
        QueueGroupDesc {
            id: QueueGroupId(3),
            queues: vec![queue(2, 0, QueueRoleFlags::transfer())],
        },
        QueueGroupDesc {
            id: QueueGroupId(1),
            queues: vec![
                queue(0, 0, QueueRoleFlags::graphics()),
                queue(1, 0, QueueRoleFlags::compute()),
            ],
        },
    ])
}

#[test]
fn roles_from_vulkan_flags() {
    let roles = QueueRoleFlags::from_queue_flags(0x1 | 0x4 | 0x8);
    assert!(roles.contains(QueueRoleFlags::graphics()));
    assert!(roles.contains(QueueRoleFlags::transfer()));
    assert!(!roles.contains(QueueRoleFlags::compute()));
    assert_eq!(roles.count(), 2);
    assert!(QueueRoleFlags::empty().is_empty());
    let both = QueueRoleFlags::graphics().union(QueueRoleFlags::present());
    assert_eq!(both.difference(QueueRoleFlags::present()), QueueRoleFlags::graphics());
    assert_eq!(both.intersection(QueueRoleFlags::compute()), QueueRoleFlags::empty());
}

#[test]
fn group_ids_and_lane_keys() {
    assert_eq!(QueueGroupId::try_from_u32(255), Ok(QueueGroupId(255)));
    assert_eq!(QueueGroupId::try_from_u32(256), Err(QueueGroupIdError::OutOfRange));
    let key = LaneKey::from_group_index(QueueGroupId(4), 258);
    assert_eq!(key.index(), 2);
    assert_eq!(key.queue_group(), QueueGroupId(4));
    assert_eq!(LaneKey { offset: 5, group: 1, index: 2 }.position(), 7);
    assert_eq!(LaneKey::default(), LaneKey { offset: u16::MAX, group: u8::MAX, index: u8::MAX });
}

#[test]
fn submission_ids_count_up_from_one() {
    let mut counter = SubmissionCounter::new(QueueId { family: QueueFamilyId(0), index: 0 });
    assert_eq!(counter.reserve(), Ok(SubmissionId(1)));
    assert_eq!(counter.reserve(), Ok(SubmissionId(2)));
    assert!(SubmissionId(2).is_set());
    assert!(!SubmissionId(0).is_set());
}

#[test]
fn future_words() {
    assert_eq!(decode_future_word(GPU_FUTURE_UNSET), Ok(GpuFutureState::Unset));
    assert_eq!(decode_future_word(GPU_FUTURE_WAITING), Ok(GpuFutureState::Waiting));
    assert_eq!(decode_future_word(GPU_FUTURE_POISONED), Err(GpuFutureError::Poisoned));
    assert_eq!(decode_future_word(42), Ok(GpuFutureState::Written(TimelineValue(42))));
}

#[test]
fn future_life_cycle() {
    let future = GpuFuture::new(QueueId { family: QueueFamilyId(1), index: 0 });
    assert_eq!(future.get_or_err(), Err(GpuFutureError::Unset));
    let writer = future.send().unwrap();
    assert_eq!(future.send().unwrap_err(), GpuFutureError::DuplicateSend);
    assert_eq!(future.get(), Ok(GpuFutureState::Waiting));
    assert_eq!(future.reset(), Err(GpuFutureError::ResetPendingWrite));
    writer.set(9).unwrap();
    assert_eq!(future.get_or_err(), Ok(TimelineValue(9)));
    assert_eq!(future.send().unwrap_err(), GpuFutureError::WrittenNotReset);
    future.reset().unwrap();
    assert_eq!(future.get(), Ok(GpuFutureState::Unset));
    let writer = future.send().unwrap();
    assert_eq!(writer.set(GPU_FUTURE_POISONED), Err(GpuFutureError::ReservedValue));
    // the refused write dropped the writer, which poisons the future
    assert_eq!(future.get(), Err(GpuFutureError::Poisoned));
    assert_eq!(future.reset(), Err(GpuFutureError::Poisoned));
}

#[test]
fn queue_group_table_orders_groups_by_id() {
    let table = table();
    assert_eq!(table.total_lanes(), 3);
    let first = table.get_nth_binding(0).unwrap();
    assert_eq!(first.id.family, QueueFamilyId(0));
    assert_eq!(first.key, LaneKey { offset: 0, group: 1, index: 0 });
    let last = table.get_nth_binding(2).unwrap();
    assert_eq!(last.key, LaneKey { offset: 2, group: 3, index: 0 });
    assert!(table.get_nth_binding(3).is_none());
    assert_eq!(table.get_info(QueueGroupId(3)).unwrap().offset, 2);
    assert!(table.get_info(QueueGroupId(2)).is_none());
    assert_eq!(table.get_binding(LaneKey { offset: 0, group: 1, index: 1 }).unwrap().semaphore, 101);
    assert_eq!(
        table.get_binding(LaneKey { offset: 0, group: 7, index: 0 }).unwrap_err(),
        QueueGroupTableError::LaneNotFound
    );
    assert_eq!(table.iter_bindings().len(), 3);
}

#[test]
fn queue_group_vec_fills_lanes() {
    let table = table();
    let mut values: QueueGroupVec<u32> = QueueGroupVec::new(&table);
    assert_eq!(values.len(), 0);
    let key = LaneKey { offset: 2, group: 3, index: 0 };
    *values.get_mut_or_default(key).1 += 5;
    *values.get_mut_or_default(key).1 += 5;
    assert_eq!(values.len(), 1);
    assert_eq!(values.get(key).1, Some(&10));
    let present = values.iter();
    assert_eq!(present.len(), 1);
    assert_eq!(present[0].0, LaneKey { offset: 0, group: 3, index: 0 });
    values.iter_mut(|key, value| value * 2 + key.index as u32);
    assert_eq!(values.get(key).1, Some(&20));
    assert_eq!(values.len(), 1);
}

#[test]
fn reset_outcome_follows_the_word_found() {
    assert_eq!(reset_outcome(Ok(42)), Ok(()));
    assert_eq!(reset_outcome(Err(GPU_FUTURE_UNSET)), Ok(()));
    assert_eq!(reset_outcome(Err(GPU_FUTURE_WAITING)), Err(GpuFutureError::ResetPendingWrite));
    assert_eq!(reset_outcome(Err(GPU_FUTURE_POISONED)), Err(GpuFutureError::Poisoned));
}
