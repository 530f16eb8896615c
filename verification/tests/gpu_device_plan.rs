use vulka::gpu::queue_group_check::{check_queue_groups, QueueGroupCheckError};
use vulka::gpu::retire::QueueAllocation;
use vulka::gpu::device_plan::{DeviceBuildError, DeviceBuilder, QueueGroupBuilder, Reservation};
use vulka::gpu::device_select::QueueFamily;
use vulka::gpu::ids::{QueueFamilyId, QueueGroupId, QueueId};
use vulka::gpu::roles::QueueRoleFlags;

fn families() -> Vec<QueueFamily> {
    vec![
        QueueFamily { id: QueueFamilyId(2), roles: QueueRoleFlags::transfer(), count: 1 },
        QueueFamily { id: QueueFamilyId(0), roles: QueueRoleFlags::graphics(), count: 2 },
    ]
}

#[test]
fn queues_are_reserved_in_turn() {
    let mut plan = DeviceBuilder::new();
    let fams = families();
    let a = plan.allocate_queue(&fams, QueueFamilyId(0)).unwrap();
    assert_eq!(a.queue_id, QueueId { family: QueueFamilyId(0), index: 0 });
    assert_eq!(a.roles, QueueRoleFlags::graphics());
    let b = plan.allocate_queue(&fams, QueueFamilyId(0)).unwrap();
    assert_eq!(b.queue_id.index, 1);
    assert_eq!(
        plan.allocate_queue(&fams, QueueFamilyId(0)).unwrap_err(),
        DeviceBuildError::NotEnoughQueues(QueueFamilyId(0))
    );
    assert_eq!(
        plan.allocate_queue(&fams, QueueFamilyId(5)).unwrap_err(),
        DeviceBuildError::FamilyNotFound(QueueFamilyId(5))
    );
    plan.allocate_queue(&fams, QueueFamilyId(2)).unwrap();
    assert_eq!(
        plan.reservations(),
        &vec![
            Reservation { family: QueueFamilyId(0), count: 2 },
            Reservation { family: QueueFamilyId(2), count: 1 },
        ]
    );
    assert_eq!(plan.reserved_count(QueueFamilyId(2)), 1);
    assert_eq!(plan.reserved_count(QueueFamilyId(7)), 0);
}

#[test]
fn groups_get_queues_in_family_order() {
    let mut plan = DeviceBuilder::new();
    assert_eq!(plan.check_buildable(), Err(DeviceBuildError::NoQueueGroups));
    let fams = families();
    let roles = QueueRoleFlags::graphics().union(QueueRoleFlags::transfer());
    let id = QueueGroupId(plan.next_queue_group_id() as u8);
    let got = plan
        .allocate_group(&fams, id, roles, &vec![QueueFamilyId(2), QueueFamilyId(0)])
        .unwrap();
    assert_eq!(got, Some(QueueGroupId(0)));
    let (gid, queues) = &plan.queue_groups()[0];
    assert_eq!(*gid, QueueGroupId(0));
    let order: Vec<u32> = queues.iter().map(|q| q.queue_id.family.0).collect();
    assert_eq!(order, vec![0, 2]);
    assert_eq!(plan.check_buildable(), Ok(()));
    assert_eq!(
        plan.allocate_group(&fams, id, roles, &vec![QueueFamilyId(0)]).unwrap_err(),
        DeviceBuildError::DuplicateQueueGroup(id)
    );
    assert_eq!(plan.allocate_group(&fams, QueueGroupId(1), QueueRoleFlags::empty(), &vec![QueueFamilyId(0)]), Ok(None));
    assert_eq!(plan.allocate_group(&fams, QueueGroupId(1), roles, &vec![]), Ok(None));
    assert_eq!(
        plan.allocate_group(&fams, QueueGroupId(1), roles, &vec![QueueFamilyId(0), QueueFamilyId(2)]).unwrap_err(),
        DeviceBuildError::NotEnoughQueues(QueueFamilyId(2))
    );
    // the queue of family 0 taken before the refusal stays reserved
    assert_eq!(plan.reserved_count(QueueFamilyId(0)), 2);
    assert_eq!(plan.queue_groups().len(), 1);
}

#[test]
fn queue_group_requests_collect_roles() {
    let mut plan = DeviceBuilder::new();
    let fams = families();
    let request = plan.queue_group().graphics().transfer();
    assert_eq!(request.id, QueueGroupId(0));
    assert_eq!(request.roles, QueueRoleFlags::graphics().union(QueueRoleFlags::transfer()));
    assert_eq!(plan.next_queue_group_id(), 1);
    assert_eq!(
        QueueGroupBuilder::new(QueueGroupId(5)).build(&mut plan, &fams, &vec![QueueFamilyId(0)]),
        Err(DeviceBuildError::NoQueueGroupFound)
    );
    assert_eq!(
        request.build(&mut plan, &fams, &vec![]),
        Err(DeviceBuildError::NoQueueGroupFound)
    );
    assert_eq!(request.build(&mut plan, &fams, &vec![QueueFamilyId(0), QueueFamilyId(2)]), Ok(QueueGroupId(0)));
    assert_eq!(
        request.build(&mut plan, &fams, &vec![QueueFamilyId(0)]),
        Err(DeviceBuildError::DuplicateQueueGroup(QueueGroupId(0)))
    );
    let both = QueueGroupBuilder::new(QueueGroupId(1)).compute().present();
    assert_eq!(both.roles, QueueRoleFlags::compute().union(QueueRoleFlags::present()));
}

#[test]
fn a_primary_and_two_async_groups() {
    let fams = vec![
        QueueFamily { id: QueueFamilyId(0), roles: QueueRoleFlags::graphics().union(QueueRoleFlags::compute()).union(QueueRoleFlags::transfer()).union(QueueRoleFlags::present()), count: 1 },
        QueueFamily { id: QueueFamilyId(1), roles: QueueRoleFlags::compute().union(QueueRoleFlags::transfer()), count: 2 },
        QueueFamily { id: QueueFamilyId(2), roles: QueueRoleFlags::transfer(), count: 1 },
    ];
    let mut plan = DeviceBuilder::new();
    let primary = plan.queue_group().graphics().present().compute().transfer();
    assert_eq!(primary.build(&mut plan, &fams, &vec![QueueFamilyId(0)]), Ok(QueueGroupId(0)));
    let compute = plan.queue_group().compute().transfer();
    assert_eq!(compute.build(&mut plan, &fams, &vec![QueueFamilyId(1)]), Ok(QueueGroupId(1)));
    let transfer = plan.queue_group().transfer();
    assert_eq!(transfer.build(&mut plan, &fams, &vec![QueueFamilyId(2)]), Ok(QueueGroupId(2)));
    assert_eq!(plan.queue_groups().len(), 3);
    assert_eq!(plan.reserved_count(QueueFamilyId(0)), 1);
    assert_eq!(plan.reserved_count(QueueFamilyId(1)), 1);
    assert_eq!(plan.reserved_count(QueueFamilyId(2)), 1);
    let again = plan.queue_group().graphics();
    assert_eq!(
        again.build(&mut plan, &fams, &vec![QueueFamilyId(0)]),
        Err(DeviceBuildError::NotEnoughQueues(QueueFamilyId(0)))
    );
    assert_eq!(plan.check_buildable(), Ok(()));
}

#[test]
fn planned_groups_are_checked_against_the_device() {
    use_check();
}

fn use_check() {
    let q = |family: u32, index: u32| QueueId { family: QueueFamilyId(family), index };
    let alloc = |id: QueueId| QueueAllocation { queue_id: id, roles: QueueRoleFlags::graphics() };
    let created = vec![q(0, 0), q(1, 0), q(1, 1)];
    let good = vec![
        (QueueGroupId(0), vec![alloc(q(0, 0)), alloc(q(1, 0))]),
        (QueueGroupId(1), vec![alloc(q(1, 1))]),
    ];
    assert_eq!(check_queue_groups(&good, &created), Ok(()));
    let empty = vec![(QueueGroupId(0), vec![alloc(q(0, 0))]), (QueueGroupId(3), vec![])];
    assert_eq!(check_queue_groups(&empty, &created), Err(QueueGroupCheckError::EmptyQueueGroup(QueueGroupId(3))));
    let unknown = vec![(QueueGroupId(0), vec![alloc(q(0, 0)), alloc(q(2, 0))])];
    assert_eq!(check_queue_groups(&unknown, &created), Err(QueueGroupCheckError::QueueNotCreated(q(2, 0))));
    let twice = vec![
        (QueueGroupId(0), vec![alloc(q(1, 0))]),
        (QueueGroupId(1), vec![alloc(q(1, 1)), alloc(q(1, 0))]),
    ];
    assert_eq!(check_queue_groups(&twice, &created), Err(QueueGroupCheckError::QueueAlreadyAssigned(q(1, 0))));
}
