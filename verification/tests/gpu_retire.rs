use vulka::gpu::lane_key::LaneKey;
use vulka::gpu::progress::ProgressTracker;
use vulka::gpu::retire::{RetireError, RetireToken};
use vulka::gpu::retire_queue::RetireQueue;

fn progress(signaled: [Option<u64>; 2]) -> ProgressTracker {
    let mut tracker = ProgressTracker::new(2);
    for (lane, epoch) in signaled.iter().enumerate() {
        tracker.lanes[lane].signaled = epoch.map(|e| (e, 10));
    }
    tracker
}

#[test]
fn resources_come_back_once_every_lane_is_done() {
    let mut queue = RetireQueue::<u32>::new(2);
    let early = progress([Some(1), None]);
    assert_eq!(queue.retire_handle(&early, 7, 0b01, 1), Ok(()));
    assert_eq!(queue.retire_handle(&early, 8, 0b11, 1), Ok(()));
    assert_eq!(queue.acquire(&early), Some(7));
    assert_eq!(queue.acquire(&early), None);
    let later = progress([Some(1), Some(1)]);
    assert_eq!(queue.acquire(&later), Some(8));
    assert_eq!(queue.acquire(&later), None);
}

#[test]
fn ready_resources_come_back_in_retirement_order() {
    let mut queue = RetireQueue::<u32>::new(2);
    let none = progress([None, None]);
    assert_eq!(queue.retire_handle(&none, 1, 0b10, 4), Ok(()));
    assert_eq!(queue.retire_handle(&none, 2, 0b01, 4), Ok(()));
    assert_eq!(queue.retire_handle(&none, 3, 0, 4), Ok(()));
    let done = progress([Some(4), Some(5)]);
    assert_eq!(queue.acquire(&done), Some(3));
    assert_eq!(queue.acquire(&done), Some(1));
    assert_eq!(queue.acquire(&done), Some(2));
    assert_eq!(queue.acquire(&done), None);
}

#[test]
fn unknown_lanes_and_second_retirements_are_refused() {
    let mut queue = RetireQueue::<u32>::new(2);
    let tracker = progress([Some(9), Some(9)]);
    assert_eq!(queue.retire_handle(&tracker, 9, 0b100, 0), Err(RetireError::InvalidLane));
    assert_eq!(queue.acquire(&tracker), None);

    let token = RetireToken::new(5u32);
    assert_eq!(token.touch(12, LaneKey { offset: 0, group: 0, index: 1 }), Ok(()));
    assert_eq!(token.handle(), 5);
    assert_eq!(queue.retire(&tracker, &token), Ok(()));
    assert_eq!(queue.retire(&tracker, &token), Err(RetireError::AlreadyRetired));
    let shared = token.clone();
    assert_eq!(
        shared.touch(13, LaneKey { offset: 0, group: 0, index: 0 }),
        Err(RetireError::AlreadyRetired)
    );
    assert_eq!(queue.acquire(&tracker), None);
    assert_eq!(queue.lane_count(), 2);
}
