use std::collections::HashMap;
use vulka::gpu::epoch::{Epoch, EpochError};
use vulka::gpu::lane_key::LaneKey;
use vulka::gpu::lane_progress::LaneProgress;
use vulka::gpu::progress::ProgressTracker;

fn lane(index: u8) -> LaneKey {
    LaneKey { offset: 0, group: 0, index }
}

#[test]
fn epochs_count_submissions_per_lane() {
    let mut epoch = Epoch::new(2);
    let early = epoch.reference();
    epoch.increment(lane(1));
    let open = epoch.reference();
    epoch.increment(lane(1));
    // both handles read the live counts, including increments made after them
    assert!(!open.is_complete(&epoch));
    assert_eq!(open.submission_count(&epoch, None, lane(1)), 2);
    assert_eq!(early.submission_count(&epoch, None, lane(1)), 2);
    assert_eq!(early.submission_count(&epoch, None, lane(0)), 0);
    let (next, ended) = epoch.next(2).unwrap();
    assert_eq!(next.number(), 1);
    assert!(open.is_complete(&next));
    assert!(!next.reference().is_complete(&next));
    // after the epoch ended, its references read its final counts
    assert_eq!(open.submission_count(&next, Some(&ended), lane(1)), 2);
    assert_eq!(open.submissions(&next, Some(&ended)), &vec![0, 2]);
    assert_eq!(next.reference().submission_count(&next, Some(&ended), lane(1)), 0);
    assert_eq!(ended.number, 0);
    assert_eq!(ended.submissions, vec![0, 2]);
    let spent = Epoch { number: 4, consumed: true, submissions: vec![0] };
    assert!(spent.reference().is_complete(&spent));
    assert!(matches!(spent.next(1), Err(EpochError::AlreadyConsumed)));
}

#[test]
fn lane_signals_epochs_as_its_value_grows() {
    let mut progress = LaneProgress::new();
    progress.push(0, 2, 1);
    assert_eq!(progress.signaled, None);
    progress.push(1, 3, 2);
    assert_eq!(progress.signaled, Some((0, 2)));
    progress.update(4);
    assert_eq!(progress.signaled, Some((0, 2)));
    progress.update(5);
    assert_eq!(progress.signaled, Some((1, 5)));
    assert!(progress.unsignaled.is_empty());
}

#[test]
fn tracker_completes_epochs_in_order() {
    let mut tracker = ProgressTracker::new(2);
    let mut epoch = Epoch::new(2);
    epoch.increment(lane(0));
    let done0 = epoch.reference();
    let (epoch1, _) = epoch.next(2).unwrap();
    let done1 = epoch1.reference();
    let (_epoch2, _) = epoch1.next(2).unwrap();
    // epoch 1 arrives first and waits for epoch 0
    tracker.push(done1).unwrap();
    assert_eq!(tracker.epochs.len(), 0);
    tracker.push(done0).unwrap();
    assert_eq!(tracker.epochs.len(), 2);
    assert_eq!(tracker.next_epoch, 2);

    let mut completed: HashMap<u64, Vec<u64>> = HashMap::new();
    completed.insert(0, vec![1, 0]);
    tracker.update(&vec![1, 0], &completed);
    assert!(tracker.is_complete(lane(0), 0));
    assert!(!tracker.is_complete(lane(0), 1));
    assert!(tracker.is_complete(lane(1), 0));
    assert_eq!(tracker.epochs.len(), 1);
}
