#![allow(non_snake_case)]
use nes_network::tracker::MissingSequenceTracker;

#[test]
fn testSequenceTrackerMissingOne() {
    let mut tracker = MissingSequenceTracker::default();
    for i in 1..1004 {
        if i == 100 || i == 193 || i == 210 {
            continue;
        }
        tracker.add(i);
    }

    assert_eq!(tracker.query(), 100);
    tracker.add(100);
    tracker.add(1004);
    assert_eq!(tracker.query(), 193);
    tracker.add(193);
    assert_eq!(tracker.query(), 210);
    tracker.add(1005);
}

#[test]
fn testSequenceTrackerMissing() {
    let tracker = MissingSequenceTracker::default();

    assert_eq!(tracker.query(), 1);
}

#[test]
fn testSequenceTrackerOOMissing() {
    let mut tracker = MissingSequenceTracker::default();
    tracker.add(1);
    tracker.add(4);
    tracker.add(2);

    assert_eq!(tracker.query(), 3);
}

#[test]
fn testSequenceTrackerOO() {
    let mut tracker = MissingSequenceTracker::default();
    tracker.add(1);
    tracker.add(3);
    tracker.add(2);

    assert_eq!(tracker.query(), 4);
}

#[test]
fn testSequenceTracker() {
    let mut tracker = MissingSequenceTracker::default();
    tracker.add(1);
    tracker.add(2);
    tracker.add(3);

    assert_eq!(tracker.query(), 4);
}

#[test]
fn tracker_survives_many_prunes() {
    let mut tracker = MissingSequenceTracker::new();
    for i in 1..5000u64 {
        tracker.add(i);
    }
    assert_eq!(tracker.query(), 5000);
    tracker.add(5001);
    assert_eq!(tracker.query(), 5000);
}
