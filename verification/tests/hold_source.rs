use openless::hold_source::{HoldSourceTracker, TriggerSource};
#[test]
fn hold_source_count_tracks_multiple_sources() {
    let mut tracker = HoldSourceTracker::new();
    assert_eq!(tracker.press(TriggerSource::KeyboardDictation), Some(0));
    assert_eq!(tracker.active_count(), 1);
    assert_eq!(tracker.press(TriggerSource::KeyboardDictation), None);
    assert_eq!(tracker.active_count(), 1);

    assert_eq!(tracker.press(TriggerSource::MouseMiddle), Some(1));
    assert_eq!(tracker.active_count(), 2);

    assert_eq!(
        tracker.release(TriggerSource::KeyboardDictation),
        1
    );
    assert_eq!(tracker.release(TriggerSource::MouseMiddle), 0);
}

#[test]
fn last_release_returns_zero() {
    let mut tracker = HoldSourceTracker::new();
    assert_eq!(tracker.press(TriggerSource::KeyboardDictation), Some(0));
    assert_eq!(tracker.release(TriggerSource::KeyboardDictation), 0);
    assert_eq!(tracker.active_count(), 0);
}

#[test]
fn duplicate_release_is_no_op() {
    let mut tracker = HoldSourceTracker::new();
    assert_eq!(tracker.press(TriggerSource::MouseSide), Some(0));
    assert_eq!(tracker.release(TriggerSource::MouseSide), 0);
    assert_eq!(tracker.release(TriggerSource::MouseSide), 0);
    assert_eq!(tracker.active_count(), 0);
}

#[test]
fn keyboard_and_mouse_hold_tracks_independently() {
    let mut tracker = HoldSourceTracker::new();
    assert_eq!(tracker.press(TriggerSource::KeyboardDictation), Some(0));
    assert_eq!(tracker.press(TriggerSource::MouseMiddle), Some(1));
    assert_eq!(tracker.active_count(), 2);
    assert_eq!(tracker.release(TriggerSource::KeyboardDictation), 1);
    assert_eq!(tracker.release(TriggerSource::MouseMiddle), 0);
}

#[test]
fn count_follows_the_latest_call_of_each_source() {
    let mut tracker = HoldSourceTracker::new();
    tracker.press(TriggerSource::KeyboardDictation);
    tracker.press(TriggerSource::MouseMiddle);
    tracker.press(TriggerSource::MouseSide);
    assert_eq!(tracker.active_count(), 3);
    assert_eq!(tracker.release(TriggerSource::MouseMiddle), 2);
    tracker.press(TriggerSource::KeyboardDictation);
    assert_eq!(tracker.active_count(), 2);
    tracker.reset();
    assert_eq!(tracker.active_count(), 0);
    assert_eq!(tracker.release(TriggerSource::MouseSide), 0);
    assert_eq!(tracker.press(TriggerSource::MouseSide), Some(0));
    assert_eq!(tracker.press(TriggerSource::MouseMiddle), Some(1));
    assert_eq!(tracker.release(TriggerSource::KeyboardDictation), 2);
    assert_eq!(tracker.active_count(), 2);
}
