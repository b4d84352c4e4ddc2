use reminisce::events::{Event, MAX_AXIS_VALUE};
use reminisce::joystick::{Joystick, PushJoystick, SnapshotJoystick};
use reminisce::snapshot::Snapshot;
use reminisce::stateful::StatefulJoystick;

fn zero_snapshot(axes: usize, buttons: usize) -> Snapshot {
    Snapshot { axes: vec![0; axes], buttons: vec![false; buttons], packet: None }
}

#[test]
fn snapshot_device_end_to_end_scenario() {
    // A device with 4 axes and 8 buttons, fed the sequence
    // [all-zero, {axis0 = 16000, button2 = true}, same again].
    let initial = zero_snapshot(4, 8);
    let handle = SnapshotJoystick::new(0, String::from("pad"), None, initial);
    let mut js = StatefulJoystick::new(handle);

    let mut second = zero_snapshot(4, 8);
    second.axes[0] = 16000;
    second.buttons[2] = true;
    js.joystick.feed_snapshot(second);

    assert_eq!(js.poll(), Some(Event::AxisMoved(0, 0, 16000)));
    assert_eq!(js.poll(), Some(Event::ButtonPressed(0, 2)));
    assert_eq!(js.poll(), None);

    // The normalised position is the raw value over the shared maximum.
    let normalised = 16000f32 / MAX_AXIS_VALUE as f32;
    assert!((normalised - 0.48828f32).abs() < 0.001);

    // The third, identical snapshot produces no further events.
    let mut third = zero_snapshot(4, 8);
    third.axes[0] = 16000;
    third.buttons[2] = true;
    js.joystick.feed_snapshot(third);
    assert_eq!(js.poll(), None);
}

#[test]
fn update_brings_cache_current_with_last_snapshot() {
    let initial = zero_snapshot(3, 4);
    let handle = SnapshotJoystick::new(2, String::from("pad"), None, initial);
    let mut js = StatefulJoystick::new(handle);

    let mut next = zero_snapshot(3, 4);
    next.axes[1] = -1234;
    next.buttons[0] = true;
    js.joystick.feed_snapshot(next);
    let mut last = zero_snapshot(3, 4);
    last.axes[1] = 777;
    last.axes[2] = 32000;
    last.buttons[0] = false;
    last.buttons[3] = true;
    js.joystick.feed_snapshot(last);

    js.update();
    assert_eq!(js.axis(0), Some(0));
    assert_eq!(js.axis(1), Some(777));
    assert_eq!(js.axis(2), Some(32000));
    assert_eq!(js.button(0), Some(false));
    assert_eq!(js.button(3), Some(true));

    // Out-of-range queries return no value.
    assert_eq!(js.axis(3), None);
    assert_eq!(js.button(4), None);
}

#[test]
fn cache_starts_with_axes_at_rest_and_buttons_released() {
    let handle = PushJoystick::new(1, 2, 3, String::from("stick"), None);
    let js = StatefulJoystick::new(handle);
    assert_eq!(js.axis(0), Some(0));
    assert_eq!(js.axis(1), Some(0));
    assert_eq!(js.button(0), Some(false));
    assert_eq!(js.button(2), Some(false));
}

#[test]
fn process_ignores_events_for_other_devices() {
    let handle = PushJoystick::new(1, 2, 2, String::from("stick"), None);
    let mut js = StatefulJoystick::new(handle);
    js.process(Event::AxisMoved(9, 0, 5000));
    assert_eq!(js.axis(0), Some(0));
    js.process(Event::AxisMoved(1, 0, 5000));
    assert_eq!(js.axis(0), Some(5000));
}

#[test]
fn process_applies_presses_and_releases() {
    let handle = PushJoystick::new(0, 1, 2, String::from("stick"), None);
    let mut js = StatefulJoystick::new(handle);
    js.process(Event::ButtonPressed(0, 1));
    assert_eq!(js.button(1), Some(true));
    js.process(Event::ButtonReleased(0, 1));
    assert_eq!(js.button(1), Some(false));
}

#[test]
fn push_handle_delivers_fed_events_in_order() {
    let mut handle = PushJoystick::new(4, 2, 2, String::from("stick"), Some(50));
    handle.feed_event(Event::ButtonPressed(4, 0));
    handle.feed_event(Event::AxisMoved(4, 1, -100));
    assert_eq!(handle.poll(), Some(Event::ButtonPressed(4, 0)));
    assert_eq!(handle.poll(), Some(Event::AxisMoved(4, 1, -100)));
    assert_eq!(handle.poll(), None);
    assert_eq!(handle.battery(), Some(50));
    assert_eq!(handle.id(), "stick");
    assert_eq!(handle.index(), 4);
}

#[test]
fn push_handle_drops_events_beyond_capabilities() {
    let mut handle = PushJoystick::new(0, 2, 2, String::from("stick"), None);
    handle.feed_event(Event::AxisMoved(0, 5, 1));
    handle.feed_event(Event::ButtonPressed(0, 9));
    assert_eq!(handle.poll(), None);
}

#[test]
fn capability_counts_are_capped() {
    let handle = PushJoystick::new(0, 10, 40, String::from("big"), None);
    assert_eq!(handle.num_axes(), 6);
    assert_eq!(handle.num_buttons(), 16);
}

#[test]
fn packet_counter_skips_stale_snapshot() {
    let mut initial = zero_snapshot(2, 2);
    initial.packet = Some(5);
    let mut handle = SnapshotJoystick::new(0, String::from("pad"), None, initial);

    // Same packet counter: the whole diff is skipped even though the
    // payload differs (the native contract says nothing changed).
    let mut stale = zero_snapshot(2, 2);
    stale.axes[0] = 9999;
    stale.packet = Some(5);
    handle.feed_snapshot(stale);
    assert_eq!(handle.poll(), None);

    // A new packet counter goes through the diff.
    let mut fresh = zero_snapshot(2, 2);
    fresh.axes[0] = 123;
    fresh.packet = Some(6);
    handle.feed_snapshot(fresh);
    assert_eq!(handle.poll(), Some(Event::AxisMoved(0, 0, 123)));
}

#[test]
fn disconnected_handle_reports_once_then_nothing() {
    let mut handle = PushJoystick::new(3, 1, 1, String::from("stick"), None);
    handle.feed_event(Event::ButtonPressed(3, 0));
    handle.mark_gone();
    assert!(!handle.connected());
    assert_eq!(handle.poll(), Some(Event::Disconnected(3)));
    assert_eq!(handle.poll(), None);
    assert_eq!(handle.poll(), None);
}
