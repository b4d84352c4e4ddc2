use reminisce::decode::{classify_open_error, OpenError};
use reminisce::events::Event;
use reminisce::joystick::{Joystick, PushJoystick, SnapshotJoystick};
use reminisce::registry::Native;
use reminisce::snapshot::Snapshot;

fn push_handle(index: u8) -> PushJoystick {
    PushJoystick::new(index, 2, 2, format!("stick {}", index), None)
}

fn zero_snapshot(axes: usize, buttons: usize) -> Snapshot {
    Snapshot { axes: vec![0; axes], buttons: vec![false; buttons], packet: None }
}

#[test]
fn registry_reports_each_tracked_joystick_as_connected_first() {
    let mut registry = Native::new(vec![push_handle(0), push_handle(1)]);
    assert_eq!(registry.num_joysticks(), 2);
    assert_eq!(registry.poll(), Some(Event::Connected(0)));
    assert_eq!(registry.poll(), Some(Event::Connected(1)));
    assert_eq!(registry.poll(), None);
}

#[test]
fn disconnect_is_delivered_before_other_devices_input() {
    // Device 2 sits in the first slot with a pending axis move; device
    // 1 then suffers a fatal condition. The disconnect must come out
    // first, whatever the slot order.
    let mut registry = Native::new(vec![push_handle(2), push_handle(1)]);
    assert_eq!(registry.poll(), Some(Event::Connected(2)));
    assert_eq!(registry.poll(), Some(Event::Connected(1)));

    registry.feed_event(0, Event::AxisMoved(2, 0, 640));
    registry.feed_disconnect(1);

    assert_eq!(registry.poll(), Some(Event::Disconnected(1)));
    assert_eq!(registry.poll(), Some(Event::AxisMoved(2, 0, 640)));
    assert_eq!(registry.poll(), None);
    // The disconnected device left the tracked list, only after its
    // event was delivered.
    assert_eq!(registry.num_joysticks(), 1);
    assert_eq!(registry.joysticks()[0].index(), 2);
}

#[test]
fn open_failure_excludes_the_index_from_the_registry() {
    // Opening device 3 fails with "no such file": the caller sees the
    // error and the registry tracks only what opened.
    let mut opened: Vec<PushJoystick> = Vec::new();
    let mut failures: Vec<(u8, OpenError)> = Vec::new();
    for index in 0..5u8 {
        // Device 3 is not present; its open reports code 2.
        if index == 3 {
            failures.push((index, classify_open_error(2)));
        } else {
            opened.push(push_handle(index));
        }
    }
    assert_eq!(failures, vec![(3, OpenError::NotPresent)]);

    let registry = Native::new(opened);
    assert_eq!(registry.num_joysticks(), 4);
    for js in registry.joysticks() {
        assert_ne!(js.index(), 3);
    }
}

#[test]
fn hotplug_arrival_queues_a_connected_event() {
    let mut registry = Native::new(vec![push_handle(0)]);
    assert_eq!(registry.poll(), Some(Event::Connected(0)));
    registry.add(push_handle(5));
    assert_eq!(registry.poll(), Some(Event::Connected(5)));
    assert_eq!(registry.num_joysticks(), 2);
}

#[test]
fn hotplug_removal_queues_a_disconnected_event_and_drops_the_handle() {
    let mut registry = Native::new(vec![push_handle(0), push_handle(1)]);
    assert_eq!(registry.poll(), Some(Event::Connected(0)));
    assert_eq!(registry.poll(), Some(Event::Connected(1)));
    registry.feed_event(0, Event::ButtonPressed(0, 1));
    registry.note_removed(1);
    // The hot-plug notification outranks the queued input.
    assert_eq!(registry.poll(), Some(Event::Disconnected(1)));
    assert_eq!(registry.num_joysticks(), 1);
    assert_eq!(registry.poll(), Some(Event::ButtonPressed(0, 1)));
}

#[test]
fn device_events_are_served_in_slot_order() {
    let mut registry = Native::new(vec![push_handle(0), push_handle(1)]);
    assert_eq!(registry.poll(), Some(Event::Connected(0)));
    assert_eq!(registry.poll(), Some(Event::Connected(1)));
    registry.feed_event(1, Event::ButtonPressed(1, 0));
    registry.feed_event(0, Event::ButtonPressed(0, 0));
    assert_eq!(registry.poll(), Some(Event::ButtonPressed(0, 0)));
    assert_eq!(registry.poll(), Some(Event::ButtonPressed(1, 0)));
}

#[test]
fn snapshot_registry_serves_diffed_events() {
    let handle = SnapshotJoystick::new(0, String::from("pad"), None, zero_snapshot(2, 2));
    let mut registry = Native::new(vec![handle]);
    assert_eq!(registry.poll(), Some(Event::Connected(0)));

    let mut next = zero_snapshot(2, 2);
    next.axes[0] = 1500;
    next.buttons[1] = true;
    registry.feed_snapshot(0, next);

    assert_eq!(registry.poll(), Some(Event::AxisMoved(0, 0, 1500)));
    assert_eq!(registry.poll(), Some(Event::ButtonPressed(0, 1)));
    assert_eq!(registry.poll(), None);
}
