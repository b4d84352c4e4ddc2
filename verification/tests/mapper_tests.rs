use reminisce::events::Event;
use reminisce::joystick::{Joystick, PushJoystick, SnapshotJoystick};
use reminisce::mapper::JoystickMapper;
use reminisce::snapshot::Snapshot;
use reminisce::stateful::StatefulJoystick;

fn zero_snapshot(axes: usize, buttons: usize) -> Snapshot {
    Snapshot { axes: vec![0; axes], buttons: vec![false; buttons], packet: None }
}

#[test]
fn remapped_axis_queries_read_under_the_target() {
    let handle = SnapshotJoystick::new(0, String::from("pad"), None, zero_snapshot(3, 2));
    let mut mapper = JoystickMapper::new(StatefulJoystick::new(handle));
    mapper.map_axis(0, 1);

    let mut next = zero_snapshot(3, 2);
    next.axes[1] = 5000;
    mapper.joystick.joystick.feed_snapshot(next);
    mapper.update();

    // Axis 0 is mapped to 1, so querying 0 reads what lies under 1.
    assert_eq!(mapper.axis(0), Some(5000));
    // An unmapped identifier passes through unchanged.
    assert_eq!(mapper.axis(2), Some(0));
}

#[test]
fn remapped_events_carry_the_target_identifier() {
    let handle = PushJoystick::new(6, 4, 4, String::from("stick"), None);
    let mut mapper = JoystickMapper::new(handle);
    mapper.map_button(2, 3);
    mapper.map_axis(0, 1);

    mapper.joystick.feed_event(Event::ButtonPressed(6, 2));
    mapper.joystick.feed_event(Event::ButtonReleased(6, 2));
    mapper.joystick.feed_event(Event::AxisMoved(6, 0, 42));
    mapper.joystick.feed_event(Event::AxisMoved(6, 3, 7));

    assert_eq!(mapper.poll(), Some(Event::ButtonPressed(6, 3)));
    assert_eq!(mapper.poll(), Some(Event::ButtonReleased(6, 3)));
    assert_eq!(mapper.poll(), Some(Event::AxisMoved(6, 1, 42)));
    // The unmapped axis passes through unchanged.
    assert_eq!(mapper.poll(), Some(Event::AxisMoved(6, 3, 7)));
    assert_eq!(mapper.poll(), None);
}

#[test]
fn lifecycle_events_pass_through_a_mapper_unchanged() {
    let handle = PushJoystick::new(2, 1, 1, String::from("stick"), None);
    let mut mapper = JoystickMapper::new(handle);
    mapper.map_button(0, 0);
    mapper.joystick.mark_gone();
    assert_eq!(mapper.poll(), Some(Event::Disconnected(2)));
}

#[test]
fn mutating_a_clone_leaves_the_original_mapping_alone() {
    let handle = PushJoystick::new(0, 4, 4, String::from("stick"), None);
    let mut original = JoystickMapper::new(handle);
    original.map_axis(0, 1);

    let mut sibling = original.clone();
    sibling.map_axis(0, 3);

    original.joystick.feed_event(Event::AxisMoved(0, 0, 11));
    assert_eq!(original.poll(), Some(Event::AxisMoved(0, 1, 11)));

    sibling.joystick.feed_event(Event::AxisMoved(0, 0, 22));
    assert_eq!(sibling.poll(), Some(Event::AxisMoved(0, 3, 22)));
}

#[test]
fn bulk_mapping_applies_every_pair_and_later_pairs_win() {
    let handle = PushJoystick::new(0, 6, 6, String::from("stick"), None);
    let mut mapper = JoystickMapper::new(handle);
    mapper.map_buttons(&vec![(0, 5), (1, 4), (0, 3)]);
    mapper.map_axes(&vec![(2, 0)]);

    mapper.joystick.feed_event(Event::ButtonPressed(0, 0));
    mapper.joystick.feed_event(Event::ButtonPressed(0, 1));
    mapper.joystick.feed_event(Event::AxisMoved(0, 2, 9));

    assert_eq!(mapper.poll(), Some(Event::ButtonPressed(0, 3)));
    assert_eq!(mapper.poll(), Some(Event::ButtonPressed(0, 4)));
    assert_eq!(mapper.poll(), Some(Event::AxisMoved(0, 0, 9)));
}

#[test]
fn with_state_keeps_the_mapping_through_the_upgrade() {
    let handle = SnapshotJoystick::new(0, String::from("pad"), None, zero_snapshot(2, 2));
    let mut bare = JoystickMapper::new(handle);
    bare.map_axis(0, 1);

    let mut stateful = bare.with_state();
    let mut next = zero_snapshot(2, 2);
    next.axes[1] = -800;
    stateful.joystick.joystick.feed_snapshot(next);
    stateful.update();
    assert_eq!(stateful.axis(0), Some(-800));
}

#[test]
fn mapper_delegates_identity_and_capabilities() {
    let handle = PushJoystick::new(9, 3, 5, String::from("named"), Some(25));
    let mapper = JoystickMapper::new(handle);
    assert_eq!(mapper.index(), 9);
    assert_eq!(mapper.num_axes(), 3);
    assert_eq!(mapper.num_buttons(), 5);
    assert_eq!(mapper.id(), "named");
    assert_eq!(mapper.battery(), Some(25));
    assert!(mapper.connected());
}
