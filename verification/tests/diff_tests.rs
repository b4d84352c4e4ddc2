use reminisce::events::Event;
use reminisce::snapshot::{diff_snapshots, Snapshot};

fn snap(axes: Vec<i16>, buttons: Vec<bool>, packet: Option<u64>) -> Snapshot {
    Snapshot { axes, buttons, packet }
}

#[test]
fn diff_of_identical_snapshots_is_empty() {
    let a = snap(vec![100, -200, 300], vec![true, false, true], None);
    let b = snap(vec![100, -200, 300], vec![true, false, true], None);
    let events = diff_snapshots(7, &a, &b);
    assert_eq!(events, Vec::new());
}

#[test]
fn diff_with_equal_buttons_emits_no_button_event() {
    let a = snap(vec![0, 0], vec![true, false, true], None);
    let b = snap(vec![5, 0], vec![true, false, true], None);
    let events = diff_snapshots(1, &a, &b);
    assert_eq!(events, vec![Event::AxisMoved(1, 0, 5)]);
}

#[test]
fn diff_with_single_press_emits_exactly_one_button_event() {
    let a = snap(vec![0, 0], vec![false, false, false, false], None);
    let b = snap(vec![0, 0], vec![false, false, true, false], None);
    let events = diff_snapshots(0, &a, &b);
    assert_eq!(events, vec![Event::ButtonPressed(0, 2)]);
}

#[test]
fn diff_emits_axes_then_buttons_in_ordinal_order() {
    let a = snap(vec![0, 10, 0], vec![false, true], None);
    let b = snap(vec![9, 10, -4], vec![true, false], None);
    let events = diff_snapshots(3, &a, &b);
    assert_eq!(
        events,
        vec![
            Event::AxisMoved(3, 0, 9),
            Event::AxisMoved(3, 2, -4),
            Event::ButtonPressed(3, 0),
            Event::ButtonReleased(3, 1),
        ]
    );
}

#[test]
fn diff_carries_the_newer_raw_value() {
    let a = snap(vec![-32767], vec![], None);
    let b = snap(vec![32767], vec![], None);
    let events = diff_snapshots(0, &a, &b);
    assert_eq!(events, vec![Event::AxisMoved(0, 0, 32767)]);
}
