use reminisce::decode::{
    battery_fraction, classify_open_error, classify_read_error, decode_gamepad_buttons,
    decode_gamepad_state, decode_linux_event, os_error, InvalidEvent, LinuxEvent, OpenError,
    ReadCondition, BUTTON_A, BUTTON_RIGHT_STICK, BUTTON_SELECT, BUTTON_START,
};
use reminisce::events::Event;

fn record(value: i16, kind: u8, number: u8) -> LinuxEvent {
    LinuxEvent { time: 0, value, _type: kind, number }
}

#[test]
fn kernel_init_records_decode_to_nothing() {
    assert_eq!(decode_linux_event(0, &record(1, 0x81, 0)), Ok(None));
    assert_eq!(decode_linux_event(0, &record(0, 0x82, 3)), Ok(None));
}

#[test]
fn kernel_button_records_decode_by_value() {
    assert_eq!(
        decode_linux_event(2, &record(1, 1, 4)),
        Ok(Some(Event::ButtonPressed(2, 4)))
    );
    assert_eq!(
        decode_linux_event(2, &record(0, 1, 4)),
        Ok(Some(Event::ButtonReleased(2, 4)))
    );
}

#[test]
fn kernel_axis_records_carry_the_raw_value() {
    assert_eq!(
        decode_linux_event(1, &record(-15000, 2, 3)),
        Ok(Some(Event::AxisMoved(1, 3, -15000)))
    );
}

#[test]
fn malformed_kernel_records_are_rejected() {
    assert_eq!(
        decode_linux_event(0, &record(2, 1, 0)),
        Err(InvalidEvent { kind: 1, value: 2 })
    );
    assert_eq!(
        decode_linux_event(0, &record(0, 3, 0)),
        Err(InvalidEvent { kind: 3, value: 0 })
    );
}

#[test]
fn read_errors_split_into_the_three_conditions() {
    assert_eq!(classify_read_error(11), ReadCondition::NoData);
    assert_eq!(classify_read_error(19), ReadCondition::Disconnected);
    assert_eq!(classify_read_error(5), ReadCondition::Fatal);
    assert_eq!(classify_read_error(0), ReadCondition::Fatal);
}

#[test]
fn open_errors_split_into_the_taxonomy() {
    assert_eq!(classify_open_error(2), OpenError::NotPresent);
    assert_eq!(classify_open_error(19), OpenError::NotPresent);
    assert_eq!(classify_open_error(1), OpenError::PermissionDenied);
    assert_eq!(classify_open_error(13), OpenError::PermissionDenied);
    assert_eq!(classify_open_error(24), OpenError::Io(24));
}

#[test]
fn gamepad_status_codes_have_their_diagnostic_text() {
    assert_eq!(os_error(1), "Deferred");
    assert_eq!(os_error(-1), "Not supported");
    assert_eq!(os_error(-2), "Failed not deferred");
    assert_eq!(os_error(-3), "Invalid target");
    assert_eq!(os_error(-4), "Unknown target");
    assert_eq!(os_error(-5), "Invalid param");
    assert_eq!(os_error(-6), "Failed");
    assert_eq!(os_error(-7), "No data");
    assert_eq!(os_error(0), "No error");
}

#[test]
fn gamepad_button_mask_unpacks_into_the_layout() {
    let buttons = decode_gamepad_buttons(0x1000 | 0x0080);
    assert_eq!(buttons.len(), 10);
    assert!(buttons[BUTTON_A as usize]);
    assert!(buttons[BUTTON_RIGHT_STICK as usize]);
    for (i, b) in buttons.iter().enumerate() {
        if i != BUTTON_A as usize && i != BUTTON_RIGHT_STICK as usize {
            assert!(!b);
        }
    }
    let more = decode_gamepad_buttons(0x0020 | 0x0010);
    assert!(more[BUTTON_SELECT as usize]);
    assert!(more[BUTTON_START as usize]);
}

#[test]
fn gamepad_state_builds_the_snapshot_wholesale() {
    let snap = decode_gamepad_state(77, 0x2000, 10, -20, 30, -40);
    assert_eq!(snap.axes, vec![10, -20, 30, -40]);
    assert_eq!(snap.packet, Some(77));
    assert!(snap.buttons[1]);
    assert!(!snap.buttons[0]);
}

#[test]
fn battery_reports_decode_to_percentages() {
    // Disconnected and wired devices have no battery to report.
    assert_eq!(battery_fraction(0, 2), None);
    assert_eq!(battery_fraction(1, 2), None);
    // The four levels.
    assert_eq!(battery_fraction(2, 0), Some(0));
    assert_eq!(battery_fraction(2, 1), Some(25));
    assert_eq!(battery_fraction(3, 2), Some(50));
    assert_eq!(battery_fraction(255, 3), Some(100));
    // Malformed reports are rejected, not reinterpreted.
    assert_eq!(battery_fraction(2, 9), None);
    assert_eq!(battery_fraction(7, 1), None);
}
