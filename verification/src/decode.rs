//! Checked decoders for native records, and the error taxonomy.
//!
//! Raw native bytes are never reinterpreted as enumeration values:
//! each backend's records decode through an explicit, checked function
//! that validates ranges before an `Event` or a `Snapshot` is built,
//! and rejects what it cannot place.

use vstd::prelude::*;
use crate::events::Event;
use crate::snapshot::Snapshot;

verus! {

/// Why opening a device failed. Non-fatal: the caller decides whether
/// to retry or to skip the index.
#[derive(Clone, Copy, Debug, PartialEq, Eq, Structural)]
pub enum OpenError {
    /// The device index does not exist.
    NotPresent,
    /// The native resource exists but may not be opened.
    PermissionDenied,
    /// The device class is not supported by this backend.
    Unsupported,
    /// Another native failure, with the reported code.
    Io(i32),
}

/// What a failed native read means. `NoData` is no error: stop polling
/// this cycle. `Disconnected` is surfaced exactly once. `Fatal` is not
/// locally recoverable and must abort with diagnostic context.
#[derive(Clone, Copy, Debug, PartialEq, Eq, Structural)]
pub enum ReadCondition {
    NoData,
    Disconnected,
    Fatal,
}

/// A native record that matches no known shape; carried for
/// diagnostics on the fatal path.
#[derive(Clone, Copy, Debug, PartialEq, Eq, Structural)]
pub struct InvalidEvent {
    pub kind: u8,
    pub value: i16,
}

/// One record of the kernel joystick device: a raw, fixed-layout event.
#[derive(Clone, Copy, Debug, PartialEq, Eq, Structural)]
pub struct LinuxEvent {
    /// timestamp in milliseconds
    pub time: u32,
    /// value
    pub value: i16,
    /// event type
    pub _type: u8,
    /// axis / button number
    pub number: u8,
}

/// What a kernel joystick record means for device `index`: nothing for
/// an init record, the corresponding input event for a button or axis
/// record, and a rejection for any other shape.
pub open spec fn spec_decode_linux_event(index: u8, e: LinuxEvent) -> Result<
    Option<Event>,
    InvalidEvent,
> {
    if e._type & 0x80 != 0 {
        Ok(None)
    } else if e._type == 1 && e.value == 0 {
        Ok(Some(Event::ButtonReleased(index, e.number)))
    } else if e._type == 1 && e.value == 1 {
        Ok(Some(Event::ButtonPressed(index, e.number)))
    } else if e._type == 2 {
        Ok(Some(Event::AxisMoved(index, e.number, e.value)))
    } else {
        Err(InvalidEvent { kind: e._type, value: e.value })
    }
}

/// Decode one kernel joystick record for device `index`. Init records
/// (type bit 0x80) decode to nothing; button records to a press or a
/// release by their value; axis records to a move carrying the raw
/// value; anything else is rejected, for the caller to abort on.
pub fn decode_linux_event(index: u8, e: &LinuxEvent) -> (r: Result<Option<Event>, InvalidEvent>)
    ensures
        r == spec_decode_linux_event(index, *e),
{
    if e._type & 0x80 != 0 {
        Ok(None)
    } else if e._type == 1 && e.value == 0 {
        Ok(Some(Event::ButtonReleased(index, e.number)))
    } else if e._type == 1 && e.value == 1 {
        Ok(Some(Event::ButtonPressed(index, e.number)))
    } else if e._type == 2 {
        Ok(Some(Event::AxisMoved(index, e.number, e.value)))
    } else {
        Err(InvalidEvent { kind: e._type, value: e.value })
    }
}

/// What a failed kernel read means: code 11 (try again) is the
/// transient no-data condition, code 19 (no such device) says the
/// device is gone, and anything else is an unrecoverable contract
/// violation.
pub open spec fn spec_classify_read_error(code: i32) -> ReadCondition {
    if code == 11 {
        ReadCondition::NoData
    } else if code == 19 {
        ReadCondition::Disconnected
    } else {
        ReadCondition::Fatal
    }
}

/// Classify the error code of a failed native read.
pub fn classify_read_error(code: i32) -> (r: ReadCondition)
    ensures
        r == spec_classify_read_error(code),
{
    if code == 11 {
        ReadCondition::NoData
    } else if code == 19 {
        ReadCondition::Disconnected
    } else {
        ReadCondition::Fatal
    }
}

/// What a failed device open means: codes 2 (no such file) and 19 (no
/// such device) say the index does not exist, codes 1 and 13 deny
/// permission, and anything else is another reported failure.
pub open spec fn spec_classify_open_error(code: i32) -> OpenError {
    if code == 2 || code == 19 {
        OpenError::NotPresent
    } else if code == 1 || code == 13 {
        OpenError::PermissionDenied
    } else {
        OpenError::Io(code)
    }
}

/// Classify the error code of a failed device open.
pub fn classify_open_error(code: i32) -> (r: OpenError)
    ensures
        r == spec_classify_open_error(code),
{
    if code == 2 || code == 19 {
        OpenError::NotPresent
    } else if code == 1 || code == 13 {
        OpenError::PermissionDenied
    } else {
        OpenError::Io(code)
    }
}

/// The diagnostic text for a browser gamepad API status code.
pub fn os_error(code: i32) -> (r: &'static str)
    ensures
        code == 1 ==> r@ == "Deferred"@,
        code == -1 ==> r@ == "Not supported"@,
        code == -2 ==> r@ == "Failed not deferred"@,
        code == -3 ==> r@ == "Invalid target"@,
        code == -4 ==> r@ == "Unknown target"@,
        code == -5 ==> r@ == "Invalid param"@,
        code == -6 ==> r@ == "Failed"@,
        code == -7 ==> r@ == "No data"@,
        !(code == 1 || code == -1 || code == -2 || code == -3 || code == -4 || code == -5 || code
            == -6 || code == -7) ==> r@ == "No error"@,
{
    if code == 1 {
        "Deferred"
    } else if code == -1 {
        "Not supported"
    } else if code == -2 {
        "Failed not deferred"
    } else if code == -3 {
        "Invalid target"
    } else if code == -4 {
        "Unknown target"
    } else if code == -5 {
        "Invalid param"
    } else if code == -6 {
        "Failed"
    } else if code == -7 {
        "No data"
    } else {
        "No error"
    }
}

/// The platform gamepad layout, as logical button ordinals.
pub const BUTTON_A: u8 = 0;

pub const BUTTON_B: u8 = 1;

pub const BUTTON_X: u8 = 2;

pub const BUTTON_Y: u8 = 3;

pub const BUTTON_LEFT_SHOULDER: u8 = 4;

pub const BUTTON_RIGHT_SHOULDER: u8 = 5;

pub const BUTTON_SELECT: u8 = 6;

pub const BUTTON_START: u8 = 7;

pub const BUTTON_LEFT_STICK: u8 = 8;

pub const BUTTON_RIGHT_STICK: u8 = 9;

/// The platform gamepad layout, as logical axis ordinals.
pub const AXIS_LEFT_X: u8 = 0;

pub const AXIS_LEFT_Y: u8 = 1;

pub const AXIS_RIGHT_X: u8 = 2;

pub const AXIS_RIGHT_Y: u8 = 3;

/// The digital button states packed in a platform gamepad button mask,
/// unpacked into the layout above.
pub open spec fn spec_gamepad_buttons(bits: u32) -> Seq<bool> {
    seq![
        (bits & 0x1000) != 0,
        (bits & 0x2000) != 0,
        (bits & 0x4000) != 0,
        (bits & 0x8000) != 0,
        (bits & 0x0100) != 0,
        (bits & 0x0200) != 0,
        (bits & 0x0020) != 0,
        (bits & 0x0010) != 0,
        (bits & 0x0040) != 0,
        (bits & 0x0080) != 0,
    ]
}

/// Unpack a platform gamepad button mask into one digital state per
/// logical button ordinal.
pub fn decode_gamepad_buttons(bits: u32) -> (r: Vec<bool>)
    ensures
        r@ == spec_gamepad_buttons(bits),
{
    let mut r: Vec<bool> = Vec::new();
    r.push((bits & 0x1000) != 0);
    r.push((bits & 0x2000) != 0);
    r.push((bits & 0x4000) != 0);
    r.push((bits & 0x8000) != 0);
    r.push((bits & 0x0100) != 0);
    r.push((bits & 0x0200) != 0);
    r.push((bits & 0x0020) != 0);
    r.push((bits & 0x0010) != 0);
    r.push((bits & 0x0040) != 0);
    r.push((bits & 0x0080) != 0);
    proof {
        assert(r@ =~= spec_gamepad_buttons(bits));
    }
    r
}

/// Build the snapshot a platform gamepad state record describes: the
/// four thumb-stick axes in layout order, the unpacked button mask,
/// and the native packet counter.
pub fn decode_gamepad_state(packet: u32, bits: u32, lx: i16, ly: i16, rx: i16, ry: i16) -> (r:
    Snapshot)
    ensures
        r.axes@ == seq![lx, ly, rx, ry],
        r.buttons@ == spec_gamepad_buttons(bits),
        r.packet == Some(packet as u64),
        r.wf(),
{
    let mut axes: Vec<i16> = Vec::new();
    axes.push(lx);
    axes.push(ly);
    axes.push(rx);
    axes.push(ry);
    proof {
        assert(axes@ =~= seq![lx, ly, rx, ry]);
    }
    let buttons = decode_gamepad_buttons(bits);
    Snapshot { axes, buttons, packet: Some(packet as u64) }
}

/// What a platform battery report means as a charge fraction, in
/// percent: nothing for a wired or absent battery, one of the four
/// reported levels otherwise, and nothing for a malformed report.
pub open spec fn spec_battery_fraction(kind: u8, level: u8) -> Option<u8> {
    if kind == 0 || kind == 1 {
        None
    } else if kind != 2 && kind != 3 && kind != 255 {
        None
    } else if level == 0 {
        Some(0u8)
    } else if level == 1 {
        Some(25u8)
    } else if level == 2 {
        Some(50u8)
    } else if level == 3 {
        Some(100u8)
    } else {
        None
    }
}

/// Decode a platform battery report (battery kind, charge level) into
/// a charge percentage. A disconnected (0) or wired (1) kind has no
/// battery to report; an unknown kind or an out-of-range level is
/// rejected rather than reinterpreted.
pub fn battery_fraction(kind: u8, level: u8) -> (r: Option<u8>)
    ensures
        r == spec_battery_fraction(kind, level),
{
    if kind == 0 || kind == 1 {
        None
    } else if kind != 2 && kind != 3 && kind != 255 {
        None
    } else if level == 0 {
        Some(0u8)
    } else if level == 1 {
        Some(25u8)
    } else if level == 2 {
        Some(50u8)
    } else if level == 3 {
        Some(100u8)
    } else {
        None
    }
}

} // verus!
