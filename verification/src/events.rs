//! The shared event vocabulary: logical identifiers, the event type, and
//! the state tables that describe the cumulative effect of a stream of
//! events on one device.

use vstd::prelude::*;

verus! {

/// A direction on a joystick, as a logical ordinal.
pub type Axis = u8;

/// A button on a joystick, as a logical ordinal.
pub type Button = u8;

/// A joystick index: identifies a device among the currently open ones.
pub type JoystickIndex = u8;

/// The maximum raw axis value.
pub const MAX_AXIS_VALUE: i16 = 32767;

/// The minimum raw axis value.
pub const MIN_AXIS_VALUE: i16 = -32767;

/// The number of axes a device may report is capped here, so that the
/// per-device state tables have a bounded size.
pub const MAX_AXES: u8 = 6;

/// The number of buttons a device may report is capped here, so that the
/// per-device state tables have a bounded size.
pub const MAX_BUTTONS: u8 = 16;

/// An event emitted by a joystick.
///
/// Axis values are carried raw, as signed 16-bit integers in
/// `MIN_AXIS_VALUE ..= MAX_AXIS_VALUE`; a caller that wants a normalised
/// position divides by `MAX_AXIS_VALUE` at its own boundary.
#[derive(Clone, Copy, Debug, PartialEq, Eq, Structural)]
pub enum Event {
    /// Fired when a joystick is connected, with its index.
    Connected(JoystickIndex),
    /// Fired when a joystick is disconnected, with its index.
    Disconnected(JoystickIndex),
    /// Fired when a button is pressed, with the joystick index and the
    /// button's ordinal.
    ButtonPressed(JoystickIndex, Button),
    /// Fired when a button is released, with the joystick index and the
    /// button's ordinal.
    ButtonReleased(JoystickIndex, Button),
    /// Fired when an axis moved, with the joystick index, the axis
    /// ordinal and the new raw value.
    AxisMoved(JoystickIndex, Axis, i16),
}

/// The joystick index an event speaks about.
pub open spec fn event_index(e: Event) -> u8 {
    match e {
        Event::Connected(i) => i,
        Event::Disconnected(i) => i,
        Event::ButtonPressed(i, _) => i,
        Event::ButtonReleased(i, _) => i,
        Event::AxisMoved(i, _, _) => i,
    }
}

/// Whether an event is a per-device input event, as opposed to a
/// lifecycle (connectivity) event.
pub open spec fn is_input_event(e: Event) -> bool {
    match e {
        Event::ButtonPressed(_, _) => true,
        Event::ButtonReleased(_, _) => true,
        Event::AxisMoved(_, _, _) => true,
        Event::Connected(_) => false,
        Event::Disconnected(_) => false,
    }
}

/// The mathematical model of one device's current state: an axis value
/// for each axis ordinal and a digital state for each button ordinal.
pub struct StateView {
    pub axes: Seq<i16>,
    pub buttons: Seq<bool>,
}

/// The state of a device on which nothing has been observed yet: every
/// axis at rest, every button released.
pub open spec fn zero_state(num_axes: u8, num_buttons: u8) -> StateView {
    StateView {
        axes: Seq::new(num_axes as nat, |i: int| 0i16),
        buttons: Seq::new(num_buttons as nat, |i: int| false),
    }
}

/// The effect of one event on a device's state tables. Lifecycle events
/// leave the tables alone; input events whose ordinal lies outside the
/// tables are ignored rather than reinterpreted.
pub open spec fn spec_apply(st: StateView, e: Event) -> StateView {
    match e {
        Event::ButtonPressed(_, b) => if b < st.buttons.len() {
            StateView { axes: st.axes, buttons: st.buttons.update(b as int, true) }
        } else {
            st
        },
        Event::ButtonReleased(_, b) => if b < st.buttons.len() {
            StateView { axes: st.axes, buttons: st.buttons.update(b as int, false) }
        } else {
            st
        },
        Event::AxisMoved(_, a, v) => if a < st.axes.len() {
            StateView { axes: st.axes.update(a as int, v), buttons: st.buttons }
        } else {
            st
        },
        Event::Connected(_) => st,
        Event::Disconnected(_) => st,
    }
}

/// The cumulative effect of a stream of events, applied left to right.
pub open spec fn spec_apply_events(st: StateView, es: Seq<Event>) -> StateView
    decreases es.len(),
{
    if es.len() == 0 {
        st
    } else {
        spec_apply_events(spec_apply(st, es[0]), es.drop_first())
    }
}

/// Folding over a concatenation is folding over the parts in turn.
pub proof fn lemma_apply_events_concat(st: StateView, a: Seq<Event>, b: Seq<Event>)
    ensures
        spec_apply_events(st, a + b) == spec_apply_events(spec_apply_events(st, a), b),
    decreases a.len(),
{
    if a.len() == 0 {
        assert(a + b =~= b);
    } else {
        assert((a + b)[0] == a[0]);
        assert((a + b).drop_first() =~= a.drop_first() + b);
        lemma_apply_events_concat(spec_apply(st, a[0]), a.drop_first(), b);
    }
}

/// Folding over a single event is applying it.
pub proof fn lemma_apply_events_singleton(st: StateView, e: Event)
    ensures
        spec_apply_events(st, seq![e]) == spec_apply(st, e),
{
    let s = seq![e];
    assert(s.len() == 1);
    assert(s[0] == e);
    assert(s.drop_first() =~= Seq::<Event>::empty());
    assert(spec_apply_events(st, s) == spec_apply_events(spec_apply(st, e), s.drop_first()));
    assert(spec_apply_events(spec_apply(st, e), s.drop_first()) == spec_apply(st, e));
}

} // verus!
