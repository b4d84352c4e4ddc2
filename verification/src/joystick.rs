//! The device-handle capability and its two flavours.
//!
//! A handle owns the model of one open device: its identity, its
//! capabilities, and the change events that have been produced but not
//! yet delivered. A *push-model* handle is fed discrete events that the
//! native source already delivers; a *snapshot-model* handle is fed full
//! state snapshots and synthesises its events through the diff engine.
//! The native reads themselves happen outside the library; whatever was
//! read is handed in as plain values.

use vstd::prelude::*;
use crate::events::{
    Event, StateView, MAX_AXES, MAX_BUTTONS, event_index, is_input_event, spec_apply,
    spec_apply_events, lemma_apply_events_concat,
};
use crate::snapshot::{
    Snapshot, same_packet, spec_diff, diff_snapshots, lemma_diff_restores_state,
    lemma_diff_events_shape,
};

verus! {

/// The capability shared by every open device: identity, capabilities,
/// and a non-blocking poll that delivers the queued change events one
/// at a time, in order.
///
/// `pending()` is the queue of produced-but-undelivered events;
/// `consumed()` is the state a consumer that applied every delivered
/// event would hold. `poll` delivers the queue front; once a handle has
/// reported itself disconnected, exactly one `Disconnected` event
/// remains and further polls yield nothing.
pub trait Joystick: Sized {
    /// The handle's internal invariant.
    spec fn wf(&self) -> bool;

    /// The joystick index this handle was opened for.
    spec fn spec_index(&self) -> u8;

    /// The number of axes, already capped at `MAX_AXES`.
    spec fn spec_num_axes(&self) -> u8;

    /// The number of buttons, already capped at `MAX_BUTTONS`.
    spec fn spec_num_buttons(&self) -> u8;

    /// Whether the device is still connected.
    spec fn spec_connected(&self) -> bool;

    /// The device's identifier text.
    spec fn spec_id(&self) -> Seq<char>;

    /// The battery charge in percent, if the device reports one.
    spec fn spec_battery(&self) -> Option<u8>;

    /// The produced-but-undelivered events, oldest first.
    spec fn pending(&self) -> Seq<Event>;

    /// The state tables reached by applying every delivered event.
    spec fn consumed(&self) -> StateView;

    /// What the invariant guarantees, uniformly over handle flavours:
    /// capabilities stay within the caps, the consumed tables match the
    /// capabilities, every queued event speaks about this device, a
    /// connected handle queues only input events, and a disconnected one
    /// holds at most its single terminal `Disconnected`.
    proof fn lemma_wf(&self)
        requires
            self.wf(),
        ensures
            self.spec_num_axes() <= MAX_AXES,
            self.spec_num_buttons() <= MAX_BUTTONS,
            self.consumed().axes.len() == self.spec_num_axes() as int,
            self.consumed().buttons.len() == self.spec_num_buttons() as int,
            forall|i: int|
                0 <= i < self.pending().len() ==> event_index(#[trigger] self.pending()[i])
                    == self.spec_index(),
            self.spec_connected() ==> forall|i: int|
                0 <= i < self.pending().len() ==> is_input_event(#[trigger] self.pending()[i]),
            !self.spec_connected() ==> self.pending() == seq![
                Event::Disconnected(self.spec_index()),
            ] || self.pending() == Seq::<Event>::empty(),
    ;

    /// Whether the device is still connected.
    fn connected(&self) -> (r: bool)
        requires
            self.wf(),
        ensures
            r == self.spec_connected(),
    ;

    /// The joystick index this handle was opened for.
    fn index(&self) -> (r: u8)
        requires
            self.wf(),
        ensures
            r == self.spec_index(),
    ;

    /// The number of axes this joystick has, capped at `MAX_AXES`.
    fn num_axes(&self) -> (r: u8)
        requires
            self.wf(),
        ensures
            r == self.spec_num_axes(),
    ;

    /// The number of buttons this joystick has, capped at `MAX_BUTTONS`.
    fn num_buttons(&self) -> (r: u8)
        requires
            self.wf(),
        ensures
            r == self.spec_num_buttons(),
    ;

    /// The identifier of this joystick.
    fn id(&self) -> (r: &str)
        requires
            self.wf(),
        ensures
            r@ == self.spec_id(),
    ;

    /// The battery charge in percent, or nothing when the device is
    /// wired or the source does not report one.
    fn battery(&self) -> (r: Option<u8>)
        requires
            self.wf(),
        ensures
            r == self.spec_battery(),
    ;

    /// Deliver the oldest undelivered event, or nothing when no event
    /// is pending. Never blocks; identity and capabilities are
    /// untouched; the consumed tables advance by exactly the delivered
    /// event.
    fn poll(&mut self) -> (r: Option<Event>)
        requires
            old(self).wf(),
        ensures
            final(self).wf(),
            final(self).spec_index() == old(self).spec_index(),
            final(self).spec_num_axes() == old(self).spec_num_axes(),
            final(self).spec_num_buttons() == old(self).spec_num_buttons(),
            final(self).spec_id() == old(self).spec_id(),
            final(self).spec_battery() == old(self).spec_battery(),
            final(self).spec_connected() == old(self).spec_connected(),
            match r {
                Some(e) => old(self).pending().len() > 0 && e == old(self).pending()[0]
                    && final(self).pending() == old(self).pending().drop_first()
                    && final(self).consumed() == spec_apply(old(self).consumed(), e),
                None => old(self).pending().len() == 0 && *final(self) == *old(self),
            },
    ;

    /// Note that the device is gone: the handle stops reporting itself
    /// connected, any undelivered input is abandoned, and exactly one
    /// terminal `Disconnected` event is left to deliver.
    fn mark_gone(&mut self)
        requires
            old(self).wf(),
            old(self).spec_connected(),
        ensures
            final(self).wf(),
            final(self).spec_index() == old(self).spec_index(),
            final(self).spec_num_axes() == old(self).spec_num_axes(),
            final(self).spec_num_buttons() == old(self).spec_num_buttons(),
            final(self).spec_id() == old(self).spec_id(),
            final(self).spec_battery() == old(self).spec_battery(),
            !final(self).spec_connected(),
            final(self).pending() == seq![Event::Disconnected(old(self).spec_index())],
    ;
}

/// Whether an input event's ordinal falls within a device's capability
/// caps; events outside them stay invisible to callers.
pub open spec fn in_caps(e: Event, num_axes: u8, num_buttons: u8) -> bool {
    match e {
        Event::ButtonPressed(_, b) => b < num_buttons,
        Event::ButtonReleased(_, b) => b < num_buttons,
        Event::AxisMoved(_, a, _) => a < num_axes,
        Event::Connected(_) => false,
        Event::Disconnected(_) => false,
    }
}

/// A handle over a push-model native source: the source itself reports
/// discrete transitions, which are handed in one by one after decoding.
#[derive(Clone)]
pub struct PushJoystick {
    pub index: u8,
    pub num_axes: u8,
    pub num_buttons: u8,
    pub id: String,
    pub battery: Option<u8>,
    pub connected: bool,
    pub queue: Vec<Event>,
    pub consumed: Ghost<StateView>,
}

impl PushJoystick {
    /// Open the model of a push-model device from its identity and
    /// reported capabilities; counts beyond the caps are clamped.
    pub fn new(index: u8, num_axes: u8, num_buttons: u8, id: String, battery: Option<u8>) -> (r:
        Self)
        ensures
            r.wf(),
            r.spec_index() == index,
            r.spec_num_axes() == (if num_axes < MAX_AXES {
                num_axes
            } else {
                MAX_AXES
            }),
            r.spec_num_buttons() == (if num_buttons < MAX_BUTTONS {
                num_buttons
            } else {
                MAX_BUTTONS
            }),
            r.spec_connected(),
            r.spec_id() == id@,
            r.spec_battery() == battery,
            r.pending() == Seq::<Event>::empty(),
            r.consumed() == crate::events::zero_state(r.spec_num_axes(), r.spec_num_buttons()),
    {
        let na = if num_axes < MAX_AXES {
            num_axes
        } else {
            MAX_AXES
        };
        let nb = if num_buttons < MAX_BUTTONS {
            num_buttons
        } else {
            MAX_BUTTONS
        };
        PushJoystick {
            index,
            num_axes: na,
            num_buttons: nb,
            id,
            battery,
            connected: true,
            queue: Vec::new(),
            consumed: Ghost(crate::events::zero_state(na, nb)),
        }
    }

    /// Queue one decoded native event for delivery. Events whose
    /// ordinal lies outside the device's capabilities are dropped: an
    /// unmapped native index is invisible to callers.
    pub fn feed_event(&mut self, e: Event)
        requires
            old(self).wf(),
            old(self).spec_connected(),
            is_input_event(e),
            event_index(e) == old(self).spec_index(),
        ensures
            final(self).wf(),
            final(self).spec_index() == old(self).spec_index(),
            final(self).spec_num_axes() == old(self).spec_num_axes(),
            final(self).spec_num_buttons() == old(self).spec_num_buttons(),
            final(self).spec_id() == old(self).spec_id(),
            final(self).spec_battery() == old(self).spec_battery(),
            final(self).spec_connected(),
            final(self).consumed() == old(self).consumed(),
            final(self).pending() == (if in_caps(
                e,
                old(self).spec_num_axes(),
                old(self).spec_num_buttons(),
            ) {
                old(self).pending().push(e)
            } else {
                old(self).pending()
            }),
    {
        let keep = match e {
            Event::ButtonPressed(_, b) => b < self.num_buttons,
            Event::ButtonReleased(_, b) => b < self.num_buttons,
            Event::AxisMoved(_, a, _) => a < self.num_axes,
            Event::Connected(_) => false,
            Event::Disconnected(_) => false,
        };
        if keep {
            self.queue.push(e);
        }
    }
}

impl Joystick for PushJoystick {
    open spec fn wf(&self) -> bool {
        &&& self.num_axes <= MAX_AXES
        &&& self.num_buttons <= MAX_BUTTONS
        &&& self.consumed@.axes.len() == self.num_axes as int
        &&& self.consumed@.buttons.len() == self.num_buttons as int
        &&& forall|i: int|
            0 <= i < self.queue@.len() ==> event_index(#[trigger] self.queue@[i]) == self.index
        &&& self.connected ==> forall|i: int|
            0 <= i < self.queue@.len() ==> is_input_event(#[trigger] self.queue@[i])
        &&& !self.connected ==> self.queue@ == seq![Event::Disconnected(self.index)]
            || self.queue@ == Seq::<Event>::empty()
    }

    open spec fn spec_index(&self) -> u8 {
        self.index
    }

    open spec fn spec_num_axes(&self) -> u8 {
        self.num_axes
    }

    open spec fn spec_num_buttons(&self) -> u8 {
        self.num_buttons
    }

    open spec fn spec_connected(&self) -> bool {
        self.connected
    }

    open spec fn spec_id(&self) -> Seq<char> {
        self.id@
    }

    open spec fn spec_battery(&self) -> Option<u8> {
        self.battery
    }

    open spec fn pending(&self) -> Seq<Event> {
        self.queue@
    }

    open spec fn consumed(&self) -> StateView {
        self.consumed@
    }

    proof fn lemma_wf(&self) {
    }

    fn connected(&self) -> bool {
        self.connected
    }

    fn index(&self) -> u8 {
        self.index
    }

    fn num_axes(&self) -> u8 {
        self.num_axes
    }

    fn num_buttons(&self) -> u8 {
        self.num_buttons
    }

    fn id(&self) -> &str {
        self.id.as_str()
    }

    fn battery(&self) -> Option<u8> {
        self.battery
    }

    fn poll(&mut self) -> (r: Option<Event>) {
        if self.queue.len() > 0 {
            let ghost q0 = self.queue@;
            let e = self.queue.remove(0);
            proof {
                self.consumed@ = spec_apply(self.consumed@, e);
                assert(self.queue@ =~= q0.drop_first());
                assert forall|i: int| 0 <= i < self.queue@.len() implies event_index(
                    #[trigger] self.queue@[i],
                ) == self.index && (self.connected ==> is_input_event(self.queue@[i])) by {
                    assert(self.queue@[i] == q0[i + 1]);
                }
                if !self.connected {
                    assert(self.queue@ =~= Seq::<Event>::empty());
                }
            }
            Some(e)
        } else {
            None
        }
    }

    fn mark_gone(&mut self) {
        self.connected = false;
        self.queue = Vec::new();
        self.queue.push(Event::Disconnected(self.index));
    }
}

/// A handle over a snapshot-model native source: the source only
/// exposes current full state, so consecutive snapshots run through the
/// diff engine and the change events queue up here.
#[derive(Clone)]
pub struct SnapshotJoystick {
    pub index: u8,
    pub id: String,
    pub battery: Option<u8>,
    pub connected: bool,
    pub last: Snapshot,
    pub queue: Vec<Event>,
    pub consumed: Ghost<StateView>,
}

impl SnapshotJoystick {
    /// Open the model of a snapshot-model device from its identity and
    /// the snapshot taken at open time. The snapshot's table sizes are
    /// the device's capabilities.
    pub fn new(index: u8, id: String, battery: Option<u8>, initial: Snapshot) -> (r: Self)
        requires
            initial.wf(),
        ensures
            r.wf(),
            r.spec_index() == index,
            r.spec_num_axes() == initial.axes@.len() as u8,
            r.spec_num_buttons() == initial.buttons@.len() as u8,
            r.spec_connected(),
            r.spec_id() == id@,
            r.spec_battery() == battery,
            r.pending() == Seq::<Event>::empty(),
            r.last == initial,
            r.consumed() == initial.state(),
    {
        let ghost st = initial.state();
        SnapshotJoystick {
            index,
            id,
            battery,
            connected: true,
            last: initial,
            queue: Vec::new(),
            consumed: Ghost(st),
        }
    }

    /// Feed the next full-state snapshot. When the native packet
    /// counter shows nothing changed, the snapshot is ignored outright;
    /// otherwise the diff against the previous snapshot queues up and
    /// the snapshot replaces it wholesale.
    pub fn feed_snapshot(&mut self, snap: Snapshot)
        requires
            old(self).wf(),
            old(self).spec_connected(),
            snap.wf(),
            snap.axes@.len() == old(self).last.axes@.len(),
            snap.buttons@.len() == old(self).last.buttons@.len(),
        ensures
            final(self).wf(),
            final(self).spec_index() == old(self).spec_index(),
            final(self).spec_num_axes() == old(self).spec_num_axes(),
            final(self).spec_num_buttons() == old(self).spec_num_buttons(),
            final(self).spec_id() == old(self).spec_id(),
            final(self).spec_battery() == old(self).spec_battery(),
            final(self).spec_connected(),
            final(self).consumed() == old(self).consumed(),
            same_packet(old(self).last.packet, snap.packet) ==> *final(self) == *old(self),
            !same_packet(old(self).last.packet, snap.packet) ==> final(self).last == snap
                && final(self).pending() == old(self).pending() + spec_diff(
                old(self).spec_index(),
                old(self).last.state(),
                snap.state(),
            ),
    {
        let skip = match (&self.last.packet, &snap.packet) {
            (Some(p), Some(q)) => *p == *q,
            _ => false,
        };
        if skip {
            return ;
        }
        let mut evs = diff_snapshots(self.index, &self.last, &snap);
        let ghost old_queue = self.queue@;
        let ghost old_last_state = self.last.state();
        let ghost diff = evs@;
        self.queue.append(&mut evs);
        self.last = snap;
        proof {
            lemma_apply_events_concat(self.consumed@, old_queue, diff);
            lemma_diff_restores_state(self.index, old_last_state, self.last.state());
            lemma_diff_events_shape(self.index, old_last_state, self.last.state());
            assert forall|i: int| 0 <= i < self.queue@.len() implies event_index(
                #[trigger] self.queue@[i],
            ) == self.index && is_input_event(self.queue@[i]) by {
                if i < old_queue.len() {
                    assert(self.queue@[i] == old_queue[i]);
                } else {
                    assert(self.queue@[i] == diff[i - old_queue.len()]);
                }
            }
        }
    }
}

impl Joystick for SnapshotJoystick {
    open spec fn wf(&self) -> bool {
        &&& self.last.wf()
        &&& self.consumed@.axes.len() == self.last.axes@.len()
        &&& self.consumed@.buttons.len() == self.last.buttons@.len()
        &&& self.connected ==> spec_apply_events(self.consumed@, self.queue@) == self.last.state()
        &&& forall|i: int|
            0 <= i < self.queue@.len() ==> event_index(#[trigger] self.queue@[i]) == self.index
        &&& self.connected ==> forall|i: int|
            0 <= i < self.queue@.len() ==> is_input_event(#[trigger] self.queue@[i])
        &&& !self.connected ==> self.queue@ == seq![Event::Disconnected(self.index)]
            || self.queue@ == Seq::<Event>::empty()
    }

    open spec fn spec_index(&self) -> u8 {
        self.index
    }

    open spec fn spec_num_axes(&self) -> u8 {
        self.last.axes@.len() as u8
    }

    open spec fn spec_num_buttons(&self) -> u8 {
        self.last.buttons@.len() as u8
    }

    open spec fn spec_connected(&self) -> bool {
        self.connected
    }

    open spec fn spec_id(&self) -> Seq<char> {
        self.id@
    }

    open spec fn spec_battery(&self) -> Option<u8> {
        self.battery
    }

    open spec fn pending(&self) -> Seq<Event> {
        self.queue@
    }

    open spec fn consumed(&self) -> StateView {
        self.consumed@
    }

    proof fn lemma_wf(&self) {
    }

    fn connected(&self) -> bool {
        self.connected
    }

    fn index(&self) -> u8 {
        self.index
    }

    fn num_axes(&self) -> u8 {
        self.last.axes.len() as u8
    }

    fn num_buttons(&self) -> u8 {
        self.last.buttons.len() as u8
    }

    fn id(&self) -> &str {
        self.id.as_str()
    }

    fn battery(&self) -> Option<u8> {
        self.battery
    }

    fn poll(&mut self) -> (r: Option<Event>) {
        if self.queue.len() > 0 {
            let ghost q0 = self.queue@;
            let e = self.queue.remove(0);
            proof {
                self.consumed@ = spec_apply(self.consumed@, e);
                assert(self.queue@ =~= q0.drop_first());
                assert forall|i: int| 0 <= i < self.queue@.len() implies event_index(
                    #[trigger] self.queue@[i],
                ) == self.index && (self.connected ==> is_input_event(self.queue@[i])) by {
                    assert(self.queue@[i] == q0[i + 1]);
                }
                if !self.connected {
                    assert(self.queue@ =~= Seq::<Event>::empty());
                }
            }
            Some(e)
        } else {
            None
        }
    }

    fn mark_gone(&mut self) {
        self.connected = false;
        self.queue = Vec::new();
        self.queue.push(Event::Disconnected(self.index));
    }
}

} // verus!
