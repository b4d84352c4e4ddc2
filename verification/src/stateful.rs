//! The stateful cache: a joystick that tracks its own current state.
//!
//! The cache wraps any device handle and keeps two fixed-length tables,
//! axis values and button states, sized to the device's reported
//! capabilities at construction and never resized. The tables are only
//! ever written as the effect of consuming an event, so they always
//! reflect exactly the event history that produced them.

use vstd::prelude::*;
use crate::events::{
    Event, StateView, event_index, is_input_event, spec_apply, spec_apply_events, zero_state,
};
use crate::joystick::{Joystick, SnapshotJoystick};

verus! {

/// A joystick that tracks its state. Wraps a device handle; consuming
/// an event through `poll` or `update` applies its effect to the
/// tables, and `axis` / `button` answer in constant time.
#[derive(Clone)]
pub struct StatefulJoystick<J: Joystick> {
    pub joystick: J,
    pub axes: Vec<i16>,
    pub buttons: Vec<bool>,
}

impl<J: Joystick> StatefulJoystick<J> {
    /// The cache tables as state tables.
    pub open spec fn state(&self) -> StateView {
        StateView { axes: self.axes@, buttons: self.buttons@ }
    }

    /// The tables have exactly the device's capabilities and the
    /// wrapped handle is sound.
    pub open spec fn wf(&self) -> bool {
        &&& self.joystick.wf()
        &&& self.axes@.len() == self.joystick.spec_num_axes() as int
        &&& self.buttons@.len() == self.joystick.spec_num_buttons() as int
    }

    /// Whether the tables agree with the state the handle has already
    /// delivered: true from construction on a fresh handle, and
    /// preserved by every delivery.
    pub open spec fn synced(&self) -> bool {
        self.axes@ == self.joystick.consumed().axes && self.buttons@
            == self.joystick.consumed().buttons
    }

    /// Wrap a device handle, with every axis at rest and every button
    /// released; a handle that has not delivered anything yet starts
    /// out in sync.
    pub fn new(joystick: J) -> (r: Self)
        requires
            joystick.wf(),
        ensures
            r.wf(),
            r.joystick == joystick,
            r.state() == zero_state(joystick.spec_num_axes(), joystick.spec_num_buttons()),
            joystick.consumed() == zero_state(
                joystick.spec_num_axes(),
                joystick.spec_num_buttons(),
            ) ==> r.synced(),
    {
        proof {
            joystick.lemma_wf();
        }
        let na = joystick.num_axes();
        let nb = joystick.num_buttons();
        let mut axes: Vec<i16> = Vec::new();
        let mut i: u8 = 0;
        while i < na
            invariant
                i <= na,
                axes@ =~= Seq::new(i as nat, |k: int| 0i16),
            decreases na - i,
        {
            axes.push(0i16);
            proof {
                assert(axes@ =~= Seq::new(i as nat + 1, |k: int| 0i16));
            }
            i = i + 1;
        }
        let mut buttons: Vec<bool> = Vec::new();
        let mut b: u8 = 0;
        while b < nb
            invariant
                b <= nb,
                buttons@ =~= Seq::new(b as nat, |k: int| false),
            decreases nb - b,
        {
            buttons.push(false);
            proof {
                assert(buttons@ =~= Seq::new(b as nat + 1, |k: int| false));
            }
            b = b + 1;
        }
        let r = StatefulJoystick { joystick, axes, buttons };
        proof {
            assert(r.state().axes =~= zero_state(na, nb).axes);
            assert(r.state().buttons =~= zero_state(na, nb).buttons);
        }
        r
    }

    /// The cached position of an axis, or nothing when the ordinal
    /// exceeds the device's reported capability.
    pub fn axis(&self, axis: u8) -> (r: Option<i16>)
        requires
            self.wf(),
        ensures
            r == (if axis < self.joystick.spec_num_axes() {
                Some(self.axes@[axis as int])
            } else {
                None::<i16>
            }),
    {
        if axis < self.joystick.num_axes() {
            Some(self.axes[axis as usize])
        } else {
            None
        }
    }

    /// The cached digital state of a button, or nothing when the
    /// ordinal exceeds the device's reported capability.
    pub fn button(&self, button: u8) -> (r: Option<bool>)
        requires
            self.wf(),
        ensures
            r == (if button < self.joystick.spec_num_buttons() {
                Some(self.buttons@[button as int])
            } else {
                None::<bool>
            }),
    {
        if button < self.joystick.num_buttons() {
            Some(self.buttons[button as usize])
        } else {
            None
        }
    }

    /// Update the tables with the event given, when it speaks about
    /// this device; events for other devices and ordinals beyond the
    /// tables leave them alone.
    pub fn process(&mut self, event: Event)
        requires
            old(self).wf(),
        ensures
            final(self).wf(),
            final(self).joystick == old(self).joystick,
            final(self).state() == (if event_index(event) == old(self).joystick.spec_index() {
                spec_apply(old(self).state(), event)
            } else {
                old(self).state()
            }),
    {
        let index = self.joystick.index();
        match event {
            Event::ButtonPressed(i, b) => {
                if i == index && (b as usize) < self.buttons.len() {
                    self.buttons[b as usize] = true;
                }
            },
            Event::ButtonReleased(i, b) => {
                if i == index && (b as usize) < self.buttons.len() {
                    self.buttons[b as usize] = false;
                }
            },
            Event::AxisMoved(i, a, v) => {
                if i == index && (a as usize) < self.axes.len() {
                    self.axes[a as usize] = v;
                }
            },
            Event::Connected(_) => {},
            Event::Disconnected(_) => {},
        }
    }

    /// Drain every pending native update, applying each to the tables,
    /// so that one call brings the cache fully current.
    pub fn update(&mut self)
        requires
            old(self).wf(),
        ensures
            final(self).wf(),
            final(self).joystick.pending().len() == 0,
            final(self).joystick.spec_index() == old(self).joystick.spec_index(),
            final(self).joystick.spec_num_axes() == old(self).joystick.spec_num_axes(),
            final(self).joystick.spec_num_buttons() == old(self).joystick.spec_num_buttons(),
            final(self).joystick.spec_id() == old(self).joystick.spec_id(),
            final(self).joystick.spec_battery() == old(self).joystick.spec_battery(),
            final(self).joystick.spec_connected() == old(self).joystick.spec_connected(),
            final(self).state() == spec_apply_events(
                old(self).state(),
                old(self).joystick.pending(),
            ),
            final(self).joystick.consumed() == spec_apply_events(
                old(self).joystick.consumed(),
                old(self).joystick.pending(),
            ),
            old(self).synced() ==> final(self).synced(),
    {
        loop
            invariant
                self.wf(),
                self.joystick.spec_index() == old(self).joystick.spec_index(),
                self.joystick.spec_num_axes() == old(self).joystick.spec_num_axes(),
                self.joystick.spec_num_buttons() == old(self).joystick.spec_num_buttons(),
                self.joystick.spec_id() == old(self).joystick.spec_id(),
                self.joystick.spec_battery() == old(self).joystick.spec_battery(),
                self.joystick.spec_connected() == old(self).joystick.spec_connected(),
                spec_apply_events(self.state(), self.joystick.pending()) == spec_apply_events(
                    old(self).state(),
                    old(self).joystick.pending(),
                ),
                spec_apply_events(self.joystick.consumed(), self.joystick.pending())
                    == spec_apply_events(
                    old(self).joystick.consumed(),
                    old(self).joystick.pending(),
                ),
                old(self).synced() ==> self.synced(),
            ensures
                self.wf(),
                self.joystick.pending().len() == 0,
                self.joystick.spec_index() == old(self).joystick.spec_index(),
                self.joystick.spec_num_axes() == old(self).joystick.spec_num_axes(),
                self.joystick.spec_num_buttons() == old(self).joystick.spec_num_buttons(),
                self.joystick.spec_id() == old(self).joystick.spec_id(),
                self.joystick.spec_battery() == old(self).joystick.spec_battery(),
                self.joystick.spec_connected() == old(self).joystick.spec_connected(),
                spec_apply_events(self.state(), self.joystick.pending()) == spec_apply_events(
                    old(self).state(),
                    old(self).joystick.pending(),
                ),
                spec_apply_events(self.joystick.consumed(), self.joystick.pending())
                    == spec_apply_events(
                    old(self).joystick.consumed(),
                    old(self).joystick.pending(),
                ),
                old(self).synced() ==> self.synced(),
            decreases self.joystick.pending().len(),
        {
            let ghost pre = *self;
            let r = self.poll();
            match r {
                Some(e) => {
                    proof {
                        assert(spec_apply_events(pre.state(), pre.joystick.pending())
                            == spec_apply_events(self.state(), self.joystick.pending()));
                    }
                },
                None => {
                    break ;
                },
            }
        }
    }
}

impl<J: Joystick> Joystick for StatefulJoystick<J> {
    open spec fn wf(&self) -> bool {
        StatefulJoystick::wf(self)
    }

    open spec fn spec_index(&self) -> u8 {
        self.joystick.spec_index()
    }

    open spec fn spec_num_axes(&self) -> u8 {
        self.joystick.spec_num_axes()
    }

    open spec fn spec_num_buttons(&self) -> u8 {
        self.joystick.spec_num_buttons()
    }

    open spec fn spec_connected(&self) -> bool {
        self.joystick.spec_connected()
    }

    open spec fn spec_id(&self) -> Seq<char> {
        self.joystick.spec_id()
    }

    open spec fn spec_battery(&self) -> Option<u8> {
        self.joystick.spec_battery()
    }

    open spec fn pending(&self) -> Seq<Event> {
        self.joystick.pending()
    }

    open spec fn consumed(&self) -> StateView {
        self.joystick.consumed()
    }

    proof fn lemma_wf(&self) {
        self.joystick.lemma_wf();
    }

    fn connected(&self) -> bool {
        self.joystick.connected()
    }

    fn index(&self) -> u8 {
        self.joystick.index()
    }

    fn num_axes(&self) -> u8 {
        self.joystick.num_axes()
    }

    fn num_buttons(&self) -> u8 {
        self.joystick.num_buttons()
    }

    fn id(&self) -> &str {
        self.joystick.id()
    }

    fn battery(&self) -> Option<u8> {
        self.joystick.battery()
    }

    /// One poll: deliver the next event and apply its effect to the
    /// tables on the way out, so the cache stays in sync.
    fn poll(&mut self) -> (r: Option<Event>)
        ensures
            match r {
                Some(e) => final(self).state() == spec_apply(old(self).state(), e),
                None => final(self).state() == old(self).state(),
            },
            old(self).synced() ==> final(self).synced(),
    {
        proof {
            self.joystick.lemma_wf();
        }
        let r = self.joystick.poll();
        match r {
            Some(e) => {
                self.process(e);
                Some(e)
            },
            None => None,
        }
    }

    fn mark_gone(&mut self)
        ensures
            final(self).state() == old(self).state(),
    {
        self.joystick.mark_gone();
    }
}

/// Once `update` has drained every pending native update of a
/// snapshot-model device, the cache tables hold exactly the raw values
/// of the most recent snapshot, for every ordinal in range; queries out
/// of range return no value by `axis`'s and `button`'s own contracts.
pub proof fn lemma_cache_reflects_last_snapshot(c: &StatefulJoystick<SnapshotJoystick>)
    requires
        c.wf(),
        c.synced(),
        c.joystick.spec_connected(),
        c.joystick.pending().len() == 0,
    ensures
        c.axes@ == c.joystick.last.axes@,
        c.buttons@ == c.joystick.last.buttons@,
{
    assert(spec_apply_events(c.joystick.consumed@, c.joystick.queue@) == c.joystick.consumed@);
}

} // verus!
