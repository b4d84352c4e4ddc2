//! The backend registry.
//!
//! A `Native` registry owns every open device handle of one native kind
//! and multiplexes their event streams into one ordered, pull-style
//! queue. Hot-plug notifications and device loss are fed in from
//! outside as they are observed; `poll` then guarantees that callers
//! always learn of connectivity changes before further input from the
//! same or other devices.

use vstd::prelude::*;
use crate::events::{Event, event_index, is_input_event, spec_apply};
use crate::joystick::{Joystick, PushJoystick, SnapshotJoystick};
use crate::snapshot::{Snapshot, same_packet, spec_diff};

verus! {

/// The position of the first tracked handle at or after `i` that has
/// index `idx`, or -1 when there is none.
pub open spec fn find_index<J: Joystick>(js: Seq<J>, idx: u8, i: int) -> int
    decreases js.len() - i,
{
    if i < 0 || i >= js.len() {
        -1
    } else if js[i].spec_index() == idx {
        i
    } else {
        find_index(js, idx, i + 1)
    }
}

/// The position of the first tracked handle at or after `i` that has
/// stopped reporting itself connected, or -1 when all are connected.
pub open spec fn first_dead<J: Joystick>(js: Seq<J>, i: int) -> int
    decreases js.len() - i,
{
    if i < 0 || i >= js.len() {
        -1
    } else if !js[i].spec_connected() {
        i
    } else {
        first_dead(js, i + 1)
    }
}

/// The position of the first tracked handle at or after `i` with an
/// undelivered event, or -1 when every queue is empty.
pub open spec fn first_ready<J: Joystick>(js: Seq<J>, i: int) -> int
    decreases js.len() - i,
{
    if i < 0 || i >= js.len() {
        -1
    } else if js[i].pending().len() > 0 {
        i
    } else {
        first_ready(js, i + 1)
    }
}

/// The tracked handles with the one at `k` dropped, when `k` points at
/// one.
pub open spec fn remove_at_or_same<J: Joystick>(js: Seq<J>, k: int) -> Seq<J> {
    if 0 <= k < js.len() {
        js.remove(k)
    } else {
        js
    }
}

/// A backend registry: tracks every open joystick of one native kind
/// and serves their events, oldest first per device, connectivity
/// first overall.
pub struct Native<J: Joystick> {
    pub joysticks: Vec<J>,
    pub pending: Vec<Event>,
}

impl<J: Joystick> Native<J> {
    /// Every tracked handle is sound; one that has stopped reporting
    /// itself connected still owes exactly its terminal `Disconnected`;
    /// and the registry's own queue holds lifecycle events only.
    pub open spec fn wf(&self) -> bool {
        &&& forall|i: int| 0 <= i < self.joysticks@.len() ==> (#[trigger] self.joysticks@[i]).wf()
        &&& forall|i: int|
            0 <= i < self.joysticks@.len() ==> (!(#[trigger] self.joysticks@[i]).spec_connected()
                ==> self.joysticks@[i].pending() == seq![
                Event::Disconnected(self.joysticks@[i].spec_index()),
            ])
        &&& forall|i: int|
            0 <= i < self.pending@.len() ==> !is_input_event(#[trigger] self.pending@[i])
    }

    /// Track the given freshly opened handles, queueing one `Connected`
    /// event per handle, in order, to be delivered before any of their
    /// input.
    pub fn new(handles: Vec<J>) -> (r: Self)
        requires
            forall|i: int| 0 <= i < handles@.len() ==> (#[trigger] handles@[i]).wf(),
            forall|i: int|
                0 <= i < handles@.len() ==> (#[trigger] handles@[i]).spec_connected(),
        ensures
            r.wf(),
            r.joysticks@ == handles@,
            r.pending@ == Seq::new(
                handles@.len(),
                |k: int| Event::Connected(handles@[k].spec_index()),
            ),
    {
        let mut pending: Vec<Event> = Vec::new();
        let mut i: usize = 0;
        while i < handles.len()
            invariant
                i <= handles@.len(),
                forall|k: int| 0 <= k < handles@.len() ==> (#[trigger] handles@[k]).wf(),
                pending@ =~= Seq::new(
                    i as nat,
                    |k: int| Event::Connected(handles@[k].spec_index()),
                ),
            decreases handles@.len() - i,
        {
            pending.push(Event::Connected(handles[i].index()));
            proof {
                assert(pending@ =~= Seq::new(
                    i as nat + 1,
                    |k: int| Event::Connected(handles@[k].spec_index()),
                ));
            }
            i += 1;
        }
        Native { joysticks: handles, pending }
    }

    /// The number of joysticks tracked.
    pub fn num_joysticks(&self) -> (r: usize)
        ensures
            r == self.joysticks@.len(),
    {
        self.joysticks.len()
    }

    /// The joysticks tracked, read-only.
    pub fn joysticks(&self) -> (r: &Vec<J>)
        ensures
            r == &self.joysticks,
    {
        &self.joysticks
    }

    /// Track one more freshly opened handle (hot-plug arrival): its
    /// `Connected` event queues up for delivery before any of its
    /// input.
    pub fn add(&mut self, joystick: J)
        requires
            old(self).wf(),
            joystick.wf(),
            joystick.spec_connected(),
        ensures
            final(self).wf(),
            final(self).joysticks@ == old(self).joysticks@.push(joystick),
            final(self).pending@ == old(self).pending@.push(
                Event::Connected(joystick.spec_index()),
            ),
    {
        let idx = joystick.index();
        self.joysticks.push(joystick);
        self.pending.push(Event::Connected(idx));
        proof {
            assert forall|i: int| 0 <= i < self.joysticks@.len() implies (
            #[trigger] self.joysticks@[i]).wf() && (!self.joysticks@[i].spec_connected()
                ==> self.joysticks@[i].pending() == seq![
                Event::Disconnected(self.joysticks@[i].spec_index()),
            ]) by {
                if i < old(self).joysticks@.len() {
                    assert(self.joysticks@[i] == old(self).joysticks@[i]);
                }
            }
            assert forall|i: int| 0 <= i < self.pending@.len() implies !is_input_event(
                #[trigger] self.pending@[i],
            ) by {
                if i < old(self).pending@.len() {
                    assert(self.pending@[i] == old(self).pending@[i]);
                }
            }
        }
    }

    /// Note that an external hot-plug notifier reported the device
    /// with index `idx` as gone: its `Disconnected` event queues up and
    /// takes priority over any device-internal input.
    pub fn note_removed(&mut self, idx: u8)
        requires
            old(self).wf(),
        ensures
            final(self).wf(),
            final(self).joysticks@ == old(self).joysticks@,
            final(self).pending@ == old(self).pending@.push(Event::Disconnected(idx)),
    {
        self.pending.push(Event::Disconnected(idx));
        proof {
            assert forall|i: int| 0 <= i < self.pending@.len() implies !is_input_event(
                #[trigger] self.pending@[i],
            ) by {
                if i < old(self).pending@.len() {
                    assert(self.pending@[i] == old(self).pending@[i]);
                }
            }
        }
    }

    /// Note that the device in the given slot suffered a fatal native
    /// condition: the handle stops reporting itself connected and owes
    /// exactly one terminal `Disconnected`, which `poll` will deliver
    /// before any device-internal input.
    pub fn feed_disconnect(&mut self, slot: usize)
        requires
            old(self).wf(),
            slot < old(self).joysticks@.len(),
            old(self).joysticks@[slot as int].spec_connected(),
        ensures
            final(self).wf(),
            final(self).pending@ == old(self).pending@,
            final(self).joysticks@.len() == old(self).joysticks@.len(),
            forall|m: int|
                0 <= m < old(self).joysticks@.len() && m != slot
                    ==> final(self).joysticks@[m] == old(self).joysticks@[m],
            !final(self).joysticks@[slot as int].spec_connected(),
            final(self).joysticks@[slot as int].spec_index() == old(self).joysticks@[slot as int].spec_index(),
            final(self).joysticks@[slot as int].pending() == seq![
                Event::Disconnected(old(self).joysticks@[slot as int].spec_index()),
            ],
    {
        self.joysticks[slot].mark_gone();
        proof {
            assert forall|i: int| 0 <= i < self.joysticks@.len() implies (
            #[trigger] self.joysticks@[i]).wf() && (!self.joysticks@[i].spec_connected()
                ==> self.joysticks@[i].pending() == seq![
                Event::Disconnected(self.joysticks@[i].spec_index()),
            ]) by {
                if i != slot {
                    assert(self.joysticks@[i] == old(self).joysticks@[i]);
                }
            }
        }
    }

    /// Drop the first tracked handle with index `idx` from the list,
    /// if one is tracked.
    #[verifier::loop_isolation(false)]
    fn remove_with_index(&mut self, idx: u8)
        requires
            old(self).wf(),
        ensures
            final(self).wf(),
            final(self).pending@ == old(self).pending@,
            final(self).joysticks@ == remove_at_or_same(
                old(self).joysticks@,
                find_index(old(self).joysticks@, idx, 0),
            ),
    {
        let ghost js0 = self.joysticks@;
        let mut j: usize = 0;
        while j < self.joysticks.len()
            invariant
                self.joysticks@ == js0,
                self.pending@ == old(self).pending@,
                j <= js0.len(),
                forall|i: int| 0 <= i < js0.len() ==> (#[trigger] js0[i]).wf(),
                find_index(js0, idx, 0) == find_index(js0, idx, j as int),
            decreases js0.len() - j,
        {
            if self.joysticks[j].index() == idx {
                proof {
                    assert(find_index(js0, idx, j as int) == j as int);
                }
                self.joysticks.remove(j);
                proof {
                    assert(self.joysticks@ == js0.remove(j as int));
                    assert(js0.remove(j as int) == js0.subrange(0, j as int) + js0.subrange(
                        j as int + 1,
                        js0.len() as int,
                    ));
                    assert forall|i: int| 0 <= i < self.joysticks@.len() implies (
                    #[trigger] self.joysticks@[i]).wf() && (!self.joysticks@[i].spec_connected()
                        ==> self.joysticks@[i].pending() == seq![
                        Event::Disconnected(self.joysticks@[i].spec_index()),
                    ]) by {
                        if i < j {
                            assert(self.joysticks@[i] == js0.subrange(0, j as int)[i]);
                            assert(self.joysticks@[i] == js0[i]);
                        } else {
                            assert(self.joysticks@[i] == js0.subrange(
                                j as int + 1,
                                js0.len() as int,
                            )[i - j]);
                            assert(self.joysticks@[i] == js0[i + 1]);
                        }
                    }
                }
                return ;
            }
            j += 1;
        }
        proof {
            assert(find_index(js0, idx, js0.len() as int) == -1);
        }
    }

    /// Deliver the next pending event from any tracked device, or a
    /// hot-plug event, or nothing. Never blocks. Connectivity comes
    /// first: the registry's own lifecycle queue is served before any
    /// device, a device that suffered a fatal condition delivers its
    /// terminal `Disconnected` (and leaves the tracked list, only now)
    /// before any device-internal input, and only then does the first
    /// device with queued input deliver its oldest event.
    #[verifier::loop_isolation(false)]
    pub fn poll(&mut self) -> (r: Option<Event>)
        requires
            old(self).wf(),
        ensures
            final(self).wf(),
            old(self).pending@.len() > 0 ==> {
                let e = old(self).pending@[0];
                &&& r == Some(e)
                &&& final(self).pending@ == old(self).pending@.drop_first()
                &&& final(self).joysticks@ == (match e {
                    Event::Disconnected(idx) => remove_at_or_same(
                        old(self).joysticks@,
                        find_index(old(self).joysticks@, idx, 0),
                    ),
                    _ => old(self).joysticks@,
                })
            },
            old(self).pending@.len() == 0 && first_dead(old(self).joysticks@, 0) >= 0 ==> {
                let k = first_dead(old(self).joysticks@, 0);
                &&& r == Some(Event::Disconnected(old(self).joysticks@[k].spec_index()))
                &&& final(self).joysticks@ == old(self).joysticks@.remove(k)
                &&& final(self).pending@ == old(self).pending@
            },
            old(self).pending@.len() == 0 && first_dead(old(self).joysticks@, 0) == -1
                && first_ready(old(self).joysticks@, 0) >= 0 ==> {
                let k = first_ready(old(self).joysticks@, 0);
                let e = old(self).joysticks@[k].pending()[0];
                &&& r == Some(e)
                &&& final(self).pending@ == old(self).pending@
                &&& final(self).joysticks@.len() == old(self).joysticks@.len()
                &&& forall|m: int|
                    0 <= m < old(self).joysticks@.len() && m != k ==> final(self).joysticks@[m]
                        == old(self).joysticks@[m]
                &&& final(self).joysticks@[k].pending() == old(self).joysticks@[k].pending(
                ).drop_first()
                &&& final(self).joysticks@[k].consumed() == spec_apply(
                    old(self).joysticks@[k].consumed(),
                    e,
                )
                &&& final(self).joysticks@[k].spec_index() == old(self).joysticks@[k].spec_index()
            },
            old(self).pending@.len() == 0 && first_dead(old(self).joysticks@, 0) == -1
                && first_ready(old(self).joysticks@, 0) == -1
                ==> r == None::<Event> && final(self).joysticks@ == old(self).joysticks@
                && final(self).pending@ == old(self).pending@,
    {
        if self.pending.len() > 0 {
            let ghost pq0 = self.pending@;
            let e = self.pending.remove(0);
            proof {
                assert(self.pending@ =~= pq0.drop_first());
                assert forall|i: int| 0 <= i < self.pending@.len() implies !is_input_event(
                    #[trigger] self.pending@[i],
                ) by {
                    assert(self.pending@[i] == pq0[i + 1]);
                }
            }
            match e {
                Event::Disconnected(idx) => {
                    self.remove_with_index(idx);
                },
                _ => {},
            }
            return Some(e);
        }
        let ghost js0 = self.joysticks@;
        let mut j: usize = 0;
        while j < self.joysticks.len()
            invariant
                self.joysticks@ == js0,
                self.pending@.len() == 0,
                self.pending@ == old(self).pending@,
                j <= js0.len(),
                forall|i: int| 0 <= i < js0.len() ==> (#[trigger] js0[i]).wf(),
                forall|i: int|
                    0 <= i < js0.len() ==> (!(#[trigger] js0[i]).spec_connected() ==> js0[i].pending()
                        == seq![Event::Disconnected(js0[i].spec_index())]),
                forall|i: int| 0 <= i < j ==> (#[trigger] js0[i]).spec_connected(),
                first_dead(js0, 0) == first_dead(js0, j as int),
            decreases js0.len() - j,
        {
            if !self.joysticks[j].connected() {
                proof {
                    assert(first_dead(js0, j as int) == j as int);
                }
                let h = self.joysticks.remove(j);
                let e = Event::Disconnected(h.index());
                proof {
                    assert(self.joysticks@ == js0.remove(j as int));
                    assert(js0.remove(j as int) == js0.subrange(0, j as int) + js0.subrange(
                        j as int + 1,
                        js0.len() as int,
                    ));
                    assert forall|i: int| 0 <= i < self.joysticks@.len() implies (
                    #[trigger] self.joysticks@[i]).wf() && (!self.joysticks@[i].spec_connected()
                        ==> self.joysticks@[i].pending() == seq![
                        Event::Disconnected(self.joysticks@[i].spec_index()),
                    ]) by {
                        if i < j {
                            assert(self.joysticks@[i] == js0.subrange(0, j as int)[i]);
                            assert(self.joysticks@[i] == js0[i]);
                        } else {
                            assert(self.joysticks@[i] == js0.subrange(
                                j as int + 1,
                                js0.len() as int,
                            )[i - j]);
                            assert(self.joysticks@[i] == js0[i + 1]);
                        }
                    }
                }
                return Some(e);
            }
            j += 1;
        }
        proof {
            assert(first_dead(js0, js0.len() as int) == -1);
        }
        let mut k: usize = 0;
        while k < self.joysticks.len()
            invariant
                self.joysticks@ == js0,
                self.pending@.len() == 0,
                self.pending@ == old(self).pending@,
                k <= js0.len(),
                forall|i: int| 0 <= i < js0.len() ==> (#[trigger] js0[i]).wf(),
                forall|i: int|
                    0 <= i < js0.len() ==> (!(#[trigger] js0[i]).spec_connected() ==> js0[i].pending()
                        == seq![Event::Disconnected(js0[i].spec_index())]),
                first_dead(js0, 0) == -1,
                forall|i: int| 0 <= i < js0.len() ==> (#[trigger] js0[i]).spec_connected(),
                first_ready(js0, 0) == first_ready(js0, k as int),
            decreases js0.len() - k,
        {
            let ghost before = self.joysticks@[k as int];
            let r = self.joysticks[k].poll();
            match r {
                Some(e) => {
                    proof {
                        assert(first_ready(js0, k as int) == k as int);
                        assert forall|i: int| 0 <= i < self.joysticks@.len() implies (
                        #[trigger] self.joysticks@[i]).wf() && (!self.joysticks@[i].spec_connected()
                            ==> self.joysticks@[i].pending() == seq![
                            Event::Disconnected(self.joysticks@[i].spec_index()),
                        ]) by {
                            if i != k {
                                assert(self.joysticks@[i] == js0[i]);
                            }
                        }
                    }
                    return Some(e);
                },
                None => {
                    proof {
                        assert(self.joysticks@ =~= js0);
                    }
                },
            }
            k += 1;
        }
        proof {
            assert(first_ready(js0, js0.len() as int) == -1);
        }
        None
    }
}

impl Native<PushJoystick> {
    /// Queue one decoded native event for the device in the given
    /// slot; events whose ordinal exceeds the device's capabilities are
    /// dropped.
    pub fn feed_event(&mut self, slot: usize, e: Event)
        requires
            old(self).wf(),
            slot < old(self).joysticks@.len(),
            old(self).joysticks@[slot as int].spec_connected(),
            is_input_event(e),
            event_index(e) == old(self).joysticks@[slot as int].spec_index(),
        ensures
            final(self).wf(),
            final(self).pending@ == old(self).pending@,
            final(self).joysticks@.len() == old(self).joysticks@.len(),
            forall|m: int|
                0 <= m < old(self).joysticks@.len() && m != slot
                    ==> final(self).joysticks@[m] == old(self).joysticks@[m],
            final(self).joysticks@[slot as int].spec_connected(),
            final(self).joysticks@[slot as int].spec_index() == old(self).joysticks@[slot as int].spec_index(),
            final(self).joysticks@[slot as int].pending() == (if crate::joystick::in_caps(
                e,
                old(self).joysticks@[slot as int].spec_num_axes(),
                old(self).joysticks@[slot as int].spec_num_buttons(),
            ) {
                old(self).joysticks@[slot as int].pending().push(e)
            } else {
                old(self).joysticks@[slot as int].pending()
            }),
            final(self).joysticks@[slot as int].consumed() == old(self).joysticks@[slot as int].consumed(),
    {
        self.joysticks[slot].feed_event(e);
        proof {
            assert forall|i: int| 0 <= i < self.joysticks@.len() implies (
            #[trigger] self.joysticks@[i]).wf() && (!self.joysticks@[i].spec_connected()
                ==> self.joysticks@[i].pending() == seq![
                Event::Disconnected(self.joysticks@[i].spec_index()),
            ]) by {
                if i != slot {
                    assert(self.joysticks@[i] == old(self).joysticks@[i]);
                }
            }
        }
    }
}

impl Native<SnapshotJoystick> {
    /// Feed the next full-state snapshot to the device in the given
    /// slot; the diff against its previous snapshot queues up there.
    pub fn feed_snapshot(&mut self, slot: usize, snap: Snapshot)
        requires
            old(self).wf(),
            slot < old(self).joysticks@.len(),
            old(self).joysticks@[slot as int].spec_connected(),
            snap.wf(),
            snap.axes@.len() == old(self).joysticks@[slot as int].last.axes@.len(),
            snap.buttons@.len() == old(self).joysticks@[slot as int].last.buttons@.len(),
        ensures
            final(self).wf(),
            final(self).pending@ == old(self).pending@,
            final(self).joysticks@.len() == old(self).joysticks@.len(),
            forall|m: int|
                0 <= m < old(self).joysticks@.len() && m != slot
                    ==> final(self).joysticks@[m] == old(self).joysticks@[m],
            final(self).joysticks@[slot as int].spec_connected(),
            final(self).joysticks@[slot as int].spec_index() == old(self).joysticks@[slot as int].spec_index(),
            same_packet(old(self).joysticks@[slot as int].last.packet, snap.packet) ==> final(self).joysticks@[slot as int] == old(self).joysticks@[slot as int],
            !same_packet(old(self).joysticks@[slot as int].last.packet, snap.packet) ==> final(self).joysticks@[slot as int].last == snap && final(self).joysticks@[slot as int].pending() == old(self).joysticks@[slot as int].pending()
                + spec_diff(
                old(self).joysticks@[slot as int].spec_index(),
                old(self).joysticks@[slot as int].last.state(),
                snap.state(),
            ),
    {
        self.joysticks[slot].feed_snapshot(snap);
        proof {
            assert forall|i: int| 0 <= i < self.joysticks@.len() implies (
            #[trigger] self.joysticks@[i]).wf() && (!self.joysticks@[i].spec_connected()
                ==> self.joysticks@[i].pending() == seq![
                Event::Disconnected(self.joysticks@[i].spec_index()),
            ]) by {
                if i != slot {
                    assert(self.joysticks@[i] == old(self).joysticks@[i]);
                }
            }
        }
    }
}

} // verus!
