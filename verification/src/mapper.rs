//! The remapping layer.
//!
//! A `JoystickMapper` wraps any device-handle-compatible component and
//! rewrites the logical axis/button identifiers its events carry
//! through a caller-supplied table; lookups of cached state translate
//! the queried identifier through the same table, so remapping looks
//! the same whether a caller observes events or queries state.
//!
//! The tables are shared across mappers derived from one another
//! (copy-on-write): deriving a mapper only bumps a reference count, and
//! a mutation first builds a private copy of the table, so sibling
//! mappers are never disturbed.

use vstd::prelude::*;
use std::rc::Rc;
use std::collections::BTreeMap;
use crate::events::{Event, StateView, event_index, is_input_event, spec_apply, zero_state};
use crate::joystick::Joystick;
use crate::stateful::StatefulJoystick;

verus! {

broadcast use vstd::laws_cmp::group_laws_cmp, vstd::std_specs::btree::group_btree_axioms;

/// Where a remap table leads one identifier: to its entry when it has
/// one, and through unchanged otherwise.
pub open spec fn spec_remap(m: Map<u8, u8>, x: u8) -> u8 {
    if m.contains_key(x) {
        m[x]
    } else {
        x
    }
}

/// How a remapper rewrites one event: only the axis/button field of an
/// input event goes through its table; the device index is untouched
/// and lifecycle events pass through whole.
pub open spec fn spec_remap_event(axes: Map<u8, u8>, buttons: Map<u8, u8>, e: Event) -> Event {
    match e {
        Event::ButtonPressed(i, b) => Event::ButtonPressed(i, spec_remap(buttons, b)),
        Event::ButtonReleased(i, b) => Event::ButtonReleased(i, spec_remap(buttons, b)),
        Event::AxisMoved(i, a, v) => Event::AxisMoved(i, spec_remap(axes, a), v),
        Event::Connected(_) => e,
        Event::Disconnected(_) => e,
    }
}

/// A remap table extended by a batch of entries, first to last; a later
/// entry for the same source wins.
pub open spec fn spec_insert_all(m: Map<u8, u8>, pairs: Seq<(u8, u8)>) -> Map<u8, u8>
    decreases pairs.len(),
{
    if pairs.len() == 0 {
        m
    } else {
        spec_insert_all(m.insert(pairs[0].0, pairs[0].1), pairs.drop_first())
    }
}

proof fn lemma_insert_all_push(m: Map<u8, u8>, pairs: Seq<(u8, u8)>, p: (u8, u8))
    ensures
        spec_insert_all(m, pairs.push(p)) == spec_insert_all(m, pairs).insert(p.0, p.1),
    decreases pairs.len(),
{
    let s = pairs.push(p);
    if pairs.len() == 0 {
        assert(s.len() == 1);
        assert(s[0] == p);
        assert(s.drop_first() =~= Seq::<(u8, u8)>::empty());
        assert(spec_insert_all(m, s) == spec_insert_all(m.insert(p.0, p.1), s.drop_first()));
        assert(spec_insert_all(m.insert(p.0, p.1), s.drop_first()) == m.insert(p.0, p.1));
        assert(spec_insert_all(m, pairs) == m);
    } else {
        assert(s[0] == pairs[0]);
        assert(s.drop_first() =~= pairs.drop_first().push(p));
        lemma_insert_all_push(m.insert(pairs[0].0, pairs[0].1), pairs.drop_first(), p);
        assert(spec_insert_all(m, s) == spec_insert_all(m.insert(s[0].0, s[0].1), s.drop_first()));
        assert(spec_insert_all(m, pairs) == spec_insert_all(
            m.insert(pairs[0].0, pairs[0].1),
            pairs.drop_first(),
        ));
    }
}

/// Relies on Rc::as_ref: reading through the shared pointer yields the
/// pointed-to table itself.
#[verifier::external_body]
fn table_ref(t: &Rc<BTreeMap<u8, u8>>) -> (r: &BTreeMap<u8, u8>)
    ensures
        r@ == t@,
{
    t.as_ref()
}

/// Relies on Rc::clone: the derived handle shares the pointed-to table
/// unchanged; nothing is copied until somebody writes.
#[verifier::external_body]
fn share_table(t: &Rc<BTreeMap<u8, u8>>) -> (r: Rc<BTreeMap<u8, u8>>)
    ensures
        r@ == t@,
{
    Rc::clone(t)
}

/// A joystick mapper: lets a caller remap a wrapped joystick's buttons
/// and axes. The two tables are shared between derived mappers until
/// one of them mutates its own (copy-on-write).
pub struct JoystickMapper<J: Joystick> {
    pub joystick: J,
    pub axes: Rc<BTreeMap<u8, u8>>,
    pub buttons: Rc<BTreeMap<u8, u8>>,
    pub consumed: Ghost<StateView>,
}

impl<J: Joystick> JoystickMapper<J> {
    /// The mapper's internal invariant.
    pub open spec fn wf(&self) -> bool {
        &&& self.joystick.wf()
        &&& self.consumed@.axes.len() == self.joystick.spec_num_axes() as int
        &&& self.consumed@.buttons.len() == self.joystick.spec_num_buttons() as int
    }

    /// Start mapping a joystick: both tables begin empty, so every
    /// identifier passes through unchanged.
    pub fn new(joystick: J) -> (r: Self)
        requires
            joystick.wf(),
        ensures
            r.wf(),
            r.joystick == joystick,
            r.axes@ == Map::<u8, u8>::empty(),
            r.buttons@ == Map::<u8, u8>::empty(),
            r.consumed@ == zero_state(joystick.spec_num_axes(), joystick.spec_num_buttons()),
    {
        proof {
            joystick.lemma_wf();
        }
        let ghost st = zero_state(joystick.spec_num_axes(), joystick.spec_num_buttons());
        JoystickMapper {
            joystick,
            axes: Rc::new(BTreeMap::new()),
            buttons: Rc::new(BTreeMap::new()),
            consumed: Ghost(st),
        }
    }

    /// Map a button to another button. The write lands in a private
    /// copy of the table: mappers sharing the old table keep it as it
    /// was.
    pub fn map_button(&mut self, from: u8, to: u8)
        requires
            old(self).wf(),
        ensures
            final(self).wf(),
            final(self).joystick == old(self).joystick,
            final(self).axes@ == old(self).axes@,
            final(self).buttons@ == old(self).buttons@.insert(from, to),
            final(self).consumed == old(self).consumed,
    {
        let t = table_ref(&self.buttons);
        let mut owned = t.clone();
        owned.insert(from, to);
        self.buttons = Rc::new(owned);
    }

    /// Map an axis to another axis, through a private copy as
    /// `map_button`.
    pub fn map_axis(&mut self, from: u8, to: u8)
        requires
            old(self).wf(),
        ensures
            final(self).wf(),
            final(self).joystick == old(self).joystick,
            final(self).buttons@ == old(self).buttons@,
            final(self).axes@ == old(self).axes@.insert(from, to),
            final(self).consumed == old(self).consumed,
    {
        let t = table_ref(&self.axes);
        let mut owned = t.clone();
        owned.insert(from, to);
        self.axes = Rc::new(owned);
    }

    /// Map a multitude of buttons to other buttons. More efficient
    /// than mapping them one by one: the private copy is taken once.
    pub fn map_buttons(&mut self, pairs: &Vec<(u8, u8)>)
        requires
            old(self).wf(),
        ensures
            final(self).wf(),
            final(self).joystick == old(self).joystick,
            final(self).axes@ == old(self).axes@,
            final(self).buttons@ == spec_insert_all(old(self).buttons@, pairs@),
            final(self).consumed == old(self).consumed,
    {
        let t = table_ref(&self.buttons);
        let mut owned = t.clone();
        let mut i: usize = 0;
        while i < pairs.len()
            invariant
                i <= pairs@.len(),
                owned@ == spec_insert_all(old(self).buttons@, pairs@.take(i as int)),
            decreases pairs@.len() - i,
        {
            let (from, to) = pairs[i];
            owned.insert(from, to);
            proof {
                lemma_insert_all_push(old(self).buttons@, pairs@.take(i as int), pairs@[i as int]);
                assert(pairs@.take(i as int).push(pairs@[i as int]) =~= pairs@.take(i as int + 1));
            }
            i += 1;
        }
        proof {
            assert(pairs@.take(pairs@.len() as int) =~= pairs@);
        }
        self.buttons = Rc::new(owned);
    }

    /// Map a multitude of axes to other axes, with one private copy as
    /// `map_buttons`.
    pub fn map_axes(&mut self, pairs: &Vec<(u8, u8)>)
        requires
            old(self).wf(),
        ensures
            final(self).wf(),
            final(self).joystick == old(self).joystick,
            final(self).buttons@ == old(self).buttons@,
            final(self).axes@ == spec_insert_all(old(self).axes@, pairs@),
            final(self).consumed == old(self).consumed,
    {
        let t = table_ref(&self.axes);
        let mut owned = t.clone();
        let mut i: usize = 0;
        while i < pairs.len()
            invariant
                i <= pairs@.len(),
                owned@ == spec_insert_all(old(self).axes@, pairs@.take(i as int)),
            decreases pairs@.len() - i,
        {
            let (from, to) = pairs[i];
            owned.insert(from, to);
            proof {
                lemma_insert_all_push(old(self).axes@, pairs@.take(i as int), pairs@[i as int]);
                assert(pairs@.take(i as int).push(pairs@[i as int]) =~= pairs@.take(i as int + 1));
            }
            i += 1;
        }
        proof {
            assert(pairs@.take(pairs@.len() as int) =~= pairs@);
        }
        self.axes = Rc::new(owned);
    }

    /// Where the axis table leads `a`.
    fn lookup_axis(&self, a: u8) -> (r: u8)
        ensures
            r == spec_remap(self.axes@, a),
    {
        let t = table_ref(&self.axes);
        match t.get(&a) {
            Some(x) => *x,
            None => a,
        }
    }

    /// Where the button table leads `b`.
    fn lookup_button(&self, b: u8) -> (r: u8)
        ensures
            r == spec_remap(self.buttons@, b),
    {
        let t = table_ref(&self.buttons);
        match t.get(&b) {
            Some(x) => *x,
            None => b,
        }
    }

    /// Rewrite one event through the tables.
    fn remap_event(&self, e: Event) -> (r: Event)
        ensures
            r == spec_remap_event(self.axes@, self.buttons@, e),
    {
        match e {
            Event::ButtonPressed(i, b) => Event::ButtonPressed(i, self.lookup_button(b)),
            Event::ButtonReleased(i, b) => Event::ButtonReleased(i, self.lookup_button(b)),
            Event::AxisMoved(i, a, v) => Event::AxisMoved(i, self.lookup_axis(a), v),
            Event::Connected(i) => Event::Connected(i),
            Event::Disconnected(i) => Event::Disconnected(i),
        }
    }

    /// Upgrade the wrapped joystick into a stateful one, keeping the
    /// mapping: the new mapper shares both tables with whatever this
    /// mapper shared them with (copy-on-write, no table is copied).
    pub fn with_state(self) -> (r: JoystickMapper<StatefulJoystick<J>>)
        requires
            self.wf(),
        ensures
            r.wf(),
            r.joystick.joystick == self.joystick,
            r.axes@ == self.axes@,
            r.buttons@ == self.buttons@,
            r.joystick.state() == zero_state(
                self.joystick.spec_num_axes(),
                self.joystick.spec_num_buttons(),
            ),
    {
        JoystickMapper {
            joystick: StatefulJoystick::new(self.joystick),
            axes: self.axes,
            buttons: self.buttons,
            consumed: self.consumed,
        }
    }
}

impl<J: Joystick> JoystickMapper<StatefulJoystick<J>> {
    /// The cached position of an axis, queried under the caller's
    /// logical naming: the ordinal first translates through the axis
    /// table, then reads the wrapped cache.
    pub fn axis(&self, axis: u8) -> (r: Option<i16>)
        requires
            self.wf(),
        ensures
            r == (if spec_remap(self.axes@, axis) < self.joystick.joystick.spec_num_axes() {
                Some(self.joystick.axes@[spec_remap(self.axes@, axis) as int])
            } else {
                None::<i16>
            }),
    {
        let a = self.lookup_axis(axis);
        self.joystick.axis(a)
    }

    /// The cached state of a button, queried under the caller's
    /// logical naming as `axis`.
    pub fn button(&self, button: u8) -> (r: Option<bool>)
        requires
            self.wf(),
        ensures
            r == (if spec_remap(self.buttons@, button) < self.joystick.joystick.spec_num_buttons() {
                Some(self.joystick.buttons@[spec_remap(self.buttons@, button) as int])
            } else {
                None::<bool>
            }),
    {
        let b = self.lookup_button(button);
        self.joystick.button(b)
    }

    /// Drain every pending native update into the wrapped cache.
    pub fn update(&mut self)
        requires
            old(self).wf(),
        ensures
            final(self).wf(),
            final(self).joystick.joystick.pending().len() == 0,
            final(self).axes@ == old(self).axes@,
            final(self).buttons@ == old(self).buttons@,
    {
        self.joystick.update();
    }
}

impl<J: Joystick + Clone> Clone for JoystickMapper<J> {
    /// Derive a sibling mapper: both tables are shared, not copied,
    /// and stay shared until one side mutates its own (which then
    /// works on a private copy, leaving this mapper's mapping alone).
    fn clone(&self) -> (r: Self)
        ensures
            r.axes@ == self.axes@,
            r.buttons@ == self.buttons@,
            r.consumed == self.consumed,
    {
        JoystickMapper {
            joystick: self.joystick.clone(),
            axes: share_table(&self.axes),
            buttons: share_table(&self.buttons),
            consumed: Ghost(self.consumed@),
        }
    }
}

impl<J: Joystick> Joystick for JoystickMapper<J> {
    open spec fn wf(&self) -> bool {
        JoystickMapper::wf(self)
    }

    open spec fn spec_index(&self) -> u8 {
        self.joystick.spec_index()
    }

    open spec fn spec_num_axes(&self) -> u8 {
        self.joystick.spec_num_axes()
    }

    open spec fn spec_num_buttons(&self) -> u8 {
        self.joystick.spec_num_buttons()
    }

    open spec fn spec_connected(&self) -> bool {
        self.joystick.spec_connected()
    }

    open spec fn spec_id(&self) -> Seq<char> {
        self.joystick.spec_id()
    }

    open spec fn spec_battery(&self) -> Option<u8> {
        self.joystick.spec_battery()
    }

    open spec fn pending(&self) -> Seq<Event> {
        self.joystick.pending().map_values(
            |e: Event| spec_remap_event(self.axes@, self.buttons@, e),
        )
    }

    open spec fn consumed(&self) -> StateView {
        self.consumed@
    }

    proof fn lemma_wf(&self) {
        self.joystick.lemma_wf();
        assert forall|i: int| 0 <= i < self.pending().len() implies event_index(
            #[trigger] self.pending()[i],
        ) == self.spec_index() && (self.spec_connected() ==> is_input_event(self.pending()[i])) by {
            assert(self.pending()[i] == spec_remap_event(
                self.axes@,
                self.buttons@,
                self.joystick.pending()[i],
            ));
        }
        if !self.spec_connected() {
            if self.joystick.pending() == seq![Event::Disconnected(self.spec_index())] {
                assert(self.pending() =~= seq![Event::Disconnected(self.spec_index())]);
            } else {
                assert(self.pending() =~= Seq::<Event>::empty());
            }
        }
    }

    fn connected(&self) -> bool {
        self.joystick.connected()
    }

    fn index(&self) -> u8 {
        self.joystick.index()
    }

    fn num_axes(&self) -> u8 {
        self.joystick.num_axes()
    }

    fn num_buttons(&self) -> u8 {
        self.joystick.num_buttons()
    }

    fn id(&self) -> &str {
        self.joystick.id()
    }

    fn battery(&self) -> Option<u8> {
        self.joystick.battery()
    }

    /// Poll the wrapped component and rewrite the delivered event's
    /// axis/button field through the tables.
    fn poll(&mut self) -> (r: Option<Event>)
        ensures
            final(self).axes@ == old(self).axes@,
            final(self).buttons@ == old(self).buttons@,
            r == (if old(self).joystick.pending().len() > 0 {
                Some(
                    spec_remap_event(
                        old(self).axes@,
                        old(self).buttons@,
                        old(self).joystick.pending()[0],
                    ),
                )
            } else {
                None::<Event>
            }),
    {
        proof {
            self.joystick.lemma_wf();
        }
        let ghost pending0 = self.pending();
        let r = self.joystick.poll();
        match r {
            Some(e) => {
                let e2 = self.remap_event(e);
                proof {
                    self.consumed@ = spec_apply(self.consumed@, e2);
                    assert(pending0[0] == spec_remap_event(self.axes@, self.buttons@, e));
                    assert(self.pending() =~= pending0.drop_first());
                }
                Some(e2)
            },
            None => None,
        }
    }

    fn mark_gone(&mut self) {
        self.joystick.mark_gone();
        proof {
            assert(self.pending() =~= seq![Event::Disconnected(self.spec_index())]);
        }
    }
}

/// The remap law: an identifier mapped to another is looked up and
/// reported under the target, and an unmapped identifier passes through
/// unchanged — both for table lookups and for the events a remapper
/// rewrites.
pub proof fn lemma_remap_round_trip(
    axes: Map<u8, u8>,
    buttons: Map<u8, u8>,
    x: u8,
    y: u8,
    i: u8,
    v: i16,
)
    ensures
        spec_remap(axes.insert(x, y), x) == y,
        !axes.contains_key(x) ==> spec_remap(axes, x) == x,
        spec_remap_event(axes.insert(x, y), buttons, Event::AxisMoved(i, x, v))
            == Event::AxisMoved(i, y, v),
        spec_remap_event(axes, buttons.insert(x, y), Event::ButtonPressed(i, x))
            == Event::ButtonPressed(i, y),
        !axes.contains_key(x) ==> spec_remap_event(axes, buttons, Event::AxisMoved(i, x, v))
            == Event::AxisMoved(i, x, v),
        !buttons.contains_key(x) ==> spec_remap_event(axes, buttons, Event::ButtonPressed(i, x))
            == Event::ButtonPressed(i, x),
{
}

} // verus!
