//! Full-state snapshots and the state-diff engine.
//!
//! A snapshot-model native source only exposes "current full state"; the
//! diff engine compares two consecutive snapshots of one device and
//! synthesises the change events between them: axis moves first, in
//! ascending axis ordinal, then button transitions, in ascending button
//! ordinal.

use vstd::prelude::*;
use crate::events::{
    Event, StateView, MAX_AXES, MAX_BUTTONS, event_index, is_input_event, spec_apply,
    spec_apply_events, lemma_apply_events_concat, lemma_apply_events_singleton,
};

verus! {

/// One device's full state at one instant: a raw value for each axis
/// ordinal, a digital state for each button ordinal, and the native
/// packet counter where the native source supplies one.
#[derive(Clone)]
pub struct Snapshot {
    pub axes: Vec<i16>,
    pub buttons: Vec<bool>,
    pub packet: Option<u64>,
}

impl Snapshot {
    /// The state tables this snapshot describes.
    pub open spec fn state(&self) -> StateView {
        StateView { axes: self.axes@, buttons: self.buttons@ }
    }

    /// Whether the snapshot respects the fixed table caps.
    pub open spec fn wf(&self) -> bool {
        self.axes@.len() <= MAX_AXES && self.buttons@.len() <= MAX_BUTTONS
    }
}

/// Whether a later snapshot's packet counter shows that nothing changed
/// since an earlier one: both carry a counter and it is the same. A
/// source without a counter never skips.
pub open spec fn same_packet(prev: Option<u64>, cur: Option<u64>) -> bool {
    prev is Some && cur == prev
}

/// The axis-move events between two snapshots, for axis ordinals below
/// `n`, in ascending order: one `AxisMoved` for each axis whose raw
/// value differs, carrying the newer value.
pub open spec fn axis_events_upto(idx: u8, prev: StateView, cur: StateView, n: int) -> Seq<Event>
    decreases n,
{
    if n <= 0 {
        Seq::empty()
    } else {
        axis_events_upto(idx, prev, cur, n - 1) + (if cur.axes[n - 1] != prev.axes[n - 1] {
            seq![Event::AxisMoved(idx, (n - 1) as u8, cur.axes[n - 1])]
        } else {
            Seq::empty()
        })
    }
}

/// The button-transition events between two snapshots, for button
/// ordinals below `n`, in ascending order: `ButtonPressed` where the
/// state went from released to pressed, `ButtonReleased` the other way.
pub open spec fn button_events_upto(idx: u8, prev: StateView, cur: StateView, n: int) -> Seq<Event>
    decreases n,
{
    if n <= 0 {
        Seq::empty()
    } else {
        button_events_upto(idx, prev, cur, n - 1) + (if cur.buttons[n - 1] != prev.buttons[n
            - 1] {
            seq![
                if cur.buttons[n - 1] {
                    Event::ButtonPressed(idx, (n - 1) as u8)
                } else {
                    Event::ButtonReleased(idx, (n - 1) as u8)
                },
            ]
        } else {
            Seq::empty()
        })
    }
}

/// The whole diff between two snapshots of device `idx`: every axis
/// move, then every button transition.
pub open spec fn spec_diff(idx: u8, prev: StateView, cur: StateView) -> Seq<Event> {
    axis_events_upto(idx, prev, cur, cur.axes.len() as int) + button_events_upto(
        idx,
        prev,
        cur,
        cur.buttons.len() as int,
    )
}

/// Whether an event speaks about button `b` (of either polarity).
pub open spec fn is_button_event_for(e: Event, b: u8) -> bool {
    match e {
        Event::ButtonPressed(_, bb) => bb == b,
        Event::ButtonReleased(_, bb) => bb == b,
        _ => false,
    }
}

/// Compare two consecutive snapshots of device `idx` and return the
/// change events between them, axis moves first, then button
/// transitions, each group in ascending ordinal order.
pub fn diff_snapshots(idx: u8, prev: &Snapshot, cur: &Snapshot) -> (r: Vec<Event>)
    requires
        prev.axes@.len() == cur.axes@.len(),
        prev.buttons@.len() == cur.buttons@.len(),
        cur.wf(),
    ensures
        r@ == spec_diff(idx, prev.state(), cur.state()),
{
    let ghost pv = prev.state();
    let ghost cv = cur.state();
    let mut r: Vec<Event> = Vec::new();
    let mut i: usize = 0;
    while i < cur.axes.len()
        invariant
            i <= cur.axes@.len(),
            prev.axes@.len() == cur.axes@.len(),
            cur.axes@.len() <= MAX_AXES,
            pv == prev.state(),
            cv == cur.state(),
            r@ == axis_events_upto(idx, pv, cv, i as int),
        decreases cur.axes@.len() - i,
    {
        if prev.axes[i] != cur.axes[i] {
            r.push(Event::AxisMoved(idx, i as u8, cur.axes[i]));
            proof {
                assert(r@ =~= axis_events_upto(idx, pv, cv, i as int) + seq![
                    Event::AxisMoved(idx, i as u8, cv.axes[i as int]),
                ]);
            }
        } else {
            proof {
                assert(axis_events_upto(idx, pv, cv, i as int + 1) =~= axis_events_upto(
                    idx,
                    pv,
                    cv,
                    i as int,
                ));
            }
        }
        i += 1;
    }
    let mut b: usize = 0;
    while b < cur.buttons.len()
        invariant
            b <= cur.buttons@.len(),
            prev.buttons@.len() == cur.buttons@.len(),
            cur.buttons@.len() <= MAX_BUTTONS,
            cur.axes@.len() <= MAX_AXES,
            prev.axes@.len() == cur.axes@.len(),
            pv == prev.state(),
            cv == cur.state(),
            r@ == axis_events_upto(idx, pv, cv, cv.axes.len() as int) + button_events_upto(
                idx,
                pv,
                cv,
                b as int,
            ),
        decreases cur.buttons@.len() - b,
    {
        if prev.buttons[b] != cur.buttons[b] {
            let e = if cur.buttons[b] {
                Event::ButtonPressed(idx, b as u8)
            } else {
                Event::ButtonReleased(idx, b as u8)
            };
            r.push(e);
            proof {
                assert(r@ =~= axis_events_upto(idx, pv, cv, cv.axes.len() as int)
                    + (button_events_upto(idx, pv, cv, b as int) + seq![e]));
                assert(button_events_upto(idx, pv, cv, b as int + 1) =~= button_events_upto(
                    idx,
                    pv,
                    cv,
                    b as int,
                ) + seq![e]);
            }
        } else {
            proof {
                assert(button_events_upto(idx, pv, cv, b as int + 1) =~= button_events_upto(
                    idx,
                    pv,
                    cv,
                    b as int,
                ));
            }
        }
        b += 1;
    }
    proof {
        assert(r@ =~= spec_diff(idx, pv, cv));
    }
    r
}

/// Every event of an axis run is an `AxisMoved` for device `idx` whose
/// ordinal lies below `n` and whose axis actually changed, carrying the
/// newer value.
pub proof fn lemma_axis_run_shape(idx: u8, prev: StateView, cur: StateView, n: int)
    requires
        0 <= n <= cur.axes.len(),
        cur.axes.len() <= MAX_AXES,
    ensures
        forall|j: int|
            0 <= j < axis_events_upto(idx, prev, cur, n).len() ==> {
                let e = #[trigger] axis_events_upto(idx, prev, cur, n)[j];
                exists|a: int|
                    0 <= a < n && prev.axes[a] != cur.axes[a] && e == Event::AxisMoved(
                        idx,
                        a as u8,
                        cur.axes[a],
                    )
            },
    decreases n,
{
    if n > 0 {
        lemma_axis_run_shape(idx, prev, cur, n - 1);
        let run_prev = axis_events_upto(idx, prev, cur, n - 1);
        let run = axis_events_upto(idx, prev, cur, n);
        assert forall|j: int| 0 <= j < run.len() implies {
            let e = #[trigger] run[j];
            exists|a: int|
                0 <= a < n && prev.axes[a] != cur.axes[a] && e == Event::AxisMoved(
                    idx,
                    a as u8,
                    cur.axes[a],
                )
        } by {
            if j < run_prev.len() {
                assert(run[j] == run_prev[j]);
                let a = choose|a: int|
                    0 <= a < n - 1 && prev.axes[a] != cur.axes[a] && run_prev[j]
                        == Event::AxisMoved(idx, a as u8, cur.axes[a]);
                assert(0 <= a < n && prev.axes[a] != cur.axes[a] && run[j] == Event::AxisMoved(
                    idx,
                    a as u8,
                    cur.axes[a],
                ));
            } else {
                assert(run[j] == Event::AxisMoved(idx, (n - 1) as u8, cur.axes[n - 1]));
                assert(0 <= n - 1 < n && prev.axes[n - 1] != cur.axes[n - 1] && run[j]
                    == Event::AxisMoved(idx, (n - 1) as u8, cur.axes[n - 1]));
            }
        }
    }
}

/// Every event of a button run is a transition for device `idx`: its
/// ordinal lies below `n`, the digital state differs between the two
/// snapshots there, and the polarity follows the newer state.
pub proof fn lemma_button_run_shape(idx: u8, prev: StateView, cur: StateView, n: int)
    requires
        0 <= n <= cur.buttons.len(),
        cur.buttons.len() <= MAX_BUTTONS,
    ensures
        forall|j: int|
            0 <= j < button_events_upto(idx, prev, cur, n).len() ==> {
                let e = #[trigger] button_events_upto(idx, prev, cur, n)[j];
                exists|bb: int|
                    0 <= bb < n && prev.buttons[bb] != cur.buttons[bb] && e == (if cur.buttons[bb] {
                        Event::ButtonPressed(idx, bb as u8)
                    } else {
                        Event::ButtonReleased(idx, bb as u8)
                    })
            },
    decreases n,
{
    if n > 0 {
        lemma_button_run_shape(idx, prev, cur, n - 1);
        let run_prev = button_events_upto(idx, prev, cur, n - 1);
        let run = button_events_upto(idx, prev, cur, n);
        assert forall|j: int| 0 <= j < run.len() implies {
            let e = #[trigger] run[j];
            exists|bb: int|
                0 <= bb < n && prev.buttons[bb] != cur.buttons[bb] && e == (if cur.buttons[bb] {
                    Event::ButtonPressed(idx, bb as u8)
                } else {
                    Event::ButtonReleased(idx, bb as u8)
                })
        } by {
            if j < run_prev.len() {
                assert(run[j] == run_prev[j]);
                let bb = choose|bb: int|
                    0 <= bb < n - 1 && prev.buttons[bb] != cur.buttons[bb] && run_prev[j] == (
                    if cur.buttons[bb] {
                        Event::ButtonPressed(idx, bb as u8)
                    } else {
                        Event::ButtonReleased(idx, bb as u8)
                    });
                assert(0 <= bb < n && prev.buttons[bb] != cur.buttons[bb] && run[j] == (
                if cur.buttons[bb] {
                    Event::ButtonPressed(idx, bb as u8)
                } else {
                    Event::ButtonReleased(idx, bb as u8)
                }));
            } else {
                assert(prev.buttons[n - 1] != cur.buttons[n - 1]);
                assert(run[j] == (if cur.buttons[n - 1] {
                    Event::ButtonPressed(idx, (n - 1) as u8)
                } else {
                    Event::ButtonReleased(idx, (n - 1) as u8)
                }));
                assert(0 <= n - 1 < n && prev.buttons[n - 1] != cur.buttons[n - 1] && run[j] == (
                if cur.buttons[n - 1] {
                    Event::ButtonPressed(idx, (n - 1) as u8)
                } else {
                    Event::ButtonReleased(idx, (n - 1) as u8)
                }));
            }
        }
    }
}

/// Every event a diff emits is an input event for device `idx`, and its
/// ordinal lies within the newer snapshot's tables.
pub proof fn lemma_diff_events_shape(idx: u8, prev: StateView, cur: StateView)
    requires
        prev.axes.len() == cur.axes.len(),
        prev.buttons.len() == cur.buttons.len(),
        cur.axes.len() <= MAX_AXES,
        cur.buttons.len() <= MAX_BUTTONS,
    ensures
        forall|j: int|
            0 <= j < spec_diff(idx, prev, cur).len() ==> event_index(
                #[trigger] spec_diff(idx, prev, cur)[j],
            ) == idx && is_input_event(spec_diff(idx, prev, cur)[j]),
{
    lemma_axis_run_shape(idx, prev, cur, cur.axes.len() as int);
    lemma_button_run_shape(idx, prev, cur, cur.buttons.len() as int);
    let ar = axis_events_upto(idx, prev, cur, cur.axes.len() as int);
    let br = button_events_upto(idx, prev, cur, cur.buttons.len() as int);
    assert forall|j: int| 0 <= j < spec_diff(idx, prev, cur).len() implies event_index(
        #[trigger] spec_diff(idx, prev, cur)[j],
    ) == idx && is_input_event(spec_diff(idx, prev, cur)[j]) by {
        if j < ar.len() {
            assert(spec_diff(idx, prev, cur)[j] == ar[j]);
        } else {
            assert(spec_diff(idx, prev, cur)[j] == br[j - ar.len()]);
        }
    }
}

/// Diffing a snapshot against itself emits nothing: no spurious events
/// come out of an unchanged state, with or without a packet counter.
pub proof fn lemma_diff_identical(idx: u8, s: StateView)
    ensures
        spec_diff(idx, s, s) =~= Seq::<Event>::empty(),
{
    lemma_axis_run_empty(idx, s, s.axes.len() as int);
    lemma_button_run_empty(idx, s, s.buttons.len() as int);
}

proof fn lemma_axis_run_empty(idx: u8, s: StateView, n: int)
    ensures
        axis_events_upto(idx, s, s, n) =~= Seq::<Event>::empty(),
    decreases n,
{
    if n > 0 {
        lemma_axis_run_empty(idx, s, n - 1);
    }
}

proof fn lemma_button_run_empty(idx: u8, s: StateView, n: int)
    ensures
        button_events_upto(idx, s, s, n) =~= Seq::<Event>::empty(),
    decreases n,
{
    if n > 0 {
        lemma_button_run_empty(idx, s, n - 1);
    }
}

/// A button whose digital state is the same in both snapshots gets no
/// event of either polarity out of the diff.
pub proof fn lemma_diff_equal_button_silent(idx: u8, prev: StateView, cur: StateView, b: u8)
    requires
        prev.axes.len() == cur.axes.len(),
        prev.buttons.len() == cur.buttons.len(),
        cur.axes.len() <= MAX_AXES,
        cur.buttons.len() <= MAX_BUTTONS,
        b < cur.buttons.len() ==> prev.buttons[b as int] == cur.buttons[b as int],
    ensures
        forall|j: int|
            0 <= j < spec_diff(idx, prev, cur).len() ==> !is_button_event_for(
                #[trigger] spec_diff(idx, prev, cur)[j],
                b,
            ),
{
    lemma_axis_run_shape(idx, prev, cur, cur.axes.len() as int);
    lemma_button_run_shape(idx, prev, cur, cur.buttons.len() as int);
    let ar = axis_events_upto(idx, prev, cur, cur.axes.len() as int);
    let br = button_events_upto(idx, prev, cur, cur.buttons.len() as int);
    assert forall|j: int| 0 <= j < spec_diff(idx, prev, cur).len() implies !is_button_event_for(
        #[trigger] spec_diff(idx, prev, cur)[j],
        b,
    ) by {
        if j < ar.len() {
            assert(spec_diff(idx, prev, cur)[j] == ar[j]);
        } else {
            let e = br[j - ar.len()];
            assert(spec_diff(idx, prev, cur)[j] == e);
            if is_button_event_for(e, b) {
                let bb = choose|bb: int|
                    0 <= bb < cur.buttons.len() && prev.buttons[bb] != cur.buttons[bb] && e == (
                    if cur.buttons[bb] {
                        Event::ButtonPressed(idx, bb as u8)
                    } else {
                        Event::ButtonReleased(idx, bb as u8)
                    });
                assert(bb as u8 == b);
                assert(bb == b as int);
            }
        }
    }
}

/// When exactly one button went from released to pressed and every
/// other button kept its state, the diff's button run is exactly one
/// `ButtonPressed` for that button; and the axis run holds no button
/// event at all.
pub proof fn lemma_diff_single_press(idx: u8, prev: StateView, cur: StateView, b0: u8)
    requires
        prev.axes.len() == cur.axes.len(),
        prev.buttons.len() == cur.buttons.len(),
        cur.axes.len() <= MAX_AXES,
        cur.buttons.len() <= MAX_BUTTONS,
        b0 < cur.buttons.len(),
        !prev.buttons[b0 as int],
        cur.buttons[b0 as int],
        forall|b: int|
            0 <= b < cur.buttons.len() && b != b0 ==> prev.buttons[b] == #[trigger] cur.buttons[b],
    ensures
        button_events_upto(idx, prev, cur, cur.buttons.len() as int) =~= seq![
            Event::ButtonPressed(idx, b0),
        ],
        forall|j: int|
            0 <= j < axis_events_upto(idx, prev, cur, cur.axes.len() as int).len() ==> (
            #[trigger] axis_events_upto(idx, prev, cur, cur.axes.len() as int)[j]) is AxisMoved,
{
    lemma_button_run_single(idx, prev, cur, cur.buttons.len() as int, b0);
    lemma_axis_run_shape(idx, prev, cur, cur.axes.len() as int);
}

proof fn lemma_button_run_single(idx: u8, prev: StateView, cur: StateView, n: int, b0: u8)
    requires
        prev.buttons.len() == cur.buttons.len(),
        cur.buttons.len() <= MAX_BUTTONS,
        0 <= n <= cur.buttons.len(),
        b0 < cur.buttons.len(),
        !prev.buttons[b0 as int],
        cur.buttons[b0 as int],
        forall|b: int|
            0 <= b < cur.buttons.len() && b != b0 ==> prev.buttons[b] == #[trigger] cur.buttons[b],
    ensures
        n <= b0 ==> button_events_upto(idx, prev, cur, n) =~= Seq::<Event>::empty(),
        n > b0 ==> button_events_upto(idx, prev, cur, n) =~= seq![Event::ButtonPressed(idx, b0)],
    decreases n,
{
    if n > 0 {
        lemma_button_run_single(idx, prev, cur, n - 1, b0);
    }
}

/// A diff emits only genuine transitions: it never presses a button
/// the older snapshot holds pressed, never releases one it holds
/// released, and never moves an axis to the value it already has.
/// Since each snapshot becomes the next diff's baseline, the same edge
/// can never fire twice without the opposite transition in between.
pub proof fn lemma_diff_emits_only_real_transitions(
    idx: u8,
    prev: StateView,
    cur: StateView,
    b: u8,
    a: u8,
    v: i16,
)
    requires
        prev.axes.len() == cur.axes.len(),
        prev.buttons.len() == cur.buttons.len(),
        cur.axes.len() <= MAX_AXES,
        cur.buttons.len() <= MAX_BUTTONS,
    ensures
        b < cur.buttons.len() && prev.buttons[b as int] ==> !spec_diff(idx, prev, cur).contains(
            Event::ButtonPressed(idx, b),
        ),
        b < cur.buttons.len() && !prev.buttons[b as int] ==> !spec_diff(idx, prev, cur).contains(
            Event::ButtonReleased(idx, b),
        ),
        a < cur.axes.len() && prev.axes[a as int] == v ==> !spec_diff(idx, prev, cur).contains(
            Event::AxisMoved(idx, a, v),
        ),
{
    lemma_axis_run_shape(idx, prev, cur, cur.axes.len() as int);
    lemma_button_run_shape(idx, prev, cur, cur.buttons.len() as int);
    let ar = axis_events_upto(idx, prev, cur, cur.axes.len() as int);
    let br = button_events_upto(idx, prev, cur, cur.buttons.len() as int);
    assert forall|j: int| 0 <= j < spec_diff(idx, prev, cur).len() implies {
        let e = #[trigger] spec_diff(idx, prev, cur)[j];
        &&& (b < cur.buttons.len() && prev.buttons[b as int] ==> e != Event::ButtonPressed(idx, b))
        &&& (b < cur.buttons.len() && !prev.buttons[b as int] ==> e != Event::ButtonReleased(
            idx,
            b,
        ))
        &&& (a < cur.axes.len() && prev.axes[a as int] == v ==> e != Event::AxisMoved(idx, a, v))
    } by {
        if j < ar.len() {
            assert(spec_diff(idx, prev, cur)[j] == ar[j]);
            let e = ar[j];
            let aa = choose|aa: int|
                0 <= aa < cur.axes.len() && prev.axes[aa] != cur.axes[aa] && e == Event::AxisMoved(
                    idx,
                    aa as u8,
                    cur.axes[aa],
                );
            if a < cur.axes.len() && prev.axes[a as int] == v && e == Event::AxisMoved(idx, a, v) {
                assert(aa == a as int);
                assert(cur.axes[aa] == v);
                assert(prev.axes[aa] != v);
            }
        } else {
            assert(spec_diff(idx, prev, cur)[j] == br[j - ar.len()]);
            let e = br[j - ar.len()];
            let bb = choose|bb: int|
                0 <= bb < cur.buttons.len() && prev.buttons[bb] != cur.buttons[bb] && e == (
                if cur.buttons[bb] {
                    Event::ButtonPressed(idx, bb as u8)
                } else {
                    Event::ButtonReleased(idx, bb as u8)
                });
            if b < cur.buttons.len() && prev.buttons[b as int] && e == Event::ButtonPressed(
                idx,
                b,
            ) {
                assert(bb == b as int);
                assert(cur.buttons[bb]);
                assert(!prev.buttons[bb]);
            }
            if b < cur.buttons.len() && !prev.buttons[b as int] && e == Event::ButtonReleased(
                idx,
                b,
            ) {
                assert(bb == b as int);
                assert(!cur.buttons[bb]);
                assert(prev.buttons[bb]);
            }
        }
    }
    if b < cur.buttons.len() && prev.buttons[b as int] {
        assert(!spec_diff(idx, prev, cur).contains(Event::ButtonPressed(idx, b))) by {
            if spec_diff(idx, prev, cur).contains(Event::ButtonPressed(idx, b)) {
                let j = choose|j: int|
                    0 <= j < spec_diff(idx, prev, cur).len() && spec_diff(idx, prev, cur)[j]
                        == Event::ButtonPressed(idx, b);
            }
        }
    }
    if b < cur.buttons.len() && !prev.buttons[b as int] {
        assert(!spec_diff(idx, prev, cur).contains(Event::ButtonReleased(idx, b))) by {
            if spec_diff(idx, prev, cur).contains(Event::ButtonReleased(idx, b)) {
                let j = choose|j: int|
                    0 <= j < spec_diff(idx, prev, cur).len() && spec_diff(idx, prev, cur)[j]
                        == Event::ButtonReleased(idx, b);
            }
        }
    }
    if a < cur.axes.len() && prev.axes[a as int] == v {
        assert(!spec_diff(idx, prev, cur).contains(Event::AxisMoved(idx, a, v))) by {
            if spec_diff(idx, prev, cur).contains(Event::AxisMoved(idx, a, v)) {
                let j = choose|j: int|
                    0 <= j < spec_diff(idx, prev, cur).len() && spec_diff(idx, prev, cur)[j]
                        == Event::AxisMoved(idx, a, v);
            }
        }
    }
}

/// Replaying the diff of two snapshots on top of the older one lands
/// exactly on the newer one: the diff engine loses no transition and
/// invents none.
pub proof fn lemma_diff_restores_state(idx: u8, prev: StateView, cur: StateView)
    requires
        prev.axes.len() == cur.axes.len(),
        prev.buttons.len() == cur.buttons.len(),
        cur.axes.len() <= MAX_AXES,
        cur.buttons.len() <= MAX_BUTTONS,
    ensures
        spec_apply_events(prev, spec_diff(idx, prev, cur)) == cur,
{
    let ar = axis_events_upto(idx, prev, cur, cur.axes.len() as int);
    let br = button_events_upto(idx, prev, cur, cur.buttons.len() as int);
    lemma_apply_events_concat(prev, ar, br);
    lemma_axis_run_apply(idx, prev, cur, prev, cur.axes.len() as int);
    let mid = spec_apply_events(prev, ar);
    assert(mid.axes =~= cur.axes);
    assert(mid.buttons =~= prev.buttons);
    lemma_button_run_apply(idx, prev, cur, mid, cur.buttons.len() as int);
    let fin = spec_apply_events(mid, br);
    assert(fin.buttons =~= cur.buttons);
    assert(fin.axes =~= cur.axes);
    assert(spec_apply_events(prev, spec_diff(idx, prev, cur)) == fin);
    assert(fin =~= cur);
}

/// Applying an axis run to tables of the right width rewrites exactly
/// the changed axes below `n` to their newer values and touches nothing
/// else.
proof fn lemma_axis_run_apply(idx: u8, prev: StateView, cur: StateView, st: StateView, n: int)
    requires
        prev.axes.len() == cur.axes.len(),
        st.axes.len() == cur.axes.len(),
        cur.axes.len() <= MAX_AXES,
        0 <= n <= cur.axes.len(),
    ensures
        spec_apply_events(st, axis_events_upto(idx, prev, cur, n)).buttons == st.buttons,
        spec_apply_events(st, axis_events_upto(idx, prev, cur, n)).axes =~= Seq::new(
            st.axes.len(),
            |i: int|
                if i < n && prev.axes[i] != cur.axes[i] {
                    cur.axes[i]
                } else {
                    st.axes[i]
                },
        ),
    decreases n,
{
    if n <= 0 {
        assert(axis_events_upto(idx, prev, cur, n) =~= Seq::<Event>::empty());
    } else {
        lemma_axis_run_apply(idx, prev, cur, st, n - 1);
        let run_prev = axis_events_upto(idx, prev, cur, n - 1);
        let acc = spec_apply_events(st, run_prev);
        if cur.axes[n - 1] != prev.axes[n - 1] {
            let e = Event::AxisMoved(idx, (n - 1) as u8, cur.axes[n - 1]);
            lemma_apply_events_concat(st, run_prev, seq![e]);
            lemma_apply_events_singleton(acc, e);
            assert(((n - 1) as u8) < acc.axes.len());
        } else {
            lemma_apply_events_concat(st, run_prev, Seq::<Event>::empty());
        }
    }
}

/// Applying a button run to tables of the right width rewrites exactly
/// the transitioned buttons below `n` to their newer states and touches
/// nothing else.
proof fn lemma_button_run_apply(idx: u8, prev: StateView, cur: StateView, st: StateView, n: int)
    requires
        prev.buttons.len() == cur.buttons.len(),
        st.buttons.len() == cur.buttons.len(),
        cur.buttons.len() <= MAX_BUTTONS,
        0 <= n <= cur.buttons.len(),
    ensures
        spec_apply_events(st, button_events_upto(idx, prev, cur, n)).axes == st.axes,
        spec_apply_events(st, button_events_upto(idx, prev, cur, n)).buttons =~= Seq::new(
            st.buttons.len(),
            |i: int|
                if i < n && prev.buttons[i] != cur.buttons[i] {
                    cur.buttons[i]
                } else {
                    st.buttons[i]
                },
        ),
    decreases n,
{
    if n <= 0 {
        assert(button_events_upto(idx, prev, cur, n) =~= Seq::<Event>::empty());
    } else {
        lemma_button_run_apply(idx, prev, cur, st, n - 1);
        let run_prev = button_events_upto(idx, prev, cur, n - 1);
        let acc = spec_apply_events(st, run_prev);
        if cur.buttons[n - 1] != prev.buttons[n - 1] {
            let e = if cur.buttons[n - 1] {
                Event::ButtonPressed(idx, (n - 1) as u8)
            } else {
                Event::ButtonReleased(idx, (n - 1) as u8)
            };
            lemma_apply_events_concat(st, run_prev, seq![e]);
            lemma_apply_events_singleton(acc, e);
            assert(((n - 1) as u8) < acc.buttons.len());
        } else {
            lemma_apply_events_concat(st, run_prev, Seq::<Event>::empty());
        }
    }
}

} // verus!
