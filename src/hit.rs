//! Hit-testing of presses against the circuit's interactive components, and
//! the output bits that presses and releases set.

use vstd::prelude::*;
use crate::geom::{Point, Rect, WORLD_UNITS_PER_PIXEL};
use crate::layout::{Component, NodeKind, BUTTON_SIZE};

verus! {

pub open spec fn is_button(kind: NodeKind) -> bool {
    kind == NodeKind::ToggleButton || kind == NodeKind::PulseButton
}

/// The box in which a press reaches a component, in world units.
pub open spec fn button_box(c: Component) -> Rect {
    Rect {
        x: c.position.x,
        y: c.position.y,
        width: (BUTTON_SIZE * WORLD_UNITS_PER_PIXEL) as i64,
        height: (BUTTON_SIZE * WORLD_UNITS_PER_PIXEL) as i64,
    }
}

/// A press at world point `p` reaches component `c`: it is a button with an
/// output, and `p` lies in its box.
pub open spec fn hit_spec(c: Component, p: Point) -> bool {
    is_button(c.kind) && c.outputs@.len() >= 1 && button_box(c).spec_contains(p)
}

/// The output bits of `c` after a press at `p`: a toggle button flips its
/// bit, a pulse button sets it.
pub open spec fn pressed_outputs(c: Component, p: Point) -> Seq<bool> {
    if hit_spec(c, p) {
        if c.kind == NodeKind::PulseButton {
            c.outputs@.update(0, true)
        } else {
            c.outputs@.update(0, !c.outputs@[0])
        }
    } else {
        c.outputs@
    }
}

/// The output bits of `c` after a release of a press made at `p`: a pulse
/// button clears its bit.
pub open spec fn released_outputs(c: Component, p: Point) -> Seq<bool> {
    if hit_spec(c, p) && c.kind == NodeKind::PulseButton {
        c.outputs@.update(0, false)
    } else {
        c.outputs@
    }
}

/// The interactive indices are components' indices, each at most once.
pub open spec fn interactive_wf(comps: Seq<Component>, interactive: Seq<usize>) -> bool {
    &&& forall|k: int| 0 <= k < interactive.len() ==> #[trigger] interactive[k] < comps.len()
    &&& forall|k: int, l: int|
        0 <= k < l < interactive.len() ==> #[trigger] interactive[k] != #[trigger] interactive[l]
}

/// `b` is `a` with, at most, other values in the components' output bits:
/// everything else, the number of output bits included, is kept.
pub open spec fn only_outputs_changed(a: Seq<Component>, b: Seq<Component>) -> bool {
    &&& a.len() == b.len()
    &&& forall|i: int|
        0 <= i < a.len() ==> {
            &&& (#[trigger] b[i]).id == a[i].id
            &&& b[i].kind == a[i].kind
            &&& b[i].position == a[i].position
            &&& b[i].num_inputs == a[i].num_inputs
            &&& b[i].input_states@ == a[i].input_states@
            &&& b[i].wires@ == a[i].wires@
            &&& b[i].outputs@.len() == a[i].outputs@.len()
        }
}

/// Whether a press at world point `p` reaches component `c`.
pub fn button_hit(c: &Component, p: Point) -> (r: bool)
    ensures
        r == hit_spec(*c, p),
{
    let is_btn = match c.kind {
        NodeKind::ToggleButton | NodeKind::PulseButton => true,
        _ => false,
    };
    let bx = Rect {
        x: c.position.x,
        y: c.position.y,
        width: BUTTON_SIZE * WORLD_UNITS_PER_PIXEL,
        height: BUTTON_SIZE * WORLD_UNITS_PER_PIXEL,
    };
    is_btn && c.outputs.len() >= 1 && bx.contains(p)
}

fn set_first_output(comps: &mut Vec<Component>, i: usize, v: bool)
    requires
        i < old(comps)@.len(),
        old(comps)@[i as int].outputs@.len() >= 1,
    ensures
        final(comps)@.len() == old(comps)@.len(),
        only_outputs_changed(old(comps)@, final(comps)@),
        forall|j: int| 0 <= j < old(comps)@.len() && j != i ==> #[trigger] final(comps)@[j] == old(comps)@[j],
        final(comps)@[i as int].outputs@ == old(comps)@[i as int].outputs@.update(0, v),
{
    comps[i].outputs.set(0, v);
}

/// One of the first `k` interactive indices is `j`.
pub open spec fn touched(interactive: Seq<usize>, k: int, j: int) -> bool {
    exists|m: int| 0 <= m < k && #[trigger] interactive[m] == j
}

/// A press at world point `p`: each interactive component that it reaches
/// changes its output bit as `pressed_outputs` says; no other component
/// changes. Returns whether any component was reached.
pub fn press_at(comps: &mut Vec<Component>, interactive: &Vec<usize>, p: Point) -> (hit: bool)
    requires
        interactive_wf(old(comps)@, interactive@),
    ensures
        routed(old(comps)@, final(comps)@, interactive@, p, true),
        hit == exists|m: int|
            0 <= m < interactive@.len() && #[trigger] hit_spec(old(comps)@[interactive@[m] as int], p),
{
    route(comps, interactive, p, true)
}

/// The release of a press made at world point `p`: each interactive pulse
/// button that the press reached clears its output bit; no other component
/// changes. Returns whether any component was reached.
pub fn release_at(comps: &mut Vec<Component>, interactive: &Vec<usize>, p: Point) -> (hit: bool)
    requires
        interactive_wf(old(comps)@, interactive@),
    ensures
        routed(old(comps)@, final(comps)@, interactive@, p, false),
        hit == exists|m: int|
            0 <= m < interactive@.len() && #[trigger] hit_spec(old(comps)@[interactive@[m] as int], p),
{
    route(comps, interactive, p, false)
}

pub open spec fn routed_outputs(c: Component, p: Point, press: bool) -> Seq<bool> {
    if press {
        pressed_outputs(c, p)
    } else {
        released_outputs(c, p)
    }
}

/// `b` is `a` after a press (or, with `press` false, a release) at `p` was
/// routed to the interactive components.
pub open spec fn routed(a: Seq<Component>, b: Seq<Component>, interactive: Seq<usize>, p: Point, press: bool) -> bool {
    &&& only_outputs_changed(a, b)
    &&& forall|j: int|
        0 <= j < a.len() ==> (#[trigger] b[j]).outputs@ == if touched(interactive, interactive.len() as int, j) {
            routed_outputs(a[j], p, press)
        } else {
            a[j].outputs@
        }
}

/// A press changes only interactive buttons that it lands on: every other
/// component, a plain gate under the press included, keeps its bits; a
/// toggle button under the press flips its one output bit.
pub proof fn lemma_press_scope(a: Seq<Component>, b: Seq<Component>, interactive: Seq<usize>, p: Point)
    requires
        interactive_wf(a, interactive),
        routed(a, b, interactive, p, true),
    ensures
        forall|j: int|
            0 <= j < a.len() && !(touched(interactive, interactive.len() as int, j) && hit_spec(a[j], p))
                ==> (#[trigger] b[j]).outputs@ == a[j].outputs@,
        forall|j: int|
            0 <= j < a.len() && !is_button(a[j].kind) ==> (#[trigger] b[j]).outputs@ == a[j].outputs@,
        forall|j: int|
            0 <= j < a.len() && touched(interactive, interactive.len() as int, j) && a[j].kind
                == NodeKind::ToggleButton && a[j].outputs@.len() >= 1 && button_box(a[j]).spec_contains(p)
                ==> (#[trigger] b[j]).outputs@ == a[j].outputs@.update(0, !a[j].outputs@[0]),
{
}

fn route(comps: &mut Vec<Component>, interactive: &Vec<usize>, p: Point, press: bool) -> (hit: bool)
    requires
        interactive_wf(old(comps)@, interactive@),
    ensures
        routed(old(comps)@, final(comps)@, interactive@, p, press),
        hit == exists|m: int|
            0 <= m < interactive@.len() && #[trigger] hit_spec(old(comps)@[interactive@[m] as int], p),
{
    let ghost start = comps@;
    let mut hit = false;
    let mut k: usize = 0;
    while k < interactive.len()
        invariant
            interactive_wf(start, interactive@),
            k <= interactive@.len(),
            only_outputs_changed(start, comps@),
            forall|j: int|
                0 <= j < start.len() ==> (#[trigger] comps@[j]).outputs@ == if touched(interactive@, k as int, j) {
                    routed_outputs(start[j], p, press)
                } else {
                    start[j].outputs@
                },
            hit == exists|m: int| 0 <= m < k && #[trigger] hit_spec(start[interactive@[m] as int], p),
        decreases interactive@.len() - k,
    {
        let i = interactive[k];
        proof {
            assert(!touched(interactive@, k as int, i as int));
            assert(comps@[i as int].outputs@ == start[i as int].outputs@);
        }
        let reached = button_hit(&comps[i], p);
        proof {
            assert(hit_spec(comps@[i as int], p) == hit_spec(start[i as int], p));
        }
        if reached {
            if press {
                if comps[i].kind == NodeKind::PulseButton {
                    set_first_output(comps, i, true);
                } else {
                    let v = !comps[i].outputs[0];
                    set_first_output(comps, i, v);
                }
            } else if comps[i].kind == NodeKind::PulseButton {
                set_first_output(comps, i, false);
            }
        }
        proof {
            assert forall|j: int| 0 <= j < start.len() implies (#[trigger] comps@[j]).outputs@ == if touched(
                interactive@,
                k + 1,
                j,
            ) {
                routed_outputs(start[j], p, press)
            } else {
                start[j].outputs@
            } by {
                if j == i {
                    assert(interactive@[k as int] == j);
                    assert(touched(interactive@, k + 1, j));
                } else {
                    assert(touched(interactive@, k + 1, j) == touched(interactive@, k as int, j));
                }
            }
            if reached {
                assert(hit_spec(start[interactive@[k as int] as int], p));
            }
        }
        hit = hit || reached;
        k = k + 1;
    }
    hit
}

} // verus!
