//! The canvas state that the frame loop owns, and one frame of it: pointer
//! input becomes camera gestures, then presses and releases reach the
//! interactive components, then the clock says how many ticks to run.

use vstd::prelude::*;
use crate::geom::{Point, Rect, in_screen_range, SCREEN_LIMIT};
use crate::camera::{
    Camera, PinchState, ZoomStyle, CameraGesture, gesture_valid, gestures_spec, ZOOM_ONE,
};
use crate::layout::{
    Component, ComponentGeometry, all_wf, build_geometry, geometry_of, same_topology,
    lemma_geometry_of_same_topology, lemma_resolved_wires_in_range, wires_spec,
};
use crate::hit::{interactive_wf, press_at, release_at, routed, hit_spec, only_outputs_changed};
use crate::clock::SimClock;

verus! {

/// Both coordinates of the starting pivot: 200 pixels, in screen units.
pub const START_PIVOT: i64 = 3200;

/// What the platform reports for one frame, in screen units.
#[derive(Debug)]
pub struct FrameInput {
    /// The primary pointer: the mouse, or the first touch.
    pub mouse: Point,
    /// The primary button went down this frame.
    pub mouse_pressed: bool,
    /// The primary button went up this frame.
    pub mouse_released: bool,
    /// The primary button is up.
    pub mouse_up: bool,
    /// Wheel notches, positive to zoom in.
    pub wheel_notches: i32,
    /// The active touch points, in the platform's order.
    pub touches: Vec<Point>,
    /// A tap was recognised this frame.
    pub tap: bool,
    /// The new size of the viewport, where it changed this frame.
    pub viewport: Option<(i64, i64)>,
}

pub struct State {
    pub components: Vec<Component>,
    /// Indices of the components that a press may reach, each once.
    pub interactive: Vec<usize>,
    /// Layout of each component, by index.
    pub geometry: Vec<ComponentGeometry>,
    pub camera: Camera,
    pub pinch: PinchState,
    pub zoom_style: ZoomStyle,
    /// Where the primary pointer was last seen while dragging.
    pub drag_start: Option<Point>,
    /// World point of the last tap, until the pointer goes up.
    pub last_press: Option<Point>,
    /// The last tap reached a button: camera gestures wait until release.
    pub pointer_on_button: bool,
    pub clock: SimClock,
}

/// A wire to draw: from an output pin to an input pin, in world units, lit
/// when the input it feeds is on.
#[derive(Clone, Copy, Debug, PartialEq, Eq, Structural)]
pub struct WireLine {
    pub from: Point,
    pub to: Point,
    pub on: bool,
}

/// The line of wire `k` of component `c`.
pub open spec fn wire_line(s: State, c: int, k: int) -> WireLine {
    let w = s.geometry@[c].wires@[k];
    let states = s.components@[c].input_states@;
    WireLine {
        from: s.geometry@[w.source as int].outputs@[w.source_pin as int],
        to: s.geometry@[c].inputs@[w.in_pin as int],
        on: w.in_pin < states.len() && states[w.in_pin as int],
    }
}

/// The lines of the first `n` wires of component `c` that have an end in
/// `view`, in order.
pub open spec fn wire_lines_spec(s: State, c: int, view: Rect, n: nat) -> Seq<WireLine>
    decreases n,
{
    if n == 0 {
        seq![]
    } else {
        let before = wire_lines_spec(s, c, view, (n - 1) as nat);
        let line = wire_line(s, c, n - 1);
        if view.spec_contains(line.from) || view.spec_contains(line.to) {
            before.push(line)
        } else {
            before
        }
    }
}

/// The in-range indices of `list`, each once, in order of first occurrence.
pub open spec fn keep_interactive(list: Seq<usize>, n: nat) -> Seq<usize>
    decreases list.len(),
{
    if list.len() == 0 {
        seq![]
    } else {
        let before = keep_interactive(list.drop_last(), n);
        let x = list.last();
        if x < n && !before.contains(x) {
            before.push(x)
        } else {
            before
        }
    }
}

pub open spec fn input_wf(input: FrameInput) -> bool {
    &&& in_screen_range(input.mouse)
    &&& forall|k: int| 0 <= k < input.touches@.len() ==> in_screen_range(#[trigger] input.touches@[k])
    &&& match input.viewport {
        Some((w, h)) => 0 <= w <= 2 * SCREEN_LIMIT && 0 <= h <= 2 * SCREEN_LIMIT,
        None => true,
    }
}

/// The drag anchor after this frame's button changes: a press starts a drag
/// at the pointer, a release ends it.
pub open spec fn drag_after_buttons(drag: Option<Point>, input: FrameInput) -> Option<Point> {
    if input.mouse_released {
        None
    } else if input.mouse_pressed {
        Some(input.mouse)
    } else {
        drag
    }
}

/// The camera gestures of a frame, in the order they apply: zoom first (the
/// wheel, then a pinch with two pointers or the end of one), then the drag,
/// which only one pointer makes. None while a button holds the pointer.
pub open spec fn frame_gestures(on_button: bool, drag: Option<Point>, style: ZoomStyle, input: FrameInput) -> Seq<
    CameraGesture,
> {
    if on_button {
        seq![]
    } else {
        let wheel = if input.wheel_notches != 0 {
            seq![CameraGesture::Wheel { mouse: input.mouse, notches: input.wheel_notches }]
        } else {
            seq![]
        };
        let two = input.touches@.len() >= 2;
        let pinch = if two {
            seq![CameraGesture::Pinch { p1: input.touches@[0], p2: input.touches@[1], style }]
        } else {
            seq![CameraGesture::PinchEnd]
        };
        let pan = match drag_after_buttons(drag, input) {
            Some(d) => if two {
                seq![]
            } else {
                seq![
                    CameraGesture::Pan {
                        delta: Point { x: (d.x - input.mouse.x) as i64, y: (d.y - input.mouse.y) as i64 },
                    },
                ]
            },
            None => seq![],
        };
        wheel + pinch + pan
    }
}

/// The drag anchor after a frame: it follows the pointer while a drag lasts.
pub open spec fn drag_after_frame(on_button: bool, drag: Option<Point>, input: FrameInput) -> Option<Point> {
    if on_button {
        drag
    } else {
        match drag_after_buttons(drag, input) {
            Some(_) => Some(input.mouse),
            None => None,
        }
    }
}

/// The camera with its pivot moved to the centre of a resized viewport.
pub open spec fn camera_after_resize(cam: Camera, input: FrameInput) -> Camera {
    match input.viewport {
        Some((w, h)) => Camera { offset: Point { x: (w / 2) as i64, y: (h / 2) as i64 }, ..cam },
        None => cam,
    }
}

fn contains_index(v: &Vec<usize>, x: usize) -> (r: bool)
    ensures
        r == v@.contains(x),
{
    let mut i: usize = 0;
    while i < v.len()
        invariant
            i <= v@.len(),
            forall|k: int| 0 <= k < i ==> v@[k] != x,
        decreases v@.len() - i,
    {
        if v[i] == x {
            assert(v@[i as int] == x);
            return true;
        }
        i = i + 1;
    }
    false
}

/// The in-range indices of `list`, each once, in order of first occurrence.
pub fn interactive_indices(list: &Vec<usize>, n: usize) -> (r: Vec<usize>)
    ensures
        r@ == keep_interactive(list@, n as nat),
        forall|k: int| 0 <= k < r@.len() ==> #[trigger] r@[k] < n,
        forall|k: int, l: int| 0 <= k < l < r@.len() ==> #[trigger] r@[k] != #[trigger] r@[l],
{
    let mut out: Vec<usize> = Vec::new();
    let mut i: usize = 0;
    while i < list.len()
        invariant
            i <= list@.len(),
            out@ == keep_interactive(list@.take(i as int), n as nat),
            forall|k: int| 0 <= k < out@.len() ==> #[trigger] out@[k] < n,
            forall|k: int, l: int| 0 <= k < l < out@.len() ==> #[trigger] out@[k] != #[trigger] out@[l],
        decreases list@.len() - i,
    {
        let x = list[i];
        proof {
            assert(list@.take(i + 1).drop_last() == list@.take(i as int));
            assert(list@.take(i + 1).last() == x);
        }
        if x < n && !contains_index(&out, x) {
            out.push(x);
        }
        i = i + 1;
    }
    proof {
        assert(list@.take(list@.len() as int) == list@);
    }
    out
}

impl State {
    pub open spec fn wf(self) -> bool {
        &&& all_wf(self.components@)
        &&& interactive_wf(self.components@, self.interactive@)
        &&& self.geometry@.len() == self.components@.len()
        &&& forall|c: int|
            0 <= c < self.components@.len() ==> geometry_of(#[trigger] self.geometry@[c], self.components@, c)
        &&& self.camera.wf()
        &&& self.pinch.wf()
        &&& self.clock.wf()
        &&& match self.drag_start {
            Some(d) => in_screen_range(d),
            None => true,
        }
    }

    /// The state of a canvas over `components`, of which those at the
    /// in-range indices of `interactive` take presses: the layout is built,
    /// the camera shows world point (0, 0) at screen point (200, 200) pixels
    /// at zoom 1, and no gesture is under way.
    pub fn new(components: Vec<Component>, interactive: &Vec<usize>, clock: SimClock) -> (r: State)
        requires
            all_wf(components@),
            clock.wf(),
        ensures
            r.wf(),
            r.components@ == components@,
            r.interactive@ == keep_interactive(interactive@, components@.len()),
            r.camera == (Camera {
                offset: Point { x: START_PIVOT, y: START_PIVOT },
                target: Point { x: 0, y: 0 },
                zoom: ZOOM_ONE,
            }),
            r.pinch.initial_distance == 0,
            r.zoom_style == ZoomStyle::Midpoint,
            r.drag_start.is_none(),
            r.last_press.is_none(),
            !r.pointer_on_button,
            r.clock == clock,
    {
        let geometry = build_geometry(&components);
        let interactive = interactive_indices(interactive, components.len());
        State {
            components,
            interactive,
            geometry,
            camera: Camera {
                offset: Point { x: START_PIVOT, y: START_PIVOT },
                target: Point { x: 0, y: 0 },
                zoom: ZOOM_ONE,
            },
            pinch: PinchState::new(),
            zoom_style: ZoomStyle::Midpoint,
            drag_start: None,
            last_press: None,
            pointer_on_button: false,
            clock,
        }
    }
}

/// Bits that change while topology stays keep the layout and the
/// interactive indices valid.
proof fn lemma_outputs_keep_layout(
    a: Seq<Component>,
    b: Seq<Component>,
    geometry: Seq<ComponentGeometry>,
    interactive: Seq<usize>,
)
    requires
        all_wf(a),
        interactive_wf(a, interactive),
        geometry.len() == a.len(),
        forall|c: int| 0 <= c < a.len() ==> geometry_of(#[trigger] geometry[c], a, c),
        only_outputs_changed(a, b),
    ensures
        all_wf(b),
        interactive_wf(b, interactive),
        forall|c: int| 0 <= c < b.len() ==> geometry_of(#[trigger] geometry[c], b, c),
{
    assert(same_topology(a, b)) by {
        assert forall|i: int| 0 <= i < a.len() implies (#[trigger] a[i]).id == b[i].id && a[i].kind == b[i].kind
            && a[i].position == b[i].position && a[i].num_inputs == b[i].num_inputs && a[i].outputs@.len()
            == b[i].outputs@.len() && a[i].wires@ == b[i].wires@ by {
            assert(b[i].id == a[i].id);
        }
    }
    assert forall|i: int| 0 <= i < b.len() implies (#[trigger] b[i]).wf() by {
        assert(a[i].wf());
    }
    assert forall|c: int| 0 <= c < b.len() implies geometry_of(#[trigger] geometry[c], b, c) by {
        lemma_geometry_of_same_topology(geometry[c], a, b, c);
    }
}

impl State {
    /// The wires into component `c` that show in `view`, a world rectangle,
    /// with the state of the input each one feeds.
    pub fn wire_lines(&self, c: usize, view: Rect) -> (r: Vec<WireLine>)
        requires
            self.wf(),
            c < self.components@.len(),
        ensures
            r@ == wire_lines_spec(*self, c as int, view, self.geometry@[c as int].wires@.len()),
    {
        let geo = &self.geometry[c];
        let states = &self.components[c].input_states;
        // the call states that the number of components fits in a usize
        let _count = self.components.len();
        proof {
            assert(geometry_of(self.geometry@[c as int], self.components@, c as int));
            lemma_resolved_wires_in_range(self.components@, c as int, self.components@[c as int].wires@.len());
        }
        let mut out: Vec<WireLine> = Vec::new();
        let mut k: usize = 0;
        while k < geo.wires.len()
            invariant
                self.wf(),
                c < self.components@.len(),
                geo == self.geometry@[c as int],
                states == self.components@[c as int].input_states,
                geo.wires@ == wires_spec(self.components@, c as int, self.components@[c as int].wires@.len()),
                forall|j: int|
                    0 <= j < geo.wires@.len() ==> {
                        let w = #[trigger] geo.wires@[j];
                        &&& w.in_pin < self.components@[c as int].num_inputs
                        &&& w.source < self.components@.len()
                        &&& w.source_pin < self.components@[w.source as int].outputs@.len()
                    },
                k <= geo.wires@.len(),
                out@ == wire_lines_spec(*self, c as int, view, k as nat),
            decreases geo.wires@.len() - k,
        {
            let w = geo.wires[k];
            proof {
                assert(geometry_of(self.geometry@[w.source as int], self.components@, w.source as int));
            }
            let from = self.geometry[w.source].outputs[w.source_pin];
            let to = geo.inputs[w.in_pin];
            let on = w.in_pin < states.len() && states[w.in_pin];
            if view.contains(from) || view.contains(to) {
                out.push(WireLine { from, to, on });
            }
            k = k + 1;
        }
        out
    }

    /// The camera gestures of this frame; see `frame_gestures`.
    fn gestures_of(&self, input: &FrameInput) -> (r: Vec<CameraGesture>)
        requires
            self.wf(),
            input_wf(*input),
        ensures
            r@ == frame_gestures(self.pointer_on_button, self.drag_start, self.zoom_style, *input),
            forall|k: int| 0 <= k < r@.len() ==> gesture_valid(#[trigger] r@[k]),
    {
        let mut gs: Vec<CameraGesture> = Vec::new();
        if self.pointer_on_button {
            return gs;
        }
        if input.wheel_notches != 0 {
            gs.push(CameraGesture::Wheel { mouse: input.mouse, notches: input.wheel_notches });
        }
        let ghost after_wheel = gs@;
        let two = input.touches.len() >= 2;
        if two {
            proof {
                assert(in_screen_range(input.touches@[0]));
                assert(in_screen_range(input.touches@[1]));
            }
            gs.push(CameraGesture::Pinch { p1: input.touches[0], p2: input.touches[1], style: self.zoom_style });
        } else {
            gs.push(CameraGesture::PinchEnd);
        }
        let ghost after_pinch = gs@;
        let drag = if input.mouse_released {
            None
        } else if input.mouse_pressed {
            Some(input.mouse)
        } else {
            self.drag_start
        };
        if !two {
            if let Some(d) = drag {
                gs.push(
                    CameraGesture::Pan { delta: Point { x: d.x - input.mouse.x, y: d.y - input.mouse.y } },
                );
            }
        }
        proof {
            let f = frame_gestures(self.pointer_on_button, self.drag_start, self.zoom_style, *input);
            assert(gs@ =~= after_pinch + gs@.skip(after_pinch.len() as int));
            assert(after_pinch =~= after_wheel + after_pinch.skip(after_wheel.len() as int));
            assert(gs@ =~= f);
        }
        gs
    }

    /// One frame: resize, camera gestures, presses, then the clock. Returns
    /// how many logic ticks to run now, after the output bits that presses
    /// changed have reached the simulation.
    pub fn update(&mut self, input: &FrameInput, elapsed_nanos: u64) -> (ticks: u64)
        requires
            old(self).wf(),
            input_wf(*input),
        ensures
            final(self).wf(),
            final(self).geometry@ == old(self).geometry@,
            final(self).interactive@ == old(self).interactive@,
            final(self).zoom_style == old(self).zoom_style,
            (final(self).camera, final(self).pinch) == gestures_spec(
                camera_after_resize(old(self).camera, *input),
                old(self).pinch,
                frame_gestures(old(self).pointer_on_button, old(self).drag_start, old(self).zoom_style, *input),
            ),
            final(self).drag_start == drag_after_frame(old(self).pointer_on_button, old(self).drag_start, *input),
            input.tap ==> {
                let w = final(self).camera.spec_screen_to_world(input.mouse);
                &&& routed(old(self).components@, final(self).components@, old(self).interactive@, w, true)
                &&& final(self).last_press == Some(w)
                &&& final(self).pointer_on_button == (old(self).pointer_on_button || exists|m: int|
                    0 <= m < old(self).interactive@.len() && #[trigger] hit_spec(
                        old(self).components@[old(self).interactive@[m] as int],
                        w,
                    ))
            },
            !input.tap && input.mouse_up ==> {
                &&& final(self).last_press.is_none()
                &&& !final(self).pointer_on_button
                &&& match old(self).last_press {
                    Some(l) => routed(old(self).components@, final(self).components@, old(self).interactive@, l, false),
                    None => final(self).components@ == old(self).components@,
                }
            },
            !input.tap && !input.mouse_up ==> {
                &&& final(self).components@ == old(self).components@
                &&& final(self).last_press == old(self).last_press
                &&& final(self).pointer_on_button == old(self).pointer_on_button
            },
            final(self).clock == old(self).clock.frame_spec(elapsed_nanos as int),
            ticks == final(self).clock.ticks_this_frame,
    {
        let mut cam = self.camera;
        if let Some((w, h)) = input.viewport {
            cam.center_on_viewport(w, h);
        }
        let gs = self.gestures_of(input);
        let mut pinch = self.pinch;
        let ghost cam0 = cam;
        let ghost pinch0 = pinch;
        proof {
            assert(gs@.skip(0) =~= gs@);
        }
        let mut k: usize = 0;
        while k < gs.len()
            invariant
                k <= gs@.len(),
                cam.wf(),
                pinch.wf(),
                forall|i: int| 0 <= i < gs@.len() ==> gesture_valid(#[trigger] gs@[i]),
                gestures_spec(cam0, pinch0, gs@) == gestures_spec(cam, pinch, gs@.skip(k as int)),
            decreases gs@.len() - k,
        {
            proof {
                assert(gs@.skip(k as int)[0] == gs@[k as int]);
                assert(gs@.skip(k as int).drop_first() =~= gs@.skip(k + 1));
            }
            cam.apply_gesture(&mut pinch, gs[k]);
            k = k + 1;
        }
        proof {
            assert(gs@.skip(gs@.len() as int) =~= Seq::<CameraGesture>::empty());
        }
        self.camera = cam;
        self.pinch = pinch;
        if !self.pointer_on_button {
            let drag = if input.mouse_released {
                None
            } else if input.mouse_pressed {
                Some(input.mouse)
            } else {
                self.drag_start
            };
            self.drag_start = match drag {
                Some(_) => Some(input.mouse),
                None => None,
            };
        }
        let ghost before = self.components@;
        if input.tap {
            let w = self.camera.screen_to_world(input.mouse);
            let hit = press_at(&mut self.components, &self.interactive, w);
            if hit {
                self.pointer_on_button = true;
            }
            self.last_press = Some(w);
        } else if input.mouse_up {
            if let Some(last) = self.last_press {
                release_at(&mut self.components, &self.interactive, last);
            }
            self.pointer_on_button = false;
            self.last_press = None;
        }
        proof {
            lemma_outputs_keep_layout(before, self.components@, self.geometry@, self.interactive@);
        }
        self.clock.frame(elapsed_nanos)
    }
}

} // verus!
