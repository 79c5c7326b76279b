use logic_canvas::camera::{Camera, ZOOM_ONE};
use logic_canvas::clock::SimClock;
use logic_canvas::geom::{Point, SCREEN_UNITS_PER_PIXEL, WORLD_UNITS_PER_PIXEL};
use logic_canvas::hit::{button_hit, press_at, release_at};
use logic_canvas::layout::{Component, NodeKind, WireRef};
use logic_canvas::state::{interactive_indices, FrameInput, State, START_PIVOT};

const U: i64 = WORLD_UNITS_PER_PIXEL;

fn comp(id: u64, kind: NodeKind, x: i64, y: i64, num_inputs: usize, num_outputs: usize, wires: Vec<WireRef>) -> Component {
    Component {
        id,
        kind,
        position: Point::new(x * U, y * U),
        num_inputs,
        outputs: vec![false; num_outputs],
        input_states: vec![false; num_inputs],
        wires,
    }
}

fn circuit() -> Vec<Component> {
    vec![
        comp(1, NodeKind::ToggleButton, 0, 0, 0, 1, vec![]),
        comp(2, NodeKind::PulseButton, 0, 100, 0, 1, vec![]),
        comp(3, NodeKind::PlainGate, 200, 0, 2, 1, vec![
            WireRef { in_pin: 0, source_id: 1, source_pin: 0 },
            WireRef { in_pin: 1, source_id: 2, source_pin: 0 },
        ]),
        comp(4, NodeKind::ToggleButton, 400, 0, 0, 1, vec![]),
    ]
}

fn outputs(comps: &[Component]) -> Vec<Vec<bool>> {
    comps.iter().map(|c| c.outputs.clone()).collect()
}

#[test]
fn tap_on_plain_gate_changes_nothing() {
    let mut comps = circuit();
    let before = outputs(&comps);
    // index 2 is left out of the list of buttons
    let hit = press_at(&mut comps, &vec![0, 1, 3], Point::new(210 * U, 10 * U));
    assert!(!hit);
    assert_eq!(outputs(&comps), before);
    // nor does a gate that is listed as interactive react
    let hit = press_at(&mut comps, &vec![2], Point::new(210 * U, 10 * U));
    assert!(!hit);
    assert_eq!(outputs(&comps), before);
}

#[test]
fn tap_on_toggle_flips_only_its_bit() {
    let mut comps = circuit();
    let hit = press_at(&mut comps, &vec![0, 1, 3], Point::new(10 * U, 10 * U));
    assert!(hit);
    assert_eq!(outputs(&comps), vec![vec![true], vec![false], vec![false], vec![false]]);
    let hit = press_at(&mut comps, &vec![0, 1, 3], Point::new(49 * U, 49 * U));
    assert!(hit);
    assert_eq!(outputs(&comps), vec![vec![false], vec![false], vec![false], vec![false]]);
}

#[test]
fn button_box_edges() {
    let c = comp(1, NodeKind::ToggleButton, 0, 0, 0, 1, vec![]);
    assert!(button_hit(&c, Point::new(0, 0)));
    assert!(!button_hit(&c, Point::new(50 * U, 0)));
    assert!(!button_hit(&c, Point::new(-1, 0)));
    let empty = comp(1, NodeKind::ToggleButton, 0, 0, 0, 0, vec![]);
    assert!(!button_hit(&empty, Point::new(1, 1)));
}

#[test]
fn pulse_sets_on_press_and_clears_on_release() {
    let mut comps = circuit();
    let p = Point::new(5 * U, 105 * U);
    assert!(press_at(&mut comps, &vec![0, 1, 3], p));
    assert_eq!(comps[1].outputs, vec![true]);
    assert!(press_at(&mut comps, &vec![0, 1, 3], p));
    assert_eq!(comps[1].outputs, vec![true]);
    assert!(release_at(&mut comps, &vec![0, 1, 3], p));
    assert_eq!(comps[1].outputs, vec![false]);
}

#[test]
fn release_leaves_toggles_alone() {
    let mut comps = circuit();
    comps[0].outputs[0] = true;
    assert!(release_at(&mut comps, &vec![0, 1, 3], Point::new(1, 1)));
    assert_eq!(comps[0].outputs, vec![true]);
}

#[test]
fn interactive_indices_drop_repeats_and_strays() {
    assert_eq!(interactive_indices(&vec![3, 0, 3, 9, 1, 0], 4), vec![3, 0, 1]);
    assert!(interactive_indices(&vec![], 4).is_empty());
}

#[test]
fn clock_catch_up_at_thirty_hertz() {
    let tick = 1_000_000_000 / 30;
    let mut clock = SimClock::new(tick, 8);
    let n = clock.frame(50_000_000);
    assert!(n >= 1);
    assert_eq!(n, 1);
    assert_eq!(clock.carry_nanos, 50_000_000 - tick);
    // the carried time completes a tick in the next frame
    assert_eq!(clock.frame(20_000_000), 1);
    let n = clock.frame(10_000_000_000);
    assert_eq!(n, 8);
    assert_eq!(clock.carry_nanos, 0);
    assert_eq!(clock.ticks_this_frame, 8);
}

#[test]
fn clock_short_frames_accumulate() {
    let mut clock = SimClock::new(10, 100);
    assert_eq!(clock.frame(4), 0);
    assert_eq!(clock.frame(4), 0);
    assert_eq!(clock.frame(4), 1);
    assert_eq!(clock.carry_nanos, 2);
    assert_eq!(clock.frame(u64::MAX), 100);
}

fn frame(mouse: Point) -> FrameInput {
    FrameInput {
        mouse,
        mouse_pressed: false,
        mouse_released: false,
        mouse_up: false,
        wheel_notches: 0,
        touches: vec![],
        tap: false,
        viewport: None,
    }
}

fn sp(x: i64, y: i64) -> Point {
    Point::new(x * SCREEN_UNITS_PER_PIXEL, y * SCREEN_UNITS_PER_PIXEL)
}

#[test]
fn state_starts_at_default_view() {
    let s = State::new(circuit(), &vec![0, 1, 3], SimClock::new(1_000_000, 10));
    assert_eq!(s.camera, Camera::new(Point::new(START_PIVOT, START_PIVOT), Point::new(0, 0), ZOOM_ONE));
    assert_eq!(s.geometry.len(), 4);
    assert_eq!(s.interactive, vec![0, 1, 3]);
    assert!(!s.pointer_on_button);
}

#[test]
fn frame_tap_toggles_then_ticks() {
    let mut s = State::new(circuit(), &vec![0, 1, 3], SimClock::new(1_000_000, 10));
    // screen (210, 210) px is world (10, 10) px under the default camera
    let mut input = frame(sp(210, 210));
    input.tap = true;
    let ticks = s.update(&input, 3_500_000);
    assert_eq!(ticks, 3);
    assert_eq!(s.components[0].outputs, vec![true]);
    assert_eq!(s.components[3].outputs, vec![false]);
    assert!(s.pointer_on_button);
    assert_eq!(s.last_press, Some(Point::new(10 * U, 10 * U)));
    // while the button holds the pointer the wheel does not zoom
    let mut wheel = frame(sp(210, 210));
    wheel.wheel_notches = 1;
    s.update(&wheel, 0);
    assert_eq!(s.camera.zoom, ZOOM_ONE);
    let mut up = frame(sp(210, 210));
    up.mouse_up = true;
    s.update(&up, 0);
    assert!(!s.pointer_on_button);
    assert_eq!(s.last_press, None);
    assert_eq!(s.components[0].outputs, vec![true]);
    s.update(&wheel, 0);
    assert_eq!(s.camera.zoom, 80045);
}

#[test]
fn frame_pulse_press_and_release() {
    let mut s = State::new(circuit(), &vec![0, 1, 3], SimClock::new(1_000_000, 10));
    let mut input = frame(sp(205, 305));
    input.tap = true;
    s.update(&input, 0);
    assert_eq!(s.components[1].outputs, vec![true]);
    let mut up = frame(sp(0, 0));
    up.mouse_up = true;
    s.update(&up, 0);
    assert_eq!(s.components[1].outputs, vec![false]);
}

#[test]
fn frame_drag_pans_the_view() {
    let mut s = State::new(circuit(), &vec![0, 1, 3], SimClock::new(1_000_000, 10));
    let mut down = frame(sp(100, 100));
    down.mouse_pressed = true;
    s.update(&down, 0);
    assert_eq!(s.drag_start, Some(sp(100, 100)));
    assert_eq!(s.camera.target, Point::new(0, 0));
    s.update(&frame(sp(130, 90)), 0);
    // dragging right by 30 px moves the target left by 30 px at zoom 1
    assert_eq!(s.camera.target, Point::new(-30 * U, 10 * U));
    let mut release = frame(sp(130, 90));
    release.mouse_released = true;
    s.update(&release, 0);
    assert_eq!(s.drag_start, None);
    s.update(&frame(sp(0, 0)), 0);
    assert_eq!(s.camera.target, Point::new(-30 * U, 10 * U));
}

#[test]
fn frame_pinch_and_resize() {
    let mut s = State::new(circuit(), &vec![0, 1, 3], SimClock::new(1_000_000, 10));
    let mut input = frame(sp(0, 0));
    input.viewport = Some((800 * SCREEN_UNITS_PER_PIXEL, 600 * SCREEN_UNITS_PER_PIXEL));
    input.touches = vec![sp(300, 300), sp(500, 300)];
    s.update(&input, 0);
    assert_eq!(s.camera.offset, sp(400, 300));
    assert_eq!(s.pinch.initial_distance, 200 * SCREEN_UNITS_PER_PIXEL);
    let anchor = s.pinch.initial_anchor;
    input.viewport = None;
    input.touches = vec![sp(200, 300), sp(600, 300)];
    s.update(&input, 0);
    assert_eq!(s.camera.zoom, 2 * ZOOM_ONE);
    assert_eq!(s.camera.screen_to_world(sp(400, 300)), anchor);
    input.touches = vec![sp(200, 300)];
    s.update(&input, 0);
    assert_eq!(s.pinch.initial_distance, 0);
}

#[test]
fn wire_lines_keep_visible_wires_with_their_state() {
    let mut comps = circuit();
    comps[2].input_states = vec![true, false];
    let s = State::new(comps, &vec![0, 1, 3], SimClock::new(1_000_000, 10));
    let all = logic_canvas::geom::Rect { x: -1000 * U, y: -1000 * U, width: 3000 * U, height: 3000 * U };
    let lines = s.wire_lines(2, all);
    assert_eq!(lines.len(), 2);
    assert_eq!(lines[0].from, s.geometry[0].outputs[0]);
    assert_eq!(lines[0].to, s.geometry[2].inputs[0]);
    assert!(lines[0].on);
    assert_eq!(lines[1].from, s.geometry[1].outputs[0]);
    assert!(!lines[1].on);
    // a view around the second button's output pin only
    let p = s.geometry[1].outputs[0];
    let near = logic_canvas::geom::Rect { x: p.x - 1, y: p.y - 1, width: 2, height: 2 };
    let lines = s.wire_lines(2, near);
    assert_eq!(lines.len(), 1);
    assert_eq!(lines[0].from, p);
    let nowhere = logic_canvas::geom::Rect { x: 5000 * U, y: 5000 * U, width: 1, height: 1 };
    assert!(s.wire_lines(2, nowhere).is_empty());
}
