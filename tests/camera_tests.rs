use logic_canvas::camera::{
    Camera, CameraGesture, PinchState, ZoomStyle, PROJECTION, ZOOM_MAX, ZOOM_MIN, ZOOM_ONE,
};
use logic_canvas::geom::{Point, SCREEN_UNITS_PER_PIXEL, WORLD_LIMIT, WORLD_UNITS_PER_PIXEL};

fn px(x: i64, y: i64) -> Point {
    Point::new(x * SCREEN_UNITS_PER_PIXEL, y * SCREEN_UNITS_PER_PIXEL)
}

#[test]
fn screen_world_round_trip_is_exact() {
    let cams = [
        Camera::new(px(200, 200), Point::new(0, 0), ZOOM_ONE),
        Camera::new(px(13, -7), Point::new(123_456, -98_765), ZOOM_MIN),
        Camera::new(px(-300, 41), Point::new(-5, 77), ZOOM_MAX),
        Camera::new(px(0, 0), Point::new(1, 1), 80045),
        Camera::new(px(1, 2), Point::new(-3, 4), 12345),
    ];
    let points = [
        Point::new(0, 0),
        Point::new(1, -1),
        Point::new(-17, 33),
        px(400, 400),
        Point::new(2_000_000_000, -2_000_000_000),
    ];
    for cam in cams.iter() {
        for p in points.iter() {
            let w = cam.screen_to_world(*p);
            assert_eq!(cam.world_to_screen(w), *p);
        }
    }
}

#[test]
fn transform_follows_the_affine_formula() {
    // zoom 2: one world pixel shows as two screen pixels
    let cam = Camera::new(px(100, 50), Point::new(0, 0), 2 * ZOOM_ONE);
    let w = Point::new(10 * WORLD_UNITS_PER_PIXEL, -5 * WORLD_UNITS_PER_PIXEL);
    assert_eq!(cam.world_to_screen(w), px(120, 40));
    assert_eq!(cam.screen_to_world(px(120, 40)), w);
    assert_eq!(PROJECTION, ZOOM_ONE * WORLD_UNITS_PER_PIXEL / SCREEN_UNITS_PER_PIXEL);
}

#[test]
fn new_clamps_zoom_and_target() {
    let cam = Camera::new(px(0, 0), Point::new(WORLD_LIMIT + 5, -WORLD_LIMIT - 5), 1);
    assert_eq!(cam.zoom, ZOOM_MIN);
    assert_eq!(cam.target, Point::new(WORLD_LIMIT, -WORLD_LIMIT));
    let cam = Camera::new(px(0, 0), Point::new(0, 0), i64::MAX);
    assert_eq!(cam.zoom, ZOOM_MAX);
}

#[test]
fn wheel_one_notch_in_from_zoom_one() {
    let mut cam = Camera::new(px(200, 200), Point::new(0, 0), ZOOM_ONE);
    let mouse = px(250, 180);
    let before = cam.screen_to_world(mouse);
    cam.zoom_by_wheel(mouse, 1);
    let z = cam.zoom as f64 / ZOOM_ONE as f64;
    assert!((z - 0.2f64.exp()).abs() < 1e-4);
    assert_eq!(cam.zoom, 80045);
    assert_eq!(cam.offset, mouse);
    assert_eq!(cam.screen_to_world(mouse), before);
}

#[test]
fn wheel_zero_notches_changes_nothing() {
    let mut cam = Camera::new(px(200, 200), Point::new(7, 9), ZOOM_ONE);
    let before = cam;
    cam.zoom_by_wheel(px(3, 4), 0);
    assert_eq!(cam, before);
}

#[test]
fn wheel_in_then_out_is_multiplicative() {
    let mut cam = Camera::new(px(200, 200), Point::new(0, 0), ZOOM_ONE);
    cam.zoom_by_wheel(px(200, 200), 2);
    assert_eq!(cam.zoom, 80045 * 80045 / 65536);
    cam.zoom_by_wheel(px(200, 200), -1);
    assert_eq!(cam.zoom, (80045 * 80045 / 65536) * 65536 / 80045);
}

#[test]
fn wheel_zoom_clamps_at_both_ends() {
    let mut cam = Camera::new(px(200, 200), Point::new(0, 0), ZOOM_ONE);
    cam.zoom_by_wheel(px(10, 10), 1000);
    assert_eq!(cam.zoom, ZOOM_MAX);
    cam.zoom_by_wheel(px(10, 10), i32::MIN);
    assert_eq!(cam.zoom, ZOOM_MIN);
}

#[test]
fn pan_moves_target_by_delta_over_zoom() {
    let mut cam = Camera::new(px(200, 200), Point::new(0, 0), 2 * ZOOM_ONE);
    cam.pan(px(1, -3));
    // one screen pixel at zoom 2 is half a world pixel
    assert_eq!(cam.target, Point::new(WORLD_UNITS_PER_PIXEL / 2, -3 * WORLD_UNITS_PER_PIXEL / 2));
    assert_eq!(cam.zoom, 2 * ZOOM_ONE);
    assert_eq!(cam.offset, px(200, 200));
}

#[test]
fn pinch_doubling_distance_doubles_zoom() {
    let mut cam = Camera::new(px(200, 200), Point::new(0, 0), ZOOM_ONE);
    let mut pinch = PinchState::new();
    cam.zoom_by_pinch(&mut pinch, px(100, 100), px(200, 100), ZoomStyle::Midpoint);
    assert_eq!(pinch.initial_distance, 100 * SCREEN_UNITS_PER_PIXEL);
    assert_eq!(pinch.initial_zoom, ZOOM_ONE);
    assert_eq!(cam.zoom, ZOOM_ONE);
    let anchor = pinch.initial_anchor;
    cam.zoom_by_pinch(&mut pinch, px(50, 120), px(250, 120), ZoomStyle::Midpoint);
    assert_eq!(cam.zoom, 2 * ZOOM_ONE);
    assert_eq!(cam.zoom as f64 / ZOOM_ONE as f64, 2.0);
    assert_eq!(cam.screen_to_world(px(150, 120)), anchor);
}

#[test]
fn pinch_first_pointer_style_anchors_first_pointer() {
    let mut cam = Camera::new(px(200, 200), Point::new(0, 0), ZOOM_ONE);
    let mut pinch = PinchState::new();
    cam.zoom_by_pinch(&mut pinch, px(10, 10), px(10, 110), ZoomStyle::FirstPointer);
    let anchor = pinch.initial_anchor;
    assert_eq!(anchor, cam.screen_to_world(px(10, 10)));
    cam.zoom_by_pinch(&mut pinch, px(30, 10), px(30, 60), ZoomStyle::FirstPointer);
    assert_eq!(cam.zoom, ZOOM_ONE / 2);
    assert_eq!(cam.screen_to_world(px(30, 10)), anchor);
}

#[test]
fn pinch_with_zero_distance_changes_no_zoom() {
    let mut cam = Camera::new(px(200, 200), Point::new(5, 5), ZOOM_ONE);
    let before = cam;
    let mut pinch = PinchState::new();
    cam.zoom_by_pinch(&mut pinch, px(40, 40), px(40, 40), ZoomStyle::Midpoint);
    assert_eq!(cam, before);
    assert_eq!(pinch.initial_distance, 0);
}

#[test]
fn pinch_zoom_is_clamped() {
    let mut cam = Camera::new(px(200, 200), Point::new(0, 0), ZOOM_ONE);
    let mut pinch = PinchState::new();
    cam.zoom_by_pinch(&mut pinch, px(0, 0), px(1, 0), ZoomStyle::Midpoint);
    cam.zoom_by_pinch(&mut pinch, px(0, 0), px(1000, 0), ZoomStyle::Midpoint);
    assert_eq!(cam.zoom, ZOOM_MAX);
}

#[test]
fn gesture_sequence_keeps_zoom_in_bounds() {
    let mut cam = Camera::new(px(200, 200), Point::new(0, 0), ZOOM_ONE);
    let mut pinch = PinchState::new();
    let gestures = [
        CameraGesture::Wheel { mouse: px(3, 4), notches: 7 },
        CameraGesture::Pinch { p1: px(0, 0), p2: px(3, 4), style: ZoomStyle::Midpoint },
        CameraGesture::Pinch { p1: px(0, 0), p2: px(300, 400), style: ZoomStyle::Midpoint },
        CameraGesture::Pan { delta: px(-50, 20) },
        CameraGesture::PinchEnd,
        CameraGesture::Wheel { mouse: px(-30, 40), notches: -40 },
        CameraGesture::Pinch { p1: px(0, 0), p2: px(300, 400), style: ZoomStyle::FirstPointer },
        CameraGesture::Pinch { p1: px(0, 0), p2: px(1, 1), style: ZoomStyle::FirstPointer },
        CameraGesture::Wheel { mouse: px(5, 5), notches: 3 },
    ];
    for g in gestures.iter() {
        cam.apply_gesture(&mut pinch, *g);
        assert!(ZOOM_MIN <= cam.zoom && cam.zoom <= ZOOM_MAX);
    }
    assert_eq!(pinch.initial_distance, 500 * SCREEN_UNITS_PER_PIXEL);
    let mut z = ZOOM_MIN;
    for _ in 0..3 {
        z = z * 80045 / 65536;
    }
    assert_eq!(cam.zoom, z);
}

#[test]
fn pinch_end_resets_the_record() {
    let mut cam = Camera::new(px(200, 200), Point::new(0, 0), ZOOM_ONE);
    let mut pinch = PinchState::new();
    cam.apply_gesture(&mut pinch, CameraGesture::Pinch { p1: px(0, 0), p2: px(10, 0), style: ZoomStyle::Midpoint });
    assert_ne!(pinch.initial_distance, 0);
    cam.apply_gesture(&mut pinch, CameraGesture::PinchEnd);
    assert_eq!(pinch, PinchState::new());
}

#[test]
fn viewport_centre_and_visible_rect() {
    let mut cam = Camera::new(px(0, 0), Point::new(0, 0), ZOOM_ONE);
    cam.center_on_viewport(800 * SCREEN_UNITS_PER_PIXEL, 600 * SCREEN_UNITS_PER_PIXEL);
    assert_eq!(cam.offset, px(400, 300));
    let r = cam.visible_world_rect(800 * SCREEN_UNITS_PER_PIXEL, 600 * SCREEN_UNITS_PER_PIXEL);
    assert_eq!(r.x, -400 * WORLD_UNITS_PER_PIXEL);
    assert_eq!(r.y, -300 * WORLD_UNITS_PER_PIXEL);
    assert_eq!(r.width, 800 * WORLD_UNITS_PER_PIXEL);
    assert_eq!(r.height, 600 * WORLD_UNITS_PER_PIXEL);
    assert!(r.contains(Point::new(0, 0)));
    assert!(!r.contains(Point::new(400 * WORLD_UNITS_PER_PIXEL, 0)));
}

#[test]
fn drag_moves_content_by_the_drag() {
    let mut cam = Camera::new(px(200, 200), Point::new(12_345, -678), 3 * ZOOM_ONE);
    let before = cam;
    let delta = px(1, -2);
    cam.pan(delta);
    for w in [Point::new(0, 0), Point::new(99_999, -31_337), Point::new(-5, 5)] {
        let a = before.world_to_screen(w);
        let b = cam.world_to_screen(w);
        assert!(a.x - b.x == delta.x || a.x - b.x == delta.x + 1);
        assert!(a.y - b.y == delta.y || a.y - b.y == delta.y + 1);
    }
}
