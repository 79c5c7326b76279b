//! The view transform: `screen = (world - target) * zoom + offset`, in fixed
//! point, and its updates by drag, mouse wheel and two-finger pinch.

use vstd::prelude::*;
use vstd::arithmetic::div_mod::lemma_fundamental_div_mod;
use crate::geom::{
    Point, Rect, int_sqrt, isqrt, lemma_int_sqrt_brackets, clamp_int, floor_div, ceil_div, in_screen_range, in_world_range,
    clamp_world_spec, clamp_world, clamp_i128, floor_div_i128, ceil_div_i128, SCREEN_LIMIT,
};

verus! {

/// Zoom is kept in 65536ths: this value is a zoom of 1.
pub const ZOOM_ONE: i64 = 65536;

/// Zoom 0.125.
pub const ZOOM_MIN: i64 = 8192;

/// Zoom 64.
pub const ZOOM_MAX: i64 = 4194304;

/// World units per screen unit, times `ZOOM_ONE`: a world length `w` shows as
/// `w * zoom / PROJECTION` screen units.
pub const PROJECTION: i64 = 4194304;

/// One wheel notch multiplies the zoom by `WHEEL_STEP_NUM / WHEEL_STEP_DEN`,
/// which is e^0.2 to six digits.
pub const WHEEL_STEP_NUM: i64 = 80045;

pub const WHEEL_STEP_DEN: i64 = 65536;

/// Largest magnitude of a world coordinate that `world_to_screen` accepts.
pub const WORLD_REACH: i64 = 0x400_0000_0000;

/// The view transform. A world point `w` shows at screen point
/// `floor((w - target) * zoom / PROJECTION) + offset`; a screen point `p`
/// shows world point `ceil((p - offset) * PROJECTION / zoom) + target`. With
/// these roundings the way from screen to world and back is exact.
#[derive(Clone, Copy, Debug, PartialEq, Eq, Structural)]
pub struct Camera {
    /// The screen point that the target shows at.
    pub offset: Point,
    /// The world point shown at the offset.
    pub target: Point,
    /// Scale from world to screen, in units of `ZOOM_ONE`.
    pub zoom: i64,
}

/// A screen length in world units at the given zoom, rounded up.
pub open spec fn screen_len_to_world(d: int, zoom: int) -> int {
    ceil_div(d * PROJECTION, zoom)
}

/// A world length in screen units at the given zoom, rounded down.
pub open spec fn world_len_to_screen(d: int, zoom: int) -> int {
    floor_div(d * zoom, PROJECTION as int)
}

pub open spec fn in_world_reach(p: Point) -> bool {
    -WORLD_REACH <= p.x <= WORLD_REACH && -WORLD_REACH <= p.y <= WORLD_REACH
}

pub open spec fn clamp_zoom(z: int) -> int {
    clamp_int(z, ZOOM_MIN as int, ZOOM_MAX as int)
}

/// The zoom after `n` wheel notches: each notch in multiplies by the wheel
/// step and each notch out divides by it, rounding down and clamping to the
/// zoom range after every notch.
pub open spec fn wheel_zoom(z: int, n: int) -> int
    decreases (if n >= 0 { n } else { -n }),
{
    if n == 0 {
        z
    } else if n > 0 {
        wheel_zoom(clamp_zoom(z * WHEEL_STEP_NUM / (WHEEL_STEP_DEN as int)), n - 1)
    } else {
        wheel_zoom(clamp_zoom(z * WHEEL_STEP_DEN / (WHEEL_STEP_NUM as int)), n + 1)
    }
}

proof fn lemma_div_bounds(a: int, z: int, m: int)
    requires
        m >= 0,
        ZOOM_MIN <= z,
        -m * ZOOM_MIN <= a <= m * ZOOM_MIN,
    ensures
        -m <= a / z <= m,
        -m <= -((-a) / z) <= m,
{
    lemma_fundamental_div_mod(a, z);
    lemma_fundamental_div_mod(-a, z);
    let q = a / z;
    let q2 = (-a) / z;
    assert(-m <= q <= m) by (nonlinear_arith)
        requires
            a == z * q + a % z,
            0 <= a % z < z,
            m >= 0,
            ZOOM_MIN <= z,
            -m * ZOOM_MIN <= a <= m * ZOOM_MIN,
    ;
    assert(-m <= q2 <= m) by (nonlinear_arith)
        requires
            -a == z * q2 + (-a) % z,
            0 <= (-a) % z < z,
            m >= 0,
            ZOOM_MIN <= z,
            -m * ZOOM_MIN <= a <= m * ZOOM_MIN,
    ;
}

/// A screen length of at most 2^32 units is at most 2^41 world units long.
proof fn lemma_screen_len_bound(d: int, zoom: int)
    requires
        -0x1_0000_0000 <= d <= 0x1_0000_0000,
        ZOOM_MIN <= zoom <= ZOOM_MAX,
    ensures
        -0x200_0000_0000 <= screen_len_to_world(d, zoom) <= 0x200_0000_0000,
{
    lemma_div_bounds(d * PROJECTION, zoom, 0x200_0000_0000);
}

/// A world length of at most 2^43 units is at most 2^43 screen units long.
proof fn lemma_world_len_bound(d: int, zoom: int)
    requires
        -0x800_0000_0000 <= d <= 0x800_0000_0000,
        ZOOM_MIN <= zoom <= ZOOM_MAX,
    ensures
        -0x800_0000_0000 <= world_len_to_screen(d, zoom) <= 0x800_0000_0000,
{
    lemma_fundamental_div_mod(d * zoom, PROJECTION as int);
    let q = (d * zoom) / (PROJECTION as int);
    assert(-0x800_0000_0000 <= q <= 0x800_0000_0000) by (nonlinear_arith)
        requires
            d * zoom == PROJECTION * q + (d * zoom) % (PROJECTION as int),
            0 <= (d * zoom) % (PROJECTION as int) < PROJECTION,
            -0x800_0000_0000 <= d <= 0x800_0000_0000,
            ZOOM_MIN <= zoom <= ZOOM_MAX,
    ;
}

impl Camera {
    pub open spec fn wf(self) -> bool {
        &&& ZOOM_MIN <= self.zoom <= ZOOM_MAX
        &&& in_screen_range(self.offset)
        &&& in_world_range(self.target)
    }

    pub open spec fn spec_screen_to_world(self, p: Point) -> Point {
        Point {
            x: (screen_len_to_world(p.x - self.offset.x, self.zoom as int) + self.target.x) as i64,
            y: (screen_len_to_world(p.y - self.offset.y, self.zoom as int) + self.target.y) as i64,
        }
    }

    pub open spec fn spec_world_to_screen(self, w: Point) -> Point {
        Point {
            x: (world_len_to_screen(w.x - self.target.x, self.zoom as int) + self.offset.x) as i64,
            y: (world_len_to_screen(w.y - self.target.y, self.zoom as int) + self.offset.y) as i64,
        }
    }

    /// A camera with the given pivot, target and zoom, each clamped to its range.
    pub fn new(offset: Point, target: Point, zoom: i64) -> (r: Camera)
        ensures
            r.wf(),
            r.offset.x == clamp_int(offset.x as int, -SCREEN_LIMIT as int, SCREEN_LIMIT as int),
            r.offset.y == clamp_int(offset.y as int, -SCREEN_LIMIT as int, SCREEN_LIMIT as int),
            r.target == clamp_world_spec(target.x as int, target.y as int),
            r.zoom == clamp_zoom(zoom as int),
    {
        Camera {
            offset: Point {
                x: clamp_i128(offset.x as i128, -SCREEN_LIMIT, SCREEN_LIMIT),
                y: clamp_i128(offset.y as i128, -SCREEN_LIMIT, SCREEN_LIMIT),
            },
            target: clamp_world(target.x as i128, target.y as i128),
            zoom: clamp_i128(zoom as i128, ZOOM_MIN, ZOOM_MAX),
        }
    }

    fn screen_len(&self, d: i64) -> (r: i64)
        requires
            self.wf(),
            -0x1_0000_0000 <= d <= 0x1_0000_0000,
        ensures
            r == screen_len_to_world(d as int, self.zoom as int),
            -0x200_0000_0000 <= r <= 0x200_0000_0000,
    {
        proof {
            lemma_screen_len_bound(d as int, self.zoom as int);
            assert(-0x40_0000_0000_0000 <= d * PROJECTION <= 0x40_0000_0000_0000) by (nonlinear_arith)
                requires
                    -0x1_0000_0000 <= d <= 0x1_0000_0000,
            ;
        }
        ceil_div_i128(d as i128 * PROJECTION as i128, self.zoom as i128) as i64
    }

    /// The world point shown at screen point `p`.
    pub fn screen_to_world(&self, p: Point) -> (r: Point)
        requires
            self.wf(),
            in_screen_range(p),
        ensures
            r == self.spec_screen_to_world(p),
            in_world_reach(r),
    {
        let x = self.screen_len(p.x - self.offset.x) + self.target.x;
        let y = self.screen_len(p.y - self.offset.y) + self.target.y;
        Point { x, y }
    }

    /// The screen point at which world point `w` shows.
    pub fn world_to_screen(&self, w: Point) -> (r: Point)
        requires
            self.wf(),
            in_world_reach(w),
        ensures
            r == self.spec_world_to_screen(w),
    {
        proof {
            lemma_world_len_bound(w.x - self.target.x, self.zoom as int);
            lemma_world_len_bound(w.y - self.target.y, self.zoom as int);
            assert(-0x800_0000_0000 * ZOOM_MAX <= (w.x - self.target.x) * self.zoom <= 0x800_0000_0000 * ZOOM_MAX) by (nonlinear_arith)
                requires
                    -0x800_0000_0000 <= w.x - self.target.x <= 0x800_0000_0000,
                    0 < self.zoom <= ZOOM_MAX,
            ;
            assert(-0x800_0000_0000 * ZOOM_MAX <= (w.y - self.target.y) * self.zoom <= 0x800_0000_0000 * ZOOM_MAX) by (nonlinear_arith)
                requires
                    -0x800_0000_0000 <= w.y - self.target.y <= 0x800_0000_0000,
                    0 < self.zoom <= ZOOM_MAX,
            ;
        }
        let dx = floor_div_i128((w.x - self.target.x) as i128 * self.zoom as i128, PROJECTION as i128);
        let dy = floor_div_i128((w.y - self.target.y) as i128 * self.zoom as i128, PROJECTION as i128);
        Point { x: dx as i64 + self.offset.x, y: dy as i64 + self.offset.y }
    }
}

/// Rounding a screen length up into world units and back down again gives
/// the same screen length.
proof fn lemma_len_round_trip(d: int, zoom: int)
    requires
        ZOOM_MIN <= zoom <= ZOOM_MAX,
    ensures
        world_len_to_screen(screen_len_to_world(d, zoom), zoom) == d,
{
    let a = d * PROJECTION;
    lemma_fundamental_div_mod(-a, zoom);
    let q = (-a) / zoom;
    let r = (-a) % zoom;
    let c = -q;
    assert(c * zoom == d * PROJECTION + r) by (nonlinear_arith)
        requires
            -a == zoom * q + r,
            a == d * PROJECTION,
            c == -q,
    ;
    vstd::arithmetic::div_mod::lemma_fundamental_div_mod_converse(
        c * zoom,
        PROJECTION as int,
        d,
        r,
    );
}

/// Mapping a screen point into the world and back gives that screen point,
/// exactly.
pub proof fn lemma_screen_world_round_trip(cam: Camera, p: Point)
    requires
        cam.wf(),
        in_screen_range(p),
    ensures
        cam.spec_world_to_screen(cam.spec_screen_to_world(p)) == p,
{
    lemma_screen_len_bound(p.x - cam.offset.x, cam.zoom as int);
    lemma_screen_len_bound(p.y - cam.offset.y, cam.zoom as int);
    lemma_len_round_trip(p.x - cam.offset.x, cam.zoom as int);
    lemma_len_round_trip(p.y - cam.offset.y, cam.zoom as int);
}

/// Taking a screen length `d` into the world and moving a world length by
/// it moves that length's screen image by `d`, or by `d + 1` where rounding
/// falls the other way.
proof fn lemma_len_shift(a: int, d: int, zoom: int)
    requires
        ZOOM_MIN <= zoom <= ZOOM_MAX,
    ensures
        world_len_to_screen(a, zoom) - world_len_to_screen(a - screen_len_to_world(d, zoom), zoom) == d
            || world_len_to_screen(a, zoom) - world_len_to_screen(a - screen_len_to_world(d, zoom), zoom)
            == d + 1,
{
    let p = PROJECTION as int;
    let c = screen_len_to_world(d, zoom);
    lemma_fundamental_div_mod(-(d * p), zoom);
    let q = (-(d * p)) / zoom;
    let r = (-(d * p)) % zoom;
    assert(c * zoom == d * p + r) by (nonlinear_arith)
        requires
            -(d * p) == zoom * q + r,
            c == -q,
    ;
    let x = a * zoom;
    assert((a - c) * zoom == x - d * p - r) by (nonlinear_arith)
        requires
            c * zoom == d * p + r,
            x == a * zoom,
    ;
    lemma_fundamental_div_mod(x, p);
    let fx = x / p;
    let mx = x % p;
    let y = x - d * p - r;
    lemma_fundamental_div_mod(y, p);
    let fy = y / p;
    let my = y % p;
    assert(fx - fy == d || fx - fy == d + 1) by (nonlinear_arith)
        requires
            x == p * fx + mx,
            0 <= mx < p,
            y == p * fy + my,
            0 <= my < p,
            y == x - d * p - r,
            0 <= r < zoom,
            zoom <= p,
            p > 0,
    ;
}

/// A drag by `delta` screen units moves every world point's screen image by
/// `-delta`, give or take one screen unit (a sixteenth of a pixel), as long
/// as the new target lies in the world's range.
pub proof fn lemma_pan_moves_content(cam: Camera, delta: Point, w: Point)
    requires
        cam.wf(),
        in_delta_range(delta),
        in_world_reach(w),
        in_world_range(
            Point {
                x: (cam.target.x + screen_len_to_world(delta.x as int, cam.zoom as int)) as i64,
                y: (cam.target.y + screen_len_to_world(delta.y as int, cam.zoom as int)) as i64,
            },
        ),
    ensures
        ({
            let before = cam.spec_world_to_screen(w);
            let after = cam.pan_spec(delta).spec_world_to_screen(w);
            &&& before.x - after.x == delta.x || before.x - after.x == delta.x + 1
            &&& before.y - after.y == delta.y || before.y - after.y == delta.y + 1
        }),
{
    let z = cam.zoom as int;
    lemma_screen_len_bound(delta.x as int, z);
    lemma_screen_len_bound(delta.y as int, z);
    let cx = screen_len_to_world(delta.x as int, z);
    let cy = screen_len_to_world(delta.y as int, z);
    lemma_len_shift(w.x - cam.target.x, delta.x as int, z);
    lemma_len_shift(w.y - cam.target.y, delta.y as int, z);
    lemma_world_len_bound(w.x - cam.target.x, z);
    lemma_world_len_bound(w.y - cam.target.y, z);
    lemma_world_len_bound(w.x - cam.target.x - cx, z);
    lemma_world_len_bound(w.y - cam.target.y - cy, z);
}

pub open spec fn in_delta_range(d: Point) -> bool {
    -2 * SCREEN_LIMIT <= d.x <= 2 * SCREEN_LIMIT && -2 * SCREEN_LIMIT <= d.y <= 2 * SCREEN_LIMIT
}

impl Camera {
    /// The camera after the view is dragged by `delta` screen units: the
    /// target moves by `delta` taken into world units.
    pub open spec fn pan_spec(self, delta: Point) -> Camera {
        Camera {
            target: clamp_world_spec(
                self.target.x + screen_len_to_world(delta.x as int, self.zoom as int),
                self.target.y + screen_len_to_world(delta.y as int, self.zoom as int),
            ),
            ..self
        }
    }

    /// The camera after `notches` wheel notches with the cursor at `mouse`:
    /// the cursor becomes the pivot, the world point under it the target,
    /// and the zoom moves by the wheel step per notch.
    pub open spec fn wheel_spec(self, mouse: Point, notches: int) -> Camera {
        if notches == 0 {
            self
        } else {
            let w = self.spec_screen_to_world(mouse);
            Camera {
                offset: mouse,
                target: clamp_world_spec(w.x as int, w.y as int),
                zoom: wheel_zoom(self.zoom as int, notches) as i64,
            }
        }
    }

    pub fn pan(&mut self, delta: Point)
        requires
            old(self).wf(),
            in_delta_range(delta),
        ensures
            final(self).wf(),
            *final(self) == old(self).pan_spec(delta),
    {
        let dx = self.screen_len(delta.x);
        let dy = self.screen_len(delta.y);
        self.target = clamp_world(self.target.x as i128 + dx as i128, self.target.y as i128 + dy as i128);
    }

    pub fn zoom_by_wheel(&mut self, mouse: Point, notches: i32)
        requires
            old(self).wf(),
            in_screen_range(mouse),
        ensures
            final(self).wf(),
            *final(self) == old(self).wheel_spec(mouse, notches as int),
    {
        if notches != 0 {
            let w = self.screen_to_world(mouse);
            let zoom = zoom_after_notches(self.zoom, notches);
            self.offset = mouse;
            self.target = clamp_world(w.x as i128, w.y as i128);
            self.zoom = zoom;
        }
    }

    /// Puts the pivot at the centre of a viewport of the given size, in
    /// screen units.
    pub fn center_on_viewport(&mut self, width: i64, height: i64)
        requires
            old(self).wf(),
            0 <= width <= 2 * SCREEN_LIMIT,
            0 <= height <= 2 * SCREEN_LIMIT,
        ensures
            final(self).wf(),
            *final(self) == (Camera { offset: Point { x: (width / 2) as i64, y: (height / 2) as i64 }, ..*old(self) }),
    {
        self.offset = Point { x: width / 2, y: height / 2 };
    }

    /// The world rectangle that a viewport of the given size, in screen
    /// units, shows: from the world point at its top-left corner to the one
    /// at its bottom-right corner.
    pub fn visible_world_rect(&self, width: i64, height: i64) -> (r: Rect)
        requires
            self.wf(),
            0 <= width <= SCREEN_LIMIT,
            0 <= height <= SCREEN_LIMIT,
        ensures
            r.x == self.spec_screen_to_world(Point { x: 0, y: 0 }).x,
            r.y == self.spec_screen_to_world(Point { x: 0, y: 0 }).y,
            r.x + r.width == self.spec_screen_to_world(Point { x: width, y: height }).x,
            r.y + r.height == self.spec_screen_to_world(Point { x: width, y: height }).y,
    {
        let tl = self.screen_to_world(Point { x: 0, y: 0 });
        let br = self.screen_to_world(Point { x: width, y: height });
        Rect { x: tl.x, y: tl.y, width: br.x - tl.x, height: br.y - tl.y }
    }
}

pub proof fn lemma_wheel_zoom_in_range(z: int, n: int)
    requires
        ZOOM_MIN <= z <= ZOOM_MAX,
    ensures
        ZOOM_MIN <= wheel_zoom(z, n) <= ZOOM_MAX,
    decreases (if n >= 0 { n } else { -n }),
{
    if n > 0 {
        lemma_wheel_zoom_in_range(clamp_zoom(z * WHEEL_STEP_NUM / (WHEEL_STEP_DEN as int)), n - 1);
    } else if n < 0 {
        lemma_wheel_zoom_in_range(clamp_zoom(z * WHEEL_STEP_DEN / (WHEEL_STEP_NUM as int)), n + 1);
    }
}

proof fn lemma_wheel_zoom_saturates(z: int, n: int)
    ensures
        z == ZOOM_MAX && n >= 0 ==> wheel_zoom(z, n) == ZOOM_MAX,
        z == ZOOM_MIN && n <= 0 ==> wheel_zoom(z, n) == ZOOM_MIN,
    decreases (if n >= 0 { n } else { -n }),
{
    if n > 0 {
        lemma_wheel_zoom_saturates(clamp_zoom(z * WHEEL_STEP_NUM / (WHEEL_STEP_DEN as int)), n - 1);
    } else if n < 0 {
        lemma_wheel_zoom_saturates(clamp_zoom(z * WHEEL_STEP_DEN / (WHEEL_STEP_NUM as int)), n + 1);
    }
}

/// `wheel_zoom(zoom, notches)`, one notch at a time, stopping early once the
/// zoom sits at the bound that the notches push towards.
fn zoom_after_notches(zoom: i64, notches: i32) -> (r: i64)
    requires
        ZOOM_MIN <= zoom <= ZOOM_MAX,
    ensures
        r == wheel_zoom(zoom as int, notches as int),
        ZOOM_MIN <= r <= ZOOM_MAX,
{
    let mut z: i64 = zoom;
    let mut n: i64 = notches as i64;
    while n != 0
        invariant
            ZOOM_MIN <= z <= ZOOM_MAX,
            -0x8000_0000 <= n <= 0x8000_0000,
            wheel_zoom(z as int, n as int) == wheel_zoom(zoom as int, notches as int),
        decreases (if n >= 0 { n as int } else { -n }),
    {
        if n > 0 {
            if z == ZOOM_MAX {
                proof {
                    lemma_wheel_zoom_saturates(z as int, n as int);
                }
                n = 0;
            } else {
                z = clamp_i128((z * WHEEL_STEP_NUM / WHEEL_STEP_DEN) as i128, ZOOM_MIN, ZOOM_MAX);
                n = n - 1;
            }
        } else {
            if z == ZOOM_MIN {
                proof {
                    lemma_wheel_zoom_saturates(z as int, n as int);
                }
                n = 0;
            } else {
                z = clamp_i128((z * WHEEL_STEP_DEN / WHEEL_STEP_NUM) as i128, ZOOM_MIN, ZOOM_MAX);
                n = n + 1;
            }
        }
    }
    proof {
        lemma_wheel_zoom_in_range(zoom as int, notches as int);
    }
    z
}

/// Which screen point a pinch keeps fixed.
#[derive(Clone, Copy, Debug, PartialEq, Eq, Structural)]
pub enum ZoomStyle {
    /// The midpoint of the two pointers.
    Midpoint,
    /// The first pointer.
    FirstPointer,
}

/// What a two-pointer gesture remembers from its start.
#[derive(Clone, Copy, Debug, PartialEq, Eq, Structural)]
pub struct PinchState {
    /// Distance between the pointers when the pinch began; 0 while no pinch
    /// is established.
    pub initial_distance: i64,
    /// The zoom when the pinch began.
    pub initial_zoom: i64,
    /// The world point under the pinch origin when the pinch began.
    pub initial_anchor: Point,
}

pub open spec fn pinch_origin(p1: Point, p2: Point, style: ZoomStyle) -> Point {
    match style {
        ZoomStyle::Midpoint => Point {
            x: floor_div(p1.x + p2.x, 2) as i64,
            y: floor_div(p1.y + p2.y, 2) as i64,
        },
        ZoomStyle::FirstPointer => p1,
    }
}

/// The distance between two screen points, rounded down to a whole unit.
pub open spec fn pointer_distance(p1: Point, p2: Point) -> int {
    int_sqrt(((p1.x - p2.x) * (p1.x - p2.x) + (p1.y - p2.y) * (p1.y - p2.y)) as nat) as int
}

impl PinchState {
    pub open spec fn wf(self) -> bool {
        &&& 0 <= self.initial_distance < 0x2_0000_0000
        &&& ZOOM_MIN <= self.initial_zoom <= ZOOM_MAX
        &&& in_world_range(self.initial_anchor)
    }

    /// No pinch established.
    pub fn new() -> (r: PinchState)
        ensures
            r.wf(),
            r == (PinchState { initial_distance: 0, initial_zoom: ZOOM_ONE, initial_anchor: Point { x: 0, y: 0 } }),
    {
        PinchState { initial_distance: 0, initial_zoom: ZOOM_ONE, initial_anchor: Point { x: 0, y: 0 } }
    }
}

/// A pinch step: on the first frame with the two pointers apart, the
/// gesture records their distance, the zoom and the world point under the
/// origin; on that frame and later ones the zoom follows the ratio of the
/// current to the recorded distance, and the target moves so that the
/// recorded world point shows at the origin. While the recorded distance is
/// 0 nothing changes but the record.
pub open spec fn pinch_spec(cam: Camera, pinch: PinchState, p1: Point, p2: Point, style: ZoomStyle) -> (Camera, PinchState) {
    let origin = pinch_origin(p1, p2, style);
    let dist = pointer_distance(p1, p2);
    let started = if pinch.initial_distance == 0 {
        let w = cam.spec_screen_to_world(origin);
        PinchState {
            initial_distance: dist as i64,
            initial_zoom: cam.zoom,
            initial_anchor: clamp_world_spec(w.x as int, w.y as int),
        }
    } else {
        pinch
    };
    if started.initial_distance == 0 {
        (cam, started)
    } else {
        let zoom = clamp_zoom(started.initial_zoom * dist / (started.initial_distance as int));
        let target = clamp_world_spec(
            started.initial_anchor.x - screen_len_to_world(origin.x - cam.offset.x, zoom),
            started.initial_anchor.y - screen_len_to_world(origin.y - cam.offset.y, zoom),
        );
        (Camera { offset: cam.offset, target, zoom: zoom as i64 }, started)
    }
}

impl Camera {
    /// One frame of a two-pointer pinch at screen points `p1` and `p2`.
    pub fn zoom_by_pinch(&mut self, pinch: &mut PinchState, p1: Point, p2: Point, style: ZoomStyle)
        requires
            old(self).wf(),
            old(pinch).wf(),
            in_screen_range(p1),
            in_screen_range(p2),
        ensures
            final(self).wf(),
            final(pinch).wf(),
            (*final(self), *final(pinch)) == pinch_spec(*old(self), *old(pinch), p1, p2, style),
    {
        let origin = match style {
            ZoomStyle::Midpoint => Point {
                x: floor_div_i128(p1.x as i128 + p2.x as i128, 2) as i64,
                y: floor_div_i128(p1.y as i128 + p2.y as i128, 2) as i64,
            },
            ZoomStyle::FirstPointer => p1,
        };
        proof {
            assert(in_screen_range(origin));
        }
        let dx = (p1.x - p2.x) as i128;
        let dy = (p1.y - p2.y) as i128;
        proof {
            assert(dx * dx <= 0x1_0000_0000_0000_0000 && dy * dy <= 0x1_0000_0000_0000_0000)
                by (nonlinear_arith)
                requires
                    -0x1_0000_0000 <= dx <= 0x1_0000_0000,
                    -0x1_0000_0000 <= dy <= 0x1_0000_0000,
            ;
            assert(dx * dx >= 0 && dy * dy >= 0) by (nonlinear_arith);
        }
        let dist = isqrt((dx * dx + dy * dy) as u128) as i64;
        if pinch.initial_distance == 0 {
            let w = self.screen_to_world(origin);
            *pinch = PinchState {
                initial_distance: dist,
                initial_zoom: self.zoom,
                initial_anchor: clamp_world(w.x as i128, w.y as i128),
            };
        }
        if pinch.initial_distance != 0 {
            proof {
                assert(0 <= pinch.initial_zoom * dist <= ZOOM_MAX * 0x2_0000_0000) by (nonlinear_arith)
                    requires
                        0 <= dist < 0x2_0000_0000,
                        0 <= pinch.initial_zoom <= ZOOM_MAX,
                ;
            }
            let zoom = clamp_i128(
                (pinch.initial_zoom * dist / pinch.initial_distance) as i128,
                ZOOM_MIN,
                ZOOM_MAX,
            );
            self.zoom = zoom;
            let lx = self.screen_len(origin.x - self.offset.x);
            let ly = self.screen_len(origin.y - self.offset.y);
            self.target = clamp_world(
                pinch.initial_anchor.x as i128 - lx as i128,
                pinch.initial_anchor.y as i128 - ly as i128,
            );
        }
    }
}

/// A pinch that is under way keeps the world point recorded at its start
/// under the pinch origin, wherever that origin has moved, as long as the
/// target that this asks for lies in the world's range.
pub proof fn lemma_pinch_keeps_anchor(cam: Camera, pinch: PinchState, p1: Point, p2: Point, style: ZoomStyle)
    requires
        cam.wf(),
        pinch.wf(),
        in_screen_range(p1),
        in_screen_range(p2),
        pinch_spec(cam, pinch, p1, p2, style).1.initial_distance != 0,
        ({
            let (c, s) = pinch_spec(cam, pinch, p1, p2, style);
            let o = pinch_origin(p1, p2, style);
            in_world_range(Point {
                x: (s.initial_anchor.x - screen_len_to_world(o.x - cam.offset.x, c.zoom as int)) as i64,
                y: (s.initial_anchor.y - screen_len_to_world(o.y - cam.offset.y, c.zoom as int)) as i64,
            })
        }),
    ensures
        ({
            let (c, s) = pinch_spec(cam, pinch, p1, p2, style);
            c.spec_screen_to_world(pinch_origin(p1, p2, style)) == s.initial_anchor
        }),
{
    let (c, s) = pinch_spec(cam, pinch, p1, p2, style);
    let o = pinch_origin(p1, p2, style);
    lemma_screen_len_bound(o.x - cam.offset.x, c.zoom as int);
    lemma_screen_len_bound(o.y - cam.offset.y, c.zoom as int);
}

/// A wheel step with the cursor at `mouse` leaves the world point under the
/// cursor where it was, as long as that point lies in the world's range.
pub proof fn lemma_wheel_keeps_cursor_point(cam: Camera, mouse: Point, notches: int)
    requires
        cam.wf(),
        in_screen_range(mouse),
        in_world_range(cam.spec_screen_to_world(mouse)),
    ensures
        cam.wheel_spec(mouse, notches).spec_screen_to_world(mouse) == cam.spec_screen_to_world(mouse),
{
    lemma_screen_len_bound(mouse.x - cam.offset.x, cam.zoom as int);
    lemma_screen_len_bound(mouse.y - cam.offset.y, cam.zoom as int);
    if notches != 0 {
        let z = wheel_zoom(cam.zoom as int, notches);
        lemma_wheel_zoom_in_range(cam.zoom as int, notches);
        assert((-(0 * PROJECTION)) / z == 0) by (nonlinear_arith)
            requires
                z > 0,
        ;
        assert(screen_len_to_world(0, z) == 0);
    }
}

/// One camera gesture, as the frame loop hands it over.
#[derive(Clone, Copy, Debug, PartialEq, Eq, Structural)]
pub enum CameraGesture {
    Pan { delta: Point },
    Wheel { mouse: Point, notches: i32 },
    Pinch { p1: Point, p2: Point, style: ZoomStyle },
    /// Fewer than two pointers remain: the pinch ends.
    PinchEnd,
}

pub open spec fn gesture_valid(g: CameraGesture) -> bool {
    match g {
        CameraGesture::Pan { delta } => in_delta_range(delta),
        CameraGesture::Wheel { mouse, notches } => in_screen_range(mouse),
        CameraGesture::Pinch { p1, p2, style } => in_screen_range(p1) && in_screen_range(p2),
        CameraGesture::PinchEnd => true,
    }
}

pub open spec fn gesture_spec(cam: Camera, pinch: PinchState, g: CameraGesture) -> (Camera, PinchState) {
    match g {
        CameraGesture::Pan { delta } => (cam.pan_spec(delta), pinch),
        CameraGesture::Wheel { mouse, notches } => (cam.wheel_spec(mouse, notches as int), pinch),
        CameraGesture::Pinch { p1, p2, style } => pinch_spec(cam, pinch, p1, p2, style),
        CameraGesture::PinchEnd => (
            cam,
            PinchState { initial_distance: 0, initial_zoom: ZOOM_ONE, initial_anchor: Point { x: 0, y: 0 } },
        ),
    }
}

/// The camera and pinch record after the gestures, in order.
pub open spec fn gestures_spec(cam: Camera, pinch: PinchState, gs: Seq<CameraGesture>) -> (Camera, PinchState)
    decreases gs.len(),
{
    if gs.len() == 0 {
        (cam, pinch)
    } else {
        let (c, p) = gesture_spec(cam, pinch, gs[0]);
        gestures_spec(c, p, gs.drop_first())
    }
}

proof fn lemma_pointer_distance_bound(p1: Point, p2: Point)
    requires
        in_screen_range(p1),
        in_screen_range(p2),
    ensures
        0 <= pointer_distance(p1, p2) < 0x2_0000_0000,
{
    let dx = p1.x - p2.x;
    let dy = p1.y - p2.y;
    let n = (dx * dx + dy * dy) as nat;
    assert(0 <= dx * dx + dy * dy < 0x4_0000_0000_0000_0000) by (nonlinear_arith)
        requires
            -0x1_0000_0000 <= dx <= 0x1_0000_0000,
            -0x1_0000_0000 <= dy <= 0x1_0000_0000,
    ;
    lemma_int_sqrt_brackets(n);
    let r = int_sqrt(n);
    assert(r < 0x2_0000_0000) by (nonlinear_arith)
        requires
            r * r <= n,
            n < 0x4_0000_0000_0000_0000,
            r >= 0,
    ;
}

proof fn lemma_gesture_keeps_wf(cam: Camera, pinch: PinchState, g: CameraGesture)
    requires
        cam.wf(),
        pinch.wf(),
        gesture_valid(g),
    ensures
        gesture_spec(cam, pinch, g).0.wf(),
        gesture_spec(cam, pinch, g).1.wf(),
{
    match g {
        CameraGesture::Wheel { mouse, notches } => {
            lemma_wheel_zoom_in_range(cam.zoom as int, notches as int);
        },
        CameraGesture::Pinch { p1, p2, style } => {
            lemma_pointer_distance_bound(p1, p2);
        },
        _ => {},
    }
}

impl Camera {
    /// Applies one gesture to the camera and the pinch record.
    pub fn apply_gesture(&mut self, pinch: &mut PinchState, g: CameraGesture)
        requires
            old(self).wf(),
            old(pinch).wf(),
            gesture_valid(g),
        ensures
            final(self).wf(),
            final(pinch).wf(),
            (*final(self), *final(pinch)) == gesture_spec(*old(self), *old(pinch), g),
    {
        match g {
            CameraGesture::Pan { delta } => self.pan(delta),
            CameraGesture::Wheel { mouse, notches } => self.zoom_by_wheel(mouse, notches),
            CameraGesture::Pinch { p1, p2, style } => self.zoom_by_pinch(pinch, p1, p2, style),
            CameraGesture::PinchEnd => {
                *pinch = PinchState::new();
            },
        }
    }
}

/// Whatever finite sequence of drags, wheel steps and pinches the camera
/// goes through, its zoom stays between 0.125 and 64.
pub proof fn lemma_zoom_stays_in_bounds(cam: Camera, pinch: PinchState, gs: Seq<CameraGesture>)
    requires
        cam.wf(),
        pinch.wf(),
        forall|i: int| 0 <= i < gs.len() ==> gesture_valid(#[trigger] gs[i]),
    ensures
        gestures_spec(cam, pinch, gs).0.wf(),
        ZOOM_MIN <= gestures_spec(cam, pinch, gs).0.zoom <= ZOOM_MAX,
    decreases gs.len(),
{
    if gs.len() > 0 {
        lemma_gesture_keeps_wf(cam, pinch, gs[0]);
        let (c, p) = gesture_spec(cam, pinch, gs[0]);
        assert forall|i: int| 0 <= i < gs.drop_first().len() implies gesture_valid(
            #[trigger] gs.drop_first()[i],
        ) by {
            assert(gs.drop_first()[i] == gs[i + 1]);
        }
        lemma_zoom_stays_in_bounds(c, p, gs.drop_first());
    }
}

} // verus!
