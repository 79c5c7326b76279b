//! Layout of the circuit's components: each component's height and the
//! world position of each of its pins, and the wires between them resolved
//! to component indices.

use vstd::prelude::*;
use crate::geom::{Point, in_world_range, WORLD_LIMIT, WORLD_UNITS_PER_PIXEL};

verus! {

/// Radius of a pin, in pixels.
pub const PIN_SIZE: i64 = 5;

/// Vertical distance between neighbouring pins, in pixels.
pub const PIN_SPACING: i64 = 12;

/// Padding above and below the block of pins, in pixels together.
pub const MIN_OUTER_PADDING: i64 = 10;

/// Length of a pin's lead, from the body to the pin's centre, in pixels.
pub const PIN_LEN: i64 = 7;

/// Side of a button, in pixels.
pub const BUTTON_SIZE: i64 = 50;

/// Width and least height of a plain component, in pixels.
pub const COMP_SIZE: i64 = 50;

/// Width and least height of an integrated-circuit instance, in pixels.
pub const MIN_IC_COMP_SIZE: i64 = 52;

/// Most pins a component may have on one side.
pub const MAX_PINS: usize = 65536;

/// The kind of a component, as far as layout, drawing and input care.
#[derive(Clone, Copy, Debug, PartialEq, Eq, Structural)]
pub enum NodeKind {
    PlainGate,
    ToggleButton,
    PulseButton,
    LightBulb,
    Note,
    SevenSegmentDisplay,
    SevenSegmentDecoder,
    IntegratedCircuit,
}

/// A wire into a component: which of its inputs, and which output of which
/// component (by identifier) feeds it.
#[derive(Clone, Copy, Debug, PartialEq, Eq, Structural)]
pub struct WireRef {
    pub in_pin: usize,
    pub source_id: u64,
    pub source_pin: usize,
}

/// One component of the circuit.
#[derive(Debug)]
pub struct Component {
    pub id: u64,
    pub kind: NodeKind,
    /// Top-left corner, in world units.
    pub position: Point,
    pub num_inputs: usize,
    /// Current output bits; their number is the number of output pins.
    pub outputs: Vec<bool>,
    /// Current input bits.
    pub input_states: Vec<bool>,
    pub wires: Vec<WireRef>,
}

/// A wire resolved to indices: input `in_pin` of its component is fed by
/// output `source_pin` of component `source`.
#[derive(Clone, Copy, Debug, PartialEq, Eq, Structural)]
pub struct Wire {
    pub in_pin: usize,
    pub source: usize,
    pub source_pin: usize,
}

#[derive(Clone, Copy, Debug, PartialEq, Eq, Structural)]
pub enum TopologyErrorKind {
    /// No component has the wire's source identifier.
    UnknownSource,
    /// The source component has no output with the wire's pin index.
    SourcePinOutOfRange,
    /// The wire's own component has no input with the wire's pin index.
    TargetPinOutOfRange,
}

/// Wire `wire` of component `component` could not be resolved.
#[derive(Clone, Copy, Debug, PartialEq, Eq, Structural)]
pub struct TopologyError {
    pub component: usize,
    pub wire: usize,
    pub kind: TopologyErrorKind,
}

/// Derived layout of one component.
#[derive(Debug)]
pub struct ComponentGeometry {
    /// Height of the body, in world units.
    pub height: i64,
    /// Centres of the input pins, in world units, by pin index.
    pub inputs: Vec<Point>,
    /// Centres of the output pins, in world units, by pin index.
    pub outputs: Vec<Point>,
    /// The wires into this component that resolved, in their order.
    pub wires: Vec<Wire>,
    /// The wires into this component that did not, in their order.
    pub errors: Vec<TopologyError>,
}

pub open spec fn min_height_px(kind: NodeKind) -> int {
    if kind == NodeKind::IntegratedCircuit {
        MIN_IC_COMP_SIZE as int
    } else {
        COMP_SIZE as int
    }
}

/// Height of a component whose busier side has `max_pins` pins, in pixels.
pub open spec fn comp_height_px(kind: NodeKind, max_pins: int) -> int {
    let h = max_pins * PIN_SPACING + MIN_OUTER_PADDING;
    if h >= min_height_px(kind) {
        h
    } else {
        min_height_px(kind)
    }
}

/// Offset from the top of the body to the first of `num_pins` pins, in
/// pixels: the block of pins is centred in the height.
pub open spec fn first_pin_px(num_pins: int, height: int) -> int {
    (height - num_pins * PIN_SPACING) / 2 + PIN_SIZE
}

/// Width of a component's body, in pixels.
pub open spec fn body_width_px(kind: NodeKind) -> int {
    match kind {
        NodeKind::PulseButton | NodeKind::ToggleButton => BUTTON_SIZE as int,
        NodeKind::IntegratedCircuit => MIN_IC_COMP_SIZE as int,
        _ => COMP_SIZE as int,
    }
}

pub open spec fn max_int(a: int, b: int) -> int {
    if a >= b {
        a
    } else {
        b
    }
}

impl Component {
    pub open spec fn wf(self) -> bool {
        &&& in_world_range(self.position)
        &&& self.num_inputs <= MAX_PINS
        &&& self.outputs@.len() <= MAX_PINS
    }

    pub open spec fn height_px(self) -> int {
        comp_height_px(self.kind, max_int(self.num_inputs as int, self.outputs@.len() as int))
    }

    /// Centre of input pin `j`, in world units.
    pub open spec fn input_pin(self, j: int) -> Point {
        Point {
            x: (self.position.x - PIN_LEN * WORLD_UNITS_PER_PIXEL) as i64,
            y: (self.position.y + (first_pin_px(self.num_inputs as int, self.height_px()) + PIN_SPACING * j)
                * WORLD_UNITS_PER_PIXEL) as i64,
        }
    }

    /// Centre of output pin `j`, in world units.
    pub open spec fn output_pin(self, j: int) -> Point {
        Point {
            x: (self.position.x + (body_width_px(self.kind) + PIN_LEN) * WORLD_UNITS_PER_PIXEL) as i64,
            y: (self.position.y + (first_pin_px(self.outputs@.len() as int, self.height_px())
                + PIN_SPACING * j) * WORLD_UNITS_PER_PIXEL) as i64,
        }
    }
}

impl Component {
    /// Whether the component lies in the world's range and has at most
    /// `MAX_PINS` pins on each side.
    pub fn check(&self) -> (r: bool)
        ensures
            r == self.wf(),
    {
        let p = self.position;
        -WORLD_LIMIT <= p.x && p.x <= WORLD_LIMIT && -WORLD_LIMIT <= p.y && p.y <= WORLD_LIMIT
            && self.num_inputs <= MAX_PINS && self.outputs.len() <= MAX_PINS
    }
}

/// The text shown under a component: its own label where it has one, else
/// nothing for a note and the name of its type for anything else.
pub fn component_label(label: Option<String>, kind: NodeKind, kind_name: String) -> (r: String)
    ensures
        r@ == match label {
            Some(l) => l@,
            None => if kind == NodeKind::Note {
                Seq::<char>::empty()
            } else {
                kind_name@
            },
        },
{
    match label {
        Some(l) => l,
        None => match kind {
            NodeKind::Note => String::new(),
            _ => kind_name,
        },
    }
}

/// Height of a component of the given kind whose busier side has `max_pins`
/// pins, in pixels.
pub fn calculate_comp_height(kind: NodeKind, max_pins: usize) -> (r: i64)
    requires
        max_pins <= MAX_PINS,
    ensures
        r == comp_height_px(kind, max_pins as int),
{
    let height = max_pins as i64 * PIN_SPACING + MIN_OUTER_PADDING;
    let least = if kind == NodeKind::IntegratedCircuit { MIN_IC_COMP_SIZE } else { COMP_SIZE };
    if height >= least {
        height
    } else {
        least
    }
}

/// Offset from the top of a body `comp_height` pixels high to the first of
/// `num_pins` pins, in pixels.
pub fn calculate_pin_height(num_pins: usize, comp_height: i64) -> (r: i64)
    requires
        num_pins <= MAX_PINS,
        0 <= comp_height <= 0x1_0000_0000,
    ensures
        r == first_pin_px(num_pins as int, comp_height as int),
{
    let pins_space = num_pins as i64 * PIN_SPACING;
    let real_padding = comp_height - pins_space;
    let skip = if real_padding >= 0 { real_padding / 2 } else { -((-real_padding + 1) / 2) };
    skip + PIN_SIZE
}

/// Width of a component's body, in pixels.
pub fn get_comp_size(kind: NodeKind) -> (r: i64)
    ensures
        r == body_width_px(kind),
{
    match kind {
        NodeKind::PulseButton | NodeKind::ToggleButton => BUTTON_SIZE,
        NodeKind::IntegratedCircuit => MIN_IC_COMP_SIZE,
        _ => COMP_SIZE,
    }
}

/// Index of the first of the first `n` components whose identifier is `id`,
/// or -1 where there is none.
pub open spec fn id_index(comps: Seq<Component>, id: u64, n: nat) -> int
    decreases n,
{
    if n == 0 {
        -1
    } else {
        let before = id_index(comps, id, (n - 1) as nat);
        if before == -1 && comps[n - 1].id == id {
            n - 1
        } else {
            before
        }
    }
}

/// How wire `k` of component `c` resolves.
pub open spec fn resolve_spec(comps: Seq<Component>, c: int, k: int) -> Result<Wire, TopologyErrorKind> {
    let w = comps[c].wires@[k];
    let s = id_index(comps, w.source_id, comps.len());
    if w.in_pin >= comps[c].num_inputs {
        Err(TopologyErrorKind::TargetPinOutOfRange)
    } else if s == -1 {
        Err(TopologyErrorKind::UnknownSource)
    } else if w.source_pin >= comps[s].outputs@.len() {
        Err(TopologyErrorKind::SourcePinOutOfRange)
    } else {
        Ok(Wire { in_pin: w.in_pin, source: s as usize, source_pin: w.source_pin })
    }
}

/// The resolved wires among the first `n` wires of component `c`.
pub open spec fn wires_spec(comps: Seq<Component>, c: int, n: nat) -> Seq<Wire>
    decreases n,
{
    if n == 0 {
        seq![]
    } else {
        let before = wires_spec(comps, c, (n - 1) as nat);
        match resolve_spec(comps, c, n - 1) {
            Ok(w) => before.push(w),
            Err(_) => before,
        }
    }
}

/// The errors among the first `n` wires of component `c`.
pub open spec fn errors_spec(comps: Seq<Component>, c: int, n: nat) -> Seq<TopologyError>
    decreases n,
{
    if n == 0 {
        seq![]
    } else {
        let before = errors_spec(comps, c, (n - 1) as nat);
        match resolve_spec(comps, c, n - 1) {
            Ok(_) => before,
            Err(kind) => before.push(TopologyError { component: c as usize, wire: (n - 1) as usize, kind }),
        }
    }
}

/// Every resolved wire of component `c` names an input of `c` and an output
/// of an existing component.
pub proof fn lemma_resolved_wires_in_range(comps: Seq<Component>, c: int, n: nat)
    requires
        0 <= c < comps.len() <= usize::MAX,
        n <= comps[c].wires@.len(),
    ensures
        forall|k: int|
            0 <= k < wires_spec(comps, c, n).len() ==> {
                let w = #[trigger] wires_spec(comps, c, n)[k];
                &&& w.in_pin < comps[c].num_inputs
                &&& w.source < comps.len()
                &&& w.source_pin < comps[w.source as int].outputs@.len()
            },
    decreases n,
{
    if n > 0 {
        lemma_resolved_wires_in_range(comps, c, (n - 1) as nat);
        let w = comps[c].wires@[n - 1];
        lemma_id_index_range(comps, w.source_id, comps.len());
        let before = wires_spec(comps, c, (n - 1) as nat);
        let all = wires_spec(comps, c, n);
        assert forall|k: int| 0 <= k < all.len() implies {
            let r = #[trigger] all[k];
            &&& r.in_pin < comps[c].num_inputs
            &&& r.source < comps.len()
            &&& r.source_pin < comps[r.source as int].outputs@.len()
        } by {
            if k < before.len() {
                assert(all[k] == before[k]);
            } else {
                let s = id_index(comps, w.source_id, comps.len());
                assert(resolve_spec(comps, c, n - 1) is Ok);
                assert(all[k] == Wire { in_pin: w.in_pin, source: s as usize, source_pin: w.source_pin });
                assert(0 <= s < comps.len());
            }
        }
    }
}

/// `g` is the layout of component `c` among `comps`.
pub open spec fn geometry_of(g: ComponentGeometry, comps: Seq<Component>, c: int) -> bool {
    let comp = comps[c];
    &&& g.height == comp.height_px() * WORLD_UNITS_PER_PIXEL
    &&& g.inputs@.len() == comp.num_inputs
    &&& forall|j: int| 0 <= j < comp.num_inputs ==> #[trigger] g.inputs@[j] == comp.input_pin(j)
    &&& g.outputs@.len() == comp.outputs@.len()
    &&& forall|j: int| 0 <= j < comp.outputs@.len() ==> #[trigger] g.outputs@[j] == comp.output_pin(j)
    &&& g.wires@ == wires_spec(comps, c, comp.wires@.len())
    &&& g.errors@ == errors_spec(comps, c, comp.wires@.len())
}

pub open spec fn all_wf(comps: Seq<Component>) -> bool {
    forall|i: int| 0 <= i < comps.len() ==> (#[trigger] comps[i]).wf()
}

/// Index of the first component with identifier `id`.
pub fn find_component(comps: &Vec<Component>, id: u64) -> (r: Option<usize>)
    ensures
        match r {
            Some(i) => i == id_index(comps@, id, comps@.len()),
            None => id_index(comps@, id, comps@.len()) == -1,
        },
{
    let mut found: Option<usize> = None;
    let mut i: usize = 0;
    while i < comps.len()
        invariant
            i <= comps@.len(),
            match found {
                Some(f) => f == id_index(comps@, id, i as nat),
                None => id_index(comps@, id, i as nat) == -1,
            },
        decreases comps@.len() - i,
    {
        if found.is_none() && comps[i].id == id {
            found = Some(i);
        }
        i = i + 1;
    }
    found
}

proof fn lemma_id_index_range(comps: Seq<Component>, id: u64, n: nat)
    requires
        n <= comps.len(),
    ensures
        -1 <= id_index(comps, id, n) < n,
        id_index(comps, id, n) != -1 ==> comps[id_index(comps, id, n)].id == id,
    decreases n,
{
    if n > 0 {
        lemma_id_index_range(comps, id, (n - 1) as nat);
    }
}

/// The wires into component `c`, resolved, and the errors of those that do
/// not resolve.
pub fn resolve_wires(comps: &Vec<Component>, c: usize) -> (r: (Vec<Wire>, Vec<TopologyError>))
    requires
        c < comps@.len(),
    ensures
        r.0@ == wires_spec(comps@, c as int, comps@[c as int].wires@.len()),
        r.1@ == errors_spec(comps@, c as int, comps@[c as int].wires@.len()),
{
    let comp = &comps[c];
    let mut wires: Vec<Wire> = Vec::new();
    let mut errors: Vec<TopologyError> = Vec::new();
    let mut k: usize = 0;
    while k < comp.wires.len()
        invariant
            comp == comps@[c as int],
            c < comps@.len(),
            k <= comp.wires@.len(),
            wires@ == wires_spec(comps@, c as int, k as nat),
            errors@ == errors_spec(comps@, c as int, k as nat),
        decreases comp.wires@.len() - k,
    {
        let w = comp.wires[k];
        if w.in_pin >= comp.num_inputs {
            errors.push(TopologyError { component: c, wire: k, kind: TopologyErrorKind::TargetPinOutOfRange });
        } else {
            match find_component(comps, w.source_id) {
                None => {
                    errors.push(TopologyError { component: c, wire: k, kind: TopologyErrorKind::UnknownSource });
                },
                Some(s) => {
                    proof {
                        lemma_id_index_range(comps@, w.source_id, comps@.len());
                    }
                    if w.source_pin >= comps[s].outputs.len() {
                        errors.push(
                            TopologyError { component: c, wire: k, kind: TopologyErrorKind::SourcePinOutOfRange },
                        );
                    } else {
                        wires.push(Wire { in_pin: w.in_pin, source: s, source_pin: w.source_pin });
                    }
                },
            }
        }
        k = k + 1;
    }
    (wires, errors)
}

proof fn lemma_first_pin_bounds(n: int, h: int)
    requires
        0 <= n * PIN_SPACING <= h,
        h <= 0x100_0000,
    ensures
        PIN_SIZE <= first_pin_px(n, h) <= h / 2 + PIN_SIZE,
{
}

/// The pin centres of one component, in world units.
pub fn pin_positions(comp: &Component) -> (r: (i64, Vec<Point>, Vec<Point>))
    requires
        comp.wf(),
    ensures
        r.0 == comp.height_px() * WORLD_UNITS_PER_PIXEL,
        r.1@.len() == comp.num_inputs,
        forall|j: int| 0 <= j < comp.num_inputs ==> #[trigger] r.1@[j] == comp.input_pin(j),
        r.2@.len() == comp.outputs@.len(),
        forall|j: int| 0 <= j < comp.outputs@.len() ==> #[trigger] r.2@[j] == comp.output_pin(j),
{
    let num_in = comp.num_inputs;
    let num_out = comp.outputs.len();
    let max_pins = if num_in >= num_out { num_in } else { num_out };
    let height = calculate_comp_height(comp.kind, max_pins);
    let in_first = calculate_pin_height(num_in, height);
    let out_first = calculate_pin_height(num_out, height);
    proof {
        lemma_first_pin_bounds(num_in as int, height as int);
        lemma_first_pin_bounds(num_out as int, height as int);
    }
    let mut inputs: Vec<Point> = Vec::new();
    let mut j: usize = 0;
    while j < num_in
        invariant
            comp.wf(),
            num_in == comp.num_inputs,
            height == comp.height_px(),
            in_first == first_pin_px(num_in as int, height as int),
            PIN_SIZE <= in_first <= height / 2 + PIN_SIZE,
            height <= MAX_PINS * PIN_SPACING + MIN_OUTER_PADDING + 100,
            j <= num_in,
            inputs@.len() == j,
            forall|k: int| 0 <= k < j ==> #[trigger] inputs@[k] == comp.input_pin(k),
        decreases num_in - j,
    {
        let y = comp.position.y + (in_first + PIN_SPACING * j as i64) * WORLD_UNITS_PER_PIXEL;
        inputs.push(Point { x: comp.position.x - PIN_LEN * WORLD_UNITS_PER_PIXEL, y });
        j = j + 1;
    }
    let right = comp.position.x + (get_comp_size(comp.kind) + PIN_LEN) * WORLD_UNITS_PER_PIXEL;
    let mut outputs: Vec<Point> = Vec::new();
    let mut j: usize = 0;
    while j < num_out
        invariant
            comp.wf(),
            num_out == comp.outputs@.len(),
            height == comp.height_px(),
            out_first == first_pin_px(num_out as int, height as int),
            PIN_SIZE <= out_first <= height / 2 + PIN_SIZE,
            height <= MAX_PINS * PIN_SPACING + MIN_OUTER_PADDING + 100,
            right == comp.position.x + (body_width_px(comp.kind) + PIN_LEN) * WORLD_UNITS_PER_PIXEL,
            j <= num_out,
            outputs@.len() == j,
            forall|k: int| 0 <= k < j ==> #[trigger] outputs@[k] == comp.output_pin(k),
        decreases num_out - j,
    {
        let y = comp.position.y + (out_first + PIN_SPACING * j as i64) * WORLD_UNITS_PER_PIXEL;
        outputs.push(Point { x: right, y });
        j = j + 1;
    }
    (height * WORLD_UNITS_PER_PIXEL, inputs, outputs)
}

/// The layout of every component, by index.
pub fn build_geometry(comps: &Vec<Component>) -> (r: Vec<ComponentGeometry>)
    requires
        all_wf(comps@),
    ensures
        r@.len() == comps@.len(),
        forall|c: int| 0 <= c < comps@.len() ==> geometry_of(#[trigger] r@[c], comps@, c),
{
    let mut out: Vec<ComponentGeometry> = Vec::new();
    let mut c: usize = 0;
    while c < comps.len()
        invariant
            all_wf(comps@),
            c <= comps@.len(),
            out@.len() == c,
            forall|i: int| 0 <= i < c ==> geometry_of(#[trigger] out@[i], comps@, i),
        decreases comps@.len() - c,
    {
        let (height, inputs, outputs) = pin_positions(&comps[c]);
        let (wires, errors) = resolve_wires(comps, c);
        out.push(ComponentGeometry { height, inputs, outputs, wires, errors });
        c = c + 1;
    }
    out
}

/// The two component lists agree on everything that layout reads: the
/// number of components and, for each, its identifier, kind, position, pin
/// counts and wires. The bits they hold may differ.
pub open spec fn same_topology(a: Seq<Component>, b: Seq<Component>) -> bool {
    &&& a.len() == b.len()
    &&& forall|i: int|
        0 <= i < a.len() ==> {
            &&& (#[trigger] a[i]).id == b[i].id
            &&& a[i].kind == b[i].kind
            &&& a[i].position == b[i].position
            &&& a[i].num_inputs == b[i].num_inputs
            &&& a[i].outputs@.len() == b[i].outputs@.len()
            &&& a[i].wires@ == b[i].wires@
        }
}

proof fn lemma_id_index_same(a: Seq<Component>, b: Seq<Component>, id: u64, n: nat)
    requires
        same_topology(a, b),
        n <= a.len(),
    ensures
        id_index(a, id, n) == id_index(b, id, n),
    decreases n,
{
    if n > 0 {
        lemma_id_index_same(a, b, id, (n - 1) as nat);
        assert(a[n - 1].id == b[n - 1].id);
    }
}

proof fn lemma_wires_same(a: Seq<Component>, b: Seq<Component>, c: int, n: nat)
    requires
        same_topology(a, b),
        0 <= c < a.len(),
        n <= a[c].wires@.len(),
    ensures
        wires_spec(a, c, n) == wires_spec(b, c, n),
        errors_spec(a, c, n) == errors_spec(b, c, n),
    decreases n,
{
    if n > 0 {
        lemma_wires_same(a, b, c, (n - 1) as nat);
        let w = a[c].wires@[n - 1];
        assert(w == b[c].wires@[n - 1]);
        lemma_id_index_same(a, b, w.source_id, a.len());
        lemma_id_index_range(a, w.source_id, a.len());
        let s = id_index(a, w.source_id, a.len());
        if s != -1 {
            assert(a[s].outputs@.len() == b[s].outputs@.len());
        }
        assert(resolve_spec(a, c, n - 1) == resolve_spec(b, c, n - 1));
    }
}

/// A layout stays the layout of its component when nothing that layout
/// reads has changed.
pub proof fn lemma_geometry_of_same_topology(g: ComponentGeometry, a: Seq<Component>, b: Seq<Component>, c: int)
    requires
        same_topology(a, b),
        0 <= c < a.len(),
        geometry_of(g, a, c),
    ensures
        geometry_of(g, b, c),
{
    lemma_wires_same(a, b, c, a[c].wires@.len());
    assert(a[c].height_px() == b[c].height_px());
    assert forall|j: int| 0 <= j < b[c].num_inputs implies #[trigger] g.inputs@[j] == b[c].input_pin(j) by {
        assert(a[c].input_pin(j) == b[c].input_pin(j));
    }
    assert forall|j: int| 0 <= j < b[c].outputs@.len() implies #[trigger] g.outputs@[j] == b[c].output_pin(j) by {
        assert(a[c].output_pin(j) == b[c].output_pin(j));
    }
}

/// Layout reads the topology alone: two builds over component lists with
/// the same topology, and so two builds over one unchanged list, give the
/// same heights, the same pin positions, the same wires and the same errors.
pub proof fn lemma_geometry_depends_on_topology(
    a: Seq<Component>,
    b: Seq<Component>,
    ga: Seq<ComponentGeometry>,
    gb: Seq<ComponentGeometry>,
)
    requires
        same_topology(a, b),
        ga.len() == a.len(),
        gb.len() == b.len(),
        forall|c: int| 0 <= c < a.len() ==> geometry_of(#[trigger] ga[c], a, c),
        forall|c: int| 0 <= c < b.len() ==> geometry_of(#[trigger] gb[c], b, c),
    ensures
        forall|c: int|
            0 <= c < a.len() ==> {
                &&& (#[trigger] ga[c]).height == gb[c].height
                &&& ga[c].inputs@ == gb[c].inputs@
                &&& ga[c].outputs@ == gb[c].outputs@
                &&& ga[c].wires@ == gb[c].wires@
                &&& ga[c].errors@ == gb[c].errors@
            },
{
    assert forall|c: int| 0 <= c < a.len() implies {
        &&& (#[trigger] ga[c]).height == gb[c].height
        &&& ga[c].inputs@ == gb[c].inputs@
        &&& ga[c].outputs@ == gb[c].outputs@
        &&& ga[c].wires@ == gb[c].wires@
        &&& ga[c].errors@ == gb[c].errors@
    } by {
        assert(geometry_of(ga[c], a, c));
        assert(geometry_of(gb[c], b, c));
        lemma_wires_same(a, b, c, a[c].wires@.len());
        assert(a[c].height_px() == b[c].height_px());
        assert forall|j: int| 0 <= j < ga[c].inputs@.len() implies ga[c].inputs@[j] == gb[c].inputs@[j] by {
            assert(a[c].input_pin(j) == b[c].input_pin(j));
        }
        assert forall|j: int| 0 <= j < ga[c].outputs@.len() implies ga[c].outputs@[j] == gb[c].outputs@[j] by {
            assert(a[c].output_pin(j) == b[c].output_pin(j));
        }
        assert(ga[c].inputs@ =~= gb[c].inputs@);
        assert(ga[c].outputs@ =~= gb[c].outputs@);
    }
}

} // verus!
