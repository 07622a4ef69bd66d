//! Core data model: monitors, the canvas bounding box, the per-pass layout
//! parameters, and the registry that owns them.
//!
//! Geometry is exact. A scale factor is the fraction `num / den`; a logical
//! coordinate is an integer numerator over the registry-wide denominator
//! (`den_x` / `den_y`), and a scaled coordinate is a numerator over
//! `sden_x` / `sden_y`. With `den_x = n * scale_x_num` and
//! `sden_x = n * scale_x_den` every placement, drag and clamp formula of the
//! engine lands on an integer numerator, so no rounding ever happens.

use vstd::prelude::*;

verus! {

/// Largest number of monitors a registry may hold.
pub const MAX_MONITORS: usize = 4096;

/// Largest accepted pixel dimension for a resolution or for the canvas box.
pub const MAX_DIM: u32 = 65536;

/// Largest magnitude of a raw (not yet laid out) logical coordinate.
pub const MAX_RAW_POS: i64 = 100_000_000;

/// Largest magnitude of a single pointer-drag delta, in canvas pixels.
pub const MAX_DRAG_DELTA: i64 = 65536;

/// The fixed canvas rectangle monitors are drawn into, in canvas pixels.
#[derive(Clone, Copy, PartialEq, Eq, Structural)]
pub struct BoundingBox {
    pub min_x: u32,
    pub min_y: u32,
    pub width: u32,
    pub height: u32,
}

impl BoundingBox {
    /// Dimension limits every canvas box must meet.
    pub open spec fn wf(self) -> bool {
        &&& 1 <= self.width <= MAX_DIM
        &&& 1 <= self.height <= MAX_DIM
        &&& self.min_x <= MAX_DIM
        &&& self.min_y <= MAX_DIM
    }

    /// Right edge of the box.
    pub open spec fn max_x(self) -> int {
        self.min_x + self.width
    }

    /// Bottom edge of the box.
    pub open spec fn max_y(self) -> int {
        self.min_y + self.height
    }
}

/// One physical display output.
pub struct Monitor {
    /// Hardware output identifier; empty for synthetic default entries.
    pub id: String,
    /// Whether the output is part of the active hardware configuration.
    pub enabled: bool,
    /// Committed pixel dimensions; both sides are positive.
    pub resolution: (u32, u32),
    /// User-edited pending resolution, if any.
    pub proposed_resolution: Option<(u32, u32)>,
    /// User-edited pending enabled/disabled state.
    pub proposed_status: bool,
    /// Logical x coordinate: numerator over the registry's `den_x`.
    pub pos_x: i64,
    /// Logical y coordinate: numerator over the registry's `den_y`.
    pub pos_y: i64,
    /// Scaled x snapshot taken at first placement: numerator over `sden_x`.
    pub init_scaled_x: i64,
    /// Scaled y snapshot taken at first placement: numerator over `sden_y`.
    pub init_scaled_y: i64,
    /// Whether a layout pass has placed this monitor.
    pub placed: bool,
    /// True only while a pointer interaction targets this monitor.
    pub being_dragged: bool,
    /// Marks a mirrored-output relationship, as an index into the registry.
    pub duplicate_of: Option<usize>,
    /// When the preview of this monitor was last captured, in milliseconds.
    pub last_capture_ms: u64,
}

impl Monitor {
    /// Resolution limits every monitor must meet.
    pub open spec fn dims_ok(self) -> bool {
        &&& 1 <= self.resolution.0 <= MAX_DIM
        &&& 1 <= self.resolution.1 <= MAX_DIM
    }

    /// The two monitors agree on everything except placement: only the
    /// coordinates, the snapshot and the placed flag may differ.
    pub open spec fn same_identity(self, other: Monitor) -> bool {
        &&& self.id == other.id
        &&& self.enabled == other.enabled
        &&& self.resolution == other.resolution
        &&& self.proposed_resolution == other.proposed_resolution
        &&& self.proposed_status == other.proposed_status
        &&& self.being_dragged == other.being_dragged
        &&& self.duplicate_of == other.duplicate_of
        &&& self.last_capture_ms == other.last_capture_ms
    }
}

/// The global quantities one layout pass derives from the registry and the
/// canvas box. They stay fixed for the life of the registry: the box is
/// fixed, committed resolutions never change, and monitors are never added
/// or removed during a run.
#[derive(Clone, Copy)]
pub struct Layout {
    /// The canvas box the pass laid monitors into.
    pub bbox: BoundingBox,
    /// Scale factor for x: `scale_x = scale_x_num / scale_x_den`.
    pub scale_x_num: i64,
    pub scale_x_den: i64,
    /// Scale factor for y: `scale_y = scale_y_num / scale_y_den`.
    pub scale_y_num: i64,
    pub scale_y_den: i64,
    /// Denominator of logical x coordinates: `n * scale_x_num`.
    pub den_x: i64,
    /// Denominator of logical y coordinates: `2 * scale_y_num`.
    pub den_y: i64,
    /// Denominator of scaled x values: `n * scale_x_den`.
    pub sden_x: i64,
    /// Denominator of scaled y values: `2 * scale_y_den`.
    pub sden_y: i64,
    /// The first monitor's layout-assigned logical x, over `den_x`; kept as
    /// a stable anchor for command synthesis even after drags.
    pub net_zero_x: i64,
    /// The first monitor's layout-assigned logical y, over `den_y`.
    pub net_zero_y: i64,
}

/// The canonical list of monitors plus the layout in effect, owned by the
/// application for its whole run.
pub struct Registry {
    pub monitors: Vec<Monitor>,
    /// The monitor picked for the settings panel, if any.
    pub selected: Option<usize>,
    /// The layout parameters once a first pass has placed the monitors.
    pub layout: Option<Layout>,
}

/// Everything the default monitor pair shares: not yet enumerated from
/// hardware, enabled, proposing a landscape mode, awaiting an explicit
/// enable, unplaced, untouched.
pub open spec fn spec_default_monitor_common(m: Monitor) -> bool {
    &&& m.id@ == Seq::<char>::empty()
    &&& m.enabled == true
    &&& m.proposed_resolution == Some((1920u32, 1080u32))
    &&& m.proposed_status == false
    &&& m.pos_y == 50
    &&& m.init_scaled_x == 0
    &&& m.init_scaled_y == 0
    &&& m.placed == false
    &&& m.being_dragged == false
    &&& m.duplicate_of is None
    &&& m.last_capture_ms == 0
}

impl Default for Registry {
    /// The placeholder registry used when no hardware was enumerated: one
    /// landscape and one portrait monitor, no selection, no layout yet.
    fn default() -> (r: Registry)
        ensures
            r.wf(),
            r.layout is None,
            r.selected is None,
            r.monitors@.len() == 2,
            spec_default_monitor_common(r.monitors@[0]),
            spec_default_monitor_common(r.monitors@[1]),
            r.monitors@[0].resolution == (1920u32, 1080u32),
            r.monitors@[1].resolution == (1080u32, 1920u32),
            r.monitors@[0].pos_x == 50,
            r.monitors@[1].pos_x == 300,
    {
        let first = Monitor {
            id: String::new(),
            enabled: true,
            resolution: (1920, 1080),
            proposed_resolution: Some((1920, 1080)),
            proposed_status: false,
            pos_x: 50,
            pos_y: 50,
            init_scaled_x: 0,
            init_scaled_y: 0,
            placed: false,
            being_dragged: false,
            duplicate_of: None,
            last_capture_ms: 0,
        };
        let second = Monitor {
            id: String::new(),
            enabled: true,
            resolution: (1080, 1920),
            proposed_resolution: Some((1920, 1080)),
            proposed_status: false,
            pos_x: 300,
            pos_y: 50,
            init_scaled_x: 0,
            init_scaled_y: 0,
            placed: false,
            being_dragged: false,
            duplicate_of: None,
            last_capture_ms: 0,
        };
        let mut monitors: Vec<Monitor> = Vec::new();
        monitors.push(first);
        monitors.push(second);
        Registry { monitors, selected: None, layout: None }
    }
}

/// Sum of the committed widths of all monitors, enabled and disabled.
pub open spec fn spec_total_w(ms: Seq<Monitor>) -> int
    decreases ms.len(),
{
    if ms.len() == 0 {
        0
    } else {
        spec_total_w(ms.drop_last()) + ms.last().resolution.0
    }
}

/// Sum of the committed heights of all monitors, enabled and disabled.
pub open spec fn spec_total_h(ms: Seq<Monitor>) -> int
    decreases ms.len(),
{
    if ms.len() == 0 {
        0
    } else {
        spec_total_h(ms.drop_last()) + ms.last().resolution.1
    }
}

impl Layout {
    /// The layout parameters are exactly the ones derived from the monitors
    /// and the box: an 80% fill ratio, so `scale_x = (4 * width) / (5 *
    /// total_width)`, and the coordinate denominators that every engine
    /// formula lands on.
    pub open spec fn derived_from(self, ms: Seq<Monitor>) -> bool {
        &&& self.bbox.wf()
        &&& self.scale_x_num == 4 * self.bbox.width
        &&& self.scale_x_den == 5 * spec_total_w(ms)
        &&& self.scale_y_num == 4 * self.bbox.height
        &&& self.scale_y_den == 5 * spec_total_h(ms)
        &&& self.den_x == ms.len() * self.scale_x_num
        &&& self.sden_x == ms.len() * self.scale_x_den
        &&& self.den_y == 2 * self.scale_y_num
        &&& self.sden_y == 2 * self.scale_y_den
    }

    /// The monitor's scaled rectangle lies within the box horizontally:
    /// its scaled left edge is `pos_x / sden_x` and its scaled width is
    /// `width * den_x / sden_x`.
    pub open spec fn contained_x(self, m: Monitor) -> bool {
        &&& self.bbox.min_x * self.sden_x <= m.pos_x
        &&& m.pos_x + m.resolution.0 * self.den_x <= self.bbox.max_x() * self.sden_x
    }

    /// The monitor's scaled rectangle lies within the box vertically.
    pub open spec fn contained_y(self, m: Monitor) -> bool {
        &&& self.bbox.min_y * self.sden_y <= m.pos_y
        &&& m.pos_y + m.resolution.1 * self.den_y <= self.bbox.max_y() * self.sden_y
    }

    /// A scaled snapshot value over `sden_x` lies within the box edges.
    pub open spec fn snapshot_x_in_box(self, v: int) -> bool {
        self.bbox.min_x * self.sden_x <= v <= self.bbox.max_x() * self.sden_x
    }

    /// A scaled snapshot value over `sden_y` lies within the box edges.
    pub open spec fn snapshot_y_in_box(self, v: int) -> bool {
        self.bbox.min_y * self.sden_y <= v <= self.bbox.max_y() * self.sden_y
    }
}

impl Registry {
    /// Denominator of every monitor's logical x coordinate.
    pub open spec fn den_x(self) -> int {
        match self.layout {
            Some(l) => l.den_x as int,
            None => 1,
        }
    }

    /// Denominator of every monitor's logical y coordinate.
    pub open spec fn den_y(self) -> int {
        match self.layout {
            Some(l) => l.den_y as int,
            None => 1,
        }
    }

    /// The monitor's scaled position differs from its scaled snapshot: the
    /// user (or a clamp) has moved it since its first placement. The scaled
    /// position is `pos_x / sden_x` and the snapshot is
    /// `init_scaled_x / sden_x` — the same denominator — so the numerators
    /// are compared directly; before a layout pass both denominators are
    /// one and the comparison is the plain coordinate comparison.
    pub open spec fn spec_moved(self, m: Monitor) -> bool {
        ||| m.pos_x != m.init_scaled_x
        ||| m.pos_y != m.init_scaled_y
    }

    /// Well-formedness of the whole registry. Before a first layout pass no
    /// monitor is placed and coordinates are raw parsed values; afterwards
    /// the layout parameters are exactly the derived ones, every monitor is
    /// placed, and every monitor's scaled rectangle lies within the box.
    pub open spec fn wf(self) -> bool {
        &&& self.monitors@.len() <= MAX_MONITORS
        &&& forall|i: int| 0 <= i < self.monitors@.len() ==> (#[trigger] self.monitors@[i]).dims_ok()
        &&& forall|i: int, j: int|
            0 <= i < self.monitors@.len() && 0 <= j < self.monitors@.len()
                && (#[trigger] self.monitors@[i]).being_dragged
                && (#[trigger] self.monitors@[j]).being_dragged ==> i == j
        &&& match self.layout {
            None => forall|i: int|
                0 <= i < self.monitors@.len() ==> {
                    let m = #[trigger] self.monitors@[i];
                    &&& !m.placed
                    &&& -MAX_RAW_POS <= m.pos_x <= MAX_RAW_POS
                    &&& -MAX_RAW_POS <= m.pos_y <= MAX_RAW_POS
                    &&& -MAX_RAW_POS <= m.init_scaled_x <= MAX_RAW_POS
                    &&& -MAX_RAW_POS <= m.init_scaled_y <= MAX_RAW_POS
                },
            Some(l) => {
                &&& self.monitors@.len() >= 1
                &&& l.derived_from(self.monitors@)
                &&& l.snapshot_x_in_box(l.net_zero_x as int)
                &&& l.snapshot_y_in_box(l.net_zero_y as int)
                &&& forall|i: int|
                    0 <= i < self.monitors@.len() ==> {
                        let m = #[trigger] self.monitors@[i];
                        &&& m.placed
                        &&& l.contained_x(m)
                        &&& l.contained_y(m)
                        &&& l.snapshot_x_in_box(m.init_scaled_x as int)
                        &&& l.snapshot_y_in_box(m.init_scaled_y as int)
                    }
            },
        }
    }
}

/// Two monitor lists with pointwise equal resolutions have equal total widths
/// and heights.
pub proof fn lemma_totals_same(a: Seq<Monitor>, b: Seq<Monitor>)
    requires
        a.len() == b.len(),
        forall|i: int| 0 <= i < a.len() ==> (#[trigger] a[i]).resolution == b[i].resolution,
    ensures
        spec_total_w(a) == spec_total_w(b),
        spec_total_h(a) == spec_total_h(b),
    decreases a.len(),
{
    if a.len() > 0 {
        lemma_totals_same(a.drop_last(), b.drop_last());
    }
}

/// Lower and upper bounds on the total width: each monitor contributes at
/// least one and at most `MAX_DIM` pixels.
pub proof fn lemma_total_w_bounds(ms: Seq<Monitor>)
    requires
        forall|i: int| 0 <= i < ms.len() ==> (#[trigger] ms[i]).dims_ok(),
    ensures
        ms.len() <= spec_total_w(ms) <= ms.len() * MAX_DIM,
    decreases ms.len(),
{
    if ms.len() > 0 {
        lemma_total_w_bounds(ms.drop_last());
    }
}

/// Lower and upper bounds on the total height, as for the width.
pub proof fn lemma_total_h_bounds(ms: Seq<Monitor>)
    requires
        forall|i: int| 0 <= i < ms.len() ==> (#[trigger] ms[i]).dims_ok(),
    ensures
        ms.len() <= spec_total_h(ms) <= ms.len() * MAX_DIM,
    decreases ms.len(),
{
    if ms.len() > 0 {
        lemma_total_h_bounds(ms.drop_last());
    }
}

/// Each monitor's width is a summand of the total, so it never exceeds it.
pub proof fn lemma_member_w_le_total(ms: Seq<Monitor>, i: int)
    requires
        forall|k: int| 0 <= k < ms.len() ==> (#[trigger] ms[k]).dims_ok(),
        0 <= i < ms.len(),
    ensures
        ms[i].resolution.0 <= spec_total_w(ms),
    decreases ms.len(),
{
    lemma_total_w_bounds(ms.drop_last());
    if i < ms.len() - 1 {
        lemma_member_w_le_total(ms.drop_last(), i);
    }
}

/// Each monitor's height is a summand of the total, so it never exceeds it.
pub proof fn lemma_member_h_le_total(ms: Seq<Monitor>, i: int)
    requires
        forall|k: int| 0 <= k < ms.len() ==> (#[trigger] ms[k]).dims_ok(),
        0 <= i < ms.len(),
    ensures
        ms[i].resolution.1 <= spec_total_h(ms),
    decreases ms.len(),
{
    lemma_total_h_bounds(ms.drop_last());
    if i < ms.len() - 1 {
        lemma_member_h_le_total(ms.drop_last(), i);
    }
}

/// Sum of the committed widths of all monitors.
pub fn total_width(monitors: &Vec<Monitor>) -> (r: u64)
    requires
        monitors@.len() <= MAX_MONITORS,
        forall|i: int| 0 <= i < monitors@.len() ==> (#[trigger] monitors@[i]).dims_ok(),
    ensures
        r == spec_total_w(monitors@),
{
    let n = monitors.len();
    let mut acc: u64 = 0;
    let mut i: usize = 0;
    while i < n
        invariant
            n == monitors@.len() <= MAX_MONITORS,
            forall|k: int| 0 <= k < monitors@.len() ==> (#[trigger] monitors@[k]).dims_ok(),
            0 <= i <= n,
            acc == spec_total_w(monitors@.take(i as int)),
            acc <= i * MAX_DIM,
        decreases n - i,
    {
        proof {
            assert(monitors@.take(i + 1).drop_last() =~= monitors@.take(i as int));
            assert(monitors@.take(i + 1).last() == monitors@[i as int]);
        }
        acc = acc + monitors[i].resolution.0 as u64;
        i = i + 1;
    }
    proof {
        assert(monitors@.take(n as int) =~= monitors@);
    }
    acc
}

/// Sum of the committed heights of all monitors.
pub fn total_height(monitors: &Vec<Monitor>) -> (r: u64)
    requires
        monitors@.len() <= MAX_MONITORS,
        forall|i: int| 0 <= i < monitors@.len() ==> (#[trigger] monitors@[i]).dims_ok(),
    ensures
        r == spec_total_h(monitors@),
{
    let n = monitors.len();
    let mut acc: u64 = 0;
    let mut i: usize = 0;
    while i < n
        invariant
            n == monitors@.len() <= MAX_MONITORS,
            forall|k: int| 0 <= k < monitors@.len() ==> (#[trigger] monitors@[k]).dims_ok(),
            0 <= i <= n,
            acc == spec_total_h(monitors@.take(i as int)),
            acc <= i * MAX_DIM,
        decreases n - i,
    {
        proof {
            assert(monitors@.take(i + 1).drop_last() =~= monitors@.take(i as int));
            assert(monitors@.take(i + 1).last() == monitors@[i as int]);
        }
        acc = acc + monitors[i].resolution.1 as u64;
        i = i + 1;
    }
    proof {
        assert(monitors@.take(n as int) =~= monitors@);
    }
    acc
}

} // verus!
