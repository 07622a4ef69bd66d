//! The layout engine: derives the global scale factors from the registry and
//! the canvas box, assigns every not-yet-placed monitor its default logical
//! position, and clamps each placement into the box.
//!
//! All quantities are exact fractions. With `n` monitors, total committed
//! width `tw` and a box of width `bw`, the x scale factor is
//! `4*bw / (5*tw)` (an 80% fill ratio); a logical x coordinate is a numerator
//! over `den_x = n * 4*bw`, and a scaled x value is a numerator over
//! `sden_x = n * 5*tw`. Multiplying a logical coordinate by the scale factor
//! therefore keeps the numerator and merely switches the denominator from
//! `den_x` to `sden_x`, so every formula below stays in integers.

use vstd::prelude::*;

use crate::model::{
    lemma_member_h_le_total, lemma_member_w_le_total, lemma_total_h_bounds, lemma_total_w_bounds,
    lemma_totals_same, spec_total_h, spec_total_w, total_height, total_width, BoundingBox, Layout,
    Monitor, Registry, MAX_MONITORS,
};

verus! {

/// Failure of a layout pass.
#[derive(Clone, Copy, Debug, PartialEq, Eq, Structural)]
pub enum LayoutError {
    /// The registry holds no monitors, so the scale factors would degenerate
    /// to zero.
    EmptyRegistry,
}

/// Numerator of the x scale factor: `4 * box width` (the 80% fill ratio
/// contributes 4/5).
pub open spec fn spec_sxn(bx: BoundingBox) -> int {
    4 * bx.width
}

/// Denominator of the x scale factor: `5 * total width`.
pub open spec fn spec_sxd(ms: Seq<Monitor>) -> int {
    5 * spec_total_w(ms)
}

/// Numerator of the y scale factor: `4 * box height`.
pub open spec fn spec_syn(bx: BoundingBox) -> int {
    4 * bx.height
}

/// Denominator of the y scale factor: `5 * total height`.
pub open spec fn spec_syd(ms: Seq<Monitor>) -> int {
    5 * spec_total_h(ms)
}

/// Denominator of logical x coordinates.
pub open spec fn spec_den_x(ms: Seq<Monitor>, bx: BoundingBox) -> int {
    ms.len() * spec_sxn(bx)
}

/// Denominator of scaled x values.
pub open spec fn spec_sden_x(ms: Seq<Monitor>, bx: BoundingBox) -> int {
    ms.len() * spec_sxd(ms)
}

/// Denominator of logical y coordinates.
pub open spec fn spec_den_y(bx: BoundingBox) -> int {
    2 * spec_syn(bx)
}

/// Denominator of scaled y values.
pub open spec fn spec_sden_y(ms: Seq<Monitor>) -> int {
    2 * spec_syd(ms)
}

/// Numerator (over `den_x`) of the first monitor's default logical x:
/// `(bw/scale_x - tw) / n + min_x/scale_x`, the equal left margin derived
/// from the unscaled total width deficit.
pub open spec fn spec_x1_num(ms: Seq<Monitor>, bx: BoundingBox) -> int {
    bx.width * spec_sxd(ms) - spec_total_w(ms) * spec_sxn(bx) + ms.len() * bx.min_x * spec_sxd(ms)
}

/// Numerator (over `den_y`) of the shared default logical y:
/// `(bh/scale_y)/2 - first.height/2 + min_y/scale_y`, which centers the
/// first monitor vertically.
pub open spec fn spec_y1_num(ms: Seq<Monitor>, bx: BoundingBox) -> int {
    bx.height * spec_syd(ms) - ms[0].resolution.1 * spec_syn(bx) + 2 * bx.min_y * spec_syd(ms)
}

/// Numerator (over `den_x`) of the uniform per-monitor slot width
/// `total_width / n`.
pub open spec fn spec_slot_num(ms: Seq<Monitor>, bx: BoundingBox) -> int {
    spec_total_w(ms) * spec_sxn(bx)
}

/// Per-edge clamp of a coordinate numerator `x` into `[lo, hi]`, for a
/// rectangle whose scaled extent is `span`: first the leading edge, then,
/// against the possibly updated value, the trailing edge.
pub open spec fn spec_clamp(lo: int, hi: int, span: int, x: int) -> int {
    let a = if x < lo {
        lo
    } else {
        x
    };
    if a + span > hi {
        hi - span
    } else {
        a
    }
}

/// Clamp of a logical x numerator for a monitor of committed width `w`.
pub open spec fn spec_clamp_x(ms: Seq<Monitor>, bx: BoundingBox, w: int, x: int) -> int {
    spec_clamp(
        bx.min_x * spec_sden_x(ms, bx),
        bx.max_x() * spec_sden_x(ms, bx),
        w * spec_den_x(ms, bx),
        x,
    )
}

/// Clamp of a logical y numerator for a monitor of committed height `h`.
pub open spec fn spec_clamp_y(ms: Seq<Monitor>, bx: BoundingBox, h: int, y: int) -> int {
    spec_clamp(
        bx.min_y * spec_sden_y(ms),
        bx.max_y() * spec_sden_y(ms),
        h * spec_den_y(bx),
        y,
    )
}

/// How many of the first `i` monitors are enabled: the enabled monitor at
/// index `i` is the `spec_rank(ms, i)`-th one packed left to right.
pub open spec fn spec_rank(ms: Seq<Monitor>, i: int) -> int
    decreases i,
{
    if i <= 0 {
        0
    } else {
        spec_rank(ms, i - 1) + if ms[i - 1].enabled {
            1int
        } else {
            0int
        }
    }
}

/// Final (clamped) logical x numerator of the enabled monitor at index `i`:
/// the first monitor's x plus one uniform slot per enabled monitor before it.
pub open spec fn spec_enabled_x(ms: Seq<Monitor>, bx: BoundingBox, i: int) -> int {
    spec_clamp_x(
        ms,
        bx,
        ms[i].resolution.0 as int,
        spec_x1_num(ms, bx) + spec_rank(ms, i) * spec_slot_num(ms, bx),
    )
}

/// Largest final x numerator among the first `k` enabled monitors, zero when
/// none is enabled.
pub open spec fn spec_max_enabled_x_upto(ms: Seq<Monitor>, bx: BoundingBox, k: int) -> int
    decreases k,
{
    if k <= 0 {
        0
    } else {
        let prev = spec_max_enabled_x_upto(ms, bx, k - 1);
        if ms[k - 1].enabled && spec_enabled_x(ms, bx, k - 1) > prev {
            spec_enabled_x(ms, bx, k - 1)
        } else {
            prev
        }
    }
}

/// Largest final x numerator among all enabled monitors.
pub open spec fn spec_max_enabled_x(ms: Seq<Monitor>, bx: BoundingBox) -> int {
    spec_max_enabled_x_upto(ms, bx, ms.len() as int)
}

/// Final logical x numerator of the monitor at index `i` after a fresh
/// layout pass. Every disabled monitor goes one slot after the rightmost
/// enabled one; with several disabled monitors they deliberately share that
/// x, reproducing the layout the engine has always produced.
pub open spec fn spec_final_x(ms: Seq<Monitor>, bx: BoundingBox, i: int) -> int {
    if ms[i].enabled {
        spec_enabled_x(ms, bx, i)
    } else {
        spec_clamp_x(
            ms,
            bx,
            ms[i].resolution.0 as int,
            spec_max_enabled_x(ms, bx) + spec_slot_num(ms, bx),
        )
    }
}

/// Final logical y numerator of the monitor at index `i`: the shared default
/// y, clamped for the monitor's own height.
pub open spec fn spec_final_y(ms: Seq<Monitor>, bx: BoundingBox, i: int) -> int {
    spec_clamp_y(ms, bx, ms[i].resolution.1 as int, spec_y1_num(ms, bx))
}

/// The monitor at index `i` as a fresh layout pass leaves it: placed at its
/// default clamped position, with the scaled snapshot taken there. Because
/// the position numerator over `den_x` and the scaled value over `sden_x`
/// coincide, the snapshot numerator equals the position numerator.
pub open spec fn spec_placed_monitor(ms: Seq<Monitor>, bx: BoundingBox, i: int) -> Monitor {
    Monitor {
        pos_x: spec_final_x(ms, bx, i) as i64,
        pos_y: spec_final_y(ms, bx, i) as i64,
        init_scaled_x: spec_final_x(ms, bx, i) as i64,
        init_scaled_y: spec_final_y(ms, bx, i) as i64,
        placed: true,
        ..ms[i]
    }
}

/// The monitor at index `i` after the first phase of a fresh pass, which
/// places only the enabled monitors.
pub open spec fn spec_stage1_monitor(ms: Seq<Monitor>, bx: BoundingBox, i: int) -> Monitor {
    if ms[i].enabled {
        spec_placed_monitor(ms, bx, i)
    } else {
        ms[i]
    }
}

/// Per-edge clamp of a coordinate numerator into `[lo, hi - span]`.
pub(crate) fn clamp_num(lo: i64, hi: i64, span: i64, x: i64) -> (r: i64)
    requires
        0 <= span,
        lo + span <= hi,
        -0x4000_0000_0000_0000 <= lo,
        hi <= 0x4000_0000_0000_0000,
        -0x4000_0000_0000_0000 <= x <= 0x4000_0000_0000_0000,
    ensures
        r == spec_clamp(lo as int, hi as int, span as int, x as int),
        lo <= r,
        r + span <= hi,
{
    let a = if x < lo {
        lo
    } else {
        x
    };
    if a > hi - span {
        hi - span
    } else {
        a
    }
}

/// A fresh layout pass turned the old monitor list into the new one and
/// derived exactly these layout parameters.
pub open spec fn spec_fresh_pass(old_reg: Registry, new_reg: Registry, bx: BoundingBox) -> bool {
    let ms = old_reg.monitors@;
    &&& new_reg.selected == old_reg.selected
    &&& new_reg.monitors@.len() == ms.len()
    &&& match new_reg.layout {
        Some(l) => {
            &&& l.bbox == bx
            &&& l.scale_x_num == spec_sxn(bx)
            &&& l.scale_x_den == spec_sxd(ms)
            &&& l.scale_y_num == spec_syn(bx)
            &&& l.scale_y_den == spec_syd(ms)
            &&& l.den_x == spec_den_x(ms, bx)
            &&& l.sden_x == spec_sden_x(ms, bx)
            &&& l.den_y == spec_den_y(bx)
            &&& l.sden_y == spec_sden_y(ms)
            &&& l.net_zero_x == spec_x1_num(ms, bx)
            &&& l.net_zero_y == spec_y1_num(ms, bx)
        },
        None => false,
    }
    &&& forall|i: int|
        0 <= i < ms.len() ==> #[trigger] new_reg.monitors@[i] == spec_placed_monitor(ms, bx, i)
}

/// Numeric bounds on everything a pass derives, needed both to show the
/// machine arithmetic exact and to keep every numerator inside `i64`.
proof fn lemma_param_bounds(ms: Seq<Monitor>, bx: BoundingBox)
    requires
        1 <= ms.len() <= MAX_MONITORS,
        forall|i: int| 0 <= i < ms.len() ==> (#[trigger] ms[i]).dims_ok(),
        bx.wf(),
    ensures
        1 <= spec_total_w(ms) <= 0x1000_0000,
        1 <= spec_total_h(ms) <= 0x1000_0000,
        4 <= spec_sxn(bx) <= 0x4_0000,
        5 <= spec_sxd(ms) <= 0x5000_0000,
        4 <= spec_syn(bx) <= 0x4_0000,
        5 <= spec_syd(ms) <= 0x5000_0000,
        1 <= spec_den_x(ms, bx) <= 0x4000_0000,
        1 <= spec_sden_x(ms, bx) <= 0x500_0000_0000,
        1 <= spec_den_y(bx) <= 0x8_0000,
        1 <= spec_sden_y(ms) <= 0xA000_0000,
        0 <= bx.min_x * spec_sden_x(ms, bx) <= 0x500_0000_0000_0000,
        0 < bx.max_x() * spec_sden_x(ms, bx) <= 0xA00_0000_0000_0000,
        0 <= bx.min_y * spec_sden_y(ms) <= 0xA0_0000_0000_0000,
        0 < bx.max_y() * spec_sden_y(ms) <= 0x140_0000_0000_0000,
        0 <= spec_slot_num(ms, bx) <= 0x4000_0000_0000,
        -0x1000_0000_0000_0000 <= spec_x1_num(ms, bx) <= 0x1000_0000_0000_0000,
        -0x1000_0000_0000_0000 <= spec_y1_num(ms, bx) <= 0x1000_0000_0000_0000,
        0 <= ms.len() * bx.min_x <= 0x1000_0000,
        0 <= ms.len() * bx.min_x * spec_sxd(ms) <= 0x500_0000_0000_0000,
        0 <= bx.width * spec_sxd(ms) <= 0x5_0000_0000_0000,
        0 <= bx.height * spec_syd(ms) <= 0x5_0000_0000_0000,
        0 <= ms[0].resolution.1 * spec_syn(bx) <= 0x4_0000_0000,
        0 <= 2 * bx.min_y * spec_syd(ms) <= 0xA000_0000_0000,
        forall|i: int|
            0 <= i < ms.len() ==> 0 <= (#[trigger] ms[i]).resolution.0 * spec_den_x(ms, bx)
                <= bx.width * spec_sden_x(ms, bx),
        forall|i: int|
            0 <= i < ms.len() ==> 0 <= (#[trigger] ms[i]).resolution.1 * spec_den_y(bx)
                <= bx.height * spec_sden_y(ms),
        bx.min_x * spec_sden_x(ms, bx) + bx.width * spec_sden_x(ms, bx) == bx.max_x() * spec_sden_x(
            ms,
            bx,
        ),
        bx.min_y * spec_sden_y(ms) + bx.height * spec_sden_y(ms) == bx.max_y() * spec_sden_y(ms),
{
    lemma_total_w_bounds(ms);
    lemma_total_h_bounds(ms);
    let n = ms.len() as int;
    let tw = spec_total_w(ms);
    let th = spec_total_h(ms);
    assert(1 <= n * spec_sxn(bx) <= 0x4000_0000 && 1 <= n * spec_sxd(ms) <= 0x500_0000_0000)
        by (nonlinear_arith)
        requires
            1 <= n <= 4096,
            4 <= spec_sxn(bx) <= 0x4_0000,
            5 <= spec_sxd(ms) <= 0x5000_0000,
    ;
    assert(0 <= bx.min_x * spec_sden_x(ms, bx) <= 0x500_0000_0000_0000 && 0 < bx.max_x()
        * spec_sden_x(ms, bx) <= 0xA00_0000_0000_0000) by (nonlinear_arith)
        requires
            0 <= bx.min_x <= 0x1_0000,
            0 < bx.max_x() <= 0x2_0000,
            1 <= spec_sden_x(ms, bx) <= 0x500_0000_0000,
    ;
    assert(0 <= bx.min_y * spec_sden_y(ms) <= 0xA0_0000_0000_0000 && 0 < bx.max_y() * spec_sden_y(
        ms,
    ) <= 0x140_0000_0000_0000) by (nonlinear_arith)
        requires
            0 <= bx.min_y <= 0x1_0000,
            0 < bx.max_y() <= 0x2_0000,
            1 <= spec_sden_y(ms) <= 0xA000_0000,
    ;
    assert(0 <= tw * spec_sxn(bx) <= 0x4000_0000_0000) by (nonlinear_arith)
        requires
            1 <= tw <= 0x1000_0000,
            4 <= spec_sxn(bx) <= 0x4_0000,
    ;
    assert(0 <= bx.width * spec_sxd(ms) <= 0x5_0000_0000_0000 && 0 <= n * bx.min_x * spec_sxd(ms)
        <= 0x500_0000_0000_0000) by (nonlinear_arith)
        requires
            1 <= bx.width <= 0x1_0000,
            0 <= bx.min_x <= 0x1_0000,
            1 <= n <= 4096,
            5 <= spec_sxd(ms) <= 0x5000_0000,
    ;
    assert(0 <= bx.height * spec_syd(ms) <= 0x5_0000_0000_0000 && 0 <= 2 * bx.min_y * spec_syd(ms)
        <= 0xA000_0000_0000) by (nonlinear_arith)
        requires
            1 <= bx.height <= 0x1_0000,
            0 <= bx.min_y <= 0x1_0000,
            5 <= spec_syd(ms) <= 0x5000_0000,
    ;
    assert(0 <= n * bx.min_x <= 0x1000_0000) by (nonlinear_arith)
        requires
            1 <= n <= 4096,
            0 <= bx.min_x <= 0x1_0000,
    ;
    assert(bx.min_x * (n * spec_sxd(ms)) + bx.width * (n * spec_sxd(ms)) == (bx.min_x + bx.width) * (
    n * spec_sxd(ms)) && bx.min_y * (2 * spec_syd(ms)) + bx.height * (2 * spec_syd(ms)) == (bx.min_y
        + bx.height) * (2 * spec_syd(ms))) by (nonlinear_arith);
    assert(0 <= ms[0].resolution.1 * spec_syn(bx) <= 0x4_0000_0000) by (nonlinear_arith)
        requires
            1 <= ms[0].resolution.1 <= 0x1_0000,
            4 <= spec_syn(bx) <= 0x4_0000,
    ;
    assert forall|i: int| 0 <= i < ms.len() implies 0 <= (#[trigger] ms[i]).resolution.0
        * spec_den_x(ms, bx) <= bx.width * spec_sden_x(ms, bx) by {
        lemma_member_w_le_total(ms, i);
        assert(0 <= ms[i].resolution.0 * (n * spec_sxn(bx)) <= bx.width * (n * spec_sxd(ms)))
            by (nonlinear_arith)
            requires
                1 <= ms[i].resolution.0 <= tw,
                1 <= n,
                spec_sxn(bx) == 4 * bx.width,
                spec_sxd(ms) == 5 * tw,
                1 <= bx.width,
                1 <= tw,
        ;
    }
    assert forall|i: int| 0 <= i < ms.len() implies 0 <= (#[trigger] ms[i]).resolution.1
        * spec_den_y(bx) <= bx.height * spec_sden_y(ms) by {
        lemma_member_h_le_total(ms, i);
        assert(0 <= ms[i].resolution.1 * (2 * spec_syn(bx)) <= bx.height * (2 * spec_syd(ms)))
            by (nonlinear_arith)
            requires
                1 <= ms[i].resolution.1 <= th,
                spec_syn(bx) == 4 * bx.height,
                spec_syd(ms) == 5 * th,
                1 <= bx.height,
                1 <= th,
        ;
    }
}

/// The first monitor's default position lies within the box in both axes,
/// before any clamp: its scaled x is `min_x + width/(5n)` and its scaled y is
/// `min_y + (height - first.height * scale_y) / 2`.
proof fn lemma_anchor_in_box(ms: Seq<Monitor>, bx: BoundingBox)
    requires
        1 <= ms.len() <= MAX_MONITORS,
        forall|i: int| 0 <= i < ms.len() ==> (#[trigger] ms[i]).dims_ok(),
        bx.wf(),
    ensures
        bx.min_x * spec_sden_x(ms, bx) <= spec_x1_num(ms, bx) <= bx.max_x() * spec_sden_x(ms, bx),
        bx.min_y * spec_sden_y(ms) <= spec_y1_num(ms, bx) <= bx.max_y() * spec_sden_y(ms),
{
    lemma_total_w_bounds(ms);
    lemma_total_h_bounds(ms);
    lemma_member_h_le_total(ms, 0);
    let n = ms.len() as int;
    let tw = spec_total_w(ms);
    let th = spec_total_h(ms);
    let h0 = ms[0].resolution.1 as int;
    assert(bx.min_x * (n * (5 * tw)) <= bx.width * (5 * tw) - tw * (4 * bx.width) + n * bx.min_x * (
    5 * tw) <= bx.max_x() * (n * (5 * tw))) by (nonlinear_arith)
        requires
            1 <= n,
            1 <= tw,
            1 <= bx.width,
            bx.max_x() == bx.min_x + bx.width,
            0 <= bx.min_x,
    ;
    assert(bx.min_y * (2 * (5 * th)) <= bx.height * (5 * th) - h0 * (4 * bx.height) + 2 * bx.min_y
        * (5 * th) <= bx.max_y() * (2 * (5 * th))) by (nonlinear_arith)
        requires
            1 <= th,
            1 <= bx.height,
            1 <= h0 <= th,
            bx.max_y() == bx.min_y + bx.height,
            0 <= bx.min_y,
    ;
}

/// The numeric bounds of `lemma_param_bounds`, carried over to a stored
/// `Layout` whose parameters are derived from the monitor list.
pub(crate) proof fn lemma_layout_bounds(l: Layout, ms: Seq<Monitor>)
    requires
        1 <= ms.len() <= MAX_MONITORS,
        forall|i: int| 0 <= i < ms.len() ==> (#[trigger] ms[i]).dims_ok(),
        l.derived_from(ms),
    ensures
        4 <= l.scale_x_num <= 0x4_0000,
        5 <= l.scale_x_den <= 0x5000_0000,
        4 <= l.scale_y_num <= 0x4_0000,
        5 <= l.scale_y_den <= 0x5000_0000,
        1 <= l.den_x <= 0x4000_0000,
        1 <= l.sden_x <= 0x500_0000_0000,
        1 <= l.den_y <= 0x8_0000,
        1 <= l.sden_y <= 0xA000_0000,
        0 <= l.bbox.min_x * l.sden_x <= 0x500_0000_0000_0000,
        0 < l.bbox.max_x() * l.sden_x <= 0xA00_0000_0000_0000,
        0 <= l.bbox.min_y * l.sden_y <= 0xA0_0000_0000_0000,
        0 < l.bbox.max_y() * l.sden_y <= 0x140_0000_0000_0000,
        forall|i: int|
            0 <= i < ms.len() ==> 0 <= (#[trigger] ms[i]).resolution.0 * l.den_x <= l.bbox.width
                * l.sden_x,
        forall|i: int|
            0 <= i < ms.len() ==> 0 <= (#[trigger] ms[i]).resolution.1 * l.den_y <= l.bbox.height
                * l.sden_y,
        l.bbox.min_x * l.sden_x + l.bbox.width * l.sden_x == l.bbox.max_x() * l.sden_x,
        l.bbox.min_y * l.sden_y + l.bbox.height * l.sden_y == l.bbox.max_y() * l.sden_y,
{
    lemma_param_bounds(ms, l.bbox);
    assert(l.scale_x_num == spec_sxn(l.bbox));
    assert(l.scale_x_den == spec_sxd(ms));
    assert(l.den_x == spec_den_x(ms, l.bbox));
    assert(l.sden_x == spec_sden_x(ms, l.bbox));
    assert(l.den_y == spec_den_y(l.bbox));
    assert(l.sden_y == spec_sden_y(ms));
}

/// A layout pass.
///
/// On the first pass (no layout yet) it derives the scale factors, places
/// every monitor — enabled ones packed left to right from the anchor,
/// disabled ones one slot right of the rightmost enabled one — clamps each
/// placement into the box, records the scaled snapshot, and stores the
/// layout parameters together with the anchor (`net_zero`) coordinates.
///
/// Once a layout exists every monitor is already placed and contained, so a
/// further pass changes nothing. The pass fails exactly on an empty
/// registry, whose scale factors would degenerate to zero.
#[verifier::loop_isolation(false)]
pub fn layout_pass(reg: &mut Registry, bx: BoundingBox) -> (r: Result<(), LayoutError>)
    requires
        old(reg).wf(),
        bx.wf(),
        match old(reg).layout {
            Some(l) => l.bbox == bx,
            None => true,
        },
    ensures
        final(reg).wf(),
        r is Err <==> old(reg).monitors@.len() == 0,
        r is Err ==> *final(reg) == *old(reg),
        r is Ok && old(reg).layout is Some ==> *final(reg) == *old(reg),
        r is Ok && old(reg).layout is None ==> spec_fresh_pass(*old(reg), *final(reg), bx),
{
    let n = reg.monitors.len();
    if n == 0 {
        return Err(LayoutError::EmptyRegistry);
    }
    if reg.layout.is_some() {
        return Ok(());
    }
    let ghost ms = reg.monitors@;
    proof {
        lemma_param_bounds(ms, bx);
        lemma_anchor_in_box(ms, bx);
    }
    let tw = total_width(&reg.monitors);
    let th = total_height(&reg.monitors);
    let ni: i64 = n as i64;
    let sxn: i64 = 4 * (bx.width as i64);
    let sxd: i64 = 5 * (tw as i64);
    let syn: i64 = 4 * (bx.height as i64);
    let syd: i64 = 5 * (th as i64);
    let den_x: i64 = ni * sxn;
    let sden_x: i64 = ni * sxd;
    let den_y: i64 = 2 * syn;
    let sden_y: i64 = 2 * syd;
    let lo_x: i64 = (bx.min_x as i64) * sden_x;
    let hi_x: i64 = (bx.min_x as i64 + bx.width as i64) * sden_x;
    let lo_y: i64 = (bx.min_y as i64) * sden_y;
    let hi_y: i64 = (bx.min_y as i64 + bx.height as i64) * sden_y;
    let slot: i64 = (tw as i64) * sxn;
    let h0: i64 = reg.monitors[0].resolution.1 as i64;
    let x1: i64 = (bx.width as i64) * sxd - (tw as i64) * sxn + ni * (bx.min_x as i64) * sxd;
    let y1: i64 = (bx.height as i64) * syd - h0 * syn + 2 * (bx.min_y as i64) * syd;
    proof {
        assert(den_x == spec_den_x(ms, bx));
        assert(sden_x == spec_sden_x(ms, bx));
        assert(den_y == spec_den_y(bx));
        assert(sden_y == spec_sden_y(ms));
        assert(lo_x == bx.min_x * spec_sden_x(ms, bx));
        assert(hi_x == bx.max_x() * spec_sden_x(ms, bx));
        assert(lo_y == bx.min_y * spec_sden_y(ms));
        assert(hi_y == bx.max_y() * spec_sden_y(ms));
        assert(slot == spec_slot_num(ms, bx));
        assert(x1 == spec_x1_num(ms, bx));
        assert(y1 == spec_y1_num(ms, bx));
    }

    // First phase: pack the enabled monitors left to right from the anchor.
    let mut rank: i64 = 0;
    let mut max_e: i64 = 0;
    let mut i: usize = 0;
    while i < n
        invariant
            0 <= i <= n,
            reg.selected == old(reg).selected,
            reg.monitors@.len() == n,
            rank == spec_rank(ms, i as int),
            0 <= rank <= i,
            max_e == spec_max_enabled_x_upto(ms, bx, i as int),
            0 <= max_e <= hi_x,
            forall|k: int| i <= k < n ==> #[trigger] reg.monitors@[k] == ms[k],
            forall|k: int|
                0 <= k < i ==> #[trigger] reg.monitors@[k] == spec_stage1_monitor(ms, bx, k),
        decreases n - i,
    {
        if reg.monitors[i].enabled {
            let w: i64 = reg.monitors[i].resolution.0 as i64;
            let h: i64 = reg.monitors[i].resolution.1 as i64;
            proof {
                assert(0 <= rank * slot <= 4096 * 0x4000_0000_0000) by (nonlinear_arith)
                    requires
                        0 <= rank <= 4096,
                        0 <= slot <= 0x4000_0000_0000,
                ;
            }
            let raw_x: i64 = x1 + rank * slot;
            let px = clamp_num(lo_x, hi_x, w * den_x, raw_x);
            let py = clamp_num(lo_y, hi_y, h * den_y, y1);
            reg.monitors[i].pos_x = px;
            reg.monitors[i].pos_y = py;
            reg.monitors[i].init_scaled_x = px;
            reg.monitors[i].init_scaled_y = py;
            reg.monitors[i].placed = true;
            if px > max_e {
                max_e = px;
            }
            rank = rank + 1;
            proof {
                assert(reg.monitors@[i as int] == spec_placed_monitor(ms, bx, i as int));
            }
        }
        i = i + 1;
    }

    // Second phase: every disabled monitor goes one slot right of the
    // rightmost enabled one.
    let mut j: usize = 0;
    while j < n
        invariant
            0 <= j <= n,
            reg.selected == old(reg).selected,
            reg.monitors@.len() == n,
            forall|k: int|
                j <= k < n ==> #[trigger] reg.monitors@[k] == spec_stage1_monitor(ms, bx, k),
            forall|k: int|
                0 <= k < j ==> #[trigger] reg.monitors@[k] == spec_placed_monitor(ms, bx, k),
        decreases n - j,
    {
        if !reg.monitors[j].enabled {
            let w: i64 = reg.monitors[j].resolution.0 as i64;
            let h: i64 = reg.monitors[j].resolution.1 as i64;
            let raw_x: i64 = max_e + slot;
            let px = clamp_num(lo_x, hi_x, w * den_x, raw_x);
            let py = clamp_num(lo_y, hi_y, h * den_y, y1);
            reg.monitors[j].pos_x = px;
            reg.monitors[j].pos_y = py;
            reg.monitors[j].init_scaled_x = px;
            reg.monitors[j].init_scaled_y = py;
            reg.monitors[j].placed = true;
        }
        j = j + 1;
    }

    reg.layout = Some(
        Layout {
            bbox: bx,
            scale_x_num: sxn,
            scale_x_den: sxd,
            scale_y_num: syn,
            scale_y_den: syd,
            den_x,
            den_y,
            sden_x,
            sden_y,
            net_zero_x: x1,
            net_zero_y: y1,
        },
    );
    proof {
        lemma_totals_same(reg.monitors@, ms);
        assert forall|k: int| 0 <= k < n implies (#[trigger] reg.monitors@[k]).dims_ok() by {
            assert(reg.monitors@[k] == spec_placed_monitor(ms, bx, k));
        }
    }
    Ok(())
}

/// For any non-empty registry the scale factors are positive, and the scaled
/// total footprint stays within 80% of the box along each axis:
/// `total_w * scale_x <= (4/5) * width` and likewise for y. (With the
/// derived factors the footprint meets that bound exactly.)
pub proof fn lemma_scale_positive_and_footprint(ms: Seq<Monitor>, bx: BoundingBox)
    requires
        1 <= ms.len() <= MAX_MONITORS,
        forall|i: int| 0 <= i < ms.len() ==> (#[trigger] ms[i]).dims_ok(),
        bx.wf(),
    ensures
        spec_sxn(bx) > 0 && spec_sxd(ms) > 0,
        spec_syn(bx) > 0 && spec_syd(ms) > 0,
        5 * (spec_total_w(ms) * spec_sxn(bx)) <= 4 * (bx.width * spec_sxd(ms)),
        5 * (spec_total_h(ms) * spec_syn(bx)) <= 4 * (bx.height * spec_syd(ms)),
{
    lemma_total_w_bounds(ms);
    lemma_total_h_bounds(ms);
    let tw = spec_total_w(ms);
    let th = spec_total_h(ms);
    assert(5 * (tw * (4 * bx.width)) == 4 * (bx.width * (5 * tw)) && 5 * (th * (4 * bx.height))
        == 4 * (bx.height * (5 * th))) by (nonlinear_arith);
}

/// The same law, read off a laid-out registry's stored parameters: the
/// stored scale factors are positive and the scaled total footprint stays
/// within 80% of the stored box along each axis.
pub proof fn lemma_registry_scale_positive_and_footprint(reg: Registry)
    requires
        reg.wf(),
        reg.layout is Some,
    ensures
        match reg.layout {
            Some(l) => {
                &&& 0 < l.scale_x_num && 0 < l.scale_x_den
                &&& 0 < l.scale_y_num && 0 < l.scale_y_den
                &&& 5 * (spec_total_w(reg.monitors@) * l.scale_x_num) <= 4 * (l.bbox.width
                    * l.scale_x_den)
                &&& 5 * (spec_total_h(reg.monitors@) * l.scale_y_num) <= 4 * (l.bbox.height
                    * l.scale_y_den)
            },
            None => false,
        },
{
    lemma_scale_positive_and_footprint(reg.monitors@, reg.layout->Some_0.bbox);
}

/// After any layout or drag pass — that is, in any well-formed registry that
/// holds a layout — every monitor's scaled rectangle is fully contained in
/// the bounding box, all four edge checks included.
pub proof fn lemma_monitors_contained(reg: Registry, i: int)
    requires
        reg.wf(),
        reg.layout is Some,
        0 <= i < reg.monitors@.len(),
    ensures
        match reg.layout {
            Some(l) => l.contained_x(reg.monitors@[i]) && l.contained_y(reg.monitors@[i]),
            None => false,
        },
{
}

} // verus!
