//! The drag controller: turns a pointer delta in canvas pixels into a
//! clamped logical repositioning of one monitor, and tracks the drag and
//! selection state.
//!
//! A pixel delta `d` divided by the scale factor is `d * sden / den` in
//! logical units, so the drag adds `d * sden` to the position numerator and
//! then clamps each edge independently into the box.

use vstd::prelude::*;

use crate::layout::{clamp_num, lemma_layout_bounds, spec_clamp};
use crate::model::{lemma_totals_same, Monitor, Registry, MAX_DRAG_DELTA};

verus! {

/// Logical x numerator of monitor `i` after a drag by `dx` canvas pixels:
/// the delta converted to logical units and added, then clamped into the box.
pub open spec fn spec_dragged_x(reg: Registry, i: int, dx: int) -> int {
    match reg.layout {
        Some(l) => spec_clamp(
            l.bbox.min_x * l.sden_x,
            l.bbox.max_x() * l.sden_x,
            reg.monitors@[i].resolution.0 * l.den_x,
            reg.monitors@[i].pos_x + dx * l.sden_x,
        ),
        None => reg.monitors@[i].pos_x as int,
    }
}

/// Logical y numerator of monitor `i` after a drag by `dy` canvas pixels.
pub open spec fn spec_dragged_y(reg: Registry, i: int, dy: int) -> int {
    match reg.layout {
        Some(l) => spec_clamp(
            l.bbox.min_y * l.sden_y,
            l.bbox.max_y() * l.sden_y,
            reg.monitors@[i].resolution.1 * l.den_y,
            reg.monitors@[i].pos_y + dy * l.sden_y,
        ),
        None => reg.monitors@[i].pos_y as int,
    }
}

/// Apply a pointer drag of `(dx, dy)` canvas pixels to monitor `i`: the
/// delta is divided by the scale factors and added to the logical position,
/// which is then clamped edge by edge into the box. Only monitor `i`'s
/// position changes; its snapshot, its flags and every other monitor stay.
#[verifier::loop_isolation(false)]
pub fn drag_update(reg: &mut Registry, i: usize, dx: i64, dy: i64)
    requires
        old(reg).wf(),
        old(reg).layout is Some,
        i < old(reg).monitors@.len(),
        -MAX_DRAG_DELTA <= dx <= MAX_DRAG_DELTA,
        -MAX_DRAG_DELTA <= dy <= MAX_DRAG_DELTA,
    ensures
        final(reg).wf(),
        final(reg).layout == old(reg).layout,
        final(reg).selected == old(reg).selected,
        final(reg).monitors@.len() == old(reg).monitors@.len(),
        forall|k: int|
            0 <= k < old(reg).monitors@.len() && k != i ==> #[trigger] final(reg).monitors@[k]
                == old(reg).monitors@[k],
        final(reg).monitors@[i as int] == (Monitor {
            pos_x: spec_dragged_x(*old(reg), i as int, dx as int) as i64,
            pos_y: spec_dragged_y(*old(reg), i as int, dy as int) as i64,
            ..old(reg).monitors@[i as int]
        }),
{
    let ghost ms = reg.monitors@;
    let l = reg.layout.unwrap();
    proof {
        lemma_layout_bounds(l, ms);
        assert(-0x500_0000_0000_0000 <= dx * l.sden_x <= 0x500_0000_0000_0000
            && -0x500_0000_0000_0000 <= dy * l.sden_y <= 0x500_0000_0000_0000)
            by (nonlinear_arith)
            requires
                -0x1_0000 <= dx <= 0x1_0000,
                -0x1_0000 <= dy <= 0x1_0000,
                0 <= l.sden_x <= 0x500_0000_0000,
                0 <= l.sden_y <= 0xA000_0000,
        ;
    }
    let w: i64 = reg.monitors[i].resolution.0 as i64;
    let h: i64 = reg.monitors[i].resolution.1 as i64;
    let lo_x: i64 = (l.bbox.min_x as i64) * l.sden_x;
    let hi_x: i64 = (l.bbox.min_x as i64 + l.bbox.width as i64) * l.sden_x;
    let lo_y: i64 = (l.bbox.min_y as i64) * l.sden_y;
    let hi_y: i64 = (l.bbox.min_y as i64 + l.bbox.height as i64) * l.sden_y;
    let nx: i64 = reg.monitors[i].pos_x + dx * l.sden_x;
    let ny: i64 = reg.monitors[i].pos_y + dy * l.sden_y;
    let px = clamp_num(lo_x, hi_x, w * l.den_x, nx);
    let py = clamp_num(lo_y, hi_y, h * l.den_y, ny);
    reg.monitors[i].pos_x = px;
    reg.monitors[i].pos_y = py;
    proof {
        lemma_totals_same(reg.monitors@, ms);
    }
}

/// Begin a pointer interaction on monitor `i`: it is marked as being
/// dragged and, to keep drags mutually exclusive, every other monitor's
/// drag flag is cleared.
#[verifier::loop_isolation(false)]
pub fn start_drag(reg: &mut Registry, i: usize)
    requires
        old(reg).wf(),
        i < old(reg).monitors@.len(),
    ensures
        final(reg).wf(),
        final(reg).layout == old(reg).layout,
        final(reg).selected == old(reg).selected,
        final(reg).monitors@.len() == old(reg).monitors@.len(),
        forall|k: int|
            0 <= k < old(reg).monitors@.len() ==> #[trigger] final(reg).monitors@[k] == (Monitor {
                being_dragged: k == i,
                ..old(reg).monitors@[k]
            }),
{
    let ghost ms = reg.monitors@;
    let n = reg.monitors.len();
    let mut k: usize = 0;
    while k < n
        invariant
            0 <= k <= n,
            reg.monitors@.len() == n,
            reg.selected == old(reg).selected,
            reg.layout == old(reg).layout,
            forall|j: int| k <= j < n ==> #[trigger] reg.monitors@[j] == ms[j],
            forall|j: int|
                0 <= j < k ==> #[trigger] reg.monitors@[j] == (Monitor {
                    being_dragged: j == i,
                    ..ms[j]
                }),
        decreases n - k,
    {
        reg.monitors[k].being_dragged = k == i;
        k = k + 1;
    }
    proof {
        lemma_totals_same(reg.monitors@, ms);
    }
}

/// End the pointer interaction on monitor `i`: its drag flag is cleared.
pub fn end_drag(reg: &mut Registry, i: usize)
    requires
        old(reg).wf(),
        i < old(reg).monitors@.len(),
    ensures
        final(reg).wf(),
        final(reg).layout == old(reg).layout,
        final(reg).selected == old(reg).selected,
        final(reg).monitors@.len() == old(reg).monitors@.len(),
        forall|k: int|
            0 <= k < old(reg).monitors@.len() && k != i ==> #[trigger] final(reg).monitors@[k]
                == old(reg).monitors@[k],
        final(reg).monitors@[i as int] == (Monitor {
            being_dragged: false,
            ..old(reg).monitors@[i as int]
        }),
{
    let ghost ms = reg.monitors@;
    reg.monitors[i].being_dragged = false;
    proof {
        lemma_totals_same(reg.monitors@, ms);
    }
}

/// A click (a zero-delta release within a monitor's rectangle) selects that
/// monitor for the settings panel; at most one monitor is selected.
pub fn click_select(reg: &mut Registry, i: usize)
    requires
        old(reg).wf(),
        i < old(reg).monitors@.len(),
    ensures
        final(reg).wf(),
        final(reg).layout == old(reg).layout,
        final(reg).monitors@ == old(reg).monitors@,
        final(reg).selected == Some(i),
{
    reg.selected = Some(i);
}

/// Whether any monitor is currently being dragged; while one is, the
/// periodic preview capture is suspended for all monitors.
#[verifier::loop_isolation(false)]
pub fn any_dragging(reg: &Registry) -> (r: bool)
    ensures
        r == exists|k: int| 0 <= k < reg.monitors@.len() && (#[trigger] reg.monitors@[k]).being_dragged,
{
    let n = reg.monitors.len();
    let mut k: usize = 0;
    while k < n
        invariant
            0 <= k <= n,
            forall|j: int| 0 <= j < k ==> !(#[trigger] reg.monitors@[j]).being_dragged,
        decreases n - k,
    {
        if reg.monitors[k].being_dragged {
            return true;
        }
        k = k + 1;
    }
    false
}

} // verus!
