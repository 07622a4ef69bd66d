//! The change detector: a pure predicate over the registry answering "is
//! there a pending change to apply". It gates the visibility of the apply
//! action and has no side effects.

use vstd::prelude::*;

use crate::layout::{spec_fresh_pass, spec_placed_monitor};
use crate::model::{Monitor, Registry};

verus! {

/// The monitor diverges from its baseline or proposed counterparts: it was
/// moved since its first placement, it is disabled, a proposed resolution
/// differs from the committed one, or the proposed status differs from the
/// live one.
pub open spec fn spec_monitor_dirty(reg: Registry, i: int) -> bool {
    let m = reg.monitors@[i];
    ||| reg.spec_moved(m)
    ||| !m.enabled
    ||| match m.proposed_resolution {
        Some(pr) => pr != m.resolution,
        None => false,
    }
    ||| m.proposed_status != m.enabled
}

/// At least one monitor's live fields differ from its baseline or proposed
/// counterparts.
pub open spec fn spec_dirty(reg: Registry) -> bool {
    exists|i: int| 0 <= i < reg.monitors@.len() && spec_monitor_dirty(reg, i)
}

/// A fresh layout pass keeps a clean registry clean: placement records the
/// snapshot at the assigned position, so no monitor reads as moved, and the
/// proposed fields are untouched. With the reconciliation law this gives the
/// whole clean half — an untouched, freshly reconciled registry reports no
/// pending change, laid out or not.
pub proof fn lemma_fresh_pass_keeps_clean(
    before: Registry,
    after: Registry,
    bx: crate::model::BoundingBox,
)
    requires
        spec_fresh_pass(before, after, bx),
        !spec_dirty(before),
    ensures
        !spec_dirty(after),
{
    assert forall|i: int| 0 <= i < after.monitors@.len() implies !spec_monitor_dirty(after, i) by {
        assert(after.monitors@[i] == spec_placed_monitor(before.monitors@, bx, i));
        assert(!spec_monitor_dirty(before, i)) by {
            if spec_monitor_dirty(before, i) {
                assert(spec_dirty(before));
            }
        }
    }
}

/// Whether monitor `i` has moved since its first placement: its scaled
/// position differs from its scaled snapshot. Both are numerators over the
/// same denominator, so the numerators are compared directly.
pub fn monitor_moved(reg: &Registry, i: usize) -> (r: bool)
    requires
        i < reg.monitors@.len(),
    ensures
        r == reg.spec_moved(reg.monitors@[i as int]),
{
    let m = &reg.monitors[i];
    m.pos_x != m.init_scaled_x || m.pos_y != m.init_scaled_y
}

/// Whether the registry holds any pending change: true iff at least one
/// monitor's live fields differ from its baseline or proposed counterparts.
/// The apply action is offered exactly when this returns true.
#[verifier::loop_isolation(false)]
pub fn has_pending_change(reg: &Registry) -> (r: bool)
    ensures
        r == spec_dirty(*reg),
{
    let n = reg.monitors.len();
    let mut i: usize = 0;
    while i < n
        invariant
            0 <= i <= n,
            forall|k: int| 0 <= k < i ==> !spec_monitor_dirty(*reg, k),
        decreases n - i,
    {
        let moved = monitor_moved(reg, i);
        let m = &reg.monitors[i];
        let res_differs = match m.proposed_resolution {
            Some(pr) => pr.0 != m.resolution.0 || pr.1 != m.resolution.1,
            None => false,
        };
        if moved || !m.enabled || res_differs || m.proposed_status != m.enabled {
            proof {
                assert(spec_monitor_dirty(*reg, i as int));
            }
            return true;
        }
        i = i + 1;
    }
    false
}

} // verus!
