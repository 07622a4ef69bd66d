//! Throttling of the cosmetic live-preview capture. The capture itself is an
//! external collaborator; the engine only decides when a refresh is due and
//! records when one happened.

use vstd::prelude::*;

use crate::model::{lemma_totals_same, Monitor, Registry};

verus! {

/// How long to wait between two preview captures of one monitor, by default.
pub const DEFAULT_CAPTURE_INTERVAL_MS: u64 = 5000;

/// Whether the preview of this monitor is due for a refresh: either the
/// interval has elapsed and no monitor is being dragged (capture is
/// suspended globally during any interaction), or the monitor has no
/// preview yet.
pub fn should_refresh_preview(
    m: &Monitor,
    now_ms: u64,
    interval_ms: u64,
    any_dragging: bool,
    has_preview: bool,
) -> (r: bool)
    requires
        m.last_capture_ms <= now_ms,
    ensures
        r == ((now_ms - m.last_capture_ms > interval_ms && !any_dragging) || !has_preview),
{
    (now_ms - m.last_capture_ms > interval_ms && !any_dragging) || !has_preview
}

/// Record that the preview of monitor `i` was refreshed at `now_ms`.
pub fn mark_preview_refreshed(reg: &mut Registry, i: usize, now_ms: u64)
    requires
        old(reg).wf(),
        i < old(reg).monitors@.len(),
    ensures
        final(reg).wf(),
        final(reg).layout == old(reg).layout,
        final(reg).selected == old(reg).selected,
        final(reg).monitors@.len() == old(reg).monitors@.len(),
        forall|k: int|
            0 <= k < old(reg).monitors@.len() && k != i ==> #[trigger] final(reg).monitors@[k]
                == old(reg).monitors@[k],
        final(reg).monitors@[i as int] == (Monitor {
            last_capture_ms: now_ms,
            ..old(reg).monitors@[i as int]
        }),
{
    let ghost ms = reg.monitors@;
    reg.monitors[i].last_capture_ms = now_ms;
    proof {
        lemma_totals_same(reg.monitors@, ms);
    }
}

} // verus!
