//! The settings panel's edits: the pending enabled/disabled state and the
//! pending resolution, the latter parsed from user-typed text.

use vstd::prelude::*;

use crate::model::{lemma_totals_same, Monitor, Registry};
use crate::parse::{parse_resolution_input, spec_parse_resolution};

verus! {

/// Record the user's pending enabled/disabled choice for monitor `i`.
pub fn set_proposed_status(reg: &mut Registry, i: usize, status: bool)
    requires
        old(reg).wf(),
        i < old(reg).monitors@.len(),
    ensures
        final(reg).wf(),
        final(reg).layout == old(reg).layout,
        final(reg).selected == old(reg).selected,
        final(reg).monitors@.len() == old(reg).monitors@.len(),
        forall|k: int|
            0 <= k < old(reg).monitors@.len() && k != i ==> #[trigger] final(reg).monitors@[k]
                == old(reg).monitors@[k],
        final(reg).monitors@[i as int] == (Monitor {
            proposed_status: status,
            ..old(reg).monitors@[i as int]
        }),
{
    let ghost ms = reg.monitors@;
    reg.monitors[i].proposed_status = status;
    proof {
        lemma_totals_same(reg.monitors@, ms);
    }
}

/// Record the user's pending resolution for monitor `i` from the text typed
/// into the settings panel. Text of the exact shape `WxH` updates the
/// proposal; malformed text is silently ignored and the last valid proposal
/// stays.
pub fn apply_resolution_text(reg: &mut Registry, i: usize, text: &str)
    requires
        old(reg).wf(),
        i < old(reg).monitors@.len(),
    ensures
        final(reg).wf(),
        final(reg).layout == old(reg).layout,
        final(reg).selected == old(reg).selected,
        final(reg).monitors@.len() == old(reg).monitors@.len(),
        forall|k: int|
            0 <= k < old(reg).monitors@.len() && k != i ==> #[trigger] final(reg).monitors@[k]
                == old(reg).monitors@[k],
        final(reg).monitors@[i as int] == (Monitor {
            proposed_resolution: match spec_parse_resolution(text@) {
                Some(res) => Some(res),
                None => old(reg).monitors@[i as int].proposed_resolution,
            },
            ..old(reg).monitors@[i as int]
        }),
{
    let ghost ms = reg.monitors@;
    match parse_resolution_input(text) {
        Some(res) => {
            reg.monitors[i].proposed_resolution = Some(res);
        },
        None => {},
    }
    proof {
        lemma_totals_same(reg.monitors@, ms);
        assert(reg.monitors@[i as int] == (Monitor {
            proposed_resolution: match spec_parse_resolution(text@) {
                Some(res) => Some(res),
                None => ms[i as int].proposed_resolution,
            },
            ..ms[i as int]
        }));
    }
}

} // verus!
