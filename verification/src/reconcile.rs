//! Registry reconciliation: build the canonical monitor list, once at
//! startup, from the hardware-output descriptors the enumeration
//! collaborator reports.

use vstd::prelude::*;

use crate::detect::spec_dirty;
use crate::model::{Monitor, Registry, MAX_DIM, MAX_MONITORS, MAX_RAW_POS};
use crate::parse::Descriptor;

verus! {

/// A width the registry can hold: out-of-range parses fall back to the
/// documented default.
pub open spec fn spec_sane_w(w: u32) -> u32 {
    if 1 <= w <= MAX_DIM {
        w
    } else {
        1920u32
    }
}

/// A height the registry can hold.
pub open spec fn spec_sane_h(h: u32) -> u32 {
    if 1 <= h <= MAX_DIM {
        h
    } else {
        1080u32
    }
}

/// A raw coordinate the registry can hold: out-of-range parses fall back to
/// the origin.
pub open spec fn spec_sane_pos(p: i64) -> i64 {
    if -MAX_RAW_POS <= p <= MAX_RAW_POS {
        p
    } else {
        0i64
    }
}

/// The monitor a descriptor reconciles to. An output with geometry becomes
/// an enabled monitor at its committed resolution and position, proposing
/// exactly what is committed; one without geometry becomes a disabled
/// placeholder at the default resolution and the origin. The snapshot starts
/// equal to the position, so an untouched registry shows no pending change.
pub open spec fn spec_monitor_of(d: Descriptor) -> Monitor {
    match d.geometry {
        Some((w, h, x, y)) => Monitor {
            id: d.id,
            enabled: true,
            resolution: (spec_sane_w(w), spec_sane_h(h)),
            proposed_resolution: Some((spec_sane_w(w), spec_sane_h(h))),
            proposed_status: true,
            pos_x: spec_sane_pos(x),
            pos_y: spec_sane_pos(y),
            init_scaled_x: spec_sane_pos(x),
            init_scaled_y: spec_sane_pos(y),
            placed: false,
            being_dragged: false,
            duplicate_of: None,
            last_capture_ms: 0,
        },
        None => Monitor {
            id: d.id,
            enabled: false,
            resolution: (1920u32, 1080u32),
            proposed_resolution: None,
            proposed_status: false,
            pos_x: 0,
            pos_y: 0,
            init_scaled_x: 0,
            init_scaled_y: 0,
            placed: false,
            being_dragged: false,
            duplicate_of: None,
            last_capture_ms: 0,
        },
    }
}

/// The descriptors among `ds` whose output is connected, in order.
pub open spec fn spec_connected_descs(ds: Seq<Descriptor>) -> Seq<Descriptor>
    decreases ds.len(),
{
    if ds.len() == 0 {
        Seq::empty()
    } else {
        spec_connected_descs(ds.drop_last()) + if ds.last().connected {
            seq![ds.last()]
        } else {
            Seq::empty()
        }
    }
}

/// Build the registry from the enumeration collaborator's descriptors: one
/// monitor per connected descriptor, in order, each reconciled as
/// `spec_monitor_of` says; outputs beyond the registry's capacity are
/// dropped. No layout exists and nothing is selected yet.
#[verifier::loop_isolation(false)]
pub fn registry_from_descriptors(descs: &Vec<Descriptor>) -> (r: Registry)
    ensures
        r.wf(),
        r.layout is None,
        r.selected is None,
        r.monitors@.len() == if spec_connected_descs(descs@).len() <= MAX_MONITORS {
            spec_connected_descs(descs@).len() as int
        } else {
            MAX_MONITORS as int
        },
        forall|k: int|
            0 <= k < r.monitors@.len() ==> #[trigger] r.monitors@[k] == spec_monitor_of(
                spec_connected_descs(descs@)[k],
            ),
{
    let n = descs.len();
    let mut monitors: Vec<Monitor> = Vec::new();
    let mut i: usize = 0;
    while i < n
        invariant
            0 <= i <= n,
            n == descs@.len(),
            monitors@.len() == if spec_connected_descs(descs@.take(i as int)).len() <= MAX_MONITORS {
                spec_connected_descs(descs@.take(i as int)).len() as int
            } else {
                MAX_MONITORS as int
            },
            monitors@.len() <= MAX_MONITORS,
            forall|k: int|
                0 <= k < monitors@.len() ==> #[trigger] monitors@[k] == spec_monitor_of(
                    spec_connected_descs(descs@.take(i as int))[k],
                ),
        decreases n - i,
    {
        proof {
            assert(descs@.take(i + 1).drop_last() =~= descs@.take(i as int));
            assert(descs@.take(i + 1).last() == descs@[i as int]);
        }
        let d = &descs[i];
        if d.connected && monitors.len() < MAX_MONITORS {
            let m = match d.geometry {
                Some((w, h, x, y)) => {
                    let sw: u32 = if 1 <= w && w <= MAX_DIM {
                        w
                    } else {
                        1920
                    };
                    let sh: u32 = if 1 <= h && h <= MAX_DIM {
                        h
                    } else {
                        1080
                    };
                    let sx: i64 = if -MAX_RAW_POS <= x && x <= MAX_RAW_POS {
                        x
                    } else {
                        0
                    };
                    let sy: i64 = if -MAX_RAW_POS <= y && y <= MAX_RAW_POS {
                        y
                    } else {
                        0
                    };
                    Monitor {
                        id: d.id.clone(),
                        enabled: true,
                        resolution: (sw, sh),
                        proposed_resolution: Some((sw, sh)),
                        proposed_status: true,
                        pos_x: sx,
                        pos_y: sy,
                        init_scaled_x: sx,
                        init_scaled_y: sy,
                        placed: false,
                        being_dragged: false,
                        duplicate_of: None,
                        last_capture_ms: 0,
                    }
                },
                None => Monitor {
                    id: d.id.clone(),
                    enabled: false,
                    resolution: (1920, 1080),
                    proposed_resolution: None,
                    proposed_status: false,
                    pos_x: 0,
                    pos_y: 0,
                    init_scaled_x: 0,
                    init_scaled_y: 0,
                    placed: false,
                    being_dragged: false,
                    duplicate_of: None,
                    last_capture_ms: 0,
                },
            };
            monitors.push(m);
        }
        i = i + 1;
    }
    proof {
        assert(descs@.take(n as int) =~= descs@);
    }
    Registry { monitors, selected: None, layout: None }
}

/// Whether two runs of characters are the same text.
#[verifier::loop_isolation(false)]
pub fn str_eq(a: &str, b: &str) -> (r: bool)
    ensures
        r == (a@ == b@),
{
    let n = a.unicode_len();
    let m = b.unicode_len();
    if n != m {
        return false;
    }
    let mut i: usize = 0;
    while i < n
        invariant
            0 <= i <= n,
            n == m,
            forall|q: int| 0 <= q < i ==> a@[q] == b@[q],
        decreases n - i,
    {
        if a.get_char(i) != b.get_char(i) {
            return false;
        }
        i = i + 1;
    }
    proof {
        assert(a@ =~= b@);
    }
    true
}

/// Find the monitor for a hardware output by its identifier: the first
/// registry entry whose id matches, never a positional index, so the two
/// collections cannot desynchronize when disabled placeholders exist.
#[verifier::loop_isolation(false)]
pub fn find_monitor_by_id(reg: &Registry, id: &str) -> (r: Option<usize>)
    ensures
        match r {
            Some(i) => {
                &&& i < reg.monitors@.len()
                &&& reg.monitors@[i as int].id@ == id@
                &&& forall|k: int| 0 <= k < i ==> (#[trigger] reg.monitors@[k]).id@ != id@
            },
            None => forall|k: int|
                0 <= k < reg.monitors@.len() ==> (#[trigger] reg.monitors@[k]).id@ != id@,
        },
{
    let n = reg.monitors.len();
    let mut i: usize = 0;
    while i < n
        invariant
            0 <= i <= n,
            forall|k: int| 0 <= k < i ==> (#[trigger] reg.monitors@[k]).id@ != id@,
        decreases n - i,
    {
        if str_eq(reg.monitors[i].id.as_str(), id) {
            return Some(i);
        }
        i = i + 1;
    }
    None
}

/// An untouched, freshly reconciled registry whose outputs all carried
/// geometry reports no pending change: every monitor is enabled, proposes
/// exactly its committed state, and sits at its snapshot.
pub proof fn lemma_fresh_registry_clean(reg: Registry, descs: Seq<Descriptor>)
    requires
        reg.layout is None,
        reg.monitors@.len() <= spec_connected_descs(descs).len(),
        forall|k: int|
            0 <= k < reg.monitors@.len() ==> #[trigger] reg.monitors@[k] == spec_monitor_of(
                spec_connected_descs(descs)[k],
            ),
        forall|k: int|
            0 <= k < reg.monitors@.len() ==> (#[trigger] spec_connected_descs(
                descs,
            )[k]).geometry is Some,
    ensures
        !spec_dirty(reg),
{
    assert forall|i: int|
        0 <= i < reg.monitors@.len() implies !crate::detect::spec_monitor_dirty(reg, i) by {
        let m = reg.monitors@[i];
        assert(m == spec_monitor_of(spec_connected_descs(descs)[i]));
    }
}

} // verus!
