use monitor_layout::command::{render_command, synthesize_command, CommandClause};
use monitor_layout::detect::has_pending_change;
use monitor_layout::drag::drag_update;
use monitor_layout::layout::layout_pass;
use monitor_layout::model::{BoundingBox, Registry};
use monitor_layout::parse::parse_status_output;
use monitor_layout::preview::{
    mark_preview_refreshed, should_refresh_preview, DEFAULT_CAPTURE_INTERVAL_MS,
};
use monitor_layout::reconcile::{find_monitor_by_id, registry_from_descriptors};
use monitor_layout::settings::{apply_resolution_text, set_proposed_status};

fn fresh_two_monitor_registry() -> Registry {
    let text = "A connected 1920x1080+0+0 (normal left)\n\
                B connected 1080x1920+1920+0 (normal left)\n";
    let descs = parse_status_output(text);
    registry_from_descriptors(&descs)
}

#[test]
fn placeholder_from_geometryless_descriptor() {
    // A descriptor reporting "connected" with no resolution/position text
    // yields a disabled placeholder at the default resolution.
    let descs = parse_status_output("DP-3 connected (normal left inverted)\n");
    let reg = registry_from_descriptors(&descs);
    assert_eq!(reg.monitors.len(), 1);
    let m = &reg.monitors[0];
    assert_eq!(m.id, "DP-3");
    assert!(!m.enabled);
    assert!(!m.proposed_status);
    assert_eq!(m.resolution, (1920, 1080));
    assert_eq!(m.proposed_resolution, None);
    assert_eq!((m.pos_x, m.pos_y), (0, 0));
}

#[test]
fn fresh_registry_is_clean() {
    // An untouched, freshly reconciled registry reports no pending change.
    let reg = fresh_two_monitor_registry();
    assert!(!has_pending_change(&reg));
}

#[test]
fn laid_out_untouched_registry_is_clean() {
    // Laying the registry out places every monitor and records the snapshot
    // there, so an untouched registry stays clean after the pass.
    let mut reg = fresh_two_monitor_registry();
    let bx = BoundingBox { min_x: 100, min_y: 100, width: 500, height: 300 };
    layout_pass(&mut reg, bx).unwrap();
    assert!(!has_pending_change(&reg));
}

#[test]
fn laid_out_unchanged_command_restates_committed_state() {
    // With no pending change after the layout pass, synthesis passes the raw
    // logical positions through: no anchor arithmetic fires.
    let mut reg = fresh_two_monitor_registry();
    let bx = BoundingBox { min_x: 100, min_y: 100, width: 500, height: 300 };
    layout_pass(&mut reg, bx).unwrap();
    assert!(!has_pending_change(&reg));
    let l = *reg.layout.as_ref().unwrap();
    let expect: Vec<(u64, i64)> = reg
        .monitors
        .iter()
        .map(|m| ((m.pos_x / l.den_x).unsigned_abs(), m.pos_y / l.den_y))
        .collect();
    let cmd = synthesize_command(&mut reg);
    match &cmd.clauses[0] {
        CommandClause::Enable { id, width, height, pos_x, pos_y } => {
            assert_eq!(id, "A");
            assert_eq!((*width, *height), (1920, 1080));
            assert_eq!((*pos_x, *pos_y), expect[0]);
            assert_eq!((*pos_x, *pos_y), (1125, 2585));
        }
        _ => panic!("first clause must enable"),
    }
    match &cmd.clauses[1] {
        CommandClause::Enable { id, width, height, pos_x, pos_y } => {
            assert_eq!(id, "B");
            assert_eq!((*width, *height), (1080, 1920));
            assert_eq!((*pos_x, *pos_y), expect[1]);
            assert_eq!((*pos_x, *pos_y), (2625, 2585));
        }
        _ => panic!("second clause must enable"),
    }
    let text = render_command(&cmd);
    assert_eq!(
        text,
        "xrandr --output A --mode 1920x1080 --pos 1125x2585 --output B --mode 1080x1920 --pos 2625x2585"
    );
}

#[test]
fn placeholder_makes_registry_dirty() {
    let descs = parse_status_output("DP-3 connected (normal)\n");
    let reg = registry_from_descriptors(&descs);
    assert!(has_pending_change(&reg));
}

#[test]
fn edits_make_registry_dirty() {
    let mut reg = fresh_two_monitor_registry();
    set_proposed_status(&mut reg, 1, false);
    assert!(has_pending_change(&reg));

    let mut reg = fresh_two_monitor_registry();
    apply_resolution_text(&mut reg, 0, "1280x720");
    assert!(has_pending_change(&reg));

    // A drag moves the position away from its snapshot.
    let mut reg = fresh_two_monitor_registry();
    let bx = BoundingBox { min_x: 100, min_y: 100, width: 500, height: 300 };
    layout_pass(&mut reg, bx).unwrap();
    drag_update(&mut reg, 0, 25, 0);
    assert!(has_pending_change(&reg));
}

#[test]
fn malformed_resolution_edit_is_ignored() {
    let mut reg = fresh_two_monitor_registry();
    apply_resolution_text(&mut reg, 0, "1280x720");
    assert_eq!(reg.monitors[0].proposed_resolution, Some((1280, 720)));
    apply_resolution_text(&mut reg, 0, "garbage");
    assert_eq!(reg.monitors[0].proposed_resolution, Some((1280, 720)));
}

#[test]
fn unchanged_two_monitor_command_restates_committed_state() {
    // With both monitors enabled and proposed == committed, the apply action
    // is not offered, and the synthesized clauses restate the committed
    // modes and positions exactly.
    let mut reg = fresh_two_monitor_registry();
    assert!(!has_pending_change(&reg));
    let cmd = synthesize_command(&mut reg);
    assert_eq!(cmd.clauses.len(), 2);
    match &cmd.clauses[0] {
        CommandClause::Enable { id, width, height, pos_x, pos_y } => {
            assert_eq!(id, "A");
            assert_eq!((*width, *height), (1920, 1080));
            assert_eq!((*pos_x, *pos_y), (0, 0));
        }
        _ => panic!("first clause must enable"),
    }
    match &cmd.clauses[1] {
        CommandClause::Enable { id, width, height, pos_x, pos_y } => {
            assert_eq!(id, "B");
            assert_eq!((*width, *height), (1080, 1920));
            assert_eq!((*pos_x, *pos_y), (1920, 0));
        }
        _ => panic!("second clause must enable"),
    }
    assert!(reg.monitors[0].enabled && reg.monitors[1].enabled);
    let text = render_command(&cmd);
    assert_eq!(
        text,
        "xrandr --output A --mode 1920x1080 --pos 0x0 --output B --mode 1080x1920 --pos 1920x0"
    );
}

#[test]
fn disable_clause_commits_the_proposed_status() {
    let mut reg = fresh_two_monitor_registry();
    set_proposed_status(&mut reg, 1, false);
    let cmd = synthesize_command(&mut reg);
    match &cmd.clauses[1] {
        CommandClause::Disable { id } => assert_eq!(id, "B"),
        _ => panic!("second clause must disable"),
    }
    assert!(reg.monitors[0].enabled);
    assert!(!reg.monitors[1].enabled);
    let text = render_command(&cmd);
    assert_eq!(
        text,
        "xrandr --output A --mode 1920x1080 --pos 0x0 --output B --off"
    );
}

#[test]
fn moved_monitor_command_uses_anchor_relative_position() {
    let mut reg = fresh_two_monitor_registry();
    let bx = BoundingBox { min_x: 100, min_y: 100, width: 500, height: 300 };
    layout_pass(&mut reg, bx).unwrap();
    drag_update(&mut reg, 1, -20, 8);
    let l = *reg.layout.as_ref().unwrap();
    let (bpx, bpy) = (reg.monitors[1].pos_x, reg.monitors[1].pos_y);
    let cmd = synthesize_command(&mut reg);
    match &cmd.clauses[1] {
        CommandClause::Enable { pos_x, pos_y, .. } => {
            // applied = net_zero - position, truncated toward zero; x takes
            // the absolute value, y keeps its sign.
            let expected_x = (l.net_zero_x - bpx) / l.den_x;
            let expected_y = (l.net_zero_y - bpy) / l.den_y;
            assert_eq!(*pos_x, expected_x.unsigned_abs());
            assert_eq!(*pos_y, expected_y);
        }
        _ => panic!("clause must enable"),
    }
}

#[test]
fn preview_refresh_gate() {
    let reg = fresh_two_monitor_registry();
    let m = &reg.monitors[0];
    // Interval elapsed, nobody dragging, preview present: refresh.
    assert!(should_refresh_preview(m, DEFAULT_CAPTURE_INTERVAL_MS + 1, DEFAULT_CAPTURE_INTERVAL_MS, false, true));
    // Interval not yet elapsed: no refresh.
    assert!(!should_refresh_preview(m, DEFAULT_CAPTURE_INTERVAL_MS, DEFAULT_CAPTURE_INTERVAL_MS, false, true));
    // A drag anywhere suspends the refresh.
    assert!(!should_refresh_preview(m, DEFAULT_CAPTURE_INTERVAL_MS + 1, DEFAULT_CAPTURE_INTERVAL_MS, true, true));
    // A missing preview forces one even during a drag.
    assert!(should_refresh_preview(m, 0, DEFAULT_CAPTURE_INTERVAL_MS, true, false));
}

#[test]
fn marking_a_refresh_restarts_the_interval() {
    let mut reg = fresh_two_monitor_registry();
    mark_preview_refreshed(&mut reg, 0, 9000);
    assert_eq!(reg.monitors[0].last_capture_ms, 9000);
    assert!(!should_refresh_preview(&reg.monitors[0], 9001, DEFAULT_CAPTURE_INTERVAL_MS, false, true));
    assert_eq!(reg.monitors[1].last_capture_ms, 0);
}

#[test]
fn monitors_are_found_by_identifier_not_by_index() {
    // With a disabled placeholder between two live outputs, positional
    // indices into a live-output list would desynchronize; the id-keyed
    // lookup does not.
    let text = "A connected 1920x1080+0+0\n\
                GHOST connected (normal)\n\
                B connected 1080x1920+1920+0\n";
    let descs = parse_status_output(text);
    let reg = registry_from_descriptors(&descs);
    assert_eq!(find_monitor_by_id(&reg, "A"), Some(0));
    assert_eq!(find_monitor_by_id(&reg, "GHOST"), Some(1));
    assert_eq!(find_monitor_by_id(&reg, "B"), Some(2));
    assert_eq!(find_monitor_by_id(&reg, "C"), None);
}

#[test]
fn repeated_left_drags_stay_on_the_edge() {
    let mut reg = fresh_two_monitor_registry();
    let bx = BoundingBox { min_x: 100, min_y: 100, width: 500, height: 300 };
    layout_pass(&mut reg, bx).unwrap();
    drag_update(&mut reg, 0, -60000, 0);
    let clamped = reg.monitors[0].pos_x;
    drag_update(&mut reg, 0, -60000, 0);
    assert_eq!(reg.monitors[0].pos_x, clamped);
    let l = reg.layout.as_ref().unwrap();
    assert_eq!(clamped, 100 * l.sden_x);
}

#[test]
fn default_registry_holds_the_demo_pair() {
    let reg = Registry::default();
    assert_eq!(reg.monitors.len(), 2);
    assert_eq!(reg.monitors[0].resolution, (1920, 1080));
    assert_eq!(reg.monitors[1].resolution, (1080, 1920));
    assert_eq!(reg.monitors[0].proposed_resolution, Some((1920, 1080)));
    assert_eq!((reg.monitors[0].pos_x, reg.monitors[0].pos_y), (50, 50));
    assert_eq!((reg.monitors[1].pos_x, reg.monitors[1].pos_y), (300, 50));
    assert!(reg.monitors.iter().all(|m| m.enabled && !m.proposed_status && m.id.is_empty()));
    assert_eq!(reg.selected, None);
    assert!(reg.layout.is_none());
}
