use monitor_layout::drag::{any_dragging, click_select, drag_update, end_drag, start_drag};
use monitor_layout::layout::layout_pass;
use monitor_layout::model::{BoundingBox, Monitor, Registry};

fn monitor(id: &str, w: u32, h: u32) -> Monitor {
    Monitor {
        id: String::from(id),
        enabled: true,
        resolution: (w, h),
        proposed_resolution: Some((w, h)),
        proposed_status: true,
        pos_x: 0,
        pos_y: 0,
        init_scaled_x: 0,
        init_scaled_y: 0,
        placed: false,
        being_dragged: false,
        duplicate_of: None,
        last_capture_ms: 0,
    }
}

fn laid_out_registry() -> Registry {
    let mut reg = Registry {
        monitors: vec![monitor("A", 1920, 1080), monitor("B", 1080, 1920)],
        selected: None,
        layout: None,
    };
    let bx = BoundingBox { min_x: 100, min_y: 100, width: 500, height: 300 };
    layout_pass(&mut reg, bx).unwrap();
    reg
}

#[test]
fn drag_off_left_edge_clamps_to_box_edge() {
    // Dragging monitor A fully off the left edge must clamp its logical x to
    // exactly box.min_x / scale_x = 100 / (2/15) = 750, never less.
    let mut reg = laid_out_registry();
    drag_update(&mut reg, 0, -50000, 0);
    let l = reg.layout.as_ref().unwrap();
    let a = &reg.monitors[0];
    // Numerator form: pos_x == min_x * sden_x.
    assert_eq!(a.pos_x, 100 * l.sden_x);
    // Value form: pos_x / den_x == box.min_x / scale_x, exactly.
    let logical = a.pos_x as f64 / l.den_x as f64;
    let expected = 100.0 / (l.scale_x_num as f64 / l.scale_x_den as f64);
    assert!((logical - expected).abs() < 1e-9);
    assert!((logical - 750.0).abs() < 1e-9);
}

#[test]
fn drag_off_right_edge_clamps_to_box_edge() {
    let mut reg = laid_out_registry();
    drag_update(&mut reg, 0, 50000, 0);
    let l = reg.layout.as_ref().unwrap();
    let a = &reg.monitors[0];
    // pos_x == max_x * sden_x - width * den_x.
    assert_eq!(a.pos_x, 600 * l.sden_x - 1920 * l.den_x);
    // The scaled right edge sits exactly on the box edge.
    let right = a.pos_x as f64 / l.sden_x as f64
        + 1920.0 * l.scale_x_num as f64 / l.scale_x_den as f64;
    assert!((right - 600.0).abs() < 1e-9);
}

#[test]
fn small_drag_moves_by_delta_over_scale() {
    let mut reg = laid_out_registry();
    let before = reg.monitors[0].pos_x;
    drag_update(&mut reg, 0, 30, -10);
    let l = reg.layout.as_ref().unwrap();
    let a = &reg.monitors[0];
    // An in-box drag adds exactly delta / scale in logical units:
    // numerators grow by delta * sden.
    assert_eq!(a.pos_x, before + 30 * l.sden_x);
    // The snapshot is untouched by drags.
    assert_eq!(a.init_scaled_x, l.net_zero_x);
    // The other monitor is untouched.
    assert_eq!(reg.monitors[1].pos_x, 10_500_000);
}

#[test]
fn drag_flags_are_mutually_exclusive() {
    let mut reg = laid_out_registry();
    assert!(!any_dragging(&reg));
    start_drag(&mut reg, 0);
    assert!(reg.monitors[0].being_dragged);
    assert!(any_dragging(&reg));
    start_drag(&mut reg, 1);
    assert!(!reg.monitors[0].being_dragged);
    assert!(reg.monitors[1].being_dragged);
    end_drag(&mut reg, 1);
    assert!(!any_dragging(&reg));
}

#[test]
fn click_selects_exactly_one_monitor() {
    let mut reg = laid_out_registry();
    assert_eq!(reg.selected, None);
    click_select(&mut reg, 1);
    assert_eq!(reg.selected, Some(1));
    click_select(&mut reg, 0);
    assert_eq!(reg.selected, Some(0));
}
