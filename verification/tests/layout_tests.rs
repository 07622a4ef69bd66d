use monitor_layout::layout::{layout_pass, LayoutError};
use monitor_layout::model::{BoundingBox, Monitor, Registry};

fn monitor(id: &str, enabled: bool, w: u32, h: u32, x: i64, y: i64) -> Monitor {
    Monitor {
        id: String::from(id),
        enabled,
        resolution: (w, h),
        proposed_resolution: Some((w, h)),
        proposed_status: enabled,
        pos_x: x,
        pos_y: y,
        init_scaled_x: x,
        init_scaled_y: y,
        placed: false,
        being_dragged: false,
        duplicate_of: None,
        last_capture_ms: 0,
    }
}

fn demo_box() -> BoundingBox {
    BoundingBox { min_x: 100, min_y: 100, width: 500, height: 300 }
}

fn two_monitor_registry() -> Registry {
    Registry {
        monitors: vec![
            monitor("A", true, 1920, 1080, 0, 0),
            monitor("B", true, 1080, 1920, 0, 0),
        ],
        selected: None,
        layout: None,
    }
}

#[test]
fn empty_registry_is_rejected() {
    let mut reg = Registry { monitors: vec![], selected: None, layout: None };
    let r = layout_pass(&mut reg, demo_box());
    assert_eq!(r, Err(LayoutError::EmptyRegistry));
}

#[test]
fn two_monitor_layout_scale_factors() {
    // Box (100,100)-(600,400), total width 3000, total height 3000:
    // scale_x = (500/3000)*0.8, scale_y = (300/3000)*0.8, exactly.
    let mut reg = two_monitor_registry();
    layout_pass(&mut reg, demo_box()).unwrap();
    let l = reg.layout.as_ref().unwrap();
    assert_eq!(l.scale_x_num, 2000);
    assert_eq!(l.scale_x_den, 15000);
    assert_eq!(l.scale_y_num, 1200);
    assert_eq!(l.scale_y_den, 15000);
    let sx = l.scale_x_num as f64 / l.scale_x_den as f64;
    let sy = l.scale_y_num as f64 / l.scale_y_den as f64;
    assert!((sx - (500.0 / 3000.0) * 0.8).abs() < 1e-12);
    assert!((sy - (300.0 / 3000.0) * 0.8).abs() < 1e-12);
    // Scale factors are positive and the scaled footprint is at most 80% of
    // the box along each axis (here exactly 80%).
    assert!(sx > 0.0 && sy > 0.0);
    assert!((3000.0 * sx - 0.8 * 500.0).abs() < 1e-9);
    assert!((3000.0 * sy - 0.8 * 300.0).abs() < 1e-9);
}

#[test]
fn two_monitor_layout_positions() {
    let mut reg = two_monitor_registry();
    layout_pass(&mut reg, demo_box()).unwrap();
    let l = *reg.layout.as_ref().unwrap();
    // den_x = 2 * 2000, sden_x = 2 * 15000, den_y = 2 * 1200, sden_y = 2 * 15000.
    assert_eq!(l.den_x, 4000);
    assert_eq!(l.sden_x, 30000);
    assert_eq!(l.den_y, 2400);
    assert_eq!(l.sden_y, 30000);
    let a = &reg.monitors[0];
    let b = &reg.monitors[1];
    // First monitor's logical x: (500/sx - 3000)/2 + 100/sx = 1125.
    assert_eq!(a.pos_x, 4_500_000);
    assert!((a.pos_x as f64 / l.den_x as f64 - 1125.0).abs() < 1e-9);
    // First monitor's y is vertically centered: scaled y = 250 - 86.4/2 = 206.8.
    assert_eq!(a.pos_y, 6_204_000);
    assert!((a.pos_y as f64 / l.sden_y as f64 - 206.8).abs() < 1e-9);
    // B's x equals A's x plus the uniform slot width 3000/2 = 1500.
    assert_eq!(b.pos_x, 10_500_000);
    let slot_logical = (b.pos_x - a.pos_x) as f64 / l.den_x as f64;
    assert!((slot_logical - 1500.0).abs() < 1e-9);
    // Both share the first monitor's y.
    assert_eq!(b.pos_y, a.pos_y);
    // The anchor records the first monitor's original coordinates.
    assert_eq!(l.net_zero_x, a.pos_x);
    assert_eq!(l.net_zero_y, a.pos_y);
    // Snapshots coincide with the position numerators at placement.
    assert_eq!(a.init_scaled_x, a.pos_x);
    assert_eq!(b.init_scaled_y, b.pos_y);
    assert!(a.placed && b.placed);
}

fn assert_contained(reg: &Registry) {
    let l = reg.layout.as_ref().unwrap();
    for m in &reg.monitors {
        let left = m.pos_x as f64 / l.sden_x as f64;
        let top = m.pos_y as f64 / l.sden_y as f64;
        let width = m.resolution.0 as f64 * l.scale_x_num as f64 / l.scale_x_den as f64;
        let height = m.resolution.1 as f64 * l.scale_y_num as f64 / l.scale_y_den as f64;
        assert!(left >= l.bbox.min_x as f64 - 1e-9);
        assert!(top >= l.bbox.min_y as f64 - 1e-9);
        assert!(left + width <= (l.bbox.min_x + l.bbox.width) as f64 + 1e-9);
        assert!(top + height <= (l.bbox.min_y + l.bbox.height) as f64 + 1e-9);
    }
}

#[test]
fn layout_pass_contains_every_monitor() {
    // A tall monitor must be clamped vertically, and the disabled monitor,
    // placed one slot right of the rightmost enabled one, must be clamped
    // horizontally; afterwards all four edge checks pass for every monitor.
    let mut reg = Registry {
        monitors: vec![
            monitor("A", true, 1920, 200, 0, 0),
            monitor("B", true, 1920, 4000, 0, 0),
            monitor("C", false, 1920, 1080, 0, 0),
        ],
        selected: None,
        layout: None,
    };
    layout_pass(&mut reg, demo_box()).unwrap();
    assert_contained(&reg);
    assert!(!reg.monitors[2].enabled && reg.monitors[2].placed);
}

#[test]
fn second_layout_pass_changes_nothing() {
    let mut reg = two_monitor_registry();
    layout_pass(&mut reg, demo_box()).unwrap();
    let before: Vec<(i64, i64)> = reg.monitors.iter().map(|m| (m.pos_x, m.pos_y)).collect();
    layout_pass(&mut reg, demo_box()).unwrap();
    let after: Vec<(i64, i64)> = reg.monitors.iter().map(|m| (m.pos_x, m.pos_y)).collect();
    assert_eq!(before, after);
}
