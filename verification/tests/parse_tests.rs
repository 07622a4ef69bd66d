use monitor_layout::numtext::{i64_to_dec, u64_to_dec};
use monitor_layout::parse::{parse_resolution_input, parse_status_line, parse_status_output};

#[test]
fn resolution_text_well_formed() {
    assert_eq!(parse_resolution_input("1920x1080"), Some((1920, 1080)));
    assert_eq!(parse_resolution_input("1x1"), Some((1, 1)));
    assert_eq!(parse_resolution_input("0x0"), Some((0, 0)));
    assert_eq!(parse_resolution_input("4294967295x1"), Some((u32::MAX, 1)));
}

#[test]
fn resolution_text_malformed() {
    assert_eq!(parse_resolution_input(""), None);
    assert_eq!(parse_resolution_input("1920"), None);
    assert_eq!(parse_resolution_input("x1080"), None);
    assert_eq!(parse_resolution_input("1920x"), None);
    assert_eq!(parse_resolution_input("1920x1080x2"), None);
    assert_eq!(parse_resolution_input("axb"), None);
    assert_eq!(parse_resolution_input("1920 x 1080"), None);
    // One past u32::MAX overflows and is rejected.
    assert_eq!(parse_resolution_input("4294967296x1"), None);
}

#[test]
fn status_line_with_geometry() {
    let line = "eDP-1 connected primary 1920x1080+0+0 (normal left inverted) 344mm x 194mm";
    let d = parse_status_line(line).unwrap();
    assert!(d.connected);
    assert_eq!(d.id, "eDP-1");
    assert_eq!(d.geometry, Some((1920, 1080, 0, 0)));
}

#[test]
fn status_line_with_offset_and_negative_position() {
    let d = parse_status_line("HDMI-1 connected 2560x1440+1920+0").unwrap();
    assert_eq!(d.id, "HDMI-1");
    assert_eq!(d.geometry, Some((2560, 1440, 1920, 0)));
    let d = parse_status_line("DP-2 connected 1280x1024+-1280+32").unwrap();
    assert_eq!(d.geometry, Some((1280, 1024, -1280, 32)));
}

#[test]
fn status_line_without_geometry_has_none() {
    let d = parse_status_line("HDMI-1 connected (normal left inverted right)").unwrap();
    assert_eq!(d.id, "HDMI-1");
    assert_eq!(d.geometry, None);
}

#[test]
fn disconnected_line_is_skipped() {
    assert!(parse_status_line("HDMI-2 disconnected (normal left inverted)").is_none());
    assert!(parse_status_line("Screen 0: minimum 320 x 200").is_none());
}

#[test]
fn garbled_geometry_falls_back_to_defaults() {
    // No 'x' in the '+'-bearing token: all fields default.
    let d = parse_status_line("X connected junk+").unwrap();
    assert_eq!(d.geometry, Some((1920, 1080, 0, 0)));
    // Height missing between 'x' and '+': the height alone defaults.
    let d = parse_status_line("X connected 1920x+5+7").unwrap();
    assert_eq!(d.geometry, Some((1920, 1080, 5, 7)));
    // Position fields missing: they default to the origin.
    let d = parse_status_line("X connected 800x600+3").unwrap();
    assert_eq!(d.geometry, Some((800, 600, 3, 0)));
}

#[test]
fn whole_output_keeps_connected_lines_in_order() {
    let text = "Screen 0: minimum 320 x 200, current 4480 x 1440\n\
                eDP-1 connected primary 1920x1080+0+360 (normal left) 344mm x 194mm\n\
                HDMI-1 disconnected (normal left inverted)\n\
                DP-1 connected 2560x1440+1920+0 (normal left) 597mm x 336mm\n\
                DP-2 connected (normal left inverted)\n";
    let descs = parse_status_output(text);
    assert_eq!(descs.len(), 3);
    assert_eq!(descs[0].id, "eDP-1");
    assert_eq!(descs[0].geometry, Some((1920, 1080, 0, 360)));
    assert_eq!(descs[1].id, "DP-1");
    assert_eq!(descs[1].geometry, Some((2560, 1440, 1920, 0)));
    assert_eq!(descs[2].id, "DP-2");
    assert_eq!(descs[2].geometry, None);
}

#[test]
fn decimal_formatting_is_exact() {
    assert_eq!(u64_to_dec(0), "0");
    assert_eq!(u64_to_dec(7), "7");
    assert_eq!(u64_to_dec(12345), "12345");
    assert_eq!(u64_to_dec(1080), "1080");
    assert_eq!(i64_to_dec(-42), "-42");
    assert_eq!(i64_to_dec(0), "0");
    assert_eq!(i64_to_dec(i64::MIN), "-9223372036854775808");
}
