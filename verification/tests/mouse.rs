use petruterm_shell::mouse::{format_mouse_report, scrollbar_thumb_geometry, selection_type_for_clicks, viewport_row, SelectionKind};

#[test]
fn mouse_sgr_press_format() {
    let bytes = format_mouse_report(0, 4, 9, true, true).unwrap();
    assert_eq!(bytes, b"\x1b[<0;5;10M");
}

#[test]
fn mouse_sgr_release_format() {
    let bytes = format_mouse_report(0, 4, 9, false, true).unwrap();
    assert_eq!(bytes, b"\x1b[<0;5;10m");
}

#[test]
fn mouse_legacy_x10_press_format() {
    let bytes = format_mouse_report(0, 4, 9, true, false).unwrap();
    assert_eq!(bytes, &[0x1b, b'[', b'M', 32, 5 + 32, 10 + 32]);
}

#[test]
fn mouse_legacy_x10_release_sends_nothing() {
    assert_eq!(format_mouse_report(0, 4, 9, false, false), None);
}

#[test]
fn mod_sgr_press_format() {
    let bytes = format_mouse_report(0, 4, 9, true, true).unwrap();
    assert_eq!(bytes, b"\x1b[<0;5;10M");
}

#[test]
fn mod_sgr_release_format() {
    let bytes = format_mouse_report(0, 4, 9, false, true).unwrap();
    assert_eq!(bytes, b"\x1b[<0;5;10m");
}

#[test]
fn mod_legacy_x10_press_format() {
    let bytes = format_mouse_report(0, 4, 9, true, false).unwrap();
    assert_eq!(bytes, &[0x1b, b'[', b'M', 32, 5 + 32, 10 + 32]);
}

#[test]
fn mod_legacy_x10_release_sends_nothing() {
    assert_eq!(format_mouse_report(0, 4, 9, false, false), None);
}

#[test]
fn mouse_no_scrollback_thumb_fills_track() {
    let (start, rows) = scrollbar_thumb_geometry(24, 0, 0);
    assert_eq!((start, rows), (0, 24));
}

#[test]
fn mouse_at_bottom_thumb_sits_at_bottom() {
    let (start, rows) = scrollbar_thumb_geometry(24, 100, 0);
    assert!(rows < 24);
    assert_eq!(start + rows, 24);
}

#[test]
fn mouse_at_top_thumb_sits_at_top() {
    let (start, _rows) = scrollbar_thumb_geometry(24, 100, 100);
    assert_eq!(start, 0);
}

#[test]
fn mouse_click_count_maps_to_selection_type() {
    assert_eq!(selection_type_for_clicks(1), SelectionKind::Simple);
    assert_eq!(selection_type_for_clicks(2), SelectionKind::Semantic);
    assert_eq!(selection_type_for_clicks(3), SelectionKind::Lines);
}

#[test]
fn geometry_no_scrollback_thumb_fills_track() {
    let (start, rows) = scrollbar_thumb_geometry(24, 0, 0);
    assert_eq!((start, rows), (0, 24));
}

#[test]
fn geometry_at_bottom_thumb_sits_at_bottom() {
    let (start, rows) = scrollbar_thumb_geometry(24, 100, 0);
    assert!(rows < 24);
    assert_eq!(start + rows, 24);
}

#[test]
fn geometry_at_top_thumb_sits_at_top() {
    let (start, _rows) = scrollbar_thumb_geometry(24, 100, 100);
    assert_eq!(start, 0);
}

#[test]
fn geometry_click_count_maps_to_selection_type() {
    assert_eq!(selection_type_for_clicks(1), SelectionKind::Simple);
    assert_eq!(selection_type_for_clicks(2), SelectionKind::Semantic);
    assert_eq!(selection_type_for_clicks(3), SelectionKind::Lines);
}

#[test]
fn rasterize_viewport_row_maps_buffer_range_onto_full_viewport_with_no_gaps() {
    let display_offset = 10;
    let mapped: Vec<usize> = (-10..=13).map(|line| viewport_row(line, display_offset).unwrap()).collect();
    let expected: Vec<usize> = (0..24).collect();
    assert_eq!(mapped, expected);
}

#[test]
fn rasterize_viewport_row_is_identity_when_not_scrolled() {
    for line in 0..24 {
        assert_eq!(viewport_row(line, 0), Some(line as usize));
    }
}

#[test]
fn rasterize_viewport_row_none_above_the_viewport() {
    assert_eq!(viewport_row(-11, 10), None);
}

#[test]
fn colors_viewport_row_maps_buffer_range_onto_full_viewport_with_no_gaps() {
    let display_offset = 10;
    let mapped: Vec<usize> = (-10..=13).map(|line| viewport_row(line, display_offset).unwrap()).collect();
    let expected: Vec<usize> = (0..24).collect();
    assert_eq!(mapped, expected);
}

#[test]
fn colors_viewport_row_is_identity_when_not_scrolled() {
    for line in 0..24 {
        assert_eq!(viewport_row(line, 0), Some(line as usize));
    }
}

#[test]
fn colors_viewport_row_none_above_the_viewport() {
    assert_eq!(viewport_row(-11, 10), None);
}

#[test]
fn sgr_reports_wide_coordinates_in_decimal() {
    let bytes = format_mouse_report(65, 299, 1234, true, true).unwrap();
    assert_eq!(bytes, b"\x1b[<65;300;1235M");
}

#[test]
fn x10_coordinates_wrap_at_256_then_saturate() {
    // Column 300 is 301 one-based, 45 after wrapping; row 230 is 231, which
    // saturates at 255 once 32 is added.
    let bytes = format_mouse_report(250, 300, 230, true, false).unwrap();
    assert_eq!(bytes, vec![0x1b, b'[', b'M', 255, 45 + 32, 255]);
}

#[test]
fn thumb_geometry_rounds_to_the_nearest_row() {
    // 24 rows of 124 lines visible: 24 * 24 / 124 = 4.65 -> 5 rows.
    assert_eq!(scrollbar_thumb_geometry(24, 100, 0), (19, 5));
    // Halfway back: (100 - 50) * 19 / 100 = 9.5 -> 10.
    assert_eq!(scrollbar_thumb_geometry(24, 100, 50), (10, 5));
    // A huge history still leaves a one-row thumb.
    assert_eq!(scrollbar_thumb_geometry(10, 100_000, 0), (9, 1));
    // Scrolled past the top of history: the thumb stays at the top.
    assert_eq!(scrollbar_thumb_geometry(24, 100, 500), (0, 5));
}

#[test]
fn other_click_counts_select_cells() {
    assert_eq!(selection_type_for_clicks(0), SelectionKind::Simple);
    assert_eq!(selection_type_for_clicks(4), SelectionKind::Simple);
}
