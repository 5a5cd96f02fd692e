use petruterm_shell::grid::{in_selection, shaping_runs, GridPoint, GridText, SelRange};

fn p(line: i32, column: usize) -> GridPoint {
    GridPoint { line, column }
}

#[test]
fn cells_fill_skipped_columns_with_blanks() {
    let mut g: GridText<u8> = GridText::new(2);
    g.place(0, 0, 'a', 0, 1);
    g.place(0, 3, 'b', 0, 2);
    g.place(1, 1, 'c', 9, 3);
    assert_eq!(g.row_string(0), "a  b");
    assert_eq!(g.cells[0], vec![1, 0, 0, 2]);
    assert_eq!(g.row_string(1), " c");
    assert_eq!(g.cells[1], vec![9, 3]);
}

#[test]
fn a_cell_left_of_the_row_end_is_appended() {
    let mut g: GridText<u8> = GridText::new(1);
    g.place(0, 4, 'x', 0, 1);
    g.place(0, 2, 'y', 0, 2);
    assert_eq!(g.row_string(0), "    xy");
}

#[test]
fn linear_selection_spans_lines_in_reading_order() {
    let r = Some(SelRange { start: p(-1, 5), end: p(1, 2), is_block: false });
    assert!(in_selection(r, p(-1, 5)));
    assert!(in_selection(r, p(0, 0)));
    assert!(in_selection(r, p(0, 99)));
    assert!(in_selection(r, p(1, 2)));
    assert!(!in_selection(r, p(-1, 4)));
    assert!(!in_selection(r, p(1, 3)));
    assert!(!in_selection(None, p(0, 0)));
}

#[test]
fn block_selection_is_a_rectangle() {
    let r = Some(SelRange { start: p(0, 2), end: p(3, 4), is_block: true });
    assert!(in_selection(r, p(1, 3)));
    assert!(!in_selection(r, p(1, 5)));
    assert!(!in_selection(r, p(4, 3)));
}

#[test]
fn runs_split_only_on_style_changes() {
    let rows = vec![vec!['a', 'b', 'c'], vec!['d', 'e']];
    let plain = (false, false);
    let bold = (true, false);
    let keys = vec![vec![plain, bold, bold], vec![bold, plain]];
    let runs = shaping_runs(&rows, &keys, 2);
    assert_eq!(
        runs,
        vec![
            ("a".to_string(), plain),
            ("bc\nd".to_string(), bold),
            ("e".to_string(), plain),
        ]
    );
}

#[test]
fn last_row_gets_no_break_and_missing_keys_are_plain() {
    let rows = vec![vec!['x'], vec!['y', 'z']];
    let keys = vec![vec![(false, true)], vec![]];
    let runs = shaping_runs(&rows, &keys, 2);
    assert_eq!(runs, vec![("x\n".to_string(), (false, true)), ("yz".to_string(), (false, false))]);
}

#[test]
fn empty_grid_is_one_plain_run() {
    let rows: Vec<Vec<char>> = vec![vec![], vec![]];
    let keys = vec![vec![], vec![]];
    assert_eq!(shaping_runs(&rows, &keys, 2), vec![("\n".to_string(), (false, false))]);
}

const FG: u32 = 0xffffff;
const BG: u32 = 0x1e1e2e;

#[test]
fn plain_cell_colors_stay_unswapped() {
    assert_eq!(petruterm_shell::grid::resolve_cell_colors(FG, BG, false, false), (FG, BG));
}

#[test]
fn inverse_video_swaps_cell_colors() {
    assert_eq!(petruterm_shell::grid::resolve_cell_colors(FG, BG, true, false), (BG, FG));
}

#[test]
fn selection_swaps_cell_colors() {
    assert_eq!(petruterm_shell::grid::resolve_cell_colors(FG, BG, false, true), (BG, FG));
}

#[test]
fn inverse_and_selection_cancel_out() {
    assert_eq!(petruterm_shell::grid::resolve_cell_colors(FG, BG, true, true), (FG, BG));
}

const SCHEME_FOREGROUND: [f32; 4] = [1.0, 1.0, 1.0, 1.0];
const SCHEME_BACKGROUND: [f32; 4] = [0.0, 0.0, 0.0, 1.0];
const SCHEME_RED: [f32; 4] = [0.8, 0.0, 0.0, 1.0];

#[test]
fn plain_cell_resolves_fg_bg_unswapped() {
    let (fg, bg) = petruterm_shell::grid::resolve_cell_colors(SCHEME_FOREGROUND, SCHEME_BACKGROUND, false, false);
    assert_eq!(fg, SCHEME_FOREGROUND);
    assert_eq!(bg, SCHEME_BACKGROUND);
}

#[test]
fn inverse_flag_swaps_fg_bg() {
    let (fg, bg) = petruterm_shell::grid::resolve_cell_colors(SCHEME_FOREGROUND, SCHEME_BACKGROUND, true, false);
    assert_eq!(fg, SCHEME_BACKGROUND);
    assert_eq!(bg, SCHEME_FOREGROUND);
}

#[test]
fn selection_swaps_fg_bg_after_inverse() {
    let (fg, bg) = petruterm_shell::grid::resolve_cell_colors(SCHEME_RED, SCHEME_BACKGROUND, false, true);
    assert_eq!(fg, SCHEME_BACKGROUND);
    assert_eq!(bg, SCHEME_RED);
}

#[test]
fn inverse_and_selection_compose() {
    let (fg, bg) = petruterm_shell::grid::resolve_cell_colors(SCHEME_RED, SCHEME_BACKGROUND, true, true);
    assert_eq!(fg, SCHEME_RED);
    assert_eq!(bg, SCHEME_BACKGROUND);
}
