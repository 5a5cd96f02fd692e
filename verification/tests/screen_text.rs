use petruterm_shell::screen_text::{last_lines_text, last_rows_start, row_position, row_text, rows_text};

fn cells(s: &str) -> Vec<char> {
    s.chars().collect()
}

#[test]
fn empty_cells_read_as_spaces_and_trailing_blanks_drop() {
    assert_eq!(row_text(&vec!['a', '\0', 'b', '\0', ' ']), "a b");
    assert_eq!(row_text(&cells("   ")), "");
    assert_eq!(row_text(&cells("  x")), "  x");
}

#[test]
fn rows_join_with_line_breaks() {
    let rows = vec![cells("$ ls  "), cells(""), cells("a.txt\0\0")];
    assert_eq!(rows_text(&rows), "$ ls\n\na.txt");
    assert_eq!(rows_text(&[]), "");
}

#[test]
fn last_lines_are_trimmed_at_both_ends() {
    let rows = vec![cells("    "), cells("  error: x  "), cells("   ")];
    assert_eq!(last_lines_text(&rows), "error: x");
    assert_eq!(last_rows_start(24, 5), 19);
    assert_eq!(last_rows_start(24, 50), 0);
}

#[test]
fn row_positions_account_for_scrollback() {
    assert_eq!(row_position(3, 0, 100), (3, 103));
    assert_eq!(row_position(3, 10, 100), (-7, 93));
}
