use petruterm_shell::search::{build_search_index, can_refine_search, scroll_to_match, search_highlight_at, SearchMatch};

fn m(grid_line: i32, col: usize, len: usize) -> SearchMatch {
    SearchMatch { grid_line, col, len }
}

#[test]
fn no_search_highlights_nothing() {
    let idx = build_search_index(None);
    assert_eq!(search_highlight_at(0, 0, &idx), None);
}

#[test]
fn cells_inside_a_match_are_highlighted_and_the_current_one_marked() {
    let matches = vec![m(-3, 2, 4), m(5, 0, 3), m(5, 10, 2)];
    let idx = build_search_index(Some((&matches, 2)));
    assert_eq!(search_highlight_at(-3, 2, &idx), Some(false));
    assert_eq!(search_highlight_at(-3, 5, &idx), Some(false));
    assert_eq!(search_highlight_at(-3, 6, &idx), None);
    assert_eq!(search_highlight_at(-3, 1, &idx), None);
    assert_eq!(search_highlight_at(5, 1, &idx), Some(false));
    assert_eq!(search_highlight_at(5, 11, &idx), Some(true));
    assert_eq!(search_highlight_at(5, 12, &idx), None);
    assert_eq!(search_highlight_at(4, 1, &idx), None);
}

#[test]
fn overlapping_matches_take_the_first() {
    let matches = vec![m(1, 0, 5), m(1, 2, 5)];
    let idx = build_search_index(Some((&matches, 1)));
    assert_eq!(search_highlight_at(1, 3, &idx), Some(false));
    assert_eq!(search_highlight_at(1, 6, &idx), Some(true));
}

#[test]
fn an_empty_match_highlights_nothing() {
    let matches = vec![m(0, 4, 0)];
    let idx = build_search_index(Some((&matches, 0)));
    assert_eq!(search_highlight_at(0, 4, &idx), None);
}

#[test]
fn refining_needs_a_complete_match_list_and_an_extended_query() {
    assert!(can_refine_search(true, false, "foob", "foo"));
    assert!(can_refine_search(true, false, "foo", "foo"));
    assert!(!can_refine_search(false, false, "foob", "foo"));
    assert!(!can_refine_search(true, true, "foob", "foo"));
    assert!(!can_refine_search(true, false, "fob", "foo"));
    assert!(!can_refine_search(true, false, "fo", "foo"));
    assert!(!can_refine_search(true, false, "foo", ""));
}

#[test]
fn scrolling_centers_the_match() {
    // 24 rows: a match on buffer line -30 is centered 42 lines back.
    assert_eq!(scroll_to_match(0, 24, -30), 42);
    assert_eq!(scroll_to_match(50, 24, -30), -8);
    // A match already low on the live screen needs the live bottom.
    assert_eq!(scroll_to_match(10, 24, 20), -10);
}
