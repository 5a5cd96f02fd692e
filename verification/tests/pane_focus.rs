use std::collections::HashMap;
use petruterm_shell::panes::{FocusDir, PaneForest, SplitDir};

/// Three panes: 1 on the left half, 2 top right, 3 bottom right.
fn three_panes() -> (PaneForest, HashMap<usize, (i32, i32)>) {
    let mut forest = PaneForest::new(1);
    forest.split(SplitDir::Horizontal, 2);
    forest.split(SplitDir::Vertical, 3);
    let mut centers = HashMap::new();
    centers.insert(1, (225, 300));
    centers.insert(2, (675, 150));
    centers.insert(3, (675, 450));
    (forest, centers)
}

#[test]
fn focus_moves_to_the_nearest_pane_in_the_direction() {
    let (mut forest, centers) = three_panes();
    assert_eq!(forest.focused_terminal, 3);
    forest.focus_dir(FocusDir::Up, &centers);
    assert_eq!(forest.focused_terminal, 2);
    forest.focus_dir(FocusDir::Left, &centers);
    assert_eq!(forest.focused_terminal, 1);
    forest.focus_dir(FocusDir::Right, &centers);
    // 2 and 3 are equally near: the first in leaf order wins.
    assert_eq!(forest.focused_terminal, 2);
}

#[test]
fn no_pane_in_the_direction_keeps_focus() {
    let (mut forest, centers) = three_panes();
    forest.focus_dir(FocusDir::Right, &centers);
    assert_eq!(forest.focused_terminal, 3);
    forest.focus_dir(FocusDir::Down, &centers);
    assert_eq!(forest.focused_terminal, 3);
}

#[test]
fn unpainted_focused_pane_keeps_focus() {
    let (mut forest, mut centers) = three_panes();
    centers.remove(&3);
    forest.focus_dir(FocusDir::Up, &centers);
    assert_eq!(forest.focused_terminal, 3);
}
