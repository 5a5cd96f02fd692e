use petruterm_shell::panes::{FocusDir, PaneForest, PaneTree, SplitDir, RATIO_HALF, RATIO_MAX, RATIO_MIN, RESIZE_STEP};

fn root_node_id(forest: &PaneForest) -> u32 {
    match &forest.root {
        PaneTree::Split { node_id, .. } => *node_id,
        PaneTree::Leaf { .. } => panic!("root is not a split"),
    }
}

fn root_ratio(forest: &PaneForest) -> u32 {
    match &forest.root {
        PaneTree::Split { ratio, .. } => *ratio,
        PaneTree::Leaf { .. } => panic!("root is not a split"),
    }
}

#[test]
fn split_replaces_focused_leaf_with_a_split_node() {
    let mut forest = PaneForest::new(1);
    forest.split(SplitDir::Horizontal, 2);
    assert_eq!(forest.focused_terminal, 2);
    let mut ids = forest.root.leaf_ids();
    ids.sort();
    assert_eq!(ids, vec![1, 2]);
    assert_eq!(forest.root.leaf_count(), 2);
}

#[test]
fn close_focused_promotes_the_sibling() {
    let mut forest = PaneForest::new(1);
    forest.split(SplitDir::Horizontal, 2);
    let closed = forest.close_focused();
    assert_eq!(closed, Some(2));
    assert_eq!(forest.root.leaf_ids(), vec![1]);
    assert_eq!(forest.focused_terminal, 1);
}

#[test]
fn close_focused_refuses_to_close_the_last_pane() {
    let mut forest = PaneForest::new(1);
    assert_eq!(forest.close_focused(), None);
    assert_eq!(forest.root.leaf_ids(), vec![1]);
}

#[test]
fn close_specific_moves_focus_off_the_closed_pane() {
    let mut forest = PaneForest::new(1);
    forest.split(SplitDir::Horizontal, 2);
    forest.split(SplitDir::Vertical, 3);
    assert!(forest.close_specific(2));
    let mut ids = forest.root.leaf_ids();
    ids.sort();
    assert_eq!(ids, vec![1, 3]);
}

#[test]
fn nested_split_produces_three_leaves() {
    let mut forest = PaneForest::new(1);
    forest.split(SplitDir::Horizontal, 2);
    forest.split(SplitDir::Vertical, 3);
    assert_eq!(forest.root.leaf_count(), 3);
}

#[test]
fn split_keeps_leaf_order_and_starts_at_half() {
    let mut forest = PaneForest::new(1);
    forest.split(SplitDir::Horizontal, 2);
    assert_eq!(forest.root.leaf_ids(), vec![1, 2]);
    assert_eq!(root_ratio(&forest), RATIO_HALF);
    forest.focused_terminal = 1;
    forest.split(SplitDir::Vertical, 3);
    assert_eq!(forest.root.leaf_ids(), vec![1, 3, 2]);
}

#[test]
fn close_specific_of_an_unknown_or_last_pane_is_refused() {
    let mut forest = PaneForest::new(1);
    assert!(!forest.close_specific(1));
    forest.split(SplitDir::Horizontal, 2);
    assert!(!forest.close_specific(9));
    assert_eq!(forest.root.leaf_ids(), vec![1, 2]);
}

/// A 900x565 split container at (0, 36): pointer x = 225, 675, -50 and
/// 5000 lie at 2500, 7500, -555 and 55555 ten-thousandths across it.
#[test]
fn drag_separator_tracks_the_pointer_across_the_whole_split() {
    let mut forest = PaneForest::new(1);
    forest.split(SplitDir::Horizontal, 2);
    let node_id = root_node_id(&forest);
    forest.drag_separator(node_id, 2500, 4000);
    assert_eq!(root_ratio(&forest), 2500);
    forest.drag_separator(node_id, 7500, 4000);
    assert_eq!(root_ratio(&forest), 7500);
    forest.drag_separator(node_id, -555, 4000);
    assert_eq!(root_ratio(&forest), RATIO_MIN);
    forest.drag_separator(node_id, 55555, 4000);
    assert_eq!(root_ratio(&forest), RATIO_MAX);
}

/// y = 36 + 565/4 is a quarter of the way down the same container.
#[test]
fn vertical_drag_uses_the_y_axis_and_the_container_origin() {
    let mut forest = PaneForest::new(1);
    forest.split(SplitDir::Vertical, 2);
    let node_id = root_node_id(&forest);
    forest.drag_separator(node_id, 7000, 2500);
    assert_eq!(root_ratio(&forest), 2500);
}

#[test]
fn drag_separator_of_an_unknown_split_is_a_no_op() {
    let mut forest = PaneForest::new(1);
    forest.split(SplitDir::Horizontal, 2);
    let node_id = root_node_id(&forest);
    forest.drag_separator(node_id + 100, 2500, 2500);
    assert_eq!(root_ratio(&forest), RATIO_HALF);
}

#[test]
fn keyboard_resize_moves_the_enclosing_split_of_the_axis() {
    let mut forest = PaneForest::new(1);
    forest.split(SplitDir::Horizontal, 2);
    forest.adjust_ratio(FocusDir::Right, RESIZE_STEP);
    assert_eq!(root_ratio(&forest), RATIO_HALF + RESIZE_STEP);
    forest.adjust_ratio(FocusDir::Left, RESIZE_STEP);
    forest.adjust_ratio(FocusDir::Left, RESIZE_STEP);
    assert_eq!(root_ratio(&forest), RATIO_HALF - RESIZE_STEP);
    // A vertical resize finds no vertical split above the pane.
    forest.adjust_ratio(FocusDir::Up, RESIZE_STEP);
    assert_eq!(root_ratio(&forest), RATIO_HALF - RESIZE_STEP);
    for _ in 0..20 {
        forest.adjust_ratio(FocusDir::Left, RESIZE_STEP);
    }
    assert_eq!(root_ratio(&forest), RATIO_MIN);
}

#[test]
fn split_node_ids_are_distinct() {
    let mut forest = PaneForest::new(1);
    forest.split(SplitDir::Horizontal, 2);
    let first = root_node_id(&forest);
    forest.split(SplitDir::Vertical, 3);
    match &forest.root {
        PaneTree::Split { right, .. } => match right.as_ref() {
            PaneTree::Split { node_id, .. } => assert_ne!(*node_id, first),
            PaneTree::Leaf { .. } => panic!("expected a nested split"),
        },
        PaneTree::Leaf { .. } => panic!("root is not a split"),
    }
}
