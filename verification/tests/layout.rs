use petruterm_shell::layout::{close_plan, locate_terminal, next_zoom, zoom_after_removal, zoom_in_tab, ClosePlan};
use petruterm_shell::panes::{PaneForest, SplitDir};

#[test]
fn terminals_are_found_in_their_tab() {
    let mut first = PaneForest::new(1);
    first.split(SplitDir::Horizontal, 2);
    let second = PaneForest::new(3);
    let tabs = vec![first, second];
    assert_eq!(locate_terminal(&tabs, 2), Some(0));
    assert_eq!(locate_terminal(&tabs, 3), Some(1));
    assert_eq!(locate_terminal(&tabs, 4), None);
}

#[test]
fn closing_a_last_tab_closes_the_workspace_or_quits() {
    assert_eq!(close_plan(3, 1), ClosePlan::CloseTab);
    assert_eq!(close_plan(1, 2), ClosePlan::CloseWorkspace);
    assert_eq!(close_plan(1, 1), ClosePlan::Quit);
    assert_eq!(close_plan(0, 1), ClosePlan::Quit);
}

#[test]
fn zoom_toggles_on_multi_pane_tabs_only() {
    assert_eq!(next_zoom(None, 2, 3), Some(2));
    assert_eq!(next_zoom(Some(2), 2, 3), None);
    assert_eq!(next_zoom(Some(1), 2, 3), Some(2));
    assert_eq!(next_zoom(None, 2, 1), None);
    assert_eq!(next_zoom(Some(1), 2, 1), None);
}

#[test]
fn a_removed_pane_is_no_longer_zoomed() {
    assert_eq!(zoom_after_removal(Some(4), 4), None);
    assert_eq!(zoom_after_removal(Some(4), 5), Some(4));
    assert_eq!(zoom_after_removal(None, 5), None);
}

#[test]
fn zoom_outside_the_active_tab_is_dropped() {
    let mut tab = PaneForest::new(1);
    tab.split(SplitDir::Vertical, 2);
    assert_eq!(zoom_in_tab(Some(2), &tab.root), Some(2));
    assert_eq!(zoom_in_tab(Some(7), &tab.root), None);
    assert_eq!(zoom_in_tab(None, &tab.root), None);
}
