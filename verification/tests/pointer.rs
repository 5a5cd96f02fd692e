use petruterm_shell::click_state::ClickTracker;
use petruterm_shell::mouse::SelectionKind;
use petruterm_shell::pointer::{wheel_action, DownAction, MouseMode, MoveAction, ScrollContext, UpAction, WheelAction};

fn local() -> MouseMode {
    MouseMode { report: false, sgr: false, motion: false }
}

fn sgr_reporting() -> MouseMode {
    MouseMode { report: true, sgr: true, motion: true }
}

fn no_history() -> ScrollContext {
    ScrollContext { history_size: 0, display_offset: 0, target_offset: 0 }
}

#[test]
fn plain_click_then_release_clears_the_selection() {
    let mut t = ClickTracker::new();
    match t.mouse_down(1, (3, 4), false, no_history(), local(), 1_000) {
        DownAction::Select { cell, kind } => {
            assert_eq!(cell, (3, 4));
            assert_eq!(kind, SelectionKind::Simple);
        }
        other => panic!("unexpected {:?}", other),
    }
    assert!(matches!(t.mouse_up(1, (3, 4), local()), UpAction::Clear));
}

#[test]
fn drag_then_release_copies_the_selection() {
    let mut t = ClickTracker::new();
    t.mouse_down(1, (3, 4), false, no_history(), local(), 1_000);
    match t.mouse_move(1, (9, 4), true, false, no_history(), local()) {
        MoveAction::Extend { cell } => assert_eq!(cell, (9, 4)),
        other => panic!("unexpected {:?}", other),
    }
    assert!(matches!(t.mouse_up(1, (9, 4), local()), UpAction::Copy));
    // The release consumed the drag.
    assert!(matches!(t.mouse_up(1, (9, 4), local()), UpAction::Clear));
}

#[test]
fn double_click_selects_a_word_and_copies_without_moving() {
    let mut t = ClickTracker::new();
    t.mouse_down(1, (3, 4), false, no_history(), local(), 1_000);
    t.mouse_up(1, (3, 4), local());
    match t.mouse_down(1, (3, 4), false, no_history(), local(), 1_200) {
        DownAction::Select { kind, .. } => assert_eq!(kind, SelectionKind::Semantic),
        other => panic!("unexpected {:?}", other),
    }
    assert!(matches!(t.mouse_up(1, (3, 4), local()), UpAction::Copy));
    match t.mouse_down(1, (3, 4), false, no_history(), local(), 1_400) {
        DownAction::Select { kind, .. } => assert_eq!(kind, SelectionKind::Lines),
        other => panic!("unexpected {:?}", other),
    }
}

#[test]
fn press_on_the_scrollbar_scrolls_toward_the_pointer() {
    let mut t = ClickTracker::new();
    let ctx = ScrollContext { history_size: 100, display_offset: 50, target_offset: 100 };
    match t.mouse_down(1, (79, 0), true, ctx, local(), 1_000) {
        DownAction::Scrollbar { delta } => assert_eq!(delta, 50),
        other => panic!("unexpected {:?}", other),
    }
    assert!(t.is_dragging_scrollbar(1));
    let ctx2 = ScrollContext { history_size: 100, display_offset: 100, target_offset: 20 };
    match t.mouse_move(1, (10, 10), false, false, ctx2, local()) {
        MoveAction::Scroll { delta } => assert_eq!(delta, -80),
        other => panic!("unexpected {:?}", other),
    }
    assert!(matches!(t.mouse_up(1, (10, 10), local()), UpAction::EndScrollbarDrag));
    assert!(!t.is_dragging_scrollbar(1));
}

#[test]
fn scrollbar_strip_without_history_selects_text() {
    let mut t = ClickTracker::new();
    assert!(matches!(
        t.mouse_down(1, (79, 0), true, no_history(), local(), 1_000),
        DownAction::Select { .. }
    ));
}

#[test]
fn reporting_programs_get_press_motion_and_release_reports() {
    let mut t = ClickTracker::new();
    match t.mouse_down(1, (4, 9), false, no_history(), sgr_reporting(), 1_000) {
        DownAction::Report { bytes } => assert_eq!(bytes, b"\x1b[<0;5;10M".to_vec()),
        other => panic!("unexpected {:?}", other),
    }
    match t.mouse_move(1, (5, 9), true, false, no_history(), sgr_reporting()) {
        MoveAction::Report { bytes } => assert_eq!(bytes, b"\x1b[<32;6;10M".to_vec()),
        other => panic!("unexpected {:?}", other),
    }
    match t.mouse_up(1, (5, 9), sgr_reporting()) {
        UpAction::Report { bytes } => assert_eq!(bytes, Some(b"\x1b[<0;6;10m".to_vec())),
        other => panic!("unexpected {:?}", other),
    }
    let x10 = MouseMode { report: true, sgr: false, motion: false };
    assert!(matches!(t.mouse_move(1, (5, 9), true, false, no_history(), x10), MoveAction::Nothing));
    match t.mouse_up(1, (5, 9), x10) {
        UpAction::Report { bytes } => assert_eq!(bytes, None),
        other => panic!("unexpected {:?}", other),
    }
}

#[test]
fn moves_outside_the_pane_or_during_a_separator_drag_do_nothing() {
    let mut t = ClickTracker::new();
    t.mouse_down(1, (3, 4), false, no_history(), local(), 1_000);
    assert!(matches!(t.mouse_move(1, (8, 4), false, false, no_history(), local()), MoveAction::Nothing));
    assert!(matches!(t.mouse_move(1, (8, 4), true, true, no_history(), local()), MoveAction::Nothing));
    assert!(matches!(t.mouse_up(1, (8, 4), local()), UpAction::Clear));
}

#[test]
fn wheel_reports_are_capped_at_three() {
    match wheel_action(7, (1, 2), sgr_reporting()) {
        WheelAction::Report { bytes, count } => {
            assert_eq!(bytes, b"\x1b[<64;2;3M".to_vec());
            assert_eq!(count, 3);
        }
        other => panic!("unexpected {:?}", other),
    }
    match wheel_action(-2, (1, 2), sgr_reporting()) {
        WheelAction::Report { bytes, count } => {
            assert_eq!(bytes, b"\x1b[<65;2;3M".to_vec());
            assert_eq!(count, 2);
        }
        other => panic!("unexpected {:?}", other),
    }
    assert!(matches!(wheel_action(0, (1, 2), sgr_reporting()), WheelAction::Nothing));
    assert!(matches!(wheel_action(-4, (1, 2), local()), WheelAction::Scroll { lines: -4 }));
}
