use petruterm_shell::click_state::{ClickTracker, DOUBLE_CLICK_MS};

#[test]
fn mouse_plain_click_is_not_marked_dragged() {
    let mut t = ClickTracker::new();
    let key = 3001;
    t.start_gesture(key, (5, 5));
    assert!(!t.take_dragged(key));
}

#[test]
fn mouse_moving_to_a_different_cell_marks_the_gesture_dragged() {
    let mut t = ClickTracker::new();
    let key = 3002;
    t.start_gesture(key, (5, 5));
    t.mark_dragged_if_moved(key, (6, 5));
    assert!(t.take_dragged(key));
}

#[test]
fn mouse_moving_within_the_same_cell_does_not_count_as_dragged() {
    let mut t = ClickTracker::new();
    let key = 3003;
    t.start_gesture(key, (5, 5));
    t.mark_dragged_if_moved(key, (5, 5));
    t.mark_dragged_if_moved(key, (5, 5));
    assert!(!t.take_dragged(key));
}

#[test]
fn mouse_double_and_triple_click_are_dragged_with_zero_movement() {
    let mut t = ClickTracker::new();
    let key = 3008;
    t.start_gesture(key, (5, 5));
    t.mark_dragged(key);
    assert!(t.take_dragged(key));
}

#[test]
fn mouse_a_pane_that_never_started_the_gesture_is_not_marked_dragged() {
    let mut t = ClickTracker::new();
    let key = 3006;
    t.mark_dragged_if_moved(key, (6, 5));
    assert!(!t.take_dragged(key));
}

#[test]
fn mouse_a_pane_whose_gesture_already_ended_is_not_marked_dragged_by_a_later_pass_through() {
    let mut t = ClickTracker::new();
    let key = 3007;
    t.start_gesture(key, (5, 5));
    t.mark_dragged_if_moved(key, (6, 5));
    assert!(t.take_dragged(key));
    t.mark_dragged_if_moved(key, (7, 5));
    assert!(!t.take_dragged(key));
}

#[test]
fn mouse_take_dragged_is_one_shot() {
    let mut t = ClickTracker::new();
    let key = 3004;
    t.start_gesture(key, (5, 5));
    t.mark_dragged_if_moved(key, (6, 5));
    assert!(t.take_dragged(key));
    assert!(!t.take_dragged(key));
}

#[test]
fn mouse_start_gesture_resets_a_leftover_dragged_flag() {
    let mut t = ClickTracker::new();
    let key = 3005;
    t.start_gesture(key, (5, 5));
    t.mark_dragged_if_moved(key, (6, 5));
    t.start_gesture(key, (1, 1));
    assert!(!t.take_dragged(key));
}

#[test]
fn mouse_first_click_is_count_one() {
    let mut t = ClickTracker::new();
    assert_eq!(t.register_click(1, (5, 5), 10_000), 1);
}

#[test]
fn mouse_same_cell_quick_second_click_is_count_two() {
    let mut t = ClickTracker::new();
    let key = 2;
    t.register_click(key, (5, 5), 10_000);
    assert_eq!(t.register_click(key, (5, 5), 10_120), 2);
}

#[test]
fn mouse_different_cell_resets_to_count_one() {
    let mut t = ClickTracker::new();
    let key = 3;
    t.register_click(key, (5, 5), 10_000);
    assert_eq!(t.register_click(key, (6, 5), 10_050), 1);
}

#[test]
fn mouse_click_count_caps_at_three() {
    let mut t = ClickTracker::new();
    let key = 4;
    t.register_click(key, (5, 5), 10_000);
    t.register_click(key, (5, 5), 10_100);
    t.register_click(key, (5, 5), 10_200);
    assert_eq!(t.register_click(key, (5, 5), 10_300), 3);
}

#[test]
fn click_state_plain_click_is_not_marked_dragged() {
    let mut t = ClickTracker::new();
    let key = 3001;
    t.start_gesture(key, (5, 5));
    assert!(!t.take_dragged(key));
}

#[test]
fn click_state_moving_to_a_different_cell_marks_the_gesture_dragged() {
    let mut t = ClickTracker::new();
    let key = 3002;
    t.start_gesture(key, (5, 5));
    t.mark_dragged_if_moved(key, (6, 5));
    assert!(t.take_dragged(key));
}

#[test]
fn click_state_moving_within_the_same_cell_does_not_count_as_dragged() {
    let mut t = ClickTracker::new();
    let key = 3003;
    t.start_gesture(key, (5, 5));
    t.mark_dragged_if_moved(key, (5, 5));
    t.mark_dragged_if_moved(key, (5, 5));
    assert!(!t.take_dragged(key));
}

#[test]
fn click_state_double_and_triple_click_are_dragged_with_zero_movement() {
    let mut t = ClickTracker::new();
    let key = 3008;
    t.start_gesture(key, (5, 5));
    t.mark_dragged(key);
    assert!(t.take_dragged(key));
}

#[test]
fn click_state_a_pane_that_never_started_the_gesture_is_not_marked_dragged() {
    let mut t = ClickTracker::new();
    let key = 3006;
    t.mark_dragged_if_moved(key, (6, 5));
    assert!(!t.take_dragged(key));
}

#[test]
fn click_state_a_pane_whose_gesture_already_ended_is_not_marked_dragged_by_a_later_pass_through() {
    let mut t = ClickTracker::new();
    let key = 3007;
    t.start_gesture(key, (5, 5));
    t.mark_dragged_if_moved(key, (6, 5));
    assert!(t.take_dragged(key));
    t.mark_dragged_if_moved(key, (7, 5));
    assert!(!t.take_dragged(key));
}

#[test]
fn click_state_take_dragged_is_one_shot() {
    let mut t = ClickTracker::new();
    let key = 3004;
    t.start_gesture(key, (5, 5));
    t.mark_dragged_if_moved(key, (6, 5));
    assert!(t.take_dragged(key));
    assert!(!t.take_dragged(key));
}

#[test]
fn click_state_start_gesture_resets_a_leftover_dragged_flag() {
    let mut t = ClickTracker::new();
    let key = 3005;
    t.start_gesture(key, (5, 5));
    t.mark_dragged_if_moved(key, (6, 5));
    t.start_gesture(key, (1, 1));
    assert!(!t.take_dragged(key));
}

#[test]
fn click_state_first_click_is_count_one() {
    let mut t = ClickTracker::new();
    assert_eq!(t.register_click(1, (5, 5), 10_000), 1);
}

#[test]
fn click_state_same_cell_quick_second_click_is_count_two() {
    let mut t = ClickTracker::new();
    let key = 2;
    t.register_click(key, (5, 5), 10_000);
    assert_eq!(t.register_click(key, (5, 5), 10_120), 2);
}

#[test]
fn click_state_different_cell_resets_to_count_one() {
    let mut t = ClickTracker::new();
    let key = 3;
    t.register_click(key, (5, 5), 10_000);
    assert_eq!(t.register_click(key, (6, 5), 10_050), 1);
}

#[test]
fn click_state_click_count_caps_at_three() {
    let mut t = ClickTracker::new();
    let key = 4;
    t.register_click(key, (5, 5), 10_000);
    t.register_click(key, (5, 5), 10_100);
    t.register_click(key, (5, 5), 10_200);
    assert_eq!(t.register_click(key, (5, 5), 10_300), 3);
}

#[test]
fn a_slow_second_click_starts_over() {
    let mut t = ClickTracker::new();
    t.register_click(7, (5, 5), 10_000);
    assert_eq!(t.register_click(7, (5, 5), 10_000 + DOUBLE_CLICK_MS - 1), 2);
    assert_eq!(t.register_click(7, (5, 5), 10_499 + DOUBLE_CLICK_MS), 1);
}

#[test]
fn a_clock_that_steps_back_counts_as_no_time_passing() {
    let mut t = ClickTracker::new();
    t.register_click(8, (1, 1), 50_000);
    assert_eq!(t.register_click(8, (1, 1), 40_000), 2);
}

#[test]
fn click_state_is_kept_per_terminal() {
    let mut t = ClickTracker::new();
    t.register_click(10, (5, 5), 1_000);
    assert_eq!(t.register_click(11, (5, 5), 1_010), 1);
    t.start_gesture(10, (0, 0));
    t.mark_dragged_if_moved(10, (3, 0));
    assert!(!t.take_dragged(11));
    assert!(t.take_dragged(10));
}

#[test]
fn scrollbar_flag_is_set_cleared_and_forgotten() {
    let mut t = ClickTracker::new();
    assert!(!t.is_dragging_scrollbar(5));
    t.set_dragging_scrollbar(5, true);
    assert!(t.is_dragging_scrollbar(5));
    assert!(!t.is_dragging_scrollbar(6));
    t.set_dragging_scrollbar(5, false);
    assert!(!t.is_dragging_scrollbar(5));
    t.set_dragging_scrollbar(5, true);
    t.forget_terminal(5);
    assert!(!t.is_dragging_scrollbar(5));
}

#[test]
fn forgotten_terminal_starts_a_fresh_click_count() {
    let mut t = ClickTracker::new();
    t.register_click(9, (2, 2), 5_000);
    t.forget_terminal(9);
    assert_eq!(t.register_click(9, (2, 2), 5_010), 1);
}

#[test]
fn multi_click_count_survives_other_calls_in_between() {
    let mut t = ClickTracker::new();
    let key = 3101;
    assert_eq!(t.register_click(key, (2, 2), 1_000), 1);
    t.start_gesture(key, (2, 2));
    t.mark_dragged_if_moved(key, (2, 2));
    t.register_click(7, (2, 2), 1_050);
    t.forget_terminal(8);
    assert!(!t.take_dragged(key));
    assert_eq!(t.register_click(key, (2, 2), 1_100), 2);
    assert_eq!(t.register_click(key, (2, 2), 1_200), 3);
    assert_eq!(t.register_click(key, (2, 2), 1_300), 3);
    assert_eq!(t.register_click(key, (2, 2), 1_300 + DOUBLE_CLICK_MS), 1);
    t.forget_terminal(key);
    assert_eq!(t.register_click(key, (2, 2), 1_300 + DOUBLE_CLICK_MS + 10), 1);
}
