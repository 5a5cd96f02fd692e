use petruterm_shell::timers::{deadline_passed, git_dirty_check, git_ttl_secs, poll_interval_ms, CursorBlink, BLINK_MS};

#[test]
fn poll_interval_follows_window_focus() {
    assert_eq!(poll_interval_ms(true), 33);
    assert_eq!(poll_interval_ms(false), 400);
}

#[test]
fn git_refresh_backs_off_on_battery_saver() {
    assert_eq!(git_ttl_secs(false), 15);
    assert_eq!(git_ttl_secs(true), 60);
    assert!(git_dirty_check(true, false));
    assert!(!git_dirty_check(true, true));
    assert!(!git_dirty_check(false, false));
}

#[test]
fn deadlines_pass_at_their_instant() {
    assert!(!deadline_passed(None, 1_000));
    assert!(!deadline_passed(Some(1_000), 999));
    assert!(deadline_passed(Some(1_000), 1_000));
}

#[test]
fn cursor_blinks_every_half_period() {
    let mut b = CursorBlink::new(0);
    assert!(!b.tick(BLINK_MS - 1, false));
    assert!(b.on);
    assert!(b.tick(BLINK_MS, false));
    assert!(!b.on);
    assert!(!b.tick(BLINK_MS + 100, false));
    assert!(b.tick(2 * BLINK_MS, false));
    assert!(b.on);
}

#[test]
fn battery_saver_keeps_the_cursor_solid() {
    let mut b = CursorBlink::new(0);
    b.tick(BLINK_MS, false);
    assert!(!b.on);
    assert!(b.tick(BLINK_MS + 1, true));
    assert!(b.on);
    assert!(!b.tick(10 * BLINK_MS, true));
    assert!(b.on);
}

#[test]
fn a_key_press_restarts_the_blink() {
    let mut b = CursorBlink::new(0);
    b.tick(BLINK_MS, false);
    b.reset(BLINK_MS + 10);
    assert!(b.on);
    assert!(!b.tick(2 * BLINK_MS, false));
    assert!(b.tick(2 * BLINK_MS + 10, false));
}
