use petruterm_shell::overlay::{overlay_key, InfoOverlay, OverlayKey};

#[test]
fn overlay_opens_scrolls_and_closes() {
    let mut o = InfoOverlay::new();
    assert!(!o.is_visible());
    o.open("fs".to_string(), 3);
    assert!(o.is_visible());
    assert_eq!(o.title(), "fs");
    assert_eq!(o.cursor_line(), 0);
    o.scroll_up();
    assert_eq!(o.cursor_line(), 0);
    o.scroll_down();
    o.scroll_down();
    o.scroll_down();
    assert_eq!(o.cursor_line(), 2);
    o.scroll_up();
    assert_eq!(o.cursor_line(), 1);
    o.close();
    assert!(!o.is_visible());
    assert_eq!(o.title(), "fs");
    o.open("skill".to_string(), 0);
    o.scroll_down();
    assert_eq!(o.cursor_line(), 0);
}

#[test]
fn overlay_keys() {
    assert_eq!(overlay_key("escape"), OverlayKey::Close);
    assert_eq!(overlay_key("j"), OverlayKey::Down);
    assert_eq!(overlay_key("down"), OverlayKey::Down);
    assert_eq!(overlay_key("k"), OverlayKey::Up);
    assert_eq!(overlay_key("up"), OverlayKey::Up);
    assert_eq!(overlay_key("q"), OverlayKey::Ignore);
}
