use petruterm_shell::context_menu::{tab_color_menu, terminal_menu, MenuAction, MenuItem};

fn labels(items: &[MenuItem]) -> Vec<&str> {
    items.iter().map(|i| i.label.as_str()).collect()
}

#[test]
fn link_under_pointer_gives_link_menu_only() {
    let m = terminal_menu(Some("https://example.com"), 4, Some((2, "make")), true);
    assert_eq!(labels(&m), vec!["Open Link", "Copy Link"]);
    assert_eq!(m[0].action, MenuAction::OpenLink("https://example.com".to_string()));
    assert_eq!(m[1].action, MenuAction::CopyLink("https://example.com".to_string()));
    assert_eq!(m[0].keybind, None);
}

#[test]
fn plain_terminal_menu_has_clipboard_rows() {
    let m = terminal_menu(None, 4, None, false);
    assert_eq!(labels(&m), vec!["Copy", "Paste", "Clear"]);
    assert_eq!(m[0].keybind.as_deref(), Some("Cmd+C"));
    assert_eq!(m[1].keybind.as_deref(), Some("Cmd+V"));
    assert_eq!(m[2].keybind.as_deref(), Some("Cmd+K"));
}

#[test]
fn block_and_selection_rows_follow() {
    let m = terminal_menu(None, 4, Some((2, "make test")), true);
    assert_eq!(labels(&m), vec!["Copy", "Paste", "Clear", "Copy Output", "Re-run Command", "Send to Chat"]);
    assert_eq!(m[3].action, MenuAction::CopyBlockOutput(4, 2));
    assert_eq!(m[3].keybind.as_deref(), Some("Leader y"));
    assert_eq!(m[4].action, MenuAction::ReRunCommand("make test".to_string()));
    assert_eq!(m[4].keybind.as_deref(), Some("Leader r"));
    assert_eq!(m[5].action, MenuAction::SendToChat);
    let m = terminal_menu(None, 4, None, true);
    assert_eq!(labels(&m), vec!["Copy", "Paste", "Clear", "Send to Chat"]);
}

#[test]
fn tab_color_menu_lists_brights_then_reset() {
    let m = tab_color_menu(3);
    assert_eq!(labels(&m), vec!["Red", "Green", "Yellow", "Blue", "Magenta", "Cyan", "White", "Reset"]);
    assert_eq!(m[0].action, MenuAction::SetTabColor(3, Some(1)));
    assert_eq!(m[0].swatch, Some(1));
    assert_eq!(m[6].action, MenuAction::SetTabColor(3, Some(7)));
    assert_eq!(m[7].action, MenuAction::SetTabColor(3, None));
    assert_eq!(m[7].swatch, None);
}
