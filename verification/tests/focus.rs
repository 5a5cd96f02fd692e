use petruterm_shell::focus::{tab_click_ends_rename, terminal_takes_focus, FieldFocus};

fn idle() -> FieldFocus {
    FieldFocus {
        tab_rename_open: false,
        workspace_rename_open: false,
        chat_visible: false,
        chat_composer_focused: false,
        ai_block_visible: false,
        ai_block_composer_focused: false,
        palette_visible: false,
        palette_query_focused: false,
    }
}

#[test]
fn terminal_reclaims_focus_when_no_field_holds_it() {
    assert!(terminal_takes_focus(idle()));
    // The chat panel open while the terminal was clicked: focus stays with it.
    assert!(terminal_takes_focus(FieldFocus { chat_visible: true, ..idle() }));
    // A composer closed from its own callback still reports focus.
    assert!(terminal_takes_focus(FieldFocus { chat_composer_focused: true, ..idle() }));
}

#[test]
fn focused_fields_and_rename_editors_keep_focus() {
    assert!(!terminal_takes_focus(FieldFocus { tab_rename_open: true, ..idle() }));
    assert!(!terminal_takes_focus(FieldFocus { workspace_rename_open: true, ..idle() }));
    assert!(!terminal_takes_focus(FieldFocus { chat_visible: true, chat_composer_focused: true, ..idle() }));
    assert!(!terminal_takes_focus(FieldFocus { ai_block_visible: true, ai_block_composer_focused: true, ..idle() }));
    assert!(!terminal_takes_focus(FieldFocus { palette_visible: true, palette_query_focused: true, ..idle() }));
}

#[test]
fn tab_click_ends_rename_only_on_another_tab() {
    assert!(tab_click_ends_rename(Some(3), Some(4)));
    assert!(tab_click_ends_rename(Some(3), None));
    assert!(!tab_click_ends_rename(Some(3), Some(3)));
    assert!(!tab_click_ends_rename(None, Some(3)));
}
