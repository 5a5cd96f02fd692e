//! Keyboard focus between the terminal and the shell's text fields: when
//! each frame hands focus back to the terminal, and when a tab click
//! abandons an open rename.

use vstd::prelude::*;

verus! {

/// The text fields that can hold focus instead of the terminal, as one
/// frame sees them.
#[derive(Debug, Clone, Copy, PartialEq, Eq, Structural)]
pub struct FieldFocus {
    pub tab_rename_open: bool,
    pub workspace_rename_open: bool,
    pub chat_visible: bool,
    pub chat_composer_focused: bool,
    pub ai_block_visible: bool,
    pub ai_block_composer_focused: bool,
    pub palette_visible: bool,
    pub palette_query_focused: bool,
}

/// Whether this frame gives focus back to the terminal: no rename editor
/// is open, and none of the chat composer, the inline AI block's composer
/// and the palette's query field is both shown and focused (a hidden one
/// that still reports focus has lost it).
pub fn terminal_takes_focus(f: FieldFocus) -> (r: bool)
    ensures
        r == (!f.tab_rename_open && !f.workspace_rename_open && !(f.chat_visible && f.chat_composer_focused)
            && !(f.ai_block_visible && f.ai_block_composer_focused) && !(f.palette_visible
            && f.palette_query_focused)),
{
    !f.tab_rename_open && !f.workspace_rename_open && (!f.chat_visible || !f.chat_composer_focused) && (
    !f.ai_block_visible || !f.ai_block_composer_focused) && (!f.palette_visible || !f.palette_query_focused)
}

/// Whether clicking a tab abandons the rename in progress: only when a
/// rename is open on some other tab (a click on the tab being renamed
/// keeps its editor).
pub fn tab_click_ends_rename(renaming_tab: Option<usize>, clicked_tab: Option<usize>) -> (r: bool)
    ensures
        r == (renaming_tab is Some && renaming_tab != clicked_tab),
{
    match renaming_tab {
        Some(id) => match clicked_tab {
            Some(c) => id != c,
            None => true,
        },
        None => false,
    }
}

} // verus!
