//! Terminal-shell interaction logic: key and mouse encoding for the PTY,
//! pane-split trees, leader-key tables, click tracking and sidebar state.

pub mod ai_queries;
pub mod branches;
pub mod click_state;
pub mod context_menu;
pub mod digits;
pub mod focus;
pub mod frame_cache;
pub mod grid;
pub mod key_map;
pub mod keyroute;
pub mod layout;
pub mod leader;
pub mod mcp;
pub mod mouse;
pub mod order;
pub mod overlay;
pub mod pane_focus;
pub mod panes;
pub mod pointer;
pub mod prompts;
pub mod screen_text;
pub mod search;
pub mod sidebar;
pub mod slash;
pub mod snippets;
pub mod status_text;
pub mod strs;
pub mod text;
pub mod timers;
pub mod undo;
