//! The read-only info overlay's state: whether it shows, its title, and
//! the line the keyboard cursor scrolls to. The caller keeps the rendered
//! lines and scrolls its view to `cursor_line`.

use vstd::prelude::*;
use crate::strs::str_eq;

verus! {

pub struct InfoOverlay {
    visible: bool,
    title: String,
    line_count: usize,
    cursor_line: usize,
}

/// The overlay's state as plain values.
pub struct OverlayView {
    pub visible: bool,
    pub title: Seq<char>,
    pub line_count: nat,
    pub cursor_line: nat,
}

impl View for InfoOverlay {
    type V = OverlayView;

    closed spec fn view(&self) -> OverlayView {
        OverlayView {
            visible: self.visible,
            title: self.title@,
            line_count: self.line_count as nat,
            cursor_line: self.cursor_line as nat,
        }
    }
}

/// What a key does while the overlay shows.
#[derive(Debug, Clone, Copy, PartialEq, Eq, Structural)]
pub enum OverlayKey {
    Close,
    Down,
    Up,
    Ignore,
}

pub open spec fn overlay_key_spec(key: Seq<char>) -> OverlayKey {
    if key == "escape"@ {
        OverlayKey::Close
    } else if key == "down"@ || key == "j"@ {
        OverlayKey::Down
    } else if key == "up"@ || key == "k"@ {
        OverlayKey::Up
    } else {
        OverlayKey::Ignore
    }
}

/// The lengths and first characters of the overlay's key names.
proof fn lemma_overlay_key_chars()
    ensures
        "escape"@.len() == 6 && "escape"@[0] == 'e' && "escape"@[1] == 's',
        "down"@.len() == 4 && "down"@[0] == 'd' && "down"@[1] == 'o',
        "j"@.len() == 1 && "j"@[0] == 'j',
        "up"@.len() == 2 && "up"@[0] == 'u' && "up"@[1] == 'p',
        "k"@.len() == 1 && "k"@[0] == 'k',
{
    reveal_strlit("escape");
    assert("escape"@.len() == 6 && "escape"@[0] == 'e' && "escape"@[1] == 's');
    reveal_strlit("down");
    assert("down"@.len() == 4 && "down"@[0] == 'd' && "down"@[1] == 'o');
    reveal_strlit("j");
    assert("j"@.len() == 1 && "j"@[0] == 'j');
    reveal_strlit("up");
    assert("up"@.len() == 2 && "up"@[0] == 'u' && "up"@[1] == 'p');
    reveal_strlit("k");
    assert("k"@.len() == 1 && "k"@[0] == 'k');
}

/// In the info overlay Escape closes it, Down and `j` scroll down, Up and
/// `k` scroll up.
pub proof fn lemma_overlay_keys()
    ensures
        overlay_key_spec("escape"@) == OverlayKey::Close,
        overlay_key_spec("down"@) == OverlayKey::Down,
        overlay_key_spec("j"@) == OverlayKey::Down,
        overlay_key_spec("up"@) == OverlayKey::Up,
        overlay_key_spec("k"@) == OverlayKey::Up,
{
    lemma_overlay_key_chars();
}

/// Escape closes, Down/j and Up/k scroll; every key is swallowed while the
/// overlay shows.
pub fn overlay_key(key: &str) -> (r: OverlayKey)
    ensures
        r == overlay_key_spec(key@),
{
    if str_eq(key, "escape") {
        OverlayKey::Close
    } else if str_eq(key, "down") || str_eq(key, "j") {
        OverlayKey::Down
    } else if str_eq(key, "up") || str_eq(key, "k") {
        OverlayKey::Up
    } else {
        OverlayKey::Ignore
    }
}

impl InfoOverlay {
    /// Hidden, empty.
    pub fn new() -> (r: Self)
        ensures
            !r@.visible,
            r@.title.len() == 0,
            r@.line_count == 0,
            r@.cursor_line == 0,
    {
        InfoOverlay { visible: false, title: String::new(), line_count: 0, cursor_line: 0 }
    }

    pub fn is_visible(&self) -> (r: bool)
        ensures
            r == self@.visible,
    {
        self.visible
    }

    pub fn title(&self) -> (r: &str)
        ensures
            r@ == self@.title,
    {
        self.title.as_str()
    }

    pub fn cursor_line(&self) -> (r: usize)
        ensures
            r == self@.cursor_line,
    {
        self.cursor_line
    }

    /// Show `line_count` lines under `title`, scrolled to the top.
    pub fn open(&mut self, title: String, line_count: usize)
        ensures
            final(self)@.visible,
            final(self)@.title == title@,
            final(self)@.line_count == line_count,
            final(self)@.cursor_line == 0,
    {
        self.title = title;
        self.line_count = line_count;
        self.cursor_line = 0;
        self.visible = true;
    }

    /// Hide the overlay; its content stays.
    pub fn close(&mut self)
        ensures
            final(self)@ == (OverlayView { visible: false, ..old(self)@ }),
    {
        self.visible = false;
    }

    /// Move the cursor one line down, stopping at the last line.
    pub fn scroll_down(&mut self)
        ensures
            final(self)@ == (OverlayView {
                cursor_line: if old(self)@.cursor_line + 1 < old(self)@.line_count {
                    old(self)@.cursor_line + 1
                } else if old(self)@.line_count > 0 {
                    (old(self)@.line_count - 1) as nat
                } else {
                    0
                },
                ..old(self)@
            }),
    {
        let max: usize = if self.line_count > 0 { self.line_count - 1 } else { 0 };
        let next: usize = if self.cursor_line < max { self.cursor_line + 1 } else { max };
        self.cursor_line = next;
    }

    /// Move the cursor one line up, stopping at the first line.
    pub fn scroll_up(&mut self)
        ensures
            final(self)@ == (OverlayView {
                cursor_line: if old(self)@.cursor_line > 0 { (old(self)@.cursor_line - 1) as nat } else { 0 },
                ..old(self)@
            }),
    {
        if self.cursor_line > 0 {
            self.cursor_line = self.cursor_line - 1;
        }
    }
}

impl Default for InfoOverlay {
    fn default() -> (r: Self)
        ensures
            !r@.visible,
            r@.title.len() == 0,
            r@.line_count == 0,
            r@.cursor_line == 0,
    {
        InfoOverlay::new()
    }
}

} // verus!
