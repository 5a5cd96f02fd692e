//! The workspace sidebar drawer: visibility, the active section and one
//! highlighted-row cursor per section.

use vstd::prelude::*;
use crate::strs::{chars_of, str_eq, string_of};

verus! {

/// Which of the sidebar's four sections is active.
#[derive(Debug, Clone, Copy, PartialEq, Eq, Structural)]
pub enum SidebarSection {
    Workspaces,
    Mcp,
    Skills,
    Steering,
}

/// Position of a section in the cycle Workspaces, Mcp, Skills, Steering.
pub open spec fn section_index(s: SidebarSection) -> int {
    match s {
        SidebarSection::Workspaces => 0,
        SidebarSection::Mcp => 1,
        SidebarSection::Skills => 2,
        SidebarSection::Steering => 3,
    }
}

/// The section at position `i` (taken modulo 4) of the cycle.
pub open spec fn section_at(i: int) -> SidebarSection {
    let k = i % 4;
    if k == 0 {
        SidebarSection::Workspaces
    } else if k == 1 {
        SidebarSection::Mcp
    } else if k == 2 {
        SidebarSection::Skills
    } else {
        SidebarSection::Steering
    }
}

/// The sections come in the order Workspaces, MCP, Skills, Steering: Tab
/// steps forward through them and back to Workspaces from Steering, and
/// Shift+Tab steps backward.
pub proof fn lemma_section_order()
    ensures
        section_at(section_index(SidebarSection::Workspaces) + 1) == SidebarSection::Mcp,
        section_at(section_index(SidebarSection::Mcp) + 1) == SidebarSection::Skills,
        section_at(section_index(SidebarSection::Skills) + 1) == SidebarSection::Steering,
        section_at(section_index(SidebarSection::Steering) + 1) == SidebarSection::Workspaces,
        section_at(section_index(SidebarSection::Workspaces) + 3) == SidebarSection::Steering,
        section_at(section_index(SidebarSection::Mcp) + 3) == SidebarSection::Workspaces,
        section_at(section_index(SidebarSection::Skills) + 3) == SidebarSection::Mcp,
        section_at(section_index(SidebarSection::Steering) + 3) == SidebarSection::Skills,
{
}

impl SidebarSection {
    /// The section after `self`, wrapping from Steering back to Workspaces.
    pub fn next(self) -> (r: Self)
        ensures
            r == section_at(section_index(self) + 1),
    {
        match self {
            SidebarSection::Workspaces => SidebarSection::Mcp,
            SidebarSection::Mcp => SidebarSection::Skills,
            SidebarSection::Skills => SidebarSection::Steering,
            SidebarSection::Steering => SidebarSection::Workspaces,
        }
    }

    /// The section before `self`, wrapping from Workspaces back to Steering.
    pub fn prev(self) -> (r: Self)
        ensures
            r == section_at(section_index(self) + 3),
    {
        match self {
            SidebarSection::Workspaces => SidebarSection::Steering,
            SidebarSection::Mcp => SidebarSection::Workspaces,
            SidebarSection::Skills => SidebarSection::Mcp,
            SidebarSection::Steering => SidebarSection::Skills,
        }
    }
}

impl Default for SidebarSection {
    fn default() -> (r: Self)
        ensures
            r == SidebarSection::Workspaces,
    {
        SidebarSection::Workspaces
    }
}

/// `prev` undoes `next`, and `next` undoes `prev`; four steps of either
/// return to the starting section.
pub proof fn lemma_section_cycle(s: SidebarSection)
    ensures
        section_at(section_index(section_at(section_index(s) + 1)) + 3) == s,
        section_at(section_index(section_at(section_index(s) + 3)) + 1) == s,
        section_at(section_index(s) + 4) == s,
{
}

/// The drawer's state.
pub struct WorkspaceSidebar {
    visible: bool,
    active_section: SidebarSection,
    mcp_cursor: usize,
    skills_cursor: usize,
    steering_cursor: usize,
}

/// The drawer's state as plain values.
pub struct SidebarView {
    pub visible: bool,
    pub active_section: SidebarSection,
    pub mcp_cursor: usize,
    pub skills_cursor: usize,
    pub steering_cursor: usize,
}

impl View for WorkspaceSidebar {
    type V = SidebarView;

    closed spec fn view(&self) -> SidebarView {
        SidebarView {
            visible: self.visible,
            active_section: self.active_section,
            mcp_cursor: self.mcp_cursor,
            skills_cursor: self.skills_cursor,
            steering_cursor: self.steering_cursor,
        }
    }
}

impl Default for WorkspaceSidebar {
    fn default() -> (r: Self)
        ensures
            r@ == (SidebarView {
                visible: false,
                active_section: SidebarSection::Workspaces,
                mcp_cursor: 0,
                skills_cursor: 0,
                steering_cursor: 0,
            }),
    {
        WorkspaceSidebar {
            visible: false,
            active_section: SidebarSection::Workspaces,
            mcp_cursor: 0,
            skills_cursor: 0,
            steering_cursor: 0,
        }
    }
}

impl WorkspaceSidebar {
    pub fn is_visible(&self) -> (r: bool)
        ensures
            r == self@.visible,
    {
        self.visible
    }

    /// Flip visibility; nothing else changes.
    pub fn toggle(&mut self)
        ensures
            final(self)@ == (SidebarView { visible: !old(self)@.visible, ..old(self)@ }),
    {
        self.visible = !self.visible;
    }

    /// Force the drawer open; nothing else changes.
    pub fn show(&mut self)
        ensures
            final(self)@ == (SidebarView { visible: true, ..old(self)@ }),
    {
        self.visible = true;
    }

    pub fn active_section(&self) -> (r: SidebarSection)
        ensures
            r == self@.active_section,
    {
        self.active_section
    }

    pub fn next_section(&mut self)
        ensures
            final(self)@ == (SidebarView {
                active_section: section_at(section_index(old(self)@.active_section) + 1),
                ..old(self)@
            }),
    {
        self.active_section = self.active_section.next();
    }

    pub fn prev_section(&mut self)
        ensures
            final(self)@ == (SidebarView {
                active_section: section_at(section_index(old(self)@.active_section) + 3),
                ..old(self)@
            }),
    {
        self.active_section = self.active_section.prev();
    }

    pub fn set_section(&mut self, section: SidebarSection)
        ensures
            final(self)@ == (SidebarView { active_section: section, ..old(self)@ }),
    {
        self.active_section = section;
    }

    pub fn mcp_cursor(&self) -> (r: usize)
        ensures
            r == self@.mcp_cursor,
    {
        self.mcp_cursor
    }

    pub fn set_mcp_cursor(&mut self, idx: usize)
        ensures
            final(self)@ == (SidebarView { mcp_cursor: idx, ..old(self)@ }),
    {
        self.mcp_cursor = idx;
    }

    pub fn skills_cursor(&self) -> (r: usize)
        ensures
            r == self@.skills_cursor,
    {
        self.skills_cursor
    }

    pub fn set_skills_cursor(&mut self, idx: usize)
        ensures
            final(self)@ == (SidebarView { skills_cursor: idx, ..old(self)@ }),
    {
        self.skills_cursor = idx;
    }

    pub fn steering_cursor(&self) -> (r: usize)
        ensures
            r == self@.steering_cursor,
    {
        self.steering_cursor
    }

    pub fn set_steering_cursor(&mut self, idx: usize)
        ensures
            final(self)@ == (SidebarView { steering_cursor: idx, ..old(self)@ }),
    {
        self.steering_cursor = idx;
    }
}

/// Move a list cursor by `delta` rows in a list of `len` rows, wrapping
/// around both ends; `None` when the list is empty (the cursor stays put).
pub fn wrap_cursor(current: usize, delta: i32, len: usize) -> (r: Option<usize>)
    requires
        current < i32::MAX,
        len <= i32::MAX,
    ensures
        len == 0 ==> r is None,
        len > 0 ==> r == Some(((current + delta) % (len as int)) as usize),
{
    if len == 0 {
        return None;
    }
    let l: u64 = len as u64;
    let m: u64 = if delta >= 0 {
        (current as u64 + delta as u64) % l
    } else {
        let back: u64 = (-(delta as i64)) as u64;
        let c: u64 = current as u64 % l;
        let b: u64 = back % l;
        if c >= b {
            c - b
        } else {
            l - (b - c)
        }
    };
    proof {
        lemma_wrap(current as int, delta as int, len as int, m as int);
    }
    Some(m as usize)
}

proof fn lemma_wrap(current: int, delta: int, len: int, m: int)
    requires
        current >= 0,
        len > 0,
        delta >= 0 ==> m == (current + delta) % len,
        delta < 0 ==> m == (if current % len >= (-delta) % len { current % len - (-delta) % len } else { len - ((-delta) % len - current % len) }),
    ensures
        m == (current + delta) % len,
{
    if delta < 0 {
        let c = current % len;
        let b = (-delta) % len;
        vstd::arithmetic::div_mod::lemma_fundamental_div_mod(current, len);
        vstd::arithmetic::div_mod::lemma_fundamental_div_mod(-delta, len);
        let qc = current / len;
        let qb = (-delta) / len;
        assert(current + delta == (qc - qb) * len + (c - b)) by (nonlinear_arith)
            requires current == len * qc + c, -delta == len * qb + b;
        if c >= b {
            vstd::arithmetic::div_mod::lemma_fundamental_div_mod_converse(current + delta, len, qc - qb, c - b);
        } else {
            assert(current + delta == (qc - qb - 1) * len + (len - (b - c))) by (nonlinear_arith)
                requires current + delta == (qc - qb) * len + (c - b);
            vstd::arithmetic::div_mod::lemma_fundamental_div_mod_converse(
                current + delta,
                len,
                qc - qb - 1,
                len - (b - c),
            );
        }
    }
}

/// What a key does while the sidebar holds focus.
#[derive(Debug, Clone, Copy, PartialEq, Eq, Structural)]
pub enum SidebarKey {
    NextSection,
    PrevSection,
    /// Move the active section's cursor by this many rows.
    Move(i32),
    /// Open the row under the cursor.
    Activate,
    /// Hide the sidebar and hand focus back to the terminal.
    Close,
    Ignore,
}

pub open spec fn sidebar_key_spec(key: Seq<char>, shift: bool) -> SidebarKey {
    if key == "tab"@ {
        if shift {
            SidebarKey::PrevSection
        } else {
            SidebarKey::NextSection
        }
    } else if key == "down"@ || key == "j"@ {
        SidebarKey::Move(1)
    } else if key == "up"@ || key == "k"@ {
        SidebarKey::Move(-1i32)
    } else if key == "enter"@ {
        SidebarKey::Activate
    } else if key == "escape"@ {
        SidebarKey::Close
    } else {
        SidebarKey::Ignore
    }
}

/// The lengths and first characters of the sidebar's key names.
proof fn lemma_sidebar_key_chars()
    ensures
        "tab"@.len() == 3 && "tab"@[0] == 't' && "tab"@[1] == 'a',
        "down"@.len() == 4 && "down"@[0] == 'd' && "down"@[1] == 'o',
        "j"@.len() == 1 && "j"@[0] == 'j',
        "up"@.len() == 2 && "up"@[0] == 'u' && "up"@[1] == 'p',
        "k"@.len() == 1 && "k"@[0] == 'k',
        "enter"@.len() == 5 && "enter"@[0] == 'e' && "enter"@[1] == 'n',
        "escape"@.len() == 6 && "escape"@[0] == 'e' && "escape"@[1] == 's',
{
    reveal_strlit("tab");
    assert("tab"@.len() == 3 && "tab"@[0] == 't' && "tab"@[1] == 'a');
    reveal_strlit("down");
    assert("down"@.len() == 4 && "down"@[0] == 'd' && "down"@[1] == 'o');
    reveal_strlit("j");
    assert("j"@.len() == 1 && "j"@[0] == 'j');
    reveal_strlit("up");
    assert("up"@.len() == 2 && "up"@[0] == 'u' && "up"@[1] == 'p');
    reveal_strlit("k");
    assert("k"@.len() == 1 && "k"@[0] == 'k');
    reveal_strlit("enter");
    assert("enter"@.len() == 5 && "enter"@[0] == 'e' && "enter"@[1] == 'n');
    reveal_strlit("escape");
    assert("escape"@.len() == 6 && "escape"@[0] == 'e' && "escape"@[1] == 's');
}

/// In the sidebar, `j` acts as Down and `k` as Up, Down moves the cursor
/// one row down and Up one row up; Tab goes to the next section and
/// Shift+Tab to the previous one; Enter opens the row and Escape closes.
pub proof fn lemma_sidebar_keys(shift: bool)
    ensures
        sidebar_key_spec("j"@, shift) == sidebar_key_spec("down"@, shift),
        sidebar_key_spec("k"@, shift) == sidebar_key_spec("up"@, shift),
        sidebar_key_spec("down"@, shift) == SidebarKey::Move(1i32),
        sidebar_key_spec("up"@, shift) == SidebarKey::Move(-1i32),
        sidebar_key_spec("tab"@, false) == SidebarKey::NextSection,
        sidebar_key_spec("tab"@, true) == SidebarKey::PrevSection,
        sidebar_key_spec("enter"@, shift) == SidebarKey::Activate,
        sidebar_key_spec("escape"@, shift) == SidebarKey::Close,
{
    lemma_sidebar_key_chars();
}

/// Tab and Shift+Tab cycle sections, Down/j and Up/k move the cursor,
/// Enter opens the row, Escape closes the sidebar.
pub fn sidebar_key(key: &str, shift: bool) -> (r: SidebarKey)
    ensures
        r == sidebar_key_spec(key@, shift),
{
    if str_eq(key, "tab") {
        if shift {
            SidebarKey::PrevSection
        } else {
            SidebarKey::NextSection
        }
    } else if str_eq(key, "down") || str_eq(key, "j") {
        SidebarKey::Move(1)
    } else if str_eq(key, "up") || str_eq(key, "k") {
        SidebarKey::Move(-1)
    } else if str_eq(key, "enter") {
        SidebarKey::Activate
    } else if str_eq(key, "escape") {
        SidebarKey::Close
    } else {
        SidebarKey::Ignore
    }
}

impl WorkspaceSidebar {
    /// Move the cursor of the active MCP, Skills or Steering section by
    /// `delta` rows among `count`, wrapping at both ends; nothing happens
    /// with no rows. The Workspaces section has no cursor of its own here
    /// (its cursor is the active workspace, see `wrap_cursor`).
    pub fn move_cursor(&mut self, delta: i32, count: usize)
        requires
            old(self)@.mcp_cursor < i32::MAX,
            old(self)@.skills_cursor < i32::MAX,
            old(self)@.steering_cursor < i32::MAX,
            count <= i32::MAX,
        ensures
            ({
                let o = old(self)@;
                let wrap = |c: usize| ((c + delta) % (count as int)) as usize;
                if count == 0 {
                    final(self)@ == o
                } else {
                    match o.active_section {
                        SidebarSection::Workspaces => final(self)@ == o,
                        SidebarSection::Mcp => final(self)@ == (SidebarView { mcp_cursor: wrap(o.mcp_cursor), ..o }),
                        SidebarSection::Skills => final(self)@ == (SidebarView { skills_cursor: wrap(o.skills_cursor), ..o }),
                        SidebarSection::Steering => final(self)@ == (SidebarView {
                            steering_cursor: wrap(o.steering_cursor),
                            ..o
                        }),
                    }
                }
            }),
    {
        match self.active_section {
            SidebarSection::Workspaces => {},
            SidebarSection::Mcp => {
                if let Some(n) = wrap_cursor(self.mcp_cursor, delta, count) {
                    self.mcp_cursor = n;
                }
            },
            SidebarSection::Skills => {
                if let Some(n) = wrap_cursor(self.skills_cursor, delta, count) {
                    self.skills_cursor = n;
                }
            },
            SidebarSection::Steering => {
                if let Some(n) = wrap_cursor(self.steering_cursor, delta, count) {
                    self.steering_cursor = n;
                }
            },
        }
    }
}

/// A steering file's display name: its file name without a trailing
/// `.md`.
pub fn steering_display_name(name: &str) -> (r: String)
    ensures
        r@ == (if name@.len() >= 3 && name@.subrange(name@.len() - 3, name@.len() as int) == ".md"@ {
            name@.subrange(0, name@.len() - 3)
        } else {
            name@
        }),
{
    let v = chars_of(name);
    let n = v.len();
    if n >= 3 && v[n - 3] == '.' && v[n - 2] == 'm' && v[n - 1] == 'd' {
        proof {
            reveal_strlit(".md");
            assert(v@.subrange(n - 3, n as int) =~= ".md"@);
        }
        string_of(&v, 0, n - 3)
    } else {
        proof {
            reveal_strlit(".md");
            if n >= 3 {
                assert(v@.subrange(n - 3, n as int) != ".md"@) by {
                    if v@.subrange(n - 3, n as int) == ".md"@ {
                        assert(v@[n - 3] == v@.subrange(n - 3, n as int)[0]);
                        assert(v@[n - 2] == v@.subrange(n - 3, n as int)[1]);
                        assert(v@[n - 1] == v@.subrange(n - 3, n as int)[2]);
                    }
                }
            }
        }
        string_of(&v, 0, n)
    }
}

} // verus!
