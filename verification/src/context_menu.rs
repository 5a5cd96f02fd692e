//! The right-click menus: the terminal's menu (for a link under the
//! pointer, or the clipboard, the command block and the selection) and a
//! tab's colour menu.

use vstd::prelude::*;
use vstd::string::StringExecFns;

verus! {

/// What a menu row does when chosen.
#[derive(Debug, Clone, PartialEq, Eq)]
pub enum MenuAction {
    OpenLink(String),
    CopyLink(String),
    Copy,
    Paste,
    Clear,
    /// Copy the output of block `.1` of terminal `.0`.
    CopyBlockOutput(usize, usize),
    ReRunCommand(String),
    SendToChat,
    /// Colour tab `.0` with the given bright palette entry, or reset it.
    SetTabColor(usize, Option<usize>),
}

/// One row of a menu.
#[derive(Debug, Clone, PartialEq, Eq)]
pub struct MenuItem {
    pub label: String,
    pub keybind: Option<String>,
    pub action: MenuAction,
    /// The bright palette entry shown as a swatch, if any.
    pub swatch: Option<usize>,
}

/// Row `it` reads `label`, shows `keybind`, and has no swatch.
pub open spec fn row_is(it: MenuItem, label: Seq<char>, keybind: Option<Seq<char>>) -> bool {
    &&& it.label@ == label
    &&& it.swatch is None
    &&& match keybind {
        Some(k) => it.keybind is Some && it.keybind->0@ == k,
        None => it.keybind is None,
    }
}

fn row(label: &str, keybind: Option<&str>, action: MenuAction) -> (r: MenuItem)
    ensures
        row_is(
            r,
            label@,
            match keybind {
                Some(k) => Some(k@),
                None => None,
            },
        ),
        r.action == action,
{
    let kb = match keybind {
        Some(k) => Some(String::from_str(k)),
        None => None,
    };
    MenuItem { label: String::from_str(label), keybind: kb, action, swatch: None }
}

/// The terminal's right-click menu. A link under the pointer gives only
/// "Open Link" and "Copy Link". Otherwise Copy, Paste and Clear, then, on
/// a command block (`block`: its id and command), "Copy Output" and
/// "Re-run Command", then "Send to Chat" when text is selected.
/// `terminal_id` is the focused terminal.
pub fn terminal_menu(link: Option<&str>, terminal_id: usize, block: Option<(usize, &str)>, has_selection: bool) -> (r:
    Vec<MenuItem>)
    ensures
        match link {
            Some(l) => {
                &&& r@.len() == 2
                &&& row_is(r@[0], "Open Link"@, None)
                &&& r@[0].action matches MenuAction::OpenLink(t) && t@ == l@
                &&& row_is(r@[1], "Copy Link"@, None)
                &&& r@[1].action matches MenuAction::CopyLink(t) && t@ == l@
            },
            None => {
                let b: int = if block is Some { 2 } else { 0 };
                &&& r@.len() == 3 + b + (if has_selection { 1int } else { 0 })
                &&& row_is(r@[0], "Copy"@, Some("Cmd+C"@)) && r@[0].action == MenuAction::Copy
                &&& row_is(r@[1], "Paste"@, Some("Cmd+V"@)) && r@[1].action == MenuAction::Paste
                &&& row_is(r@[2], "Clear"@, Some("Cmd+K"@)) && r@[2].action == MenuAction::Clear
                &&& (match block {
                    Some((id, cmd)) => {
                        &&& row_is(r@[3], "Copy Output"@, Some("Leader y"@))
                        &&& r@[3].action == MenuAction::CopyBlockOutput(terminal_id, id)
                        &&& row_is(r@[4], "Re-run Command"@, Some("Leader r"@))
                        &&& r@[4].action matches MenuAction::ReRunCommand(c) && c@ == cmd@
                    },
                    None => true,
                })
                &&& has_selection ==> row_is(r@[3 + b], "Send to Chat"@, None) && r@[3 + b].action
                    == MenuAction::SendToChat
            },
        },
{
    if let Some(l) = link {
        let mut v: Vec<MenuItem> = Vec::new();
        v.push(row("Open Link", None, MenuAction::OpenLink(String::from_str(l))));
        v.push(row("Copy Link", None, MenuAction::CopyLink(String::from_str(l))));
        return v;
    }
    let mut v: Vec<MenuItem> = Vec::new();
    v.push(row("Copy", Some("Cmd+C"), MenuAction::Copy));
    v.push(row("Paste", Some("Cmd+V"), MenuAction::Paste));
    v.push(row("Clear", Some("Cmd+K"), MenuAction::Clear));
    if let Some((id, cmd)) = block {
        v.push(row("Copy Output", Some("Leader y"), MenuAction::CopyBlockOutput(terminal_id, id)));
        v.push(row("Re-run Command", Some("Leader r"), MenuAction::ReRunCommand(String::from_str(cmd))));
    }
    if has_selection {
        v.push(row("Send to Chat", None, MenuAction::SendToChat));
    }
    v
}

/// The colour names of the tab menu, for bright palette entries 1 to 7.
pub open spec fn color_name(i: int) -> Seq<char> {
    if i == 0 {
        "Red"@
    } else if i == 1 {
        "Green"@
    } else if i == 2 {
        "Yellow"@
    } else if i == 3 {
        "Blue"@
    } else if i == 4 {
        "Magenta"@
    } else if i == 5 {
        "Cyan"@
    } else {
        "White"@
    }
}

fn color_label(i: usize) -> (r: String)
    requires
        i < 7,
    ensures
        r@ == color_name(i as int),
{
    if i == 0 {
        String::from_str("Red")
    } else if i == 1 {
        String::from_str("Green")
    } else if i == 2 {
        String::from_str("Yellow")
    } else if i == 3 {
        String::from_str("Blue")
    } else if i == 4 {
        String::from_str("Magenta")
    } else if i == 5 {
        String::from_str("Cyan")
    } else {
        String::from_str("White")
    }
}

/// A tab's right-click menu: one row per bright colour (palette entries 1
/// to 7, each with its swatch), then "Reset".
pub fn tab_color_menu(tab_idx: usize) -> (r: Vec<MenuItem>)
    ensures
        r@.len() == 8,
        forall|i: int|
            0 <= i < 7 ==> {
                &&& (#[trigger] r@[i]).label@ == color_name(i)
                &&& r@[i].keybind is None
                &&& r@[i].swatch == Some((i + 1) as usize)
                &&& r@[i].action == MenuAction::SetTabColor(tab_idx, Some((i + 1) as usize))
            },
        row_is(r@[7], "Reset"@, None),
        r@[7].action == MenuAction::SetTabColor(tab_idx, None),
{
    let mut v: Vec<MenuItem> = Vec::new();
    let mut i: usize = 0;
    while i < 7
        invariant
            i <= 7,
            v@.len() == i,
            forall|j: int|
                0 <= j < i ==> {
                    &&& (#[trigger] v@[j]).label@ == color_name(j)
                    &&& v@[j].keybind is None
                    &&& v@[j].swatch == Some((j + 1) as usize)
                    &&& v@[j].action == MenuAction::SetTabColor(tab_idx, Some((j + 1) as usize))
                },
        decreases 7 - i,
    {
        v.push(
            MenuItem {
                label: color_label(i),
                keybind: None,
                action: MenuAction::SetTabColor(tab_idx, Some(i + 1)),
                swatch: Some(i + 1),
            },
        );
        i = i + 1;
    }
    v.push(row("Reset", None, MenuAction::SetTabColor(tab_idx, None)));
    v
}

} // verus!
