//! Leader-chord actions and the single-key leader dispatch table built from
//! the configured `LEADER` bindings.

use vstd::prelude::*;

use crate::panes::FocusDir;
use crate::strs::str_eq;

verus! {

/// One leader-key action.
#[derive(Debug, Clone, Copy, PartialEq, Eq, Structural)]
pub enum LeaderAction {
    NewTab,
    CloseTab,
    NextTab,
    PrevTab,
    RenameTab,
    SplitHorizontal,
    SplitVertical,
    ClosePane,
    ZoomPane,
    FocusPane(FocusDir),
    ToggleAiPanel,
    ExplainLastOutput,
    FixLastError,
    UndoLastWrite,
    NewWorkspace,
    CloseWorkspace,
    NextWorkspace,
    PrevWorkspace,
    RenameWorkspace,
    ToggleWorkspaceSidebar,
    OpenCommandPalette,
}

/// The action a configuration action name denotes, if any.
pub open spec fn action_named(s: Seq<char>) -> Option<LeaderAction> {
    if s == "NewTab"@ {
        Some(LeaderAction::NewTab)
    } else if s == "CloseTab"@ {
        Some(LeaderAction::CloseTab)
    } else if s == "NextTab"@ {
        Some(LeaderAction::NextTab)
    } else if s == "PrevTab"@ {
        Some(LeaderAction::PrevTab)
    } else if s == "RenameTab"@ {
        Some(LeaderAction::RenameTab)
    } else if s == "SplitHorizontal"@ {
        Some(LeaderAction::SplitHorizontal)
    } else if s == "SplitVertical"@ {
        Some(LeaderAction::SplitVertical)
    } else if s == "ClosePane"@ {
        Some(LeaderAction::ClosePane)
    } else if s == "ZoomPane"@ {
        Some(LeaderAction::ZoomPane)
    } else if s == "FocusPaneLeft"@ {
        Some(LeaderAction::FocusPane(FocusDir::Left))
    } else if s == "FocusPaneRight"@ {
        Some(LeaderAction::FocusPane(FocusDir::Right))
    } else if s == "FocusPaneUp"@ {
        Some(LeaderAction::FocusPane(FocusDir::Up))
    } else if s == "FocusPaneDown"@ {
        Some(LeaderAction::FocusPane(FocusDir::Down))
    } else if s == "ToggleAiPanel"@ {
        Some(LeaderAction::ToggleAiPanel)
    } else if s == "ExplainLastOutput"@ {
        Some(LeaderAction::ExplainLastOutput)
    } else if s == "FixLastError"@ {
        Some(LeaderAction::FixLastError)
    } else if s == "UndoLastWrite"@ {
        Some(LeaderAction::UndoLastWrite)
    } else if s == "NewWorkspace"@ {
        Some(LeaderAction::NewWorkspace)
    } else if s == "CloseWorkspace"@ {
        Some(LeaderAction::CloseWorkspace)
    } else if s == "NextWorkspace"@ {
        Some(LeaderAction::NextWorkspace)
    } else if s == "PrevWorkspace"@ {
        Some(LeaderAction::PrevWorkspace)
    } else if s == "RenameWorkspace"@ {
        Some(LeaderAction::RenameWorkspace)
    } else if s == "ToggleWorkspaceSidebar"@ {
        Some(LeaderAction::ToggleWorkspaceSidebar)
    } else if s == "CommandPalette"@ {
        Some(LeaderAction::OpenCommandPalette)
    } else {
        None
    }
}

/// The configuration name of each action.
pub open spec fn action_name(a: LeaderAction) -> Seq<char> {
    match a {
        LeaderAction::NewTab => "NewTab"@,
        LeaderAction::CloseTab => "CloseTab"@,
        LeaderAction::NextTab => "NextTab"@,
        LeaderAction::PrevTab => "PrevTab"@,
        LeaderAction::RenameTab => "RenameTab"@,
        LeaderAction::SplitHorizontal => "SplitHorizontal"@,
        LeaderAction::SplitVertical => "SplitVertical"@,
        LeaderAction::ClosePane => "ClosePane"@,
        LeaderAction::ZoomPane => "ZoomPane"@,
        LeaderAction::FocusPane(FocusDir::Left) => "FocusPaneLeft"@,
        LeaderAction::FocusPane(FocusDir::Right) => "FocusPaneRight"@,
        LeaderAction::FocusPane(FocusDir::Up) => "FocusPaneUp"@,
        LeaderAction::FocusPane(FocusDir::Down) => "FocusPaneDown"@,
        LeaderAction::ToggleAiPanel => "ToggleAiPanel"@,
        LeaderAction::ExplainLastOutput => "ExplainLastOutput"@,
        LeaderAction::FixLastError => "FixLastError"@,
        LeaderAction::UndoLastWrite => "UndoLastWrite"@,
        LeaderAction::NewWorkspace => "NewWorkspace"@,
        LeaderAction::CloseWorkspace => "CloseWorkspace"@,
        LeaderAction::NextWorkspace => "NextWorkspace"@,
        LeaderAction::PrevWorkspace => "PrevWorkspace"@,
        LeaderAction::RenameWorkspace => "RenameWorkspace"@,
        LeaderAction::ToggleWorkspaceSidebar => "ToggleWorkspaceSidebar"@,
        LeaderAction::OpenCommandPalette => "CommandPalette"@,
    }
}

/// The characters of the action names, which tell any two apart.
proof fn lemma_action_name_chars()
    ensures
        "NewTab"@.len() == 6 && "NewTab"@[0] == 'N' && "NewTab"@[1] == 'e' && "NewTab"@[2] == 'w' && "NewTab"@[3] == 'T' && "NewTab"@[4] == 'a' && "NewTab"@[5] == 'b',
        "CloseTab"@.len() == 8 && "CloseTab"@[0] == 'C' && "CloseTab"@[1] == 'l' && "CloseTab"@[2] == 'o' && "CloseTab"@[3] == 's' && "CloseTab"@[4] == 'e' && "CloseTab"@[5] == 'T' && "CloseTab"@[6] == 'a' && "CloseTab"@[7] == 'b',
        "NextTab"@.len() == 7 && "NextTab"@[0] == 'N' && "NextTab"@[1] == 'e' && "NextTab"@[2] == 'x' && "NextTab"@[3] == 't' && "NextTab"@[4] == 'T' && "NextTab"@[5] == 'a' && "NextTab"@[6] == 'b',
        "PrevTab"@.len() == 7 && "PrevTab"@[0] == 'P' && "PrevTab"@[1] == 'r' && "PrevTab"@[2] == 'e' && "PrevTab"@[3] == 'v' && "PrevTab"@[4] == 'T' && "PrevTab"@[5] == 'a' && "PrevTab"@[6] == 'b',
        "RenameTab"@.len() == 9 && "RenameTab"@[0] == 'R' && "RenameTab"@[1] == 'e' && "RenameTab"@[2] == 'n' && "RenameTab"@[3] == 'a' && "RenameTab"@[4] == 'm' && "RenameTab"@[5] == 'e' && "RenameTab"@[6] == 'T' && "RenameTab"@[7] == 'a' && "RenameTab"@[8] == 'b',
        "SplitHorizontal"@.len() == 15 && "SplitHorizontal"@[0] == 'S' && "SplitHorizontal"@[1] == 'p' && "SplitHorizontal"@[2] == 'l' && "SplitHorizontal"@[3] == 'i' && "SplitHorizontal"@[4] == 't' && "SplitHorizontal"@[5] == 'H' && "SplitHorizontal"@[6] == 'o' && "SplitHorizontal"@[7] == 'r' && "SplitHorizontal"@[8] == 'i' && "SplitHorizontal"@[9] == 'z' && "SplitHorizontal"@[10] == 'o' && "SplitHorizontal"@[11] == 'n' && "SplitHorizontal"@[12] == 't' && "SplitHorizontal"@[13] == 'a' && "SplitHorizontal"@[14] == 'l',
        "SplitVertical"@.len() == 13 && "SplitVertical"@[0] == 'S' && "SplitVertical"@[1] == 'p' && "SplitVertical"@[2] == 'l' && "SplitVertical"@[3] == 'i' && "SplitVertical"@[4] == 't' && "SplitVertical"@[5] == 'V' && "SplitVertical"@[6] == 'e' && "SplitVertical"@[7] == 'r' && "SplitVertical"@[8] == 't' && "SplitVertical"@[9] == 'i' && "SplitVertical"@[10] == 'c' && "SplitVertical"@[11] == 'a' && "SplitVertical"@[12] == 'l',
        "ClosePane"@.len() == 9 && "ClosePane"@[0] == 'C' && "ClosePane"@[1] == 'l' && "ClosePane"@[2] == 'o' && "ClosePane"@[3] == 's' && "ClosePane"@[4] == 'e' && "ClosePane"@[5] == 'P' && "ClosePane"@[6] == 'a' && "ClosePane"@[7] == 'n' && "ClosePane"@[8] == 'e',
        "ZoomPane"@.len() == 8 && "ZoomPane"@[0] == 'Z' && "ZoomPane"@[1] == 'o' && "ZoomPane"@[2] == 'o' && "ZoomPane"@[3] == 'm' && "ZoomPane"@[4] == 'P' && "ZoomPane"@[5] == 'a' && "ZoomPane"@[6] == 'n' && "ZoomPane"@[7] == 'e',
        "FocusPaneLeft"@.len() == 13 && "FocusPaneLeft"@[0] == 'F' && "FocusPaneLeft"@[1] == 'o' && "FocusPaneLeft"@[2] == 'c' && "FocusPaneLeft"@[3] == 'u' && "FocusPaneLeft"@[4] == 's' && "FocusPaneLeft"@[5] == 'P' && "FocusPaneLeft"@[6] == 'a' && "FocusPaneLeft"@[7] == 'n' && "FocusPaneLeft"@[8] == 'e' && "FocusPaneLeft"@[9] == 'L' && "FocusPaneLeft"@[10] == 'e' && "FocusPaneLeft"@[11] == 'f' && "FocusPaneLeft"@[12] == 't',
        "FocusPaneRight"@.len() == 14 && "FocusPaneRight"@[0] == 'F' && "FocusPaneRight"@[1] == 'o' && "FocusPaneRight"@[2] == 'c' && "FocusPaneRight"@[3] == 'u' && "FocusPaneRight"@[4] == 's' && "FocusPaneRight"@[5] == 'P' && "FocusPaneRight"@[6] == 'a' && "FocusPaneRight"@[7] == 'n' && "FocusPaneRight"@[8] == 'e' && "FocusPaneRight"@[9] == 'R' && "FocusPaneRight"@[10] == 'i' && "FocusPaneRight"@[11] == 'g' && "FocusPaneRight"@[12] == 'h' && "FocusPaneRight"@[13] == 't',
        "FocusPaneUp"@.len() == 11 && "FocusPaneUp"@[0] == 'F' && "FocusPaneUp"@[1] == 'o' && "FocusPaneUp"@[2] == 'c' && "FocusPaneUp"@[3] == 'u' && "FocusPaneUp"@[4] == 's' && "FocusPaneUp"@[5] == 'P' && "FocusPaneUp"@[6] == 'a' && "FocusPaneUp"@[7] == 'n' && "FocusPaneUp"@[8] == 'e' && "FocusPaneUp"@[9] == 'U' && "FocusPaneUp"@[10] == 'p',
        "FocusPaneDown"@.len() == 13 && "FocusPaneDown"@[0] == 'F' && "FocusPaneDown"@[1] == 'o' && "FocusPaneDown"@[2] == 'c' && "FocusPaneDown"@[3] == 'u' && "FocusPaneDown"@[4] == 's' && "FocusPaneDown"@[5] == 'P' && "FocusPaneDown"@[6] == 'a' && "FocusPaneDown"@[7] == 'n' && "FocusPaneDown"@[8] == 'e' && "FocusPaneDown"@[9] == 'D' && "FocusPaneDown"@[10] == 'o' && "FocusPaneDown"@[11] == 'w' && "FocusPaneDown"@[12] == 'n',
        "ToggleAiPanel"@.len() == 13 && "ToggleAiPanel"@[0] == 'T' && "ToggleAiPanel"@[1] == 'o' && "ToggleAiPanel"@[2] == 'g' && "ToggleAiPanel"@[3] == 'g' && "ToggleAiPanel"@[4] == 'l' && "ToggleAiPanel"@[5] == 'e' && "ToggleAiPanel"@[6] == 'A' && "ToggleAiPanel"@[7] == 'i' && "ToggleAiPanel"@[8] == 'P' && "ToggleAiPanel"@[9] == 'a' && "ToggleAiPanel"@[10] == 'n' && "ToggleAiPanel"@[11] == 'e' && "ToggleAiPanel"@[12] == 'l',
        "ExplainLastOutput"@.len() == 17 && "ExplainLastOutput"@[0] == 'E' && "ExplainLastOutput"@[1] == 'x' && "ExplainLastOutput"@[2] == 'p' && "ExplainLastOutput"@[3] == 'l' && "ExplainLastOutput"@[4] == 'a' && "ExplainLastOutput"@[5] == 'i' && "ExplainLastOutput"@[6] == 'n' && "ExplainLastOutput"@[7] == 'L' && "ExplainLastOutput"@[8] == 'a' && "ExplainLastOutput"@[9] == 's' && "ExplainLastOutput"@[10] == 't' && "ExplainLastOutput"@[11] == 'O' && "ExplainLastOutput"@[12] == 'u' && "ExplainLastOutput"@[13] == 't' && "ExplainLastOutput"@[14] == 'p' && "ExplainLastOutput"@[15] == 'u' && "ExplainLastOutput"@[16] == 't',
        "FixLastError"@.len() == 12 && "FixLastError"@[0] == 'F' && "FixLastError"@[1] == 'i' && "FixLastError"@[2] == 'x' && "FixLastError"@[3] == 'L' && "FixLastError"@[4] == 'a' && "FixLastError"@[5] == 's' && "FixLastError"@[6] == 't' && "FixLastError"@[7] == 'E' && "FixLastError"@[8] == 'r' && "FixLastError"@[9] == 'r' && "FixLastError"@[10] == 'o' && "FixLastError"@[11] == 'r',
        "UndoLastWrite"@.len() == 13 && "UndoLastWrite"@[0] == 'U' && "UndoLastWrite"@[1] == 'n' && "UndoLastWrite"@[2] == 'd' && "UndoLastWrite"@[3] == 'o' && "UndoLastWrite"@[4] == 'L' && "UndoLastWrite"@[5] == 'a' && "UndoLastWrite"@[6] == 's' && "UndoLastWrite"@[7] == 't' && "UndoLastWrite"@[8] == 'W' && "UndoLastWrite"@[9] == 'r' && "UndoLastWrite"@[10] == 'i' && "UndoLastWrite"@[11] == 't' && "UndoLastWrite"@[12] == 'e',
        "NewWorkspace"@.len() == 12 && "NewWorkspace"@[0] == 'N' && "NewWorkspace"@[1] == 'e' && "NewWorkspace"@[2] == 'w' && "NewWorkspace"@[3] == 'W' && "NewWorkspace"@[4] == 'o' && "NewWorkspace"@[5] == 'r' && "NewWorkspace"@[6] == 'k' && "NewWorkspace"@[7] == 's' && "NewWorkspace"@[8] == 'p' && "NewWorkspace"@[9] == 'a' && "NewWorkspace"@[10] == 'c' && "NewWorkspace"@[11] == 'e',
        "CloseWorkspace"@.len() == 14 && "CloseWorkspace"@[0] == 'C' && "CloseWorkspace"@[1] == 'l' && "CloseWorkspace"@[2] == 'o' && "CloseWorkspace"@[3] == 's' && "CloseWorkspace"@[4] == 'e' && "CloseWorkspace"@[5] == 'W' && "CloseWorkspace"@[6] == 'o' && "CloseWorkspace"@[7] == 'r' && "CloseWorkspace"@[8] == 'k' && "CloseWorkspace"@[9] == 's' && "CloseWorkspace"@[10] == 'p' && "CloseWorkspace"@[11] == 'a' && "CloseWorkspace"@[12] == 'c' && "CloseWorkspace"@[13] == 'e',
        "NextWorkspace"@.len() == 13 && "NextWorkspace"@[0] == 'N' && "NextWorkspace"@[1] == 'e' && "NextWorkspace"@[2] == 'x' && "NextWorkspace"@[3] == 't' && "NextWorkspace"@[4] == 'W' && "NextWorkspace"@[5] == 'o' && "NextWorkspace"@[6] == 'r' && "NextWorkspace"@[7] == 'k' && "NextWorkspace"@[8] == 's' && "NextWorkspace"@[9] == 'p' && "NextWorkspace"@[10] == 'a' && "NextWorkspace"@[11] == 'c' && "NextWorkspace"@[12] == 'e',
        "PrevWorkspace"@.len() == 13 && "PrevWorkspace"@[0] == 'P' && "PrevWorkspace"@[1] == 'r' && "PrevWorkspace"@[2] == 'e' && "PrevWorkspace"@[3] == 'v' && "PrevWorkspace"@[4] == 'W' && "PrevWorkspace"@[5] == 'o' && "PrevWorkspace"@[6] == 'r' && "PrevWorkspace"@[7] == 'k' && "PrevWorkspace"@[8] == 's' && "PrevWorkspace"@[9] == 'p' && "PrevWorkspace"@[10] == 'a' && "PrevWorkspace"@[11] == 'c' && "PrevWorkspace"@[12] == 'e',
        "RenameWorkspace"@.len() == 15 && "RenameWorkspace"@[0] == 'R' && "RenameWorkspace"@[1] == 'e' && "RenameWorkspace"@[2] == 'n' && "RenameWorkspace"@[3] == 'a' && "RenameWorkspace"@[4] == 'm' && "RenameWorkspace"@[5] == 'e' && "RenameWorkspace"@[6] == 'W' && "RenameWorkspace"@[7] == 'o' && "RenameWorkspace"@[8] == 'r' && "RenameWorkspace"@[9] == 'k' && "RenameWorkspace"@[10] == 's' && "RenameWorkspace"@[11] == 'p' && "RenameWorkspace"@[12] == 'a' && "RenameWorkspace"@[13] == 'c' && "RenameWorkspace"@[14] == 'e',
        "ToggleWorkspaceSidebar"@.len() == 22 && "ToggleWorkspaceSidebar"@[0] == 'T' && "ToggleWorkspaceSidebar"@[1] == 'o' && "ToggleWorkspaceSidebar"@[2] == 'g' && "ToggleWorkspaceSidebar"@[3] == 'g' && "ToggleWorkspaceSidebar"@[4] == 'l' && "ToggleWorkspaceSidebar"@[5] == 'e' && "ToggleWorkspaceSidebar"@[6] == 'W' && "ToggleWorkspaceSidebar"@[7] == 'o' && "ToggleWorkspaceSidebar"@[8] == 'r' && "ToggleWorkspaceSidebar"@[9] == 'k' && "ToggleWorkspaceSidebar"@[10] == 's' && "ToggleWorkspaceSidebar"@[11] == 'p' && "ToggleWorkspaceSidebar"@[12] == 'a' && "ToggleWorkspaceSidebar"@[13] == 'c' && "ToggleWorkspaceSidebar"@[14] == 'e' && "ToggleWorkspaceSidebar"@[15] == 'S' && "ToggleWorkspaceSidebar"@[16] == 'i' && "ToggleWorkspaceSidebar"@[17] == 'd' && "ToggleWorkspaceSidebar"@[18] == 'e' && "ToggleWorkspaceSidebar"@[19] == 'b' && "ToggleWorkspaceSidebar"@[20] == 'a' && "ToggleWorkspaceSidebar"@[21] == 'r',
        "CommandPalette"@.len() == 14 && "CommandPalette"@[0] == 'C' && "CommandPalette"@[1] == 'o' && "CommandPalette"@[2] == 'm' && "CommandPalette"@[3] == 'm' && "CommandPalette"@[4] == 'a' && "CommandPalette"@[5] == 'n' && "CommandPalette"@[6] == 'd' && "CommandPalette"@[7] == 'P' && "CommandPalette"@[8] == 'a' && "CommandPalette"@[9] == 'l' && "CommandPalette"@[10] == 'e' && "CommandPalette"@[11] == 't' && "CommandPalette"@[12] == 't' && "CommandPalette"@[13] == 'e',
{
    reveal_strlit("NewTab");
    assert("NewTab"@.len() == 6 && "NewTab"@[0] == 'N' && "NewTab"@[1] == 'e' && "NewTab"@[2] == 'w' && "NewTab"@[3] == 'T' && "NewTab"@[4] == 'a' && "NewTab"@[5] == 'b');
    reveal_strlit("CloseTab");
    assert("CloseTab"@.len() == 8 && "CloseTab"@[0] == 'C' && "CloseTab"@[1] == 'l' && "CloseTab"@[2] == 'o' && "CloseTab"@[3] == 's' && "CloseTab"@[4] == 'e' && "CloseTab"@[5] == 'T' && "CloseTab"@[6] == 'a' && "CloseTab"@[7] == 'b');
    reveal_strlit("NextTab");
    assert("NextTab"@.len() == 7 && "NextTab"@[0] == 'N' && "NextTab"@[1] == 'e' && "NextTab"@[2] == 'x' && "NextTab"@[3] == 't' && "NextTab"@[4] == 'T' && "NextTab"@[5] == 'a' && "NextTab"@[6] == 'b');
    reveal_strlit("PrevTab");
    assert("PrevTab"@.len() == 7 && "PrevTab"@[0] == 'P' && "PrevTab"@[1] == 'r' && "PrevTab"@[2] == 'e' && "PrevTab"@[3] == 'v' && "PrevTab"@[4] == 'T' && "PrevTab"@[5] == 'a' && "PrevTab"@[6] == 'b');
    reveal_strlit("RenameTab");
    assert("RenameTab"@.len() == 9 && "RenameTab"@[0] == 'R' && "RenameTab"@[1] == 'e' && "RenameTab"@[2] == 'n' && "RenameTab"@[3] == 'a' && "RenameTab"@[4] == 'm' && "RenameTab"@[5] == 'e' && "RenameTab"@[6] == 'T' && "RenameTab"@[7] == 'a' && "RenameTab"@[8] == 'b');
    reveal_strlit("SplitHorizontal");
    assert("SplitHorizontal"@.len() == 15 && "SplitHorizontal"@[0] == 'S' && "SplitHorizontal"@[1] == 'p' && "SplitHorizontal"@[2] == 'l' && "SplitHorizontal"@[3] == 'i' && "SplitHorizontal"@[4] == 't' && "SplitHorizontal"@[5] == 'H' && "SplitHorizontal"@[6] == 'o' && "SplitHorizontal"@[7] == 'r' && "SplitHorizontal"@[8] == 'i' && "SplitHorizontal"@[9] == 'z' && "SplitHorizontal"@[10] == 'o' && "SplitHorizontal"@[11] == 'n' && "SplitHorizontal"@[12] == 't' && "SplitHorizontal"@[13] == 'a' && "SplitHorizontal"@[14] == 'l');
    reveal_strlit("SplitVertical");
    assert("SplitVertical"@.len() == 13 && "SplitVertical"@[0] == 'S' && "SplitVertical"@[1] == 'p' && "SplitVertical"@[2] == 'l' && "SplitVertical"@[3] == 'i' && "SplitVertical"@[4] == 't' && "SplitVertical"@[5] == 'V' && "SplitVertical"@[6] == 'e' && "SplitVertical"@[7] == 'r' && "SplitVertical"@[8] == 't' && "SplitVertical"@[9] == 'i' && "SplitVertical"@[10] == 'c' && "SplitVertical"@[11] == 'a' && "SplitVertical"@[12] == 'l');
    reveal_strlit("ClosePane");
    assert("ClosePane"@.len() == 9 && "ClosePane"@[0] == 'C' && "ClosePane"@[1] == 'l' && "ClosePane"@[2] == 'o' && "ClosePane"@[3] == 's' && "ClosePane"@[4] == 'e' && "ClosePane"@[5] == 'P' && "ClosePane"@[6] == 'a' && "ClosePane"@[7] == 'n' && "ClosePane"@[8] == 'e');
    reveal_strlit("ZoomPane");
    assert("ZoomPane"@.len() == 8 && "ZoomPane"@[0] == 'Z' && "ZoomPane"@[1] == 'o' && "ZoomPane"@[2] == 'o' && "ZoomPane"@[3] == 'm' && "ZoomPane"@[4] == 'P' && "ZoomPane"@[5] == 'a' && "ZoomPane"@[6] == 'n' && "ZoomPane"@[7] == 'e');
    reveal_strlit("FocusPaneLeft");
    assert("FocusPaneLeft"@.len() == 13 && "FocusPaneLeft"@[0] == 'F' && "FocusPaneLeft"@[1] == 'o' && "FocusPaneLeft"@[2] == 'c' && "FocusPaneLeft"@[3] == 'u' && "FocusPaneLeft"@[4] == 's' && "FocusPaneLeft"@[5] == 'P' && "FocusPaneLeft"@[6] == 'a' && "FocusPaneLeft"@[7] == 'n' && "FocusPaneLeft"@[8] == 'e' && "FocusPaneLeft"@[9] == 'L' && "FocusPaneLeft"@[10] == 'e' && "FocusPaneLeft"@[11] == 'f' && "FocusPaneLeft"@[12] == 't');
    reveal_strlit("FocusPaneRight");
    assert("FocusPaneRight"@.len() == 14 && "FocusPaneRight"@[0] == 'F' && "FocusPaneRight"@[1] == 'o' && "FocusPaneRight"@[2] == 'c' && "FocusPaneRight"@[3] == 'u' && "FocusPaneRight"@[4] == 's' && "FocusPaneRight"@[5] == 'P' && "FocusPaneRight"@[6] == 'a' && "FocusPaneRight"@[7] == 'n' && "FocusPaneRight"@[8] == 'e' && "FocusPaneRight"@[9] == 'R' && "FocusPaneRight"@[10] == 'i' && "FocusPaneRight"@[11] == 'g' && "FocusPaneRight"@[12] == 'h' && "FocusPaneRight"@[13] == 't');
    reveal_strlit("FocusPaneUp");
    assert("FocusPaneUp"@.len() == 11 && "FocusPaneUp"@[0] == 'F' && "FocusPaneUp"@[1] == 'o' && "FocusPaneUp"@[2] == 'c' && "FocusPaneUp"@[3] == 'u' && "FocusPaneUp"@[4] == 's' && "FocusPaneUp"@[5] == 'P' && "FocusPaneUp"@[6] == 'a' && "FocusPaneUp"@[7] == 'n' && "FocusPaneUp"@[8] == 'e' && "FocusPaneUp"@[9] == 'U' && "FocusPaneUp"@[10] == 'p');
    reveal_strlit("FocusPaneDown");
    assert("FocusPaneDown"@.len() == 13 && "FocusPaneDown"@[0] == 'F' && "FocusPaneDown"@[1] == 'o' && "FocusPaneDown"@[2] == 'c' && "FocusPaneDown"@[3] == 'u' && "FocusPaneDown"@[4] == 's' && "FocusPaneDown"@[5] == 'P' && "FocusPaneDown"@[6] == 'a' && "FocusPaneDown"@[7] == 'n' && "FocusPaneDown"@[8] == 'e' && "FocusPaneDown"@[9] == 'D' && "FocusPaneDown"@[10] == 'o' && "FocusPaneDown"@[11] == 'w' && "FocusPaneDown"@[12] == 'n');
    reveal_strlit("ToggleAiPanel");
    assert("ToggleAiPanel"@.len() == 13 && "ToggleAiPanel"@[0] == 'T' && "ToggleAiPanel"@[1] == 'o' && "ToggleAiPanel"@[2] == 'g' && "ToggleAiPanel"@[3] == 'g' && "ToggleAiPanel"@[4] == 'l' && "ToggleAiPanel"@[5] == 'e' && "ToggleAiPanel"@[6] == 'A' && "ToggleAiPanel"@[7] == 'i' && "ToggleAiPanel"@[8] == 'P' && "ToggleAiPanel"@[9] == 'a' && "ToggleAiPanel"@[10] == 'n' && "ToggleAiPanel"@[11] == 'e' && "ToggleAiPanel"@[12] == 'l');
    reveal_strlit("ExplainLastOutput");
    assert("ExplainLastOutput"@.len() == 17 && "ExplainLastOutput"@[0] == 'E' && "ExplainLastOutput"@[1] == 'x' && "ExplainLastOutput"@[2] == 'p' && "ExplainLastOutput"@[3] == 'l' && "ExplainLastOutput"@[4] == 'a' && "ExplainLastOutput"@[5] == 'i' && "ExplainLastOutput"@[6] == 'n' && "ExplainLastOutput"@[7] == 'L' && "ExplainLastOutput"@[8] == 'a' && "ExplainLastOutput"@[9] == 's' && "ExplainLastOutput"@[10] == 't' && "ExplainLastOutput"@[11] == 'O' && "ExplainLastOutput"@[12] == 'u' && "ExplainLastOutput"@[13] == 't' && "ExplainLastOutput"@[14] == 'p' && "ExplainLastOutput"@[15] == 'u' && "ExplainLastOutput"@[16] == 't');
    reveal_strlit("FixLastError");
    assert("FixLastError"@.len() == 12 && "FixLastError"@[0] == 'F' && "FixLastError"@[1] == 'i' && "FixLastError"@[2] == 'x' && "FixLastError"@[3] == 'L' && "FixLastError"@[4] == 'a' && "FixLastError"@[5] == 's' && "FixLastError"@[6] == 't' && "FixLastError"@[7] == 'E' && "FixLastError"@[8] == 'r' && "FixLastError"@[9] == 'r' && "FixLastError"@[10] == 'o' && "FixLastError"@[11] == 'r');
    reveal_strlit("UndoLastWrite");
    assert("UndoLastWrite"@.len() == 13 && "UndoLastWrite"@[0] == 'U' && "UndoLastWrite"@[1] == 'n' && "UndoLastWrite"@[2] == 'd' && "UndoLastWrite"@[3] == 'o' && "UndoLastWrite"@[4] == 'L' && "UndoLastWrite"@[5] == 'a' && "UndoLastWrite"@[6] == 's' && "UndoLastWrite"@[7] == 't' && "UndoLastWrite"@[8] == 'W' && "UndoLastWrite"@[9] == 'r' && "UndoLastWrite"@[10] == 'i' && "UndoLastWrite"@[11] == 't' && "UndoLastWrite"@[12] == 'e');
    reveal_strlit("NewWorkspace");
    assert("NewWorkspace"@.len() == 12 && "NewWorkspace"@[0] == 'N' && "NewWorkspace"@[1] == 'e' && "NewWorkspace"@[2] == 'w' && "NewWorkspace"@[3] == 'W' && "NewWorkspace"@[4] == 'o' && "NewWorkspace"@[5] == 'r' && "NewWorkspace"@[6] == 'k' && "NewWorkspace"@[7] == 's' && "NewWorkspace"@[8] == 'p' && "NewWorkspace"@[9] == 'a' && "NewWorkspace"@[10] == 'c' && "NewWorkspace"@[11] == 'e');
    reveal_strlit("CloseWorkspace");
    assert("CloseWorkspace"@.len() == 14 && "CloseWorkspace"@[0] == 'C' && "CloseWorkspace"@[1] == 'l' && "CloseWorkspace"@[2] == 'o' && "CloseWorkspace"@[3] == 's' && "CloseWorkspace"@[4] == 'e' && "CloseWorkspace"@[5] == 'W' && "CloseWorkspace"@[6] == 'o' && "CloseWorkspace"@[7] == 'r' && "CloseWorkspace"@[8] == 'k' && "CloseWorkspace"@[9] == 's' && "CloseWorkspace"@[10] == 'p' && "CloseWorkspace"@[11] == 'a' && "CloseWorkspace"@[12] == 'c' && "CloseWorkspace"@[13] == 'e');
    reveal_strlit("NextWorkspace");
    assert("NextWorkspace"@.len() == 13 && "NextWorkspace"@[0] == 'N' && "NextWorkspace"@[1] == 'e' && "NextWorkspace"@[2] == 'x' && "NextWorkspace"@[3] == 't' && "NextWorkspace"@[4] == 'W' && "NextWorkspace"@[5] == 'o' && "NextWorkspace"@[6] == 'r' && "NextWorkspace"@[7] == 'k' && "NextWorkspace"@[8] == 's' && "NextWorkspace"@[9] == 'p' && "NextWorkspace"@[10] == 'a' && "NextWorkspace"@[11] == 'c' && "NextWorkspace"@[12] == 'e');
    reveal_strlit("PrevWorkspace");
    assert("PrevWorkspace"@.len() == 13 && "PrevWorkspace"@[0] == 'P' && "PrevWorkspace"@[1] == 'r' && "PrevWorkspace"@[2] == 'e' && "PrevWorkspace"@[3] == 'v' && "PrevWorkspace"@[4] == 'W' && "PrevWorkspace"@[5] == 'o' && "PrevWorkspace"@[6] == 'r' && "PrevWorkspace"@[7] == 'k' && "PrevWorkspace"@[8] == 's' && "PrevWorkspace"@[9] == 'p' && "PrevWorkspace"@[10] == 'a' && "PrevWorkspace"@[11] == 'c' && "PrevWorkspace"@[12] == 'e');
    reveal_strlit("RenameWorkspace");
    assert("RenameWorkspace"@.len() == 15 && "RenameWorkspace"@[0] == 'R' && "RenameWorkspace"@[1] == 'e' && "RenameWorkspace"@[2] == 'n' && "RenameWorkspace"@[3] == 'a' && "RenameWorkspace"@[4] == 'm' && "RenameWorkspace"@[5] == 'e' && "RenameWorkspace"@[6] == 'W' && "RenameWorkspace"@[7] == 'o' && "RenameWorkspace"@[8] == 'r' && "RenameWorkspace"@[9] == 'k' && "RenameWorkspace"@[10] == 's' && "RenameWorkspace"@[11] == 'p' && "RenameWorkspace"@[12] == 'a' && "RenameWorkspace"@[13] == 'c' && "RenameWorkspace"@[14] == 'e');
    reveal_strlit("ToggleWorkspaceSidebar");
    assert("ToggleWorkspaceSidebar"@.len() == 22 && "ToggleWorkspaceSidebar"@[0] == 'T' && "ToggleWorkspaceSidebar"@[1] == 'o' && "ToggleWorkspaceSidebar"@[2] == 'g' && "ToggleWorkspaceSidebar"@[3] == 'g' && "ToggleWorkspaceSidebar"@[4] == 'l' && "ToggleWorkspaceSidebar"@[5] == 'e' && "ToggleWorkspaceSidebar"@[6] == 'W' && "ToggleWorkspaceSidebar"@[7] == 'o' && "ToggleWorkspaceSidebar"@[8] == 'r' && "ToggleWorkspaceSidebar"@[9] == 'k' && "ToggleWorkspaceSidebar"@[10] == 's' && "ToggleWorkspaceSidebar"@[11] == 'p' && "ToggleWorkspaceSidebar"@[12] == 'a' && "ToggleWorkspaceSidebar"@[13] == 'c' && "ToggleWorkspaceSidebar"@[14] == 'e' && "ToggleWorkspaceSidebar"@[15] == 'S' && "ToggleWorkspaceSidebar"@[16] == 'i' && "ToggleWorkspaceSidebar"@[17] == 'd' && "ToggleWorkspaceSidebar"@[18] == 'e' && "ToggleWorkspaceSidebar"@[19] == 'b' && "ToggleWorkspaceSidebar"@[20] == 'a' && "ToggleWorkspaceSidebar"@[21] == 'r');
    reveal_strlit("CommandPalette");
    assert("CommandPalette"@.len() == 14 && "CommandPalette"@[0] == 'C' && "CommandPalette"@[1] == 'o' && "CommandPalette"@[2] == 'm' && "CommandPalette"@[3] == 'm' && "CommandPalette"@[4] == 'a' && "CommandPalette"@[5] == 'n' && "CommandPalette"@[6] == 'd' && "CommandPalette"@[7] == 'P' && "CommandPalette"@[8] == 'a' && "CommandPalette"@[9] == 'l' && "CommandPalette"@[10] == 'e' && "CommandPalette"@[11] == 't' && "CommandPalette"@[12] == 't' && "CommandPalette"@[13] == 'e');
}

/// Action names and actions correspond one to one: every action is named
/// by its configuration name (`FocusPaneLeft` for focusing left,
/// `CommandPalette` for the palette, and so on), and a name that denotes
/// an action is that action's name.
#[verifier::spinoff_prover]
pub proof fn lemma_action_names(a: LeaderAction, s: Seq<char>)
    ensures
        action_named(action_name(a)) == Some(a),
        action_named(s) == Some(a) ==> s == action_name(a),
{
    lemma_action_name_chars();
}

impl LeaderAction {
    /// Parse a configuration action name; `None` for an unknown name.
    pub fn from_name(s: &str) -> (r: Option<LeaderAction>)
        ensures
            r == action_named(s@),
    {
        if str_eq(s, "NewTab") {
            Some(LeaderAction::NewTab)
        } else if str_eq(s, "CloseTab") {
            Some(LeaderAction::CloseTab)
        } else if str_eq(s, "NextTab") {
            Some(LeaderAction::NextTab)
        } else if str_eq(s, "PrevTab") {
            Some(LeaderAction::PrevTab)
        } else if str_eq(s, "RenameTab") {
            Some(LeaderAction::RenameTab)
        } else if str_eq(s, "SplitHorizontal") {
            Some(LeaderAction::SplitHorizontal)
        } else if str_eq(s, "SplitVertical") {
            Some(LeaderAction::SplitVertical)
        } else if str_eq(s, "ClosePane") {
            Some(LeaderAction::ClosePane)
        } else if str_eq(s, "ZoomPane") {
            Some(LeaderAction::ZoomPane)
        } else if str_eq(s, "FocusPaneLeft") {
            Some(LeaderAction::FocusPane(FocusDir::Left))
        } else if str_eq(s, "FocusPaneRight") {
            Some(LeaderAction::FocusPane(FocusDir::Right))
        } else if str_eq(s, "FocusPaneUp") {
            Some(LeaderAction::FocusPane(FocusDir::Up))
        } else if str_eq(s, "FocusPaneDown") {
            Some(LeaderAction::FocusPane(FocusDir::Down))
        } else if str_eq(s, "ToggleAiPanel") {
            Some(LeaderAction::ToggleAiPanel)
        } else if str_eq(s, "ExplainLastOutput") {
            Some(LeaderAction::ExplainLastOutput)
        } else if str_eq(s, "FixLastError") {
            Some(LeaderAction::FixLastError)
        } else if str_eq(s, "UndoLastWrite") {
            Some(LeaderAction::UndoLastWrite)
        } else if str_eq(s, "NewWorkspace") {
            Some(LeaderAction::NewWorkspace)
        } else if str_eq(s, "CloseWorkspace") {
            Some(LeaderAction::CloseWorkspace)
        } else if str_eq(s, "NextWorkspace") {
            Some(LeaderAction::NextWorkspace)
        } else if str_eq(s, "PrevWorkspace") {
            Some(LeaderAction::PrevWorkspace)
        } else if str_eq(s, "RenameWorkspace") {
            Some(LeaderAction::RenameWorkspace)
        } else if str_eq(s, "ToggleWorkspaceSidebar") {
            Some(LeaderAction::ToggleWorkspaceSidebar)
        } else if str_eq(s, "CommandPalette") {
            Some(LeaderAction::OpenCommandPalette)
        } else {
            None
        }
    }
}

/// `Ok` with the named action, or `Err(())` for an unknown name.
pub open spec fn parse_result(s: Seq<char>) -> Result<LeaderAction, ()> {
    match action_named(s) {
        Some(a) => Ok(a),
        None => Err(()),
    }
}

impl<'a> vstd::std_specs::convert::TryFromSpecImpl<&'a str> for LeaderAction {
    open spec fn obeys_try_from_spec() -> bool {
        true
    }

    open spec fn try_from_spec(s: &'a str) -> Result<Self, ()> {
        parse_result(s@)
    }
}

impl<'a> TryFrom<&'a str> for LeaderAction {
    type Error = ();

    fn try_from(s: &'a str) -> (r: Result<Self, Self::Error>)
        ensures
            r == parse_result(s@),
    {
        match LeaderAction::from_name(s) {
            Some(a) => Ok(a),
            None => Err(()),
        }
    }
}

} // verus!

verus! {

/// One configured key binding (`mods`, e.g. `LEADER`; `key`; `action` name).
#[derive(Debug, Clone, PartialEq, Eq)]
pub struct KeyBind {
    pub mods: String,
    pub key: String,
    pub action: String,
}

/// The leader dispatch table: key name to action, each key at most once.
///
/// Kept as a vector of distinct keys rather than a `HashMap<String, _>`:
/// vstd gives `String` keys no hashing model, so nothing could be proved of
/// a hash map keyed by them, while lookup in this table is proved exact.
pub struct LeaderMap {
    entries: Vec<(String, LeaderAction)>,
}

/// A sequence of (key, action) pairs read as a map, later pairs winning.
pub open spec fn pairs_map(es: Seq<(Seq<char>, LeaderAction)>) -> Map<Seq<char>, LeaderAction>
    decreases es.len(),
{
    if es.len() == 0 {
        Map::empty()
    } else {
        pairs_map(es.drop_last()).insert(es.last().0, es.last().1)
    }
}

/// No key occurs twice.
pub open spec fn distinct_keys(es: Seq<(Seq<char>, LeaderAction)>) -> bool {
    forall|i: int, j: int| 0 <= i < j < es.len() ==> es[i].0 != es[j].0
}

/// `m` with `k` bound to `a` unless `k` is already bound.
pub open spec fn or_insert_spec(
    m: Map<Seq<char>, LeaderAction>,
    k: Seq<char>,
    a: LeaderAction,
) -> Map<Seq<char>, LeaderAction> {
    if m.contains_key(k) {
        m
    } else {
        m.insert(k, a)
    }
}

/// The bindings with a known action name, in order, later ones winning.
pub open spec fn bindings_map(bs: Seq<KeyBind>) -> Map<Seq<char>, LeaderAction>
    decreases bs.len(),
{
    if bs.len() == 0 {
        Map::empty()
    } else {
        match action_named(bs.last().action@) {
            Some(a) => bindings_map(bs.drop_last()).insert(bs.last().key@, a),
            None => bindings_map(bs.drop_last()),
        }
    }
}

/// The leader table for `bs`: its bindings, plus `z` = ZoomPane,
/// `w` = NewWorkspace and `s` = ToggleWorkspaceSidebar where not bound.
pub open spec fn leader_map_spec(bs: Seq<KeyBind>) -> Map<Seq<char>, LeaderAction> {
    or_insert_spec(
        or_insert_spec(
            or_insert_spec(bindings_map(bs), "z"@, LeaderAction::ZoomPane),
            "w"@,
            LeaderAction::NewWorkspace,
        ),
        "s"@,
        LeaderAction::ToggleWorkspaceSidebar,
    )
}

/// Binding `i` of `bs` binds key `k` to a known action.
pub open spec fn binds(bs: Seq<KeyBind>, i: int, k: Seq<char>) -> bool {
    0 <= i < bs.len() && bs[i].key@ == k && action_named(bs[i].action@) is Some
}

proof fn lemma_bindings_map_lookup(bs: Seq<KeyBind>, k: Seq<char>)
    ensures
        forall|i: int|
            #[trigger] binds(bs, i, k) && (forall|j: int| i < j < bs.len() ==> !#[trigger] binds(bs, j, k))
                ==> bindings_map(bs).contains_key(k) && bindings_map(bs)[k] == action_named(bs[i].action@)->0,
        (forall|i: int| 0 <= i < bs.len() ==> !#[trigger] binds(bs, i, k)) ==> !bindings_map(bs).contains_key(k),
    decreases bs.len(),
{
    if bs.len() > 0 {
        let pre = bs.drop_last();
        let n = bs.len() - 1;
        lemma_bindings_map_lookup(pre, k);
        assert forall|i: int| 0 <= i < pre.len() implies (binds(pre, i, k) <==> #[trigger] binds(bs, i, k)) by {
            assert(pre[i] == bs[i]);
        }
        assert forall|i: int|
            #[trigger] binds(bs, i, k) && (forall|j: int| i < j < bs.len() ==> !#[trigger] binds(bs, j, k))
            implies bindings_map(bs).contains_key(k) && bindings_map(bs)[k] == action_named(bs[i].action@)->0 by {
            if i < n {
                assert(!binds(bs, n, k));
                assert forall|j: int| i < j < pre.len() implies !#[trigger] binds(pre, j, k) by {
                    assert(!binds(bs, j, k));
                }
            }
        }
        if forall|i: int| 0 <= i < bs.len() ==> !#[trigger] binds(bs, i, k) {
            assert(!binds(bs, n, k));
            assert forall|i: int| 0 <= i < pre.len() implies !#[trigger] binds(pre, i, k) by {
                assert(!binds(bs, i, k));
            }
        }
    }
}

/// A key is bound by its last binding whose action name is known; `z`,
/// `w` and `s` get their defaults only where no such binding exists, and
/// any other key without one is unbound.
pub proof fn lemma_leader_map_lookup(bs: Seq<KeyBind>, k: Seq<char>)
    ensures
        forall|i: int|
            #[trigger] binds(bs, i, k) && (forall|j: int| i < j < bs.len() ==> !#[trigger] binds(bs, j, k))
                ==> leader_map_spec(bs).contains_key(k) && leader_map_spec(bs)[k] == action_named(bs[i].action@)->0,
        (forall|i: int| 0 <= i < bs.len() ==> !#[trigger] binds(bs, i, k)) ==> (if k == "z"@ {
            leader_map_spec(bs).contains_key(k) && leader_map_spec(bs)[k] == LeaderAction::ZoomPane
        } else if k == "w"@ {
            leader_map_spec(bs).contains_key(k) && leader_map_spec(bs)[k] == LeaderAction::NewWorkspace
        } else if k == "s"@ {
            leader_map_spec(bs).contains_key(k) && leader_map_spec(bs)[k] == LeaderAction::ToggleWorkspaceSidebar
        } else {
            !leader_map_spec(bs).contains_key(k)
        }),
{
    lemma_bindings_map_lookup(bs, k);
    reveal_strlit("z");
    reveal_strlit("w");
    reveal_strlit("s");
}

proof fn lemma_pairs_map_index(es: Seq<(Seq<char>, LeaderAction)>, i: int)
    requires
        distinct_keys(es),
        0 <= i < es.len(),
    ensures
        pairs_map(es).contains_key(es[i].0),
        pairs_map(es)[es[i].0] == es[i].1,
    decreases es.len(),
{
    if i < es.len() - 1 {
        lemma_pairs_map_index(es.drop_last(), i);
    }
}

proof fn lemma_pairs_map_dom(es: Seq<(Seq<char>, LeaderAction)>, k: Seq<char>)
    ensures
        pairs_map(es).contains_key(k) <==> exists|i: int| 0 <= i < es.len() && es[i].0 == k,
    decreases es.len(),
{
    if es.len() > 0 {
        lemma_pairs_map_dom(es.drop_last(), k);
        if pairs_map(es.drop_last()).contains_key(k) {
            let i = choose|i: int| 0 <= i < es.drop_last().len() && es.drop_last()[i].0 == k;
            assert(es[i].0 == k);
        }
        if exists|i: int| 0 <= i < es.len() && es[i].0 == k {
            let i = choose|i: int| 0 <= i < es.len() && es[i].0 == k;
            if i < es.len() - 1 {
                assert(es.drop_last()[i].0 == k);
            }
        }
    }
}

proof fn lemma_pairs_map_len(es: Seq<(Seq<char>, LeaderAction)>)
    requires
        distinct_keys(es),
    ensures
        pairs_map(es).dom().finite(),
        pairs_map(es).dom().len() == es.len(),
    decreases es.len(),
{
    if es.len() > 0 {
        lemma_pairs_map_len(es.drop_last());
        lemma_pairs_map_dom(es.drop_last(), es.last().0);
        if pairs_map(es.drop_last()).contains_key(es.last().0) {
            let i = choose|i: int|
                0 <= i < es.drop_last().len() && es.drop_last()[i].0 == es.last().0;
            assert(es[i].0 == es[es.len() - 1].0);
        }
    }
}

proof fn lemma_pairs_map_update(es: Seq<(Seq<char>, LeaderAction)>, i: int, a: LeaderAction)
    requires
        distinct_keys(es),
        0 <= i < es.len(),
    ensures
        distinct_keys(es.update(i, (es[i].0, a))),
        pairs_map(es.update(i, (es[i].0, a))) == pairs_map(es).insert(es[i].0, a),
{
    let es2 = es.update(i, (es[i].0, a));
    assert forall|k: Seq<char>|
        pairs_map(es2).contains_key(k) <==> pairs_map(es).insert(es[i].0, a).contains_key(k) by {
        lemma_pairs_map_dom(es2, k);
        lemma_pairs_map_dom(es, k);
        if exists|j: int| 0 <= j < es.len() && es[j].0 == k {
            let j = choose|j: int| 0 <= j < es.len() && es[j].0 == k;
            assert(es2[j].0 == k);
        }
        if exists|j: int| 0 <= j < es2.len() && es2[j].0 == k {
            let j = choose|j: int| 0 <= j < es2.len() && es2[j].0 == k;
            assert(es[j].0 == k);
        }
    }
    assert forall|k: Seq<char>| #[trigger]
        pairs_map(es2).contains_key(k) implies pairs_map(es2)[k] == pairs_map(es).insert(
            es[i].0,
            a,
        )[k] by {
        lemma_pairs_map_dom(es2, k);
        let j = choose|j: int| 0 <= j < es2.len() && es2[j].0 == k;
        lemma_pairs_map_index(es2, j);
        lemma_pairs_map_index(es, j);
    }
    assert(pairs_map(es2) =~= pairs_map(es).insert(es[i].0, a));
}

impl LeaderMap {
    /// The table's contents as a sequence of (key, action) pairs.
    pub closed spec fn pairs(&self) -> Seq<(Seq<char>, LeaderAction)> {
        self.entries@.map_values(|e: (String, LeaderAction)| (e.0@, e.1))
    }

    /// Each key occurs at most once.
    pub closed spec fn wf(&self) -> bool {
        distinct_keys(self.pairs())
    }

    pub closed spec fn view(&self) -> Map<Seq<char>, LeaderAction> {
        pairs_map(self.pairs())
    }

    /// An empty table.
    pub fn new() -> (r: Self)
        ensures
            r.wf(),
            r.view() == Map::<Seq<char>, LeaderAction>::empty(),
    {
        let r = LeaderMap { entries: Vec::new() };
        assert(r.pairs() =~= Seq::<(Seq<char>, LeaderAction)>::empty());
        r
    }

    fn find(&self, key: &str) -> (r: Option<usize>)
        requires
            self.wf(),
        ensures
            match r {
                Some(i) => i < self.pairs().len() && self.pairs()[i as int].0 == key@,
                None => !self.view().contains_key(key@),
            },
    {
        let mut i: usize = 0;
        while i < self.entries.len()
            invariant
                i <= self.entries@.len(),
                self.pairs().len() == self.entries@.len(),
                forall|j: int| 0 <= j < i ==> self.pairs()[j].0 != key@,
            decreases self.entries@.len() - i,
        {
            if str_eq(self.entries[i].0.as_str(), key) {
                return Some(i);
            }
            i = i + 1;
        }
        proof {
            lemma_pairs_map_dom(self.pairs(), key@);
        }
        None
    }

    /// Bind `key` to `action`, replacing any earlier binding of `key`.
    pub fn insert(&mut self, key: String, action: LeaderAction)
        requires
            old(self).wf(),
        ensures
            final(self).wf(),
            final(self).view() == old(self).view().insert(key@, action),
    {
        match self.find(key.as_str()) {
            Some(i) => {
                proof {
                    lemma_pairs_map_update(self.pairs(), i as int, action);
                }
                let k = self.entries[i].0.clone();
                self.entries.set(i, (k, action));
                assert(self.pairs() =~= old(self).pairs().update(
                    i as int,
                    (old(self).pairs()[i as int].0, action),
                ));
            },
            None => {
                proof {
                    lemma_pairs_map_dom(self.pairs(), key@);
                }
                let ghost kv = key@;
                self.entries.push((key, action));
                assert(self.pairs() =~= old(self).pairs().push((kv, action)));
                assert(self.pairs().drop_last() =~= old(self).pairs());
            },
        }
    }

    /// Bind `key` to `action` only if `key` is not bound yet.
    pub fn or_insert(&mut self, key: String, action: LeaderAction)
        requires
            old(self).wf(),
        ensures
            final(self).wf(),
            final(self).view() == or_insert_spec(old(self).view(), key@, action),
    {
        match self.find(key.as_str()) {
            Some(i) => {
                proof {
                    lemma_pairs_map_index(self.pairs(), i as int);
                }
            },
            None => {
                let ghost kv = key@;
                self.entries.push((key, action));
                assert(self.pairs() =~= old(self).pairs().push((kv, action)));
                assert(self.pairs().drop_last() =~= old(self).pairs());
                proof {
                    lemma_pairs_map_dom(old(self).pairs(), kv);
                }
            },
        }
    }

    /// The action bound to `key`, if any.
    pub fn get(&self, key: &str) -> (r: Option<&LeaderAction>)
        requires
            self.wf(),
        ensures
            match r {
                Some(a) => self.view().contains_key(key@) && *a == self.view()[key@],
                None => !self.view().contains_key(key@),
            },
    {
        match self.find(key) {
            Some(i) => {
                proof {
                    lemma_pairs_map_index(self.pairs(), i as int);
                }
                Some(&self.entries[i].1)
            },
            None => None,
        }
    }

    /// The number of bound keys.
    pub fn len(&self) -> (r: usize)
        requires
            self.wf(),
        ensures
            self.view().dom().finite(),
            r == self.view().dom().len(),
    {
        proof {
            lemma_pairs_map_len(self.pairs());
        }
        self.entries.len()
    }
}

/// Build the single-key leader dispatch table from the `LEADER`-scoped
/// bindings: each binding whose action name is known, later bindings of a
/// key winning; then `z` (ZoomPane), `w` (NewWorkspace) and `s`
/// (ToggleWorkspaceSidebar) where the configuration left them unbound.
pub fn build_leader_map(bindings: &[KeyBind]) -> (r: LeaderMap)
    ensures
        r.wf(),
        r.view() == leader_map_spec(bindings@),
{
    let mut map = LeaderMap::new();
    let mut i: usize = 0;
    while i < bindings.len()
        invariant
            i <= bindings@.len(),
            map.wf(),
            map.view() == bindings_map(bindings@.subrange(0, i as int)),
        decreases bindings@.len() - i,
    {
        let kb = &bindings[i];
        let action = LeaderAction::from_name(kb.action.as_str());
        proof {
            assert(bindings@.subrange(0, i + 1).drop_last() =~= bindings@.subrange(0, i as int));
        }
        if let Some(a) = action {
            map.insert(kb.key.clone(), a);
        }
        i = i + 1;
    }
    assert(bindings@.subrange(0, bindings@.len() as int) =~= bindings@);
    map.or_insert(String::from_str("z"), LeaderAction::ZoomPane);
    map.or_insert(String::from_str("w"), LeaderAction::NewWorkspace);
    map.or_insert(String::from_str("s"), LeaderAction::ToggleWorkspaceSidebar);
    map
}

} // verus!
