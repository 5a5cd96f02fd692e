//! Key decisions of the chat panel's modal prompts: the inline-action
//! confirm card, the agent's write/run confirmation, and the file picker.

use vstd::prelude::*;
use crate::key_map::Keystroke;
use crate::strs::{single_char, str_eq};

verus! {

/// An answer to the inline-action confirm card.
#[derive(Debug, Clone, Copy, PartialEq, Eq, Structural)]
pub enum ActionAnswer {
    /// Run this action.
    Yes,
    /// Run this action and every later one without asking.
    Always,
    No,
    Ignore,
}

pub open spec fn action_answer_spec(key: Seq<char>) -> ActionAnswer {
    if key == "y"@ || key == "enter"@ {
        ActionAnswer::Yes
    } else if key == "a"@ {
        ActionAnswer::Always
    } else if key == "n"@ || key == "escape"@ {
        ActionAnswer::No
    } else {
        ActionAnswer::Ignore
    }
}

/// On the confirm card `y` and Enter accept, `a` accepts from now on, `n`
/// and Escape decline.
pub proof fn lemma_action_answers(key: Seq<char>)
    ensures
        key == "y"@ || key == "enter"@ ==> action_answer_spec(key) == ActionAnswer::Yes,
        key == "a"@ ==> action_answer_spec(key) == ActionAnswer::Always,
        key == "n"@ || key == "escape"@ ==> action_answer_spec(key) == ActionAnswer::No,
{
    reveal_strlit("y");
    reveal_strlit("a");
    reveal_strlit("n");
    reveal_strlit("enter");
    reveal_strlit("escape");
    assert("y"@.len() == 1 && "y"@[0] == 'y');
    assert("a"@.len() == 1 && "a"@[0] == 'a');
    assert("n"@.len() == 1 && "n"@[0] == 'n');
    assert("enter"@.len() == 5);
    assert("escape"@.len() == 6);
}

/// `y`/Enter accept, `a` accepts from now on, `n`/Escape decline.
pub fn action_answer(key: &str) -> (r: ActionAnswer)
    ensures
        r == action_answer_spec(key@),
{
    if str_eq(key, "y") || str_eq(key, "enter") {
        ActionAnswer::Yes
    } else if str_eq(key, "a") {
        ActionAnswer::Always
    } else if str_eq(key, "n") || str_eq(key, "escape") {
        ActionAnswer::No
    } else {
        ActionAnswer::Ignore
    }
}

/// `y`/Enter approve the agent's pending write or command (`Some(true)`),
/// `n`/Escape deny it (`Some(false)`); other keys answer nothing.
pub fn confirm_answer(key: &str) -> (r: Option<bool>)
    ensures
        r == (if key@ == "y"@ || key@ == "enter"@ {
            Some(true)
        } else if key@ == "n"@ || key@ == "escape"@ {
            Some(false)
        } else {
            None::<bool>
        }),
{
    if str_eq(key, "y") || str_eq(key, "enter") {
        Some(true)
    } else if str_eq(key, "n") || str_eq(key, "escape") {
        Some(false)
    } else {
        None
    }
}

/// What a key does in the file picker.
#[derive(Debug, Clone, Copy, PartialEq, Eq, Structural)]
pub enum PickerKey {
    Close,
    Confirm,
    Up,
    Down,
    Backspace,
    /// Add this character to the filter.
    Type(char),
    Ignore,
}

pub open spec fn picker_key_spec(ks: Keystroke) -> PickerKey {
    let k = ks.key@;
    if k == "escape"@ || k == "tab"@ {
        PickerKey::Close
    } else if k == "enter"@ {
        PickerKey::Confirm
    } else if k == "up"@ {
        PickerKey::Up
    } else if k == "down"@ {
        PickerKey::Down
    } else if k == "backspace"@ {
        PickerKey::Backspace
    } else if !ks.modifiers.platform && !ks.modifiers.control {
        if k == "space"@ {
            PickerKey::Type(' ')
        } else if k.len() == 1 {
            PickerKey::Type(k[0])
        } else {
            PickerKey::Ignore
        }
    } else {
        PickerKey::Ignore
    }
}

/// The lengths and first characters of the picker's key names.
proof fn lemma_picker_key_chars()
    ensures
        "escape"@.len() == 6 && "escape"@[0] == 'e' && "escape"@[1] == 's',
        "tab"@.len() == 3 && "tab"@[0] == 't' && "tab"@[1] == 'a',
        "enter"@.len() == 5 && "enter"@[0] == 'e' && "enter"@[1] == 'n',
        "up"@.len() == 2 && "up"@[0] == 'u' && "up"@[1] == 'p',
        "down"@.len() == 4 && "down"@[0] == 'd' && "down"@[1] == 'o',
        "backspace"@.len() == 9 && "backspace"@[0] == 'b' && "backspace"@[1] == 'a',
        "space"@.len() == 5 && "space"@[0] == 's' && "space"@[1] == 'p',
{
    reveal_strlit("escape");
    assert("escape"@.len() == 6 && "escape"@[0] == 'e' && "escape"@[1] == 's');
    reveal_strlit("tab");
    assert("tab"@.len() == 3 && "tab"@[0] == 't' && "tab"@[1] == 'a');
    reveal_strlit("enter");
    assert("enter"@.len() == 5 && "enter"@[0] == 'e' && "enter"@[1] == 'n');
    reveal_strlit("up");
    assert("up"@.len() == 2 && "up"@[0] == 'u' && "up"@[1] == 'p');
    reveal_strlit("down");
    assert("down"@.len() == 4 && "down"@[0] == 'd' && "down"@[1] == 'o');
    reveal_strlit("backspace");
    assert("backspace"@.len() == 9 && "backspace"@[0] == 'b' && "backspace"@[1] == 'a');
    reveal_strlit("space");
    assert("space"@.len() == 5 && "space"@[0] == 's' && "space"@[1] == 'p');
}

/// Shift, Alt and Fn never change what a key does in the file picker: two
/// presses of the same key with the same Cmd and Ctrl state act alike. The
/// navigation keys act whatever is held: Escape and Tab close, Enter
/// confirms, Up and Down move, Backspace edits. A key named by one
/// character types that character, and Space types a space, unless Cmd or
/// Ctrl is held, in which case the key does nothing.
pub proof fn lemma_picker_modifiers(a: Keystroke, b: Keystroke)
    ensures
        a.key@ == b.key@ && a.modifiers.platform == b.modifiers.platform && a.modifiers.control
            == b.modifiers.control ==> picker_key_spec(a) == picker_key_spec(b),
        a.key@ == "escape"@ || a.key@ == "tab"@ ==> picker_key_spec(a) == PickerKey::Close,
        a.key@ == "enter"@ ==> picker_key_spec(a) == PickerKey::Confirm,
        a.key@ == "up"@ ==> picker_key_spec(a) == PickerKey::Up,
        a.key@ == "down"@ ==> picker_key_spec(a) == PickerKey::Down,
        a.key@ == "backspace"@ ==> picker_key_spec(a) == PickerKey::Backspace,
        a.key@.len() == 1 && !a.modifiers.platform && !a.modifiers.control ==> picker_key_spec(a)
            == PickerKey::Type(a.key@[0]),
        a.key@ == "space"@ && !a.modifiers.platform && !a.modifiers.control ==> picker_key_spec(a)
            == PickerKey::Type(' '),
        a.key@.len() == 1 && (a.modifiers.platform || a.modifiers.control) ==> picker_key_spec(a)
            == PickerKey::Ignore,
{
    lemma_picker_key_chars();
}

/// Escape/Tab close, Enter confirms, Up/Down move, Backspace edits the
/// filter, and a key naming one character (or Space) types it unless Cmd
/// or Ctrl is held.
pub fn picker_key(ks: &Keystroke) -> (r: PickerKey)
    ensures
        r == picker_key_spec(*ks),
{
    let key = ks.key.as_str();
    if str_eq(key, "escape") || str_eq(key, "tab") {
        PickerKey::Close
    } else if str_eq(key, "enter") {
        PickerKey::Confirm
    } else if str_eq(key, "up") {
        PickerKey::Up
    } else if str_eq(key, "down") {
        PickerKey::Down
    } else if str_eq(key, "backspace") {
        PickerKey::Backspace
    } else if !ks.modifiers.platform && !ks.modifiers.control {
        if str_eq(key, "space") {
            PickerKey::Type(' ')
        } else {
            match single_char(key) {
                Some(c) => PickerKey::Type(c),
                None => PickerKey::Ignore,
            }
        }
    } else {
        PickerKey::Ignore
    }
}

} // verus!
