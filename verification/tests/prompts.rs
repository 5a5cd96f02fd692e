use petruterm_shell::key_map::{Keystroke, Modifiers};
use petruterm_shell::prompts::{action_answer, confirm_answer, picker_key, ActionAnswer, PickerKey};

fn key(k: &str, modifiers: Modifiers) -> Keystroke {
    Keystroke { modifiers, key: k.to_string(), key_char: None }
}

#[test]
fn action_card_answers() {
    assert_eq!(action_answer("y"), ActionAnswer::Yes);
    assert_eq!(action_answer("enter"), ActionAnswer::Yes);
    assert_eq!(action_answer("a"), ActionAnswer::Always);
    assert_eq!(action_answer("n"), ActionAnswer::No);
    assert_eq!(action_answer("escape"), ActionAnswer::No);
    assert_eq!(action_answer("x"), ActionAnswer::Ignore);
}

#[test]
fn confirm_answers() {
    assert_eq!(confirm_answer("y"), Some(true));
    assert_eq!(confirm_answer("enter"), Some(true));
    assert_eq!(confirm_answer("n"), Some(false));
    assert_eq!(confirm_answer("escape"), Some(false));
    assert_eq!(confirm_answer("a"), None);
}

#[test]
fn file_picker_keys() {
    let none = Modifiers::default();
    assert_eq!(picker_key(&key("tab", none)), PickerKey::Close);
    assert_eq!(picker_key(&key("escape", none)), PickerKey::Close);
    assert_eq!(picker_key(&key("enter", none)), PickerKey::Confirm);
    assert_eq!(picker_key(&key("up", none)), PickerKey::Up);
    assert_eq!(picker_key(&key("down", none)), PickerKey::Down);
    assert_eq!(picker_key(&key("backspace", none)), PickerKey::Backspace);
    assert_eq!(picker_key(&key("space", none)), PickerKey::Type(' '));
    assert_eq!(picker_key(&key("é", none)), PickerKey::Type('é'));
    assert_eq!(picker_key(&key("r", Modifiers { control: true, ..Default::default() })), PickerKey::Ignore);
    assert_eq!(picker_key(&key("left", none)), PickerKey::Ignore);
}
