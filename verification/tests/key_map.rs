use petruterm_shell::key_map::{format_csi, format_fkey, format_tilde, paste_bytes, rerun_bytes, translate_key, KeyMode, Keystroke, Modifiers};

fn key(key: &str, key_char: Option<&str>, modifiers: Modifiers) -> Keystroke {
    Keystroke {
        modifiers,
        key: key.to_string(),
        key_char: key_char.map(|s| s.to_string()),
    }
}

fn plain_mode() -> KeyMode {
    KeyMode { app_cursor: false, disambiguate_esc_codes: false }
}

#[test]
fn plain_character_forwards_key_char() {
    let k = key("a", Some("a"), Modifiers::default());
    assert_eq!(translate_key(&k, plain_mode(), false), Some(b"a".to_vec()));
}

#[test]
fn ctrl_c_sends_control_byte() {
    let k = key("c", None, Modifiers { control: true, ..Default::default() });
    assert_eq!(translate_key(&k, plain_mode(), false), Some(vec![0x03]));
}

#[test]
fn ctrl_space_sends_nul() {
    let k = key("space", None, Modifiers { control: true, ..Default::default() });
    assert_eq!(translate_key(&k, plain_mode(), false), Some(vec![0x00]));
}

#[test]
fn escape_sends_esc() {
    let k = key("escape", None, Modifiers::default());
    assert_eq!(translate_key(&k, plain_mode(), false), Some(b"\x1b".to_vec()));
}

#[test]
fn arrow_up_normal_mode_sends_csi() {
    let k = key("up", None, Modifiers::default());
    assert_eq!(translate_key(&k, plain_mode(), false), Some(b"\x1b[A".to_vec()));
}

#[test]
fn arrow_up_app_cursor_mode_sends_ss3() {
    let k = key("up", None, Modifiers::default());
    let mode = KeyMode { app_cursor: true, disambiguate_esc_codes: false };
    assert_eq!(translate_key(&k, mode, false), Some(b"\x1bOA".to_vec()));
}

#[test]
fn shift_arrow_up_sends_modified_csi() {
    let k = key("up", None, Modifiers { shift: true, ..Default::default() });
    assert_eq!(translate_key(&k, plain_mode(), false), Some(b"\x1b[1;2A".to_vec()));
}

#[test]
fn alt_character_without_meta_sends_composed_char() {
    let k = key("2", Some("@"), Modifiers { alt: true, ..Default::default() });
    assert_eq!(translate_key(&k, plain_mode(), false), Some(b"@".to_vec()));
}

#[test]
fn alt_character_with_meta_prefixes_esc() {
    let k = key("s", Some("s"), Modifiers { alt: true, ..Default::default() });
    assert_eq!(translate_key(&k, plain_mode(), true), Some(b"\x1bs".to_vec()));
}

#[test]
fn backspace_sends_del() {
    let k = key("backspace", None, Modifiers::default());
    assert_eq!(translate_key(&k, plain_mode(), false), Some(b"\x7f".to_vec()));
}

#[test]
fn shift_enter_disambiguate_sends_csi_u() {
    let k = key("enter", Some("\n"), Modifiers { shift: true, ..Default::default() });
    let mode = KeyMode { app_cursor: false, disambiguate_esc_codes: true };
    assert_eq!(translate_key(&k, mode, false), Some(b"\x1b[13;2u".to_vec()));
}

#[test]
fn unbound_cmd_combo_is_swallowed() {
    let k = key("k", None, Modifiers { platform: true, ..Default::default() });
    assert_eq!(translate_key(&k, plain_mode(), false), None);
}

#[test]
fn csi_formats_with_and_without_modifier() {
    assert_eq!(format_csi(b'A', None, false), b"\x1b[A".to_vec());
    assert_eq!(format_csi(b'A', None, true), b"\x1bOA".to_vec());
    assert_eq!(format_csi(b'D', Some(5), false), b"\x1b[1;5D".to_vec());
    // A modifier always forces the CSI form, even in application mode.
    assert_eq!(format_csi(b'D', Some(5), true), b"\x1b[1;5D".to_vec());
}

#[test]
fn tilde_sequences_carry_the_key_number() {
    assert_eq!(format_tilde(3, None), b"\x1b[3~".to_vec());
    assert_eq!(format_tilde(15, Some(2)), b"\x1b[15;2~".to_vec());
}

#[test]
fn function_keys_one_to_four_use_ss3() {
    assert_eq!(format_fkey(b'P', None), b"\x1bOP".to_vec());
    assert_eq!(format_fkey(b'S', Some(3)), b"\x1b[1;3S".to_vec());
}

#[test]
fn paste_is_framed_only_in_bracketed_mode() {
    assert_eq!(paste_bytes("ls", true), b"\x1b[200~ls\x1b[201~".to_vec());
    assert_eq!(paste_bytes("ls", false), b"ls".to_vec());
    assert_eq!(paste_bytes("", true), b"\x1b[200~\x1b[201~".to_vec());
    assert_eq!(paste_bytes("é", false), vec![0xc3, 0xa9]);
}

#[test]
fn rerun_appends_newline_and_skips_empty_commands() {
    assert_eq!(rerun_bytes("make test"), Some(b"make test\n".to_vec()));
    assert_eq!(rerun_bytes(""), None);
}
