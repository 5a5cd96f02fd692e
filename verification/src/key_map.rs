//! Key events encoded as PTY byte sequences: control bytes, the Meta
//! prefix, CSI / SS3 cursor and function-key sequences with xterm modifier
//! codes.

use vstd::prelude::*;
use vstd::utf8::*;
use vstd::string::StringSliceAdditionalSpecFns;

use crate::digits::{dec, push_dec};
use crate::strs::{single_char, str_eq};

verus! {

/// Modifier keys held during a keystroke.
#[derive(Debug, Clone, Copy, PartialEq, Eq, Structural)]
pub struct Modifiers {
    pub control: bool,
    pub alt: bool,
    pub shift: bool,
    /// Cmd on macOS, Super/Win elsewhere.
    pub platform: bool,
    pub function: bool,
}

impl Default for Modifiers {
    fn default() -> (r: Self)
        ensures
            !r.control && !r.alt && !r.shift && !r.platform && !r.function,
    {
        Modifiers { control: false, alt: false, shift: false, platform: false, function: false }
    }
}

/// One key press: the key's name (`"a"`, `"up"`, `"f5"`, `"space"`, ...),
/// the text the platform composed for it (absent when Ctrl, Cmd or Fn is
/// held, or for a named key with no printable form), and the modifiers.
#[derive(Debug, Clone, PartialEq, Eq)]
pub struct Keystroke {
    pub modifiers: Modifiers,
    pub key: String,
    pub key_char: Option<String>,
}

/// The terminal modes that change what a key sends.
#[derive(Debug, Clone, Copy, PartialEq, Eq, Structural)]
pub struct KeyMode {
    /// DECCKM: cursor keys send SS3 (`ESC O x`) instead of CSI (`ESC [ x`).
    pub app_cursor: bool,
    /// Kitty keyboard protocol "disambiguate escape codes".
    pub disambiguate_esc_codes: bool,
}

/// The xterm modifier parameter: 1 + (Shift=1 | Alt=2 | Ctrl=4), or none
/// when no modifier is held.
pub open spec fn mod_code_spec(shift: bool, alt: bool, ctrl: bool) -> Option<u8> {
    if !shift && !alt && !ctrl {
        None
    } else {
        Some((1 + (if shift { 1int } else { 0 }) + (if alt { 2int } else { 0 }) + (if ctrl {
            4int
        } else {
            0
        })) as u8)
    }
}

/// `ESC [ 1 ; m code` with a modifier, else `ESC O code` in application
/// cursor mode, else `ESC [ code`.
pub open spec fn csi_seq(code: u8, mod_code: Option<u8>, app_mode: bool) -> Seq<u8> {
    match mod_code {
        Some(m) => seq![27u8, 91u8, 49u8, 59u8] + dec(m as nat) + seq![code],
        None => if app_mode {
            seq![27u8, 79u8, code]
        } else {
            seq![27u8, 91u8, code]
        },
    }
}

/// `ESC [ num ; m ~` with a modifier, else `ESC [ num ~`.
pub open spec fn tilde_seq(num: u8, mod_code: Option<u8>) -> Seq<u8> {
    match mod_code {
        Some(m) => seq![27u8, 91u8] + dec(num as nat) + seq![59u8] + dec(m as nat) + seq![126u8],
        None => seq![27u8, 91u8] + dec(num as nat) + seq![126u8],
    }
}

/// F1-F4: `ESC [ 1 ; m code` with a modifier, else `ESC O code`.
pub open spec fn fkey_seq(code: u8, mod_code: Option<u8>) -> Seq<u8> {
    match mod_code {
        Some(m) => seq![27u8, 91u8, 49u8, 59u8] + dec(m as nat) + seq![code],
        None => seq![27u8, 79u8, code],
    }
}

/// The low byte of the character's code point after ASCII lower-casing.
pub open spec fn lower_byte(c: char) -> u8 {
    let u = c as u32;
    if 65 <= u <= 90 {
        (u + 32) as u8
    } else {
        u as u8
    }
}

/// What Ctrl + the character `c` (named by `key`) sends: `a`-`z` become
/// 0x01-0x1a, `[ \ ] ^ _` become 0x1b-0x1f, space becomes NUL, and any
/// other character is sent as the key's own text.
pub open spec fn ctrl_bytes(key: Seq<char>, c: char) -> Seq<u8> {
    let b = lower_byte(c);
    if 97 <= b <= 122 {
        seq![(b - 96) as u8]
    } else if b == 91 {
        seq![0x1bu8]
    } else if b == 92 {
        seq![0x1cu8]
    } else if b == 93 {
        seq![0x1du8]
    } else if b == 94 {
        seq![0x1eu8]
    } else if b == 95 {
        seq![0x1fu8]
    } else if b == 32 {
        seq![0x00u8]
    } else {
        encode_utf8(key)
    }
}

/// The character Ctrl combines with: a space for the key named "space",
/// the key's only character for a one-character key name, none otherwise.
pub open spec fn ctrl_char(key: Seq<char>) -> Option<char> {
    if key == "space"@ {
        Some(' ')
    } else if key.len() == 1 {
        Some(key[0])
    } else {
        None
    }
}

/// The bytes for a named key (arrows, Home/End, paging, Insert/Delete,
/// F1-F12, Tab, Escape, Backspace, Space), or none for any other name.
pub open spec fn named_key_spec(key: Seq<char>, m: Option<u8>, app_cursor: bool, shift: bool) -> Option<
    Seq<u8>,
> {
    if key == "up"@ {
        Some(csi_seq(65, m, app_cursor))
    } else if key == "down"@ {
        Some(csi_seq(66, m, app_cursor))
    } else if key == "right"@ {
        Some(csi_seq(67, m, app_cursor))
    } else if key == "left"@ {
        Some(csi_seq(68, m, app_cursor))
    } else if key == "home"@ {
        Some(csi_seq(72, m, app_cursor))
    } else if key == "end"@ {
        Some(csi_seq(70, m, app_cursor))
    } else if key == "pageup"@ {
        Some(tilde_seq(5, m))
    } else if key == "pagedown"@ {
        Some(tilde_seq(6, m))
    } else if key == "insert"@ {
        Some(tilde_seq(2, m))
    } else if key == "delete"@ {
        Some(tilde_seq(3, m))
    } else if key == "f1"@ {
        Some(fkey_seq(80, m))
    } else if key == "f2"@ {
        Some(fkey_seq(81, m))
    } else if key == "f3"@ {
        Some(fkey_seq(82, m))
    } else if key == "f4"@ {
        Some(fkey_seq(83, m))
    } else if key == "f5"@ {
        Some(tilde_seq(15, m))
    } else if key == "f6"@ {
        Some(tilde_seq(17, m))
    } else if key == "f7"@ {
        Some(tilde_seq(18, m))
    } else if key == "f8"@ {
        Some(tilde_seq(19, m))
    } else if key == "f9"@ {
        Some(tilde_seq(20, m))
    } else if key == "f10"@ {
        Some(tilde_seq(21, m))
    } else if key == "f11"@ {
        Some(tilde_seq(23, m))
    } else if key == "f12"@ {
        Some(tilde_seq(24, m))
    } else if key == "tab"@ {
        if shift {
            Some(seq![27u8, 91u8, 90u8])
        } else {
            Some(seq![9u8])
        }
    } else if key == "escape"@ {
        Some(seq![27u8])
    } else if key == "backspace"@ {
        Some(seq![127u8])
    } else if key == "space"@ {
        Some(seq![32u8])
    } else {
        None
    }
}

/// What a keystroke sends to the PTY, in priority order:
/// 1. Ctrl (without Alt) + a character: its control byte;
/// 2. Alt (without Ctrl) + composed text, when Option acts as Meta: ESC + text;
/// 3. Enter: CR, or `ESC [ 13 ; 2 u` for Shift+Enter in disambiguate mode;
/// 4. any other composed text: the text itself;
/// 5. a named key: its escape sequence; anything else sends nothing.
pub open spec fn translate_key_spec(ks: Keystroke, mode: KeyMode, option_as_meta: bool) -> Option<
    Seq<u8>,
> {
    let ctrl = ks.modifiers.control;
    let alt = ks.modifiers.alt;
    let shift = ks.modifiers.shift;
    let key = ks.key@;
    if ctrl && !alt && ctrl_char(key) is Some {
        Some(ctrl_bytes(key, ctrl_char(key)->0))
    } else if alt && !ctrl && option_as_meta && ks.key_char is Some {
        Some(seq![27u8] + encode_utf8(ks.key_char->0@))
    } else if key == "enter"@ {
        if shift && mode.disambiguate_esc_codes {
            Some(seq![27u8, 91u8, 49u8, 51u8, 59u8, 50u8, 117u8])
        } else {
            Some(seq![13u8])
        }
    } else if ks.key_char is Some {
        Some(encode_utf8(ks.key_char->0@))
    } else {
        named_key_spec(key, mod_code_spec(shift, alt, ctrl), mode.app_cursor, shift)
    }
}

/// Translate a keystroke into the bytes to write to the PTY, or `None` when
/// it has nothing to send (a bare modifier, or an unbound Cmd combination).
///
/// `option_as_meta`: when true, Alt/Option + a character sends `ESC <char>`;
/// when false the platform-composed character is sent as is.
pub fn translate_key(keystroke: &Keystroke, mode: KeyMode, option_as_meta: bool) -> (r: Option<
    Vec<u8>,
>)
    ensures
        match r {
            Some(v) => translate_key_spec(*keystroke, mode, option_as_meta) == Some(v@),
            None => translate_key_spec(*keystroke, mode, option_as_meta) is None,
        },
{
    let ctrl = keystroke.modifiers.control;
    let alt = keystroke.modifiers.alt;
    let shift = keystroke.modifiers.shift;
    let key: &str = keystroke.key.as_str();

    if ctrl && !alt {
        let c = if str_eq(key, "space") {
            Some(' ')
        } else {
            single_char(key)
        };
        assert(c == ctrl_char(key@));
        if let Some(c) = c {
            let byte = ascii_lower_byte(c);
            if byte >= 97 && byte <= 122 {
                return Some(vec![byte - 96]);
            }
            return match byte {
                91 => Some(vec![0x1bu8]),
                92 => Some(vec![0x1cu8]),
                93 => Some(vec![0x1du8]),
                94 => Some(vec![0x1eu8]),
                95 => Some(vec![0x1fu8]),
                32 => Some(vec![0x00u8]),
                _ => Some(vstd::slice::slice_to_vec(key.as_bytes())),
            };
        }
    }
    if alt && !ctrl && option_as_meta {
        if let Some(ch) = &keystroke.key_char {
            let mut seq: Vec<u8> = vec![0x1bu8];
            seq.extend_from_slice(ch.as_str().as_bytes());
            return Some(seq);
        }
    }
    if str_eq(key, "enter") {
        return if shift && mode.disambiguate_esc_codes {
            Some(vec![27u8, 91u8, 49u8, 51u8, 59u8, 50u8, 117u8])
        } else {
            Some(vec![13u8])
        };
    }
    if let Some(ch) = &keystroke.key_char {
        return Some(vstd::slice::slice_to_vec(ch.as_str().as_bytes()));
    }
    let mod_code: Option<u8> = if shift && !alt && !ctrl {
        Some(2)
    } else if !shift && alt && !ctrl {
        Some(3)
    } else if shift && alt && !ctrl {
        Some(4)
    } else if !shift && !alt && ctrl {
        Some(5)
    } else if shift && !alt && ctrl {
        Some(6)
    } else if !shift && alt && ctrl {
        Some(7)
    } else if shift && alt && ctrl {
        Some(8)
    } else {
        None
    };
    assert(mod_code == mod_code_spec(shift, alt, ctrl));
    named_key(key, mod_code, mode.app_cursor, shift)
}

/// The low byte of `c`'s code point after ASCII lower-casing.
fn ascii_lower_byte(c: char) -> (b: u8)
    ensures
        b == lower_byte(c),
{
    let u = c as u32;
    if u >= 65 && u <= 90 {
        (u + 32) as u8
    } else {
        u as u8
    }
}

/// The escape sequence of a named key, or `None` for any other key name.
fn named_key(key: &str, m: Option<u8>, app_cursor: bool, shift: bool) -> (r: Option<Vec<u8>>)
    ensures
        match r {
            Some(v) => named_key_spec(key@, m, app_cursor, shift) == Some(v@),
            None => named_key_spec(key@, m, app_cursor, shift) is None,
        },
{
    if str_eq(key, "up") {
        Some(format_csi(65, m, app_cursor))
    } else if str_eq(key, "down") {
        Some(format_csi(66, m, app_cursor))
    } else if str_eq(key, "right") {
        Some(format_csi(67, m, app_cursor))
    } else if str_eq(key, "left") {
        Some(format_csi(68, m, app_cursor))
    } else if str_eq(key, "home") {
        Some(format_csi(72, m, app_cursor))
    } else if str_eq(key, "end") {
        Some(format_csi(70, m, app_cursor))
    } else if str_eq(key, "pageup") {
        Some(format_tilde(5, m))
    } else if str_eq(key, "pagedown") {
        Some(format_tilde(6, m))
    } else if str_eq(key, "insert") {
        Some(format_tilde(2, m))
    } else if str_eq(key, "delete") {
        Some(format_tilde(3, m))
    } else if str_eq(key, "f1") {
        Some(format_fkey(80, m))
    } else if str_eq(key, "f2") {
        Some(format_fkey(81, m))
    } else if str_eq(key, "f3") {
        Some(format_fkey(82, m))
    } else if str_eq(key, "f4") {
        Some(format_fkey(83, m))
    } else if str_eq(key, "f5") {
        Some(format_tilde(15, m))
    } else if str_eq(key, "f6") {
        Some(format_tilde(17, m))
    } else if str_eq(key, "f7") {
        Some(format_tilde(18, m))
    } else if str_eq(key, "f8") {
        Some(format_tilde(19, m))
    } else if str_eq(key, "f9") {
        Some(format_tilde(20, m))
    } else if str_eq(key, "f10") {
        Some(format_tilde(21, m))
    } else if str_eq(key, "f11") {
        Some(format_tilde(23, m))
    } else if str_eq(key, "f12") {
        Some(format_tilde(24, m))
    } else if str_eq(key, "tab") {
        if shift {
            Some(vec![27u8, 91u8, 90u8])
        } else {
            Some(vec![9u8])
        }
    } else if str_eq(key, "escape") {
        Some(vec![27u8])
    } else if str_eq(key, "backspace") {
        Some(vec![127u8])
    } else if str_eq(key, "space") {
        Some(vec![32u8])
    } else {
        None
    }
}

/// A cursor-key sequence for the ASCII final byte `code`.
pub fn format_csi(code: u8, mod_code: Option<u8>, app_mode: bool) -> (r: Vec<u8>)
    ensures
        r@ == csi_seq(code, mod_code, app_mode),
{
    if let Some(m) = mod_code {
        let mut v: Vec<u8> = vec![27u8, 91u8, 49u8, 59u8];
        push_dec(&mut v, m as u64);
        v.push(code);
        v
    } else if app_mode {
        vec![27u8, 79u8, code]
    } else {
        vec![27u8, 91u8, code]
    }
}

/// A `CSI num ~` sequence (paging, Insert/Delete, F5-F12).
pub fn format_tilde(num: u8, mod_code: Option<u8>) -> (r: Vec<u8>)
    ensures
        r@ == tilde_seq(num, mod_code),
{
    let mut v: Vec<u8> = vec![27u8, 91u8];
    push_dec(&mut v, num as u64);
    if let Some(m) = mod_code {
        v.push(59u8);
        push_dec(&mut v, m as u64);
    }
    v.push(126u8);
    v
}

/// An F1-F4 sequence for the ASCII final byte `code`.
pub fn format_fkey(code: u8, mod_code: Option<u8>) -> (r: Vec<u8>)
    ensures
        r@ == fkey_seq(code, mod_code),
{
    if let Some(m) = mod_code {
        let mut v: Vec<u8> = vec![27u8, 91u8, 49u8, 59u8];
        push_dec(&mut v, m as u64);
        v.push(code);
        v
    } else {
        vec![27u8, 79u8, code]
    }
}

/// Append the bytes of `b` to `v`.
fn push_all(v: &mut Vec<u8>, b: &[u8])
    ensures
        final(v)@ == old(v)@ + b@,
{
    let mut i: usize = 0;
    while i < b.len()
        invariant
            i <= b@.len(),
            v@ == old(v)@ + b@.take(i as int),
        decreases b@.len() - i,
    {
        v.push(b[i]);
        i = i + 1;
        assert(v@ =~= old(v)@ + b@.take(i as int));
    }
    assert(b@.take(b@.len() as int) =~= b@);
}

/// The bracketed-paste opening marker, `ESC [ 200 ~`.
pub open spec fn paste_open() -> Seq<u8> {
    seq![27u8, 91u8, 50u8, 48u8, 48u8, 126u8]
}

/// The bracketed-paste closing marker, `ESC [ 201 ~`.
pub open spec fn paste_close() -> Seq<u8> {
    seq![27u8, 91u8, 50u8, 48u8, 49u8, 126u8]
}

/// What a paste of `text` writes to the PTY: its UTF-8 bytes, framed by
/// the bracketed-paste markers when the application asked for them.
pub fn paste_bytes(text: &str, bracketed: bool) -> (r: Vec<u8>)
    ensures
        r@ == (if bracketed {
            paste_open() + text.spec_bytes() + paste_close()
        } else {
            text.spec_bytes()
        }),
{
    let tb = text.as_bytes();
    if bracketed {
        let mut v: Vec<u8> = vec![27u8, 91u8, 50u8, 48u8, 48u8, 126u8];
        push_all(&mut v, tb);
        push_all(&mut v, &[27u8, 91u8, 50u8, 48u8, 49u8, 126u8]);
        assert(v@ =~= paste_open() + text.spec_bytes() + paste_close());
        v
    } else {
        let mut v: Vec<u8> = Vec::new();
        push_all(&mut v, tb);
        assert(v@ =~= text.spec_bytes());
        v
    }
}

/// What re-running `cmd` writes to the PTY: the command and a newline;
/// nothing for an empty command.
pub fn rerun_bytes(cmd: &str) -> (r: Option<Vec<u8>>)
    ensures
        cmd@.len() == 0 ==> r is None,
        cmd@.len() > 0 ==> r is Some && r->0@ == cmd.spec_bytes().push(10u8),
{
    let tb = cmd.as_bytes();
    proof {
        encode_utf8_decode_utf8(cmd@);
        if cmd@.len() > 0 {
            assert(cmd.spec_bytes().len() > 0) by {
                if cmd.spec_bytes().len() == 0 {
                    assert(decode_utf8(cmd.spec_bytes()) =~= Seq::<char>::empty());
                }
            }
        } else {
            assert(cmd.spec_bytes() =~= encode_utf8(Seq::<char>::empty()));
        }
    }
    if tb.len() == 0 {
        return None;
    }
    let mut v: Vec<u8> = Vec::new();
    push_all(&mut v, tb);
    v.push(10u8);
    assert(v@ =~= cmd.spec_bytes().push(10u8));
    Some(v)
}


/// A key press with no composed text and none of Ctrl, Alt and Shift.
pub open spec fn bare(ks: Keystroke) -> bool {
    ks.key_char is None && !ks.modifiers.control && !ks.modifiers.alt && !ks.modifiers.shift
}

/// The lengths and first characters of the key names, which tell any two
/// of them apart.
proof fn lemma_key_name_chars()
    ensures
        "up"@.len() == 2 && "up"@[0] == 'u' && "up"@[1] == 'p',
        "down"@.len() == 4 && "down"@[0] == 'd' && "down"@[1] == 'o' && "down"@[2] == 'w',
        "right"@.len() == 5 && "right"@[0] == 'r' && "right"@[1] == 'i' && "right"@[2] == 'g',
        "left"@.len() == 4 && "left"@[0] == 'l' && "left"@[1] == 'e' && "left"@[2] == 'f',
        "home"@.len() == 4 && "home"@[0] == 'h' && "home"@[1] == 'o' && "home"@[2] == 'm',
        "end"@.len() == 3 && "end"@[0] == 'e' && "end"@[1] == 'n' && "end"@[2] == 'd',
        "pageup"@.len() == 6 && "pageup"@[0] == 'p' && "pageup"@[1] == 'a' && "pageup"@[2] == 'g',
        "pagedown"@.len() == 8 && "pagedown"@[0] == 'p' && "pagedown"@[1] == 'a' && "pagedown"@[2] == 'g',
        "insert"@.len() == 6 && "insert"@[0] == 'i' && "insert"@[1] == 'n' && "insert"@[2] == 's',
        "delete"@.len() == 6 && "delete"@[0] == 'd' && "delete"@[1] == 'e' && "delete"@[2] == 'l',
        "f1"@.len() == 2 && "f1"@[0] == 'f' && "f1"@[1] == '1',
        "f2"@.len() == 2 && "f2"@[0] == 'f' && "f2"@[1] == '2',
        "f3"@.len() == 2 && "f3"@[0] == 'f' && "f3"@[1] == '3',
        "f4"@.len() == 2 && "f4"@[0] == 'f' && "f4"@[1] == '4',
        "f5"@.len() == 2 && "f5"@[0] == 'f' && "f5"@[1] == '5',
        "f6"@.len() == 2 && "f6"@[0] == 'f' && "f6"@[1] == '6',
        "f7"@.len() == 2 && "f7"@[0] == 'f' && "f7"@[1] == '7',
        "f8"@.len() == 2 && "f8"@[0] == 'f' && "f8"@[1] == '8',
        "f9"@.len() == 2 && "f9"@[0] == 'f' && "f9"@[1] == '9',
        "f10"@.len() == 3 && "f10"@[0] == 'f' && "f10"@[1] == '1' && "f10"@[2] == '0',
        "f11"@.len() == 3 && "f11"@[0] == 'f' && "f11"@[1] == '1' && "f11"@[2] == '1',
        "f12"@.len() == 3 && "f12"@[0] == 'f' && "f12"@[1] == '1' && "f12"@[2] == '2',
        "tab"@.len() == 3 && "tab"@[0] == 't' && "tab"@[1] == 'a' && "tab"@[2] == 'b',
        "escape"@.len() == 6 && "escape"@[0] == 'e' && "escape"@[1] == 's' && "escape"@[2] == 'c',
        "backspace"@.len() == 9 && "backspace"@[0] == 'b' && "backspace"@[1] == 'a' && "backspace"@[2] == 'c',
        "space"@.len() == 5 && "space"@[0] == 's' && "space"@[1] == 'p' && "space"@[2] == 'a',
        "enter"@.len() == 5 && "enter"@[0] == 'e' && "enter"@[1] == 'n' && "enter"@[2] == 't',
{
    reveal_strlit("up");
    assert("up"@.len() == 2 && "up"@[0] == 'u' && "up"@[1] == 'p');
    reveal_strlit("down");
    assert("down"@.len() == 4 && "down"@[0] == 'd' && "down"@[1] == 'o' && "down"@[2] == 'w');
    reveal_strlit("right");
    assert("right"@.len() == 5 && "right"@[0] == 'r' && "right"@[1] == 'i' && "right"@[2] == 'g');
    reveal_strlit("left");
    assert("left"@.len() == 4 && "left"@[0] == 'l' && "left"@[1] == 'e' && "left"@[2] == 'f');
    reveal_strlit("home");
    assert("home"@.len() == 4 && "home"@[0] == 'h' && "home"@[1] == 'o' && "home"@[2] == 'm');
    reveal_strlit("end");
    assert("end"@.len() == 3 && "end"@[0] == 'e' && "end"@[1] == 'n' && "end"@[2] == 'd');
    reveal_strlit("pageup");
    assert("pageup"@.len() == 6 && "pageup"@[0] == 'p' && "pageup"@[1] == 'a' && "pageup"@[2] == 'g');
    reveal_strlit("pagedown");
    assert("pagedown"@.len() == 8 && "pagedown"@[0] == 'p' && "pagedown"@[1] == 'a' && "pagedown"@[2] == 'g');
    reveal_strlit("insert");
    assert("insert"@.len() == 6 && "insert"@[0] == 'i' && "insert"@[1] == 'n' && "insert"@[2] == 's');
    reveal_strlit("delete");
    assert("delete"@.len() == 6 && "delete"@[0] == 'd' && "delete"@[1] == 'e' && "delete"@[2] == 'l');
    reveal_strlit("f1");
    assert("f1"@.len() == 2 && "f1"@[0] == 'f' && "f1"@[1] == '1');
    reveal_strlit("f2");
    assert("f2"@.len() == 2 && "f2"@[0] == 'f' && "f2"@[1] == '2');
    reveal_strlit("f3");
    assert("f3"@.len() == 2 && "f3"@[0] == 'f' && "f3"@[1] == '3');
    reveal_strlit("f4");
    assert("f4"@.len() == 2 && "f4"@[0] == 'f' && "f4"@[1] == '4');
    reveal_strlit("f5");
    assert("f5"@.len() == 2 && "f5"@[0] == 'f' && "f5"@[1] == '5');
    reveal_strlit("f6");
    assert("f6"@.len() == 2 && "f6"@[0] == 'f' && "f6"@[1] == '6');
    reveal_strlit("f7");
    assert("f7"@.len() == 2 && "f7"@[0] == 'f' && "f7"@[1] == '7');
    reveal_strlit("f8");
    assert("f8"@.len() == 2 && "f8"@[0] == 'f' && "f8"@[1] == '8');
    reveal_strlit("f9");
    assert("f9"@.len() == 2 && "f9"@[0] == 'f' && "f9"@[1] == '9');
    reveal_strlit("f10");
    assert("f10"@.len() == 3 && "f10"@[0] == 'f' && "f10"@[1] == '1' && "f10"@[2] == '0');
    reveal_strlit("f11");
    assert("f11"@.len() == 3 && "f11"@[0] == 'f' && "f11"@[1] == '1' && "f11"@[2] == '1');
    reveal_strlit("f12");
    assert("f12"@.len() == 3 && "f12"@[0] == 'f' && "f12"@[1] == '1' && "f12"@[2] == '2');
    reveal_strlit("tab");
    assert("tab"@.len() == 3 && "tab"@[0] == 't' && "tab"@[1] == 'a' && "tab"@[2] == 'b');
    reveal_strlit("escape");
    assert("escape"@.len() == 6 && "escape"@[0] == 'e' && "escape"@[1] == 's' && "escape"@[2] == 'c');
    reveal_strlit("backspace");
    assert("backspace"@.len() == 9 && "backspace"@[0] == 'b' && "backspace"@[1] == 'a' && "backspace"@[2] == 'c');
    reveal_strlit("space");
    assert("space"@.len() == 5 && "space"@[0] == 's' && "space"@[1] == 'p' && "space"@[2] == 'a');
    reveal_strlit("enter");
    assert("enter"@.len() == 5 && "enter"@[0] == 'e' && "enter"@[1] == 'n' && "enter"@[2] == 't');
}

/// Without composed text, a key that is neither Enter nor a Ctrl
/// character goes by its name.
proof fn lemma_named_path(ks: Keystroke, mode: KeyMode, option_as_meta: bool)
    requires
        ks.key_char is None,
        ks.key@ != "enter"@,
        !ks.modifiers.control || ctrl_char(ks.key@) is None,
    ensures
        translate_key_spec(ks, mode, option_as_meta) == named_key_spec(
            ks.key@,
            mod_code_spec(ks.modifiers.shift, ks.modifiers.alt, ks.modifiers.control),
            mode.app_cursor,
            ks.modifiers.shift,
        ),
{
}

#[verifier::spinoff_prover]
proof fn lemma_cursor_names(app: bool)
    ensures
        named_key_spec("up"@, None, app, false) == Some(seq![27u8, (if app { 79u8 } else { 91u8 }), 65u8]),
        "up"@ != "enter"@,
        named_key_spec("down"@, None, app, false) == Some(seq![27u8, (if app { 79u8 } else { 91u8 }), 66u8]),
        "down"@ != "enter"@,
        named_key_spec("right"@, None, app, false) == Some(seq![27u8, (if app { 79u8 } else { 91u8 }), 67u8]),
        "right"@ != "enter"@,
        named_key_spec("left"@, None, app, false) == Some(seq![27u8, (if app { 79u8 } else { 91u8 }), 68u8]),
        "left"@ != "enter"@,
        named_key_spec("home"@, None, app, false) == Some(seq![27u8, (if app { 79u8 } else { 91u8 }), 72u8]),
        "home"@ != "enter"@,
        named_key_spec("end"@, None, app, false) == Some(seq![27u8, (if app { 79u8 } else { 91u8 }), 70u8]),
        "end"@ != "enter"@,
{
    lemma_key_name_chars();
}

#[verifier::spinoff_prover]
proof fn lemma_edit_names(m: Option<u8>, app: bool, shift: bool)
    ensures
        named_key_spec("pageup"@, m, app, shift) == Some(tilde_seq(5, m)),
        "pageup"@ != "enter"@,
        "pageup"@ != "space"@ && "pageup"@.len() != 1,
        named_key_spec("pagedown"@, m, app, shift) == Some(tilde_seq(6, m)),
        "pagedown"@ != "enter"@,
        "pagedown"@ != "space"@ && "pagedown"@.len() != 1,
        named_key_spec("insert"@, m, app, shift) == Some(tilde_seq(2, m)),
        "insert"@ != "enter"@,
        "insert"@ != "space"@ && "insert"@.len() != 1,
        named_key_spec("delete"@, m, app, shift) == Some(tilde_seq(3, m)),
        "delete"@ != "enter"@,
        "delete"@ != "space"@ && "delete"@.len() != 1,
{
    lemma_key_name_chars();
}

#[verifier::spinoff_prover]
proof fn lemma_f1_f4_names(app: bool)
    ensures
        named_key_spec("f1"@, None, app, false) == Some(seq![27u8, 79u8, 80u8]),
        "f1"@ != "enter"@,
        named_key_spec("f2"@, None, app, false) == Some(seq![27u8, 79u8, 81u8]),
        "f2"@ != "enter"@,
        named_key_spec("f3"@, None, app, false) == Some(seq![27u8, 79u8, 82u8]),
        "f3"@ != "enter"@,
        named_key_spec("f4"@, None, app, false) == Some(seq![27u8, 79u8, 83u8]),
        "f4"@ != "enter"@,
{
    lemma_key_name_chars();
}

#[verifier::spinoff_prover]
proof fn lemma_f5_f12_names(app: bool)
    ensures
        named_key_spec("f5"@, None, app, false) == Some(tilde_seq(15, None)),
        "f5"@ != "enter"@,
        named_key_spec("f6"@, None, app, false) == Some(tilde_seq(17, None)),
        "f6"@ != "enter"@,
        named_key_spec("f7"@, None, app, false) == Some(tilde_seq(18, None)),
        "f7"@ != "enter"@,
        named_key_spec("f8"@, None, app, false) == Some(tilde_seq(19, None)),
        "f8"@ != "enter"@,
        named_key_spec("f9"@, None, app, false) == Some(tilde_seq(20, None)),
        "f9"@ != "enter"@,
        named_key_spec("f10"@, None, app, false) == Some(tilde_seq(21, None)),
        "f10"@ != "enter"@,
        named_key_spec("f11"@, None, app, false) == Some(tilde_seq(23, None)),
        "f11"@ != "enter"@,
        named_key_spec("f12"@, None, app, false) == Some(tilde_seq(24, None)),
        "f12"@ != "enter"@,
{
    lemma_key_name_chars();
}

#[verifier::spinoff_prover]
proof fn lemma_other_names(app: bool)
    ensures
        named_key_spec("tab"@, None, app, false) == Some(seq![9u8]),
        "tab"@ != "enter"@,
        named_key_spec("escape"@, None, app, false) == Some(seq![27u8]),
        "escape"@ != "enter"@,
        named_key_spec("backspace"@, None, app, false) == Some(seq![127u8]),
        "backspace"@ != "enter"@,
        named_key_spec("space"@, None, app, false) == Some(seq![32u8]),
        "space"@ != "enter"@,
{
    lemma_key_name_chars();
}

/// The digits of the small numbers the tilde sequences carry.
proof fn lemma_tilde_literals()
    ensures
        tilde_seq(5, None) == seq![27u8, 91u8, 53u8, 126u8],
        tilde_seq(6, None) == seq![27u8, 91u8, 54u8, 126u8],
        tilde_seq(2, None) == seq![27u8, 91u8, 50u8, 126u8],
        tilde_seq(3, None) == seq![27u8, 91u8, 51u8, 126u8],
        tilde_seq(15, None) == seq![27u8, 91u8, 49u8, 53u8, 126u8],
        tilde_seq(17, None) == seq![27u8, 91u8, 49u8, 55u8, 126u8],
        tilde_seq(18, None) == seq![27u8, 91u8, 49u8, 56u8, 126u8],
        tilde_seq(19, None) == seq![27u8, 91u8, 49u8, 57u8, 126u8],
        tilde_seq(20, None) == seq![27u8, 91u8, 50u8, 48u8, 126u8],
        tilde_seq(21, None) == seq![27u8, 91u8, 50u8, 49u8, 126u8],
        tilde_seq(23, None) == seq![27u8, 91u8, 50u8, 51u8, 126u8],
        tilde_seq(24, None) == seq![27u8, 91u8, 50u8, 52u8, 126u8],
{
    reveal_with_fuel(dec, 3);
    assert(dec(15) =~= seq![49u8, 53u8]);
    assert(dec(17) =~= seq![49u8, 55u8]);
    assert(dec(18) =~= seq![49u8, 56u8]);
    assert(dec(19) =~= seq![49u8, 57u8]);
    assert(dec(20) =~= seq![50u8, 48u8]);
    assert(dec(21) =~= seq![50u8, 49u8]);
    assert(dec(23) =~= seq![50u8, 51u8]);
    assert(dec(24) =~= seq![50u8, 52u8]);
    assert(tilde_seq(5, None) =~= seq![27u8, 91u8, 53u8, 126u8]);
    assert(tilde_seq(6, None) =~= seq![27u8, 91u8, 54u8, 126u8]);
    assert(tilde_seq(2, None) =~= seq![27u8, 91u8, 50u8, 126u8]);
    assert(tilde_seq(3, None) =~= seq![27u8, 91u8, 51u8, 126u8]);
    assert(tilde_seq(15, None) =~= seq![27u8, 91u8, 49u8, 53u8, 126u8]);
    assert(tilde_seq(17, None) =~= seq![27u8, 91u8, 49u8, 55u8, 126u8]);
    assert(tilde_seq(18, None) =~= seq![27u8, 91u8, 49u8, 56u8, 126u8]);
    assert(tilde_seq(19, None) =~= seq![27u8, 91u8, 49u8, 57u8, 126u8]);
    assert(tilde_seq(20, None) =~= seq![27u8, 91u8, 50u8, 48u8, 126u8]);
    assert(tilde_seq(21, None) =~= seq![27u8, 91u8, 50u8, 49u8, 126u8]);
    assert(tilde_seq(23, None) =~= seq![27u8, 91u8, 50u8, 51u8, 126u8]);
    assert(tilde_seq(24, None) =~= seq![27u8, 91u8, 50u8, 52u8, 126u8]);
}

/// What the named keys send when pressed alone, whatever the terminal
/// mode and the Option-as-Meta setting: the cursor keys `ESC [ A`..`D`
/// (`ESC O A`..`D` in application cursor mode), Home/End `ESC [ H`/`F`
/// (likewise), PageUp/PageDown `ESC [ 5 ~`/`ESC [ 6 ~`, Insert
/// `ESC [ 2 ~`, Delete `ESC [ 3 ~`, F1-F4 `ESC O P`..`S`, F5-F12
/// `ESC [ 15 ~` .. `ESC [ 24 ~` (skipping 16 and 22), Tab, Escape,
/// Backspace (DEL), Space and Enter (CR) their own bytes.
pub proof fn lemma_bare_named_keys(ks: Keystroke, mode: KeyMode, option_as_meta: bool)
    requires
        bare(ks),
    ensures
        ks.key@ == "up"@ ==> translate_key_spec(ks, mode, option_as_meta) == Some(seq![27u8, (if mode.app_cursor { 79u8 } else { 91u8 }), 65u8]),
        ks.key@ == "down"@ ==> translate_key_spec(ks, mode, option_as_meta) == Some(seq![27u8, (if mode.app_cursor { 79u8 } else { 91u8 }), 66u8]),
        ks.key@ == "right"@ ==> translate_key_spec(ks, mode, option_as_meta) == Some(seq![27u8, (if mode.app_cursor { 79u8 } else { 91u8 }), 67u8]),
        ks.key@ == "left"@ ==> translate_key_spec(ks, mode, option_as_meta) == Some(seq![27u8, (if mode.app_cursor { 79u8 } else { 91u8 }), 68u8]),
        ks.key@ == "home"@ ==> translate_key_spec(ks, mode, option_as_meta) == Some(seq![27u8, (if mode.app_cursor { 79u8 } else { 91u8 }), 72u8]),
        ks.key@ == "end"@ ==> translate_key_spec(ks, mode, option_as_meta) == Some(seq![27u8, (if mode.app_cursor { 79u8 } else { 91u8 }), 70u8]),
        ks.key@ == "pageup"@ ==> translate_key_spec(ks, mode, option_as_meta) == Some(seq![27u8, 91u8, 53u8, 126u8]),
        ks.key@ == "pagedown"@ ==> translate_key_spec(ks, mode, option_as_meta) == Some(seq![27u8, 91u8, 54u8, 126u8]),
        ks.key@ == "insert"@ ==> translate_key_spec(ks, mode, option_as_meta) == Some(seq![27u8, 91u8, 50u8, 126u8]),
        ks.key@ == "delete"@ ==> translate_key_spec(ks, mode, option_as_meta) == Some(seq![27u8, 91u8, 51u8, 126u8]),
        ks.key@ == "f1"@ ==> translate_key_spec(ks, mode, option_as_meta) == Some(seq![27u8, 79u8, 80u8]),
        ks.key@ == "f2"@ ==> translate_key_spec(ks, mode, option_as_meta) == Some(seq![27u8, 79u8, 81u8]),
        ks.key@ == "f3"@ ==> translate_key_spec(ks, mode, option_as_meta) == Some(seq![27u8, 79u8, 82u8]),
        ks.key@ == "f4"@ ==> translate_key_spec(ks, mode, option_as_meta) == Some(seq![27u8, 79u8, 83u8]),
        ks.key@ == "f5"@ ==> translate_key_spec(ks, mode, option_as_meta) == Some(seq![27u8, 91u8, 49u8, 53u8, 126u8]),
        ks.key@ == "f6"@ ==> translate_key_spec(ks, mode, option_as_meta) == Some(seq![27u8, 91u8, 49u8, 55u8, 126u8]),
        ks.key@ == "f7"@ ==> translate_key_spec(ks, mode, option_as_meta) == Some(seq![27u8, 91u8, 49u8, 56u8, 126u8]),
        ks.key@ == "f8"@ ==> translate_key_spec(ks, mode, option_as_meta) == Some(seq![27u8, 91u8, 49u8, 57u8, 126u8]),
        ks.key@ == "f9"@ ==> translate_key_spec(ks, mode, option_as_meta) == Some(seq![27u8, 91u8, 50u8, 48u8, 126u8]),
        ks.key@ == "f10"@ ==> translate_key_spec(ks, mode, option_as_meta) == Some(seq![27u8, 91u8, 50u8, 49u8, 126u8]),
        ks.key@ == "f11"@ ==> translate_key_spec(ks, mode, option_as_meta) == Some(seq![27u8, 91u8, 50u8, 51u8, 126u8]),
        ks.key@ == "f12"@ ==> translate_key_spec(ks, mode, option_as_meta) == Some(seq![27u8, 91u8, 50u8, 52u8, 126u8]),
        ks.key@ == "tab"@ ==> translate_key_spec(ks, mode, option_as_meta) == Some(seq![9u8]),
        ks.key@ == "escape"@ ==> translate_key_spec(ks, mode, option_as_meta) == Some(seq![27u8]),
        ks.key@ == "backspace"@ ==> translate_key_spec(ks, mode, option_as_meta) == Some(seq![127u8]),
        ks.key@ == "space"@ ==> translate_key_spec(ks, mode, option_as_meta) == Some(seq![32u8]),
        ks.key@ == "enter"@ ==> translate_key_spec(ks, mode, option_as_meta) == Some(seq![13u8]),
{
    let app = mode.app_cursor;
    lemma_cursor_names(app);
    lemma_edit_names(None, app, false);
    lemma_f1_f4_names(app);
    lemma_f5_f12_names(app);
    lemma_other_names(app);
    lemma_tilde_literals();
    assert(mod_code_spec(false, false, false) is None);
    if ks.key@ != "enter"@ {
        lemma_named_path(ks, mode, option_as_meta);
    }
}

/// Delete and Insert, pressed with the same modifiers and no composed
/// text, never send the same bytes: Delete's sequence carries parameter 3
/// and Insert's 2, followed by `;` and the xterm modifier parameter
/// 1 + Shift + 2 Alt + 4 Ctrl when a modifier is held.
pub proof fn lemma_delete_insert(del: Keystroke, ins: Keystroke, mode: KeyMode, option_as_meta: bool)
    requires
        del.key@ == "delete"@,
        ins.key@ == "insert"@,
        del.key_char is None,
        ins.key_char is None,
        del.modifiers == ins.modifiers,
    ensures
        translate_key_spec(del, mode, option_as_meta) != translate_key_spec(ins, mode, option_as_meta),
        !del.modifiers.shift && !del.modifiers.alt && !del.modifiers.control ==> translate_key_spec(
            del,
            mode,
            option_as_meta,
        ) == Some(seq![27u8, 91u8, 51u8, 126u8]),
        del.modifiers.shift || del.modifiers.alt || del.modifiers.control ==> translate_key_spec(
            del,
            mode,
            option_as_meta,
        ) == Some(
            seq![
                27u8,
                91u8,
                51u8,
                59u8,
                (49 + (if del.modifiers.shift { 1int } else { 0 }) + (if del.modifiers.alt { 2int } else { 0 })
                    + (if del.modifiers.control { 4int } else { 0 })) as u8,
                126u8,
            ],
        ),
        ins.modifiers.shift || ins.modifiers.alt || ins.modifiers.control ==> translate_key_spec(
            ins,
            mode,
            option_as_meta,
        ) == Some(
            seq![
                27u8,
                91u8,
                50u8,
                59u8,
                (49 + (if ins.modifiers.shift { 1int } else { 0 }) + (if ins.modifiers.alt { 2int } else { 0 })
                    + (if ins.modifiers.control { 4int } else { 0 })) as u8,
                126u8,
            ],
        ),
{
    let md = del.modifiers;
    let m = mod_code_spec(md.shift, md.alt, md.control);
    lemma_edit_names(m, mode.app_cursor, md.shift);
    lemma_named_path(del, mode, option_as_meta);
    lemma_named_path(ins, mode, option_as_meta);
    lemma_tilde_literals();
    match m {
        Some(x) => {
            assert(dec(3) =~= seq![51u8]);
            assert(dec(2) =~= seq![50u8]);
            assert(dec(x as nat) =~= seq![(48 + x) as u8]);
            assert(tilde_seq(3, m) =~= seq![27u8, 91u8, 51u8, 59u8, (48 + x) as u8, 126u8]);
            assert(tilde_seq(2, m) =~= seq![27u8, 91u8, 50u8, 59u8, (48 + x) as u8, 126u8]);
            assert(tilde_seq(3, m)[2] != tilde_seq(2, m)[2]);
        },
        None => {
            assert(tilde_seq(3, m)[2] != tilde_seq(2, m)[2]);
        },
    }
}

/// With Shift, Alt or Ctrl held, the cursor keys and Home/End send
/// `ESC [ 1 ; m X`, where `m` is 1 + Shift + 2 Alt + 4 Ctrl (so Shift
/// gives 2, Alt 3, Ctrl 5) and `X` the key's final byte, whatever the
/// cursor mode.
pub proof fn lemma_modified_cursor_keys(ks: Keystroke, mode: KeyMode, option_as_meta: bool)
    requires
        ks.key_char is None,
        ks.modifiers.shift || ks.modifiers.alt || ks.modifiers.control,
    ensures
        ks.key@ == "up"@ ==> translate_key_spec(ks, mode, option_as_meta) == Some(
            seq![27u8, 91u8, 49u8, 59u8, (49 + (if ks.modifiers.shift { 1int } else { 0 }) + (if ks.modifiers.alt { 2int } else { 0 }) + (if ks.modifiers.control { 4int } else { 0 })) as u8, 65u8],
        ),
        ks.key@ == "down"@ ==> translate_key_spec(ks, mode, option_as_meta) == Some(
            seq![27u8, 91u8, 49u8, 59u8, (49 + (if ks.modifiers.shift { 1int } else { 0 }) + (if ks.modifiers.alt { 2int } else { 0 }) + (if ks.modifiers.control { 4int } else { 0 })) as u8, 66u8],
        ),
        ks.key@ == "right"@ ==> translate_key_spec(ks, mode, option_as_meta) == Some(
            seq![27u8, 91u8, 49u8, 59u8, (49 + (if ks.modifiers.shift { 1int } else { 0 }) + (if ks.modifiers.alt { 2int } else { 0 }) + (if ks.modifiers.control { 4int } else { 0 })) as u8, 67u8],
        ),
        ks.key@ == "left"@ ==> translate_key_spec(ks, mode, option_as_meta) == Some(
            seq![27u8, 91u8, 49u8, 59u8, (49 + (if ks.modifiers.shift { 1int } else { 0 }) + (if ks.modifiers.alt { 2int } else { 0 }) + (if ks.modifiers.control { 4int } else { 0 })) as u8, 68u8],
        ),
        ks.key@ == "home"@ ==> translate_key_spec(ks, mode, option_as_meta) == Some(
            seq![27u8, 91u8, 49u8, 59u8, (49 + (if ks.modifiers.shift { 1int } else { 0 }) + (if ks.modifiers.alt { 2int } else { 0 }) + (if ks.modifiers.control { 4int } else { 0 })) as u8, 72u8],
        ),
        ks.key@ == "end"@ ==> translate_key_spec(ks, mode, option_as_meta) == Some(
            seq![27u8, 91u8, 49u8, 59u8, (49 + (if ks.modifiers.shift { 1int } else { 0 }) + (if ks.modifiers.alt { 2int } else { 0 }) + (if ks.modifiers.control { 4int } else { 0 })) as u8, 70u8],
        ),
{
    lemma_key_name_chars();
    let md = ks.modifiers;
    let m = mod_code_spec(md.shift, md.alt, md.control);
    if ks.key@ == "up"@ || ks.key@ == "down"@ || ks.key@ == "right"@ || ks.key@ == "left"@ || ks.key@
        == "home"@ || ks.key@ == "end"@ {
        lemma_named_path(ks, mode, option_as_meta);
        let x = m->0;
        assert(x < 10);
        assert(dec(x as nat) =~= seq![(48 + x) as u8]);
        lemma_cursor_names_modified(m, mode.app_cursor, md.shift);
    }
}

#[verifier::spinoff_prover]
proof fn lemma_cursor_names_modified(m: Option<u8>, app: bool, shift: bool)
    ensures
        named_key_spec("up"@, m, app, shift) == Some(csi_seq(65, m, app)),
        named_key_spec("down"@, m, app, shift) == Some(csi_seq(66, m, app)),
        named_key_spec("right"@, m, app, shift) == Some(csi_seq(67, m, app)),
        named_key_spec("left"@, m, app, shift) == Some(csi_seq(68, m, app)),
        named_key_spec("home"@, m, app, shift) == Some(csi_seq(72, m, app)),
        named_key_spec("end"@, m, app, shift) == Some(csi_seq(70, m, app)),
{
    lemma_key_name_chars();
}

/// Ctrl (without Alt) and a letter, in either case, sends the letter's
/// place in the alphabet, 1 for `a` to 26 for `z`; Ctrl+Space sends NUL.
pub proof fn lemma_ctrl_letters(ks: Keystroke, mode: KeyMode, option_as_meta: bool)
    requires
        ks.modifiers.control,
        !ks.modifiers.alt,
    ensures
        ks.key@.len() == 1 && 'a' <= ks.key@[0] <= 'z' ==> translate_key_spec(ks, mode, option_as_meta) == Some(
            seq![(ks.key@[0] as u32 - 96) as u8],
        ),
        ks.key@.len() == 1 && 'A' <= ks.key@[0] <= 'Z' ==> translate_key_spec(ks, mode, option_as_meta) == Some(
            seq![(ks.key@[0] as u32 - 64) as u8],
        ),
        ks.key@ == "space"@ ==> translate_key_spec(ks, mode, option_as_meta) == Some(seq![0u8]),
{
    lemma_key_name_chars();
}

/// Enter sends CR, or `ESC [ 13 ; 2 u` for Shift+Enter when the
/// application asked for disambiguated escape codes; Shift+Tab sends
/// `ESC [ Z`.
pub proof fn lemma_enter_and_back_tab(ks: Keystroke, mode: KeyMode, option_as_meta: bool)
    requires
        !(ks.modifiers.alt && !ks.modifiers.control && option_as_meta && ks.key_char is Some),
    ensures
        ks.key@ == "enter"@ ==> translate_key_spec(ks, mode, option_as_meta) == (if ks.modifiers.shift
            && mode.disambiguate_esc_codes {
            Some(seq![27u8, 91u8, 49u8, 51u8, 59u8, 50u8, 117u8])
        } else {
            Some(seq![13u8])
        }),
        ks.key@ == "tab"@ && ks.key_char is None && ks.modifiers.shift ==> translate_key_spec(ks, mode, option_as_meta)
            == Some(seq![27u8, 91u8, 90u8]),
{
    lemma_key_name_chars();
    if ks.key@ == "tab"@ && ks.key_char is None {
        lemma_named_path(ks, mode, option_as_meta);
        lemma_other_names_any(mod_code_spec(ks.modifiers.shift, ks.modifiers.alt, ks.modifiers.control), mode.app_cursor);
    }
}

#[verifier::spinoff_prover]
proof fn lemma_other_names_any(m: Option<u8>, app: bool)
    ensures
        named_key_spec("tab"@, m, app, true) == Some(seq![27u8, 91u8, 90u8]),
{
    lemma_key_name_chars();
}

/// Alt with composed text (and no Ctrl) sends ESC followed by the text
/// when Option acts as Meta, and the text alone otherwise.
pub proof fn lemma_alt_text(ks: Keystroke, mode: KeyMode, option_as_meta: bool)
    requires
        ks.modifiers.alt,
        !ks.modifiers.control,
        ks.key_char is Some,
        ks.key@ != "enter"@,
    ensures
        translate_key_spec(ks, mode, option_as_meta) == Some(
            if option_as_meta {
                seq![27u8] + encode_utf8(ks.key_char->0@)
            } else {
                encode_utf8(ks.key_char->0@)
            },
        ),
{
}

} // verus!
