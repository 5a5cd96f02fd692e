//! Mouse encoding for the PTY and scrollbar geometry: xterm mouse reports,
//! the scrollbar thumb's position and size in rows, the selection kind a
//! click count starts, and the buffer-line to viewport-row transform.

use vstd::prelude::*;
use crate::digits::{dec, push_dec};

verus! {

/// `x + 32`, saturated at 255.
pub open spec fn plus_32_saturated(x: int) -> u8 {
    if x + 32 > 255 {
        255
    } else {
        (x + 32) as u8
    }
}

/// The xterm mouse report for `button` at (`col`, `row`), zero-based.
/// SGR mode: `ESC [ < button ; col+1 ; row+1 M` on press, `m` on release.
/// Legacy X10 mode: `ESC [ M` and three bytes, each value plus 32 (the
/// coordinates taken modulo 256 first, every byte saturating at 255); X10
/// has no release report.
pub open spec fn mouse_report(button: u8, col: nat, row: nat, pressed: bool, sgr: bool) -> Option<Seq<u8>> {
    if sgr {
        Some(
            seq![27u8, 91u8, 60u8] + dec(button as nat) + seq![59u8] + dec(col + 1) + seq![59u8]
                + dec(row + 1) + seq![if pressed { 77u8 } else { 109u8 }],
        )
    } else if pressed {
        Some(
            seq![
                27u8,
                91u8,
                77u8,
                plus_32_saturated(button as int),
                plus_32_saturated(((col + 1) % 256) as int),
                plus_32_saturated(((row + 1) % 256) as int),
            ],
        )
    } else {
        None
    }
}

/// In SGR mode a report starts `ESC [ <`, ends in `M` for a press and
/// `m` for a release, and the press and release reports of one button at
/// one cell differ in that last byte only. In X10 mode a release sends
/// nothing, and a press of a small button near the origin sends
/// `ESC [ M` with the button plus 32 and the one-based column and row
/// plus 32.
pub proof fn lemma_mouse_reports(button: u8, col: nat, row: nat)
    ensures
        ({
            let p = mouse_report(button, col, row, true, true)->0;
            let q = mouse_report(button, col, row, false, true)->0;
            &&& mouse_report(button, col, row, true, true) is Some
            &&& mouse_report(button, col, row, false, true) is Some
            &&& p.len() == q.len()
            &&& p.len() >= 4
            &&& p[0] == 27u8 && p[1] == 91u8 && p[2] == 60u8
            &&& p.last() == 77u8
            &&& q.last() == 109u8
            &&& p.drop_last() == q.drop_last()
        }),
        mouse_report(button, col, row, false, false) is None,
        button < 10 && col < 9 && row < 9 ==> mouse_report(button, col, row, true, true) == Some(
            seq![27u8, 91u8, 60u8, (48 + button) as u8, 59u8, (49 + col) as u8, 59u8, (49 + row) as u8, 77u8],
        ),
        button < 224 && col < 223 && row < 223 ==> mouse_report(button, col, row, true, false) == Some(
            seq![27u8, 91u8, 77u8, (button + 32) as u8, (col + 33) as u8, (row + 33) as u8],
        ),
{
    let p = mouse_report(button, col, row, true, true)->0;
    let q = mouse_report(button, col, row, false, true)->0;
    let body = seq![27u8, 91u8, 60u8] + dec(button as nat) + seq![59u8] + dec(col + 1) + seq![59u8] + dec(
        row + 1,
    );
    assert(p =~= body.push(77u8));
    assert(q =~= body.push(109u8));
    assert(p.drop_last() =~= body);
    assert(q.drop_last() =~= body);
    if button < 10 && col < 9 && row < 9 {
        assert(p =~= seq![27u8, 91u8, 60u8, (48 + button) as u8, 59u8, (49 + col) as u8, 59u8, (49 + row) as u8, 77u8]);
    }
    if col < 223 && row < 223 {
        assert((col + 1) % 256 == col + 1) by {
            vstd::arithmetic::div_mod::lemma_small_mod((col + 1) as nat, 256);
        }
        assert((row + 1) % 256 == row + 1) by {
            vstd::arithmetic::div_mod::lemma_small_mod((row + 1) as nat, 256);
        }
    }
}

/// Format a mouse-report escape sequence; `None` for a release in X10 mode.
pub fn format_mouse_report(button: u8, col: usize, row: usize, pressed: bool, sgr: bool) -> (r: Option<Vec<u8>>)
    requires
        col < usize::MAX,
        row < usize::MAX,
    ensures
        r matches Some(v) ==> mouse_report(button, col as nat, row as nat, pressed, sgr) == Some(v@),
        r is None <==> mouse_report(button, col as nat, row as nat, pressed, sgr) is None,
{
    if sgr {
        let mut out: Vec<u8> = Vec::new();
        out.push(27u8);
        out.push(91u8);
        out.push(60u8);
        push_dec(&mut out, button as u64);
        out.push(59u8);
        push_dec(&mut out, (col + 1) as u64);
        out.push(59u8);
        push_dec(&mut out, (row + 1) as u64);
        out.push(if pressed { 77u8 } else { 109u8 });
        proof {
            let ghost expect = seq![27u8, 91u8, 60u8] + dec(button as nat) + seq![59u8]
                + dec(col as nat + 1) + seq![59u8] + dec(row as nat + 1)
                + seq![if pressed { 77u8 } else { 109u8 }];
            assert(out@ =~= expect);
        }
        Some(out)
    } else if pressed {
        let b: u8 = button.saturating_add(32);
        let x: u8 = (((col + 1) % 256) as u8).saturating_add(32);
        let y: u8 = (((row + 1) % 256) as u8).saturating_add(32);
        let out: Vec<u8> = vec![27u8, 91u8, 77u8, b, x, y];
        proof {
            assert(out@ =~= seq![
                27u8,
                91u8,
                77u8,
                plus_32_saturated(button as int),
                plus_32_saturated(((col as nat + 1) % 256) as int),
                plus_32_saturated(((row as nat + 1) % 256) as int),
            ]);
        }
        Some(out)
    } else {
        None
    }
}

/// `a / b` rounded to the nearest integer, halves rounding up.
pub open spec fn round_div(a: nat, b: nat) -> nat
    recommends
        b > 0,
{
    (2 * a + b) / (2 * b)
}

/// Rows the thumb spans: the visible share of all lines, scaled to the
/// track and rounded, at least 1 and at most the whole track.
pub open spec fn thumb_rows_spec(screen_rows: nat, history_size: nat) -> nat {
    let total = screen_rows + history_size;
    let raw = round_div(screen_rows * screen_rows, total);
    if raw < 1 {
        1
    } else if raw > screen_rows {
        screen_rows
    } else {
        raw
    }
}

/// The row the thumb starts at: 0 at the top of history, the free track
/// length at the live bottom, linear in between and rounded.
pub open spec fn thumb_start_spec(screen_rows: nat, history_size: nat, display_offset: nat) -> nat {
    let slack = (screen_rows - thumb_rows_spec(screen_rows, history_size)) as nat;
    if history_size == 0 {
        slack
    } else if display_offset >= history_size {
        0
    } else {
        round_div(((history_size - display_offset) * slack) as nat, history_size)
    }
}

proof fn lemma_round_div(a: nat, b: nat, q: nat, r: nat)
    requires
        b > 0,
        a == q * b + r,
        r < b,
    ensures
        round_div(a, b) == (if 2 * r >= b { q + 1 } else { q }),
{
    if 2 * r >= b {
        assert(2 * a + b == (q + 1) * (2 * b) + (2 * r - b)) by (nonlinear_arith)
            requires a == q * b + r;
        vstd::arithmetic::div_mod::lemma_fundamental_div_mod_converse(
            (2 * a + b) as int,
            (2 * b) as int,
            (q + 1) as int,
            (2 * r - b) as int,
        );
    } else {
        assert(2 * a + b == q * (2 * b) + (2 * r + b)) by (nonlinear_arith)
            requires a == q * b + r;
        vstd::arithmetic::div_mod::lemma_fundamental_div_mod_converse(
            (2 * a + b) as int,
            (2 * b) as int,
            q as int,
            (2 * r + b) as int,
        );
    }
}

fn round_div_exec(a: u128, b: u128) -> (r: u128)
    requires
        b > 0,
        b <= u64::MAX,
    ensures
        r == round_div(a as nat, b as nat),
{
    let q = a / b;
    let rem = a % b;
    proof {
        vstd::arithmetic::div_mod::lemma_fundamental_div_mod(a as int, b as int);
        assert(a == q * b + rem) by (nonlinear_arith)
            requires a as int == b as int * (a as int / b as int) + (a as int % b as int), q == a / b, rem == a % b;
        lemma_round_div(a as nat, b as nat, q as nat, rem as nat);
        assert(q * b <= a) by (nonlinear_arith) requires a == q * b + rem;
        if b >= 2 {
            assert(q < u128::MAX) by (nonlinear_arith) requires q * b <= a, b >= 2;
        } else {
            assert(rem == 0);
        }
    }
    if 2 * rem >= b {
        q + 1
    } else {
        q
    }
}

/// Scrollbar thumb geometry in rows: `(thumb_start, thumb_rows)`.
/// `display_offset` 0 is the live bottom, `history_size` the top of
/// history.
pub fn scrollbar_thumb_geometry(screen_rows: usize, history_size: usize, display_offset: usize) -> (r: (usize, usize))
    requires
        screen_rows >= 1,
        screen_rows + history_size <= usize::MAX,
    ensures
        r.1 == thumb_rows_spec(screen_rows as nat, history_size as nat),
        r.0 == thumb_start_spec(screen_rows as nat, history_size as nat, display_offset as nat),
        1 <= r.1 <= screen_rows,
        r.0 + r.1 <= screen_rows,
{
    let s: u128 = screen_rows as u128;
    let h: u128 = history_size as u128;
    let total: u128 = s + h;
    proof {
        assert(s * s <= u64::MAX * u64::MAX) by (nonlinear_arith) requires s <= u64::MAX;
    }
    let raw = round_div_exec(s * s, total);
    let thumb: u128 = if raw < 1 {
        1
    } else if raw > s {
        s
    } else {
        raw
    };
    let slack: u128 = s - thumb;
    let start: u128 = if h == 0 {
        slack
    } else if display_offset as u128 >= h {
        0
    } else {
        let d: u128 = display_offset as u128;
        proof {
            assert((h - d) * slack <= u64::MAX * u64::MAX) by (nonlinear_arith)
                requires h - d <= u64::MAX, slack <= u64::MAX;
        }
        let v = round_div_exec((h - d) * slack, h);
        proof {
            assert((h - d) * slack <= h * slack) by (nonlinear_arith) requires d <= h;
            assert(round_div(((h - d) * slack) as nat, h as nat) <= slack) by {
                let a = ((h - d) * slack) as int;
                let hh = h as int;
                let sl = slack as int;
                assert(2 * a + hh <= 2 * hh * sl + hh) by (nonlinear_arith)
                    requires a <= hh * sl;
                vstd::arithmetic::div_mod::lemma_div_is_ordered(2 * a + hh, 2 * hh * sl + hh, 2 * hh);
                assert(2 * hh * sl + hh == sl * (2 * hh) + hh) by (nonlinear_arith);
                vstd::arithmetic::div_mod::lemma_fundamental_div_mod_converse(2 * hh * sl + hh, 2 * hh, sl, hh);
            }
        }
        v
    };
    (start as usize, thumb as usize)
}

/// The thumb sits flush with the bottom of the track at the live bottom
/// (offset 0) and at the top once scrolled back through all of history;
/// without history it fills the whole track.
pub proof fn lemma_thumb_ends(screen_rows: nat, history_size: nat)
    requires
        screen_rows >= 1,
    ensures
        thumb_start_spec(screen_rows, history_size, 0) + thumb_rows_spec(screen_rows, history_size) == screen_rows,
        history_size > 0 ==> thumb_start_spec(screen_rows, history_size, history_size) == 0,
        history_size == 0 ==> thumb_rows_spec(screen_rows, 0) == screen_rows && thumb_start_spec(screen_rows, 0, 0) == 0,
{
    let slack = (screen_rows - thumb_rows_spec(screen_rows, history_size)) as nat;
    if history_size > 0 {
        let a = (history_size * slack) as nat;
        assert(2 * a + history_size == slack * (2 * history_size) + history_size) by (nonlinear_arith)
            requires a == history_size * slack;
        vstd::arithmetic::div_mod::lemma_fundamental_div_mod_converse(
            (2 * a + history_size) as int,
            (2 * history_size) as int,
            slack as int,
            history_size as int,
        );
    } else {
        let s = screen_rows;
        assert(2 * (s * s) + s == s * (2 * s) + s) by (nonlinear_arith);
        vstd::arithmetic::div_mod::lemma_fundamental_div_mod_converse(
            (2 * (s * s) + s) as int,
            (2 * s) as int,
            s as int,
            s as int,
        );
    }
}

/// What a run of clicks selects: one click a range of cells, two the word
/// under the pointer, three the whole line.
#[derive(Debug, Clone, Copy, PartialEq, Eq, Structural)]
pub enum SelectionKind {
    Simple,
    Semantic,
    Lines,
}

/// The selection a click count starts.
pub fn selection_type_for_clicks(clicks: u32) -> (r: SelectionKind)
    ensures
        r == (if clicks == 2 {
            SelectionKind::Semantic
        } else if clicks == 3 {
            SelectionKind::Lines
        } else {
            SelectionKind::Simple
        }),
{
    match clicks {
        2 => SelectionKind::Semantic,
        3 => SelectionKind::Lines,
        _ => SelectionKind::Simple,
    }
}

/// The viewport row that buffer line `line` occupies when the view is
/// scrolled back `display_offset` lines, or `None` above the viewport.
pub fn viewport_row(line: i32, display_offset: usize) -> (r: Option<usize>)
    requires
        display_offset <= i32::MAX,
        line + display_offset <= i32::MAX,
    ensures
        r == (if line + display_offset >= 0 { Some((line + display_offset) as usize) } else { None::<usize> }),
{
    let row: i32 = line + display_offset as i32;
    if row >= 0 {
        Some(row as usize)
    } else {
        None
    }
}

} // verus!
