//! What each pointer event over a terminal pane does: drag the scrollbar,
//! forward an xterm mouse report to the program, or start, extend, copy or
//! clear a local selection. The caller measures the event (which cell, is
//! it over the scrollbar strip, which scrollback offset the pointer's height
//! stands for) and performs the returned action; the decisions and the
//! click bookkeeping live here.

use vstd::prelude::*;
use crate::click_state::{after_click, after_move, after_start_gesture, after_take, next_click_count, state_in, Cell, ClickState, ClickTracker};
use crate::mouse::{format_mouse_report, mouse_report, selection_type_for_clicks, SelectionKind};

verus! {

broadcast use vstd::std_specs::hash::group_hash_axioms;

/// How the program running in the terminal asked for mouse input.
#[derive(Debug, Clone, Copy, PartialEq, Eq, Structural)]
pub struct MouseMode {
    /// The program wants mouse reports instead of local selection.
    pub report: bool,
    /// Reports use the SGR encoding rather than legacy X10.
    pub sgr: bool,
    /// Pointer motion with a button held is reported too.
    pub motion: bool,
}

/// The scrollback context of a pointer event: how much history there is,
/// how far the view is scrolled back, and the offset the pointer's height
/// on the scrollbar strip stands for.
#[derive(Debug, Clone, Copy, PartialEq, Eq, Structural)]
pub struct ScrollContext {
    pub history_size: usize,
    pub display_offset: usize,
    pub target_offset: usize,
}

/// The outcome of a left-button press inside the pane.
#[derive(Debug)]
pub enum DownAction {
    /// A press on the scrollbar strip: scroll by `delta` lines (positive
    /// toward history; 0 means stay) and follow the pointer from now on.
    Scrollbar { delta: i64 },
    /// Focus the pane and write this press report to the program.
    Report { bytes: Vec<u8> },
    /// Focus the pane and start a local selection at `cell`.
    Select { cell: Cell, kind: SelectionKind },
}

/// The outcome of a pointer move with the left button held.
#[derive(Debug)]
pub enum MoveAction {
    /// Scroll by `delta` lines while dragging the scrollbar thumb.
    Scroll { delta: i64 },
    /// Write this motion report to the program.
    Report { bytes: Vec<u8> },
    /// Extend the local selection to `cell`.
    Extend { cell: Cell },
    Nothing,
}

/// The outcome of a wheel event that moved `lines` whole lines.
#[derive(Debug)]
pub enum WheelAction {
    Nothing,
    /// Write `bytes` to the program `count` times.
    Report { bytes: Vec<u8>, count: u32 },
    /// Scroll the view by this many lines (positive toward history).
    Scroll { lines: i32 },
}

/// The outcome of a left-button release.
#[derive(Debug)]
pub enum UpAction {
    /// The scrollbar drag ended; nothing else happens.
    EndScrollbarDrag,
    /// Write this release report to the program, if the encoding has one.
    Report { bytes: Option<Vec<u8>> },
    /// The gesture was a real drag: copy the selection.
    Copy,
    /// The gesture was a plain click: clear its one-cell selection.
    Clear,
}

/// Lines to scroll so that the view lands on `target`.
pub open spec fn scroll_delta(ctx: ScrollContext) -> int {
    ctx.target_offset - ctx.display_offset
}

pub open spec fn report_bytes(button: u8, cell: Cell, pressed: bool, sgr: bool) -> Seq<u8> {
    mouse_report(button, cell.0 as nat, cell.1 as nat, pressed, sgr).unwrap()
}

/// The state a terminal is left in by a press that starts a selection with
/// click count `clicks`: a double or triple click is a finished selection
/// and counts as dragged.
pub open spec fn after_select_press(s: ClickState, cell: Cell, now_ms: u64) -> ClickState {
    let clicks = next_click_count(s, cell, now_ms);
    let t = after_click(s, cell, now_ms);
    if clicks > 1 {
        ClickState { dragged: true, ..t }
    } else {
        t
    }
}

pub open spec fn kind_for_clicks(clicks: u32) -> SelectionKind {
    if clicks == 2 {
        SelectionKind::Semantic
    } else if clicks == 3 {
        SelectionKind::Lines
    } else {
        SelectionKind::Simple
    }
}

fn delta_to(ctx: ScrollContext) -> (r: i64)
    requires
        ctx.target_offset <= i64::MAX,
        ctx.display_offset <= i64::MAX,
    ensures
        r == scroll_delta(ctx),
{
    ctx.target_offset as i64 - ctx.display_offset as i64
}

impl ClickTracker {
    /// A left-button press at `cell`. `on_scrollbar` says whether it landed
    /// on the scrollbar strip; that only counts when there is history to
    /// scroll.
    pub fn mouse_down(
        &mut self,
        key: usize,
        cell: Cell,
        on_scrollbar: bool,
        ctx: ScrollContext,
        mode: MouseMode,
        now_ms: u64,
    ) -> (r: DownAction)
        requires
            cell.0 < usize::MAX,
            cell.1 < usize::MAX,
            ctx.target_offset <= i64::MAX,
            ctx.display_offset <= i64::MAX,
        ensures
            ({
                let s = state_in(old(self)@, key);
                let fresh = after_start_gesture(ClickState { dragging_scrollbar: false, ..s }, cell);
                if ctx.history_size > 0 && on_scrollbar {
                    &&& r == (DownAction::Scrollbar { delta: scroll_delta(ctx) as i64 })
                    &&& final(self)@ == old(self)@.insert(key, ClickState { dragging_scrollbar: true, ..s })
                } else if mode.report {
                    &&& r matches DownAction::Report { bytes } && bytes@ == report_bytes(0, cell, true, mode.sgr)
                    &&& final(self)@ == old(self)@.insert(key, fresh)
                } else {
                    &&& r == (DownAction::Select {
                        cell,
                        kind: kind_for_clicks(next_click_count(fresh, cell, now_ms)),
                    })
                    &&& final(self)@ == old(self)@.insert(key, after_select_press(fresh, cell, now_ms))
                }
            }),
    {
        if ctx.history_size > 0 && on_scrollbar {
            let delta = delta_to(ctx);
            self.set_dragging_scrollbar(key, true);
            return DownAction::Scrollbar { delta };
        }
        self.set_dragging_scrollbar(key, false);
        self.start_gesture(key, cell);
        if mode.report {
            let bytes = format_mouse_report(0, cell.0, cell.1, true, mode.sgr);
            match bytes {
                Some(b) => DownAction::Report { bytes: b },
                None => {
                    proof {
                        assert(false);
                    }
                    DownAction::Report { bytes: Vec::new() }
                },
            }
        } else {
            let clicks = self.register_click(key, cell, now_ms);
            let kind = selection_type_for_clicks(clicks);
            if clicks > 1 {
                self.mark_dragged(key);
            }
            proof {
                let s = state_in(old(self)@, key);
                let fresh = after_start_gesture(ClickState { dragging_scrollbar: false, ..s }, cell);
                assert(self@ =~= old(self)@.insert(key, after_select_press(fresh, cell, now_ms)));
            }
            DownAction::Select { cell, kind }
        }
    }
    /// The pointer moved to `cell` with the left button held. `inside` says
    /// whether it is over this pane; `blocked` whether a pane separator or
    /// panel edge is being dragged, which owns the pointer meanwhile.
    pub fn mouse_move(
        &mut self,
        key: usize,
        cell: Cell,
        inside: bool,
        blocked: bool,
        ctx: ScrollContext,
        mode: MouseMode,
    ) -> (r: MoveAction)
        requires
            cell.0 < usize::MAX,
            cell.1 < usize::MAX,
            ctx.target_offset <= i64::MAX,
            ctx.display_offset <= i64::MAX,
        ensures
            ({
                let s = state_in(old(self)@, key);
                if blocked {
                    r is Nothing && final(self)@ == old(self)@
                } else if s.dragging_scrollbar {
                    &&& (if ctx.history_size > 0 {
                        r == (MoveAction::Scroll { delta: scroll_delta(ctx) as i64 })
                    } else {
                        r is Nothing
                    })
                    &&& final(self)@ == old(self)@
                } else if !inside {
                    r is Nothing && final(self)@ == old(self)@
                } else if mode.report {
                    &&& (if mode.motion {
                        r matches MoveAction::Report { bytes } && bytes@ == report_bytes(32, cell, true, mode.sgr)
                    } else {
                        r is Nothing
                    })
                    &&& final(self)@ == old(self)@
                } else {
                    &&& r == (MoveAction::Extend { cell })
                    &&& final(self)@ == old(self)@.insert(key, after_move(s, cell))
                }
            }),
    {
        if blocked {
            return MoveAction::Nothing;
        }
        if self.is_dragging_scrollbar(key) {
            if ctx.history_size > 0 {
                return MoveAction::Scroll { delta: delta_to(ctx) };
            }
            return MoveAction::Nothing;
        }
        if !inside {
            return MoveAction::Nothing;
        }
        if mode.report {
            if mode.motion {
                match format_mouse_report(32, cell.0, cell.1, true, mode.sgr) {
                    Some(bytes) => {
                        return MoveAction::Report { bytes };
                    },
                    None => {
                        proof {
                            assert(false);
                        }
                    },
                }
            }
            return MoveAction::Nothing;
        }
        self.mark_dragged_if_moved(key, cell);
        MoveAction::Extend { cell }
    }

    /// The left button was released over `cell`.
    pub fn mouse_up(&mut self, key: usize, cell: Cell, mode: MouseMode) -> (r: UpAction)
        requires
            cell.0 < usize::MAX,
            cell.1 < usize::MAX,
        ensures
            ({
                let s = state_in(old(self)@, key);
                if s.dragging_scrollbar {
                    &&& r is EndScrollbarDrag
                    &&& final(self)@ == old(self)@.insert(key, ClickState { dragging_scrollbar: false, ..s })
                } else if mode.report {
                    &&& r matches UpAction::Report { bytes } && (match bytes {
                        Some(b) => mouse_report(0, cell.0 as nat, cell.1 as nat, false, mode.sgr) == Some(b@),
                        None => mouse_report(0, cell.0 as nat, cell.1 as nat, false, mode.sgr) is None,
                    })
                    &&& final(self)@ == old(self)@
                } else {
                    &&& r == (if s.dragged { UpAction::Copy } else { UpAction::Clear })
                    &&& final(self)@ == old(self)@.insert(key, after_take(s))
                }
            }),
    {
        if self.is_dragging_scrollbar(key) {
            self.set_dragging_scrollbar(key, false);
            return UpAction::EndScrollbarDrag;
        }
        if mode.report {
            return UpAction::Report { bytes: format_mouse_report(0, cell.0, cell.1, false, mode.sgr) };
        }
        if self.take_dragged(key) {
            UpAction::Copy
        } else {
            UpAction::Clear
        }
    }
}

/// After a press that starts a local selection, the scrollbar is not being
/// dragged, so the matching release takes the selection path: it copies
/// exactly when the press was a double or triple click, or when the pointer
/// has since moved to another cell; a plain single click clears instead.
pub proof fn lemma_press_then_release(s: ClickState, cell: Cell, other: Cell, now_ms: u64)
    ensures
        ({
            let fresh = after_start_gesture(ClickState { dragging_scrollbar: false, ..s }, cell);
            let pressed = after_select_press(fresh, cell, now_ms);
            &&& !pressed.dragging_scrollbar
            &&& pressed.dragged <==> next_click_count(fresh, cell, now_ms) > 1
            &&& !after_move(pressed, cell).dragged <==> next_click_count(fresh, cell, now_ms) == 1
            &&& other != cell ==> after_move(pressed, other).dragged
        }),
{
}

/// Reports per wheel event are capped at this many.
pub const MAX_WHEEL_REPORTS: u32 = 3;

/// What a wheel event that amounts to `lines` whole lines (positive toward
/// history) does over `cell`: nothing for zero lines; in report mode, the
/// wheel-up (64) or wheel-down (65) report repeated once per line, at most
/// three times; otherwise a scroll of the view.
pub fn wheel_action(lines: i32, cell: Cell, mode: MouseMode) -> (r: WheelAction)
    requires
        lines > i32::MIN,
        cell.0 < usize::MAX,
        cell.1 < usize::MAX,
    ensures
        lines == 0 ==> r is Nothing,
        lines != 0 && mode.report ==> (r matches WheelAction::Report { bytes, count } && bytes@ == report_bytes(
            if lines > 0 { 64u8 } else { 65u8 },
            cell,
            true,
            mode.sgr,
        ) && count == (if lines > 3 || lines < -3 { 3 } else if lines > 0 { lines as int } else { -lines })),
        lines != 0 && !mode.report ==> r == (WheelAction::Scroll { lines }),
{
    if lines == 0 {
        return WheelAction::Nothing;
    }
    if mode.report {
        let button: u8 = if lines > 0 { 64 } else { 65 };
        let magnitude: u32 = if lines > 0 { lines as u32 } else { (-lines) as u32 };
        let count: u32 = if magnitude > MAX_WHEEL_REPORTS { MAX_WHEEL_REPORTS } else { magnitude };
        match format_mouse_report(button, cell.0, cell.1, true, mode.sgr) {
            Some(bytes) => WheelAction::Report { bytes, count },
            None => {
                proof {
                    assert(false);
                }
                WheelAction::Nothing
            },
        }
    } else {
        WheelAction::Scroll { lines }
    }
}

} // verus!
