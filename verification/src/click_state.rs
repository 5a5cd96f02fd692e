//! Per-terminal click tracking: multi-click counting, scrollbar-drag state
//! and the "was this gesture a real drag" flag that decides whether a
//! mouse-up copies the selection or clears it.
//!
//! Each terminal is identified by an integer key. A terminal that has never
//! been touched behaves as if it held `initial_click_state()`.

use vstd::prelude::*;
use std::collections::HashMap;

verus! {

broadcast use vstd::std_specs::hash::group_hash_axioms;

/// Two clicks on the same cell less than this many milliseconds apart
/// continue a multi-click.
pub const DOUBLE_CLICK_MS: u64 = 500;

/// A grid cell as (column, row).
pub type Cell = (usize, usize);

/// The click and drag state of one terminal.
#[derive(Clone, Copy, Debug)]
pub struct ClickState {
    /// When the last click landed, in milliseconds on the caller's clock;
    /// `None` before the first click.
    pub last_click_ms: Option<u64>,
    pub last_click_cell: Cell,
    /// 1, 2 or 3 after any click; 0 before the first.
    pub click_count: u32,
    /// Set while the pointer drags the scrollbar thumb.
    pub dragging_scrollbar: bool,
    /// Where the current gesture's mouse-down landed.
    pub gesture_start_cell: Cell,
    /// Whether the current gesture has left its starting cell (or was a
    /// double/triple click, which selects with no movement).
    pub dragged: bool,
    /// Whether this terminal's own mouse-down started the gesture now in
    /// progress.
    pub gesture_active: bool,
}

/// The state of a terminal that has not been clicked yet.
pub open spec fn initial_click_state() -> ClickState {
    ClickState {
        last_click_ms: None,
        last_click_cell: (usize::MAX, usize::MAX),
        click_count: 0,
        dragging_scrollbar: false,
        gesture_start_cell: (usize::MAX, usize::MAX),
        dragged: false,
        gesture_active: false,
    }
}

/// The state that `key` holds in `m`, or the initial state if it holds none.
pub open spec fn state_in(m: Map<usize, ClickState>, key: usize) -> ClickState {
    if m.contains_key(key) {
        m[key]
    } else {
        initial_click_state()
    }
}

/// Whether a click at `now_ms` follows one at `last` closely enough to
/// continue a multi-click. A clock that went backwards counts as no time
/// having passed.
pub open spec fn within_double_click(last: Option<u64>, now_ms: u64) -> bool {
    match last {
        Some(t) => (if now_ms >= t { now_ms - t } else { 0 }) < DOUBLE_CLICK_MS,
        None => false,
    }
}

/// The click count after a click on `cell` at `now_ms`: one more than before
/// (at most 3) when it repeats the last click's cell in time, else 1.
pub open spec fn next_click_count(s: ClickState, cell: Cell, now_ms: u64) -> u32 {
    if s.last_click_cell == cell && within_double_click(s.last_click_ms, now_ms) {
        if s.click_count >= 2 {
            3
        } else {
            (s.click_count + 1) as u32
        }
    } else {
        1
    }
}

pub open spec fn after_click(s: ClickState, cell: Cell, now_ms: u64) -> ClickState {
    ClickState {
        last_click_ms: Some(now_ms),
        last_click_cell: cell,
        click_count: next_click_count(s, cell, now_ms),
        ..s
    }
}

pub open spec fn after_start_gesture(s: ClickState, cell: Cell) -> ClickState {
    ClickState { dragged: false, gesture_start_cell: cell, gesture_active: true, ..s }
}

pub open spec fn after_move(s: ClickState, cell: Cell) -> ClickState {
    ClickState {
        dragged: s.dragged || (s.gesture_active && cell != s.gesture_start_cell),
        ..s
    }
}

pub open spec fn after_take(s: ClickState) -> ClickState {
    ClickState { dragged: false, gesture_active: false, ..s }
}

/// A mouse-down starts a gesture that is not a drag; moving within its
/// starting cell keeps it so, and moving to any other cell makes it one.
pub proof fn lemma_gesture_drag_rule(s: ClickState, start: Cell, other: Cell)
    ensures
        !after_start_gesture(s, start).dragged,
        !after_move(after_start_gesture(s, start), start).dragged,
        other != start ==> after_move(after_start_gesture(s, start), other).dragged,
{
}

/// Once `take_dragged` has ended a gesture, a second read reports no drag,
/// and no pointer movement can mark the terminal dragged again until a new
/// gesture starts there.
pub proof fn lemma_take_dragged_ends_gesture(s: ClickState, cell: Cell)
    ensures
        !after_take(s).dragged,
        !after_take(after_take(s)).dragged,
        after_move(after_take(s), cell) == after_take(s),
{
}

/// A terminal on which no gesture was ever started is never marked dragged
/// by pointer movement.
pub proof fn lemma_untouched_terminal_not_dragged(cell: Cell)
    ensures
        after_move(initial_click_state(), cell) == initial_click_state(),
{
}

/// Recording anything for one terminal leaves every other terminal's state
/// as it was; forgetting a terminal returns it to the initial state.
pub proof fn lemma_terminals_independent(m: Map<usize, ClickState>, key: usize, s: ClickState, other: usize)
    ensures
        other != key ==> state_in(m.insert(key, s), other) == state_in(m, other),
        other != key ==> state_in(m.remove(key), other) == state_in(m, other),
        state_in(m.remove(key), key) == initial_click_state(),
        state_in(m.insert(key, s), key) == s,
{
}

/// The click count never leaves 1..=3, and it resets to 1 on a different
/// cell or once the double-click interval has passed.
pub proof fn lemma_click_count_rule(s: ClickState, cell: Cell, now_ms: u64)
    ensures
        1 <= next_click_count(s, cell, now_ms) <= 3,
        s.last_click_cell != cell ==> next_click_count(s, cell, now_ms) == 1,
        (s.last_click_ms matches Some(t) && t <= now_ms && now_ms - t >= DOUBLE_CLICK_MS)
            ==> next_click_count(s, cell, now_ms) == 1,
        s.click_count <= 3 ==> after_click(s, cell, now_ms).click_count <= 3,
{
}

/// One call of a `ClickTracker` method, as it changes the tracker's state.
#[derive(Clone, Copy, Debug)]
pub enum TrackerOp {
    /// `register_click(key, cell, now_ms)`.
    Click(usize, Cell, u64),
    /// `set_dragging_scrollbar(key, dragging)`.
    SetDraggingScrollbar(usize, bool),
    /// `start_gesture(key, cell)`.
    StartGesture(usize, Cell),
    /// `mark_dragged_if_moved(key, cell)`.
    MoveOver(usize, Cell),
    /// `mark_dragged(key)`.
    MarkDragged(usize),
    /// `take_dragged(key)`.
    TakeDragged(usize),
    /// `forget_terminal(key)`.
    Forget(usize),
}

/// The tracker's state after `op`, as the method's `ensures` gives it.
pub open spec fn apply_op(m: Map<usize, ClickState>, op: TrackerOp) -> Map<usize, ClickState> {
    match op {
        TrackerOp::Click(k, c, t) => m.insert(k, after_click(state_in(m, k), c, t)),
        TrackerOp::SetDraggingScrollbar(k, d) => m.insert(k, ClickState { dragging_scrollbar: d, ..state_in(m, k) }),
        TrackerOp::StartGesture(k, c) => m.insert(k, after_start_gesture(state_in(m, k), c)),
        TrackerOp::MoveOver(k, c) => m.insert(k, after_move(state_in(m, k), c)),
        TrackerOp::MarkDragged(k) => m.insert(k, ClickState { dragged: true, ..state_in(m, k) }),
        TrackerOp::TakeDragged(k) => m.insert(k, after_take(state_in(m, k))),
        TrackerOp::Forget(k) => m.remove(k),
    }
}

/// The tracker's state after the calls `ops`, in order.
pub open spec fn apply_ops(m: Map<usize, ClickState>, ops: Seq<TrackerOp>) -> Map<usize, ClickState>
    decreases ops.len(),
{
    if ops.len() == 0 {
        m
    } else {
        apply_op(apply_ops(m, ops.drop_last()), ops.last())
    }
}

/// Whether `op` is a click on `key` or forgets `key`: the only calls that
/// change what `key` remembers of its last click.
pub open spec fn touches_last_click(op: TrackerOp, key: usize) -> bool {
    match op {
        TrackerOp::Click(k, _, _) => k == key,
        TrackerOp::Forget(k) => k == key,
        _ => false,
    }
}

/// The last-click record of `key` in `m`: its time, cell and count.
pub open spec fn last_click_of(m: Map<usize, ClickState>, key: usize) -> (Option<u64>, Cell, u32) {
    let s = state_in(m, key);
    (s.last_click_ms, s.last_click_cell, s.click_count)
}

/// Calls that neither click on `key` nor forget it leave its last-click
/// record as it was.
pub proof fn lemma_other_calls_keep_last_click(m: Map<usize, ClickState>, ops: Seq<TrackerOp>, key: usize)
    requires
        forall|i: int| 0 <= i < ops.len() ==> !touches_last_click(#[trigger] ops[i], key),
    ensures
        last_click_of(apply_ops(m, ops), key) == last_click_of(m, key),
    decreases ops.len(),
{
    if ops.len() > 0 {
        assert forall|i: int| 0 <= i < ops.drop_last().len() implies !touches_last_click(
            #[trigger] ops.drop_last()[i],
            key,
        ) by {
            assert(ops.drop_last()[i] == ops[i]);
        }
        lemma_other_calls_keep_last_click(m, ops.drop_last(), key);
        assert(!touches_last_click(ops[ops.len() - 1], key));
    }
}

/// The multi-click rule over any run of calls: after a click on `key` at
/// cell `c0` and time `t0` that counted `n0`, and any calls in between that
/// neither click on `key` nor forget it, the next click on `key` counts
/// `min(n0 + 1, 3)` when it is on `c0` within the double-click interval,
/// and 1 otherwise.
pub proof fn lemma_multi_click(
    m: Map<usize, ClickState>,
    key: usize,
    c0: Cell,
    t0: u64,
    between: Seq<TrackerOp>,
    cell: Cell,
    now_ms: u64,
)
    requires
        forall|i: int| 0 <= i < between.len() ==> !touches_last_click(#[trigger] between[i], key),
    ensures
        ({
            let n0 = next_click_count(state_in(m, key), c0, t0);
            let m2 = apply_ops(apply_op(m, TrackerOp::Click(key, c0, t0)), between);
            next_click_count(state_in(m2, key), cell, now_ms) == (if c0 == cell && within_double_click(
                Some(t0),
                now_ms,
            ) {
                if n0 >= 2 {
                    3
                } else {
                    n0 + 1
                }
            } else {
                1
            })
        }),
{
    let m1 = apply_op(m, TrackerOp::Click(key, c0, t0));
    lemma_other_calls_keep_last_click(m1, between, key);
}

/// A key that was forgotten (or never clicked), with no click on it since,
/// counts its next click as a single click.
pub proof fn lemma_forgotten_key_single_click(
    m: Map<usize, ClickState>,
    key: usize,
    between: Seq<TrackerOp>,
    cell: Cell,
    now_ms: u64,
)
    requires
        forall|i: int| 0 <= i < between.len() ==> !touches_last_click(#[trigger] between[i], key),
    ensures
        next_click_count(state_in(apply_ops(apply_op(m, TrackerOp::Forget(key)), between), key), cell, now_ms)
            == 1,
        next_click_count(state_in(apply_ops(Map::<usize, ClickState>::empty(), between), key), cell, now_ms)
            == 1,
{
    lemma_other_calls_keep_last_click(apply_op(m, TrackerOp::Forget(key)), between, key);
    lemma_other_calls_keep_last_click(Map::<usize, ClickState>::empty(), between, key);
}

/// Click and drag state for every terminal, by key.
pub struct ClickTracker {
    states: HashMap<usize, ClickState>,
}

impl View for ClickTracker {
    type V = Map<usize, ClickState>;

    closed spec fn view(&self) -> Map<usize, ClickState> {
        self.states@
    }
}

fn initial_state() -> (r: ClickState)
    ensures
        r == initial_click_state(),
{
    ClickState {
        last_click_ms: None,
        last_click_cell: (usize::MAX, usize::MAX),
        click_count: 0,
        dragging_scrollbar: false,
        gesture_start_cell: (usize::MAX, usize::MAX),
        dragged: false,
        gesture_active: false,
    }
}

fn same_cell(a: Cell, b: Cell) -> (r: bool)
    ensures
        r == (a == b),
{
    a.0 == b.0 && a.1 == b.1
}

impl ClickTracker {
    /// A tracker that knows no terminal yet.
    pub fn new() -> (r: Self)
        ensures
            r@ == Map::<usize, ClickState>::empty(),
    {
        ClickTracker { states: HashMap::new() }
    }

    fn state_of(&self, key: usize) -> (r: ClickState)
        ensures
            r == state_in(self@, key),
    {
        match self.states.get(&key) {
            Some(s) => *s,
            None => initial_state(),
        }
    }

    fn store(&mut self, key: usize, s: ClickState)
        ensures
            final(self)@ == old(self)@.insert(key, s),
    {
        self.states.insert(key, s);
    }

    /// Drop everything known about `key`, for a terminal that is going
    /// away; a later terminal reusing the key starts fresh.
    pub fn forget_terminal(&mut self, key: usize)
        ensures
            final(self)@ == old(self)@.remove(key),
            final(self)@ == apply_op(old(self)@, TrackerOp::Forget(key)),
    {
        self.states.remove(&key);
    }

    /// Record a click on `cell` at `now_ms` and return the resulting click
    /// count: 1 for a single click, 2 for a double, 3 for a triple (and
    /// any faster repeat).
    pub fn register_click(&mut self, key: usize, cell: Cell, now_ms: u64) -> (r: u32)
        ensures
            final(self)@ == old(self)@.insert(key, after_click(state_in(old(self)@, key), cell, now_ms)),
            r == next_click_count(state_in(old(self)@, key), cell, now_ms),
            1 <= r <= 3,
            final(self)@ == apply_op(old(self)@, TrackerOp::Click(key, cell, now_ms)),
    {
        let s = self.state_of(key);
        let repeat = same_cell(s.last_click_cell, cell) && match s.last_click_ms {
            Some(t) => {
                let elapsed: u64 = if now_ms >= t { now_ms - t } else { 0 };
                elapsed < DOUBLE_CLICK_MS
            },
            None => false,
        };
        let count: u32 = if repeat {
            if s.click_count >= 2 {
                3
            } else {
                s.click_count + 1
            }
        } else {
            1
        };
        let next = ClickState { last_click_ms: Some(now_ms), last_click_cell: cell, click_count: count, ..s };
        self.store(key, next);
        count
    }

    /// Set or clear the scrollbar-drag flag of `key`.
    pub fn set_dragging_scrollbar(&mut self, key: usize, dragging: bool)
        ensures
            final(self)@ == old(self)@.insert(
                key,
                ClickState { dragging_scrollbar: dragging, ..state_in(old(self)@, key) },
            ),
            final(self)@ == apply_op(old(self)@, TrackerOp::SetDraggingScrollbar(key, dragging)),
    {
        let s = self.state_of(key);
        self.store(key, ClickState { dragging_scrollbar: dragging, ..s });
    }

    /// Begin a fresh (non-scrollbar) mouse-down gesture at `cell`: it is not
    /// a drag yet, and it belongs to this terminal.
    pub fn start_gesture(&mut self, key: usize, cell: Cell)
        ensures
            final(self)@ == old(self)@.insert(key, after_start_gesture(state_in(old(self)@, key), cell)),
            final(self)@ == apply_op(old(self)@, TrackerOp::StartGesture(key, cell)),
    {
        let s = self.state_of(key);
        self.store(key, ClickState { dragged: false, gesture_start_cell: cell, gesture_active: true, ..s });
    }

    /// The pointer moved over `cell`: the gesture becomes a drag if this
    /// terminal started it and `cell` is not where it started.
    pub fn mark_dragged_if_moved(&mut self, key: usize, cell: Cell)
        ensures
            final(self)@ == old(self)@.insert(key, after_move(state_in(old(self)@, key), cell)),
            final(self)@ == apply_op(old(self)@, TrackerOp::MoveOver(key, cell)),
    {
        let s = self.state_of(key);
        let moved = s.gesture_active && !same_cell(cell, s.gesture_start_cell);
        self.store(key, ClickState { dragged: s.dragged || moved, ..s });
    }

    /// Mark the current gesture as a drag with no movement (a double or
    /// triple click has already selected a word or line).
    pub fn mark_dragged(&mut self, key: usize)
        ensures
            final(self)@ == old(self)@.insert(key, ClickState { dragged: true, ..state_in(old(self)@, key) }),
            final(self)@ == apply_op(old(self)@, TrackerOp::MarkDragged(key)),
    {
        let s = self.state_of(key);
        self.store(key, ClickState { dragged: true, ..s });
    }

    /// Read and clear the drag flag in one step, and end the gesture.
    pub fn take_dragged(&mut self, key: usize) -> (r: bool)
        ensures
            r == state_in(old(self)@, key).dragged,
            final(self)@ == old(self)@.insert(key, after_take(state_in(old(self)@, key))),
            final(self)@ == apply_op(old(self)@, TrackerOp::TakeDragged(key)),
    {
        let s = self.state_of(key);
        self.store(key, ClickState { dragged: false, gesture_active: false, ..s });
        s.dragged
    }

    /// Whether `key` is dragging its scrollbar thumb; asks without
    /// recording anything.
    pub fn is_dragging_scrollbar(&self, key: usize) -> (r: bool)
        ensures
            r == state_in(self@, key).dragging_scrollbar,
    {
        match self.states.get(&key) {
            Some(s) => s.dragging_scrollbar,
            None => false,
        }
    }
}

} // verus!
