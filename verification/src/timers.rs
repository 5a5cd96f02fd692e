//! The shell's periodic housekeeping decisions: how often to poll, when
//! the cursor blinks, when a toast lapses, and how eagerly to refresh the
//! git status. The caller owns the clock and passes milliseconds.

use vstd::prelude::*;

verus! {

/// Poll interval while the window is focused.
pub const FOCUSED_TICK_MS: u64 = 33;

/// Poll interval while the window is in the background.
pub const UNFOCUSED_TICK_MS: u64 = 400;

/// Half period of the cursor blink.
pub const BLINK_MS: u64 = 530;

/// Git status refresh interval on mains power and on battery saver.
pub const GIT_TTL_SECS: u64 = 15;

pub const GIT_TTL_SAVER_SECS: u64 = 60;

/// The next poll interval: fast while our window is active.
pub fn poll_interval_ms(window_active: bool) -> (r: u64)
    ensures
        r == (if window_active { FOCUSED_TICK_MS } else { UNFOCUSED_TICK_MS }),
{
    if window_active {
        FOCUSED_TICK_MS
    } else {
        UNFOCUSED_TICK_MS
    }
}

/// How long a git status stays fresh, in seconds.
pub fn git_ttl_secs(battery_saver: bool) -> (r: u64)
    ensures
        r == (if battery_saver { GIT_TTL_SAVER_SECS } else { GIT_TTL_SECS }),
{
    if battery_saver {
        GIT_TTL_SAVER_SECS
    } else {
        GIT_TTL_SECS
    }
}

/// Whether the git refresh also checks for uncommitted changes: when
/// configured, and never on battery saver.
pub fn git_dirty_check(configured: bool, battery_saver: bool) -> (r: bool)
    ensures
        r == (configured && !battery_saver),
{
    configured && !battery_saver
}

/// Whether `deadline` (if any) has been reached at `now_ms`.
pub fn deadline_passed(deadline: Option<u64>, now_ms: u64) -> (r: bool)
    ensures
        r == (deadline matches Some(d) && now_ms >= d),
{
    match deadline {
        Some(d) => now_ms >= d,
        None => false,
    }
}

/// The text cursor's blink phase.
#[derive(Debug, Clone, Copy, PartialEq, Eq, Structural)]
pub struct CursorBlink {
    /// Whether the cursor is drawn.
    pub on: bool,
    /// When the phase last changed (or was reset), in milliseconds.
    pub last_toggle_ms: u64,
}

impl CursorBlink {
    /// A visible cursor whose phase starts at `now_ms`.
    pub fn new(now_ms: u64) -> (r: Self)
        ensures
            r.on,
            r.last_toggle_ms == now_ms,
    {
        CursorBlink { on: true, last_toggle_ms: now_ms }
    }

    /// A key press shows the cursor and restarts its phase.
    pub fn reset(&mut self, now_ms: u64)
        ensures
            final(self).on,
            final(self).last_toggle_ms == now_ms,
    {
        self.on = true;
        self.last_toggle_ms = now_ms;
    }

    /// Advance the blink at `now_ms`; says whether the cursor's look
    /// changed. On battery saver the cursor stays solid; otherwise it flips
    /// once a half period has passed (a clock that stepped back counts as
    /// no time passing).
    pub fn tick(&mut self, now_ms: u64, battery_saver: bool) -> (r: bool)
        ensures
            battery_saver ==> final(self).on && final(self).last_toggle_ms == old(self).last_toggle_ms
                && r == !old(self).on,
            !battery_saver && now_ms >= old(self).last_toggle_ms + BLINK_MS ==> r && *final(self) == (CursorBlink {
                on: !old(self).on,
                last_toggle_ms: now_ms,
            }),
            !battery_saver && now_ms < old(self).last_toggle_ms + BLINK_MS ==> !r && *final(self) == *old(self),
    {
        if battery_saver {
            if !self.on {
                self.on = true;
                return true;
            }
            return false;
        }
        let elapsed: u64 = if now_ms >= self.last_toggle_ms { now_ms - self.last_toggle_ms } else { 0 };
        if elapsed >= BLINK_MS {
            self.on = !self.on;
            self.last_toggle_ms = now_ms;
            true
        } else {
            false
        }
    }
}

} // verus!
