//! Keyboard routing for the shell window once no overlay, text field or
//! sidebar has claimed a key press: pane-resize mode, the leader key and
//! its chords, the standalone shortcuts, and otherwise the terminal.
//!
//! The router only decides. The caller performs the returned route (runs
//! the leader action, switches the tab, writes the key to the terminal) and
//! calls `tick` on its timer so an unfinished leader chord lapses.

use vstd::prelude::*;
use crate::key_map::{Keystroke, Modifiers};
use crate::leader::{LeaderAction, LeaderMap};
use crate::panes::FocusDir;
use crate::strs::str_eq;
use vstd::std_specs::iter::IteratorSpec;

verus! {

/// Leader-chord and resize-mode state.
#[derive(Debug, Clone, Copy, PartialEq, Eq, Structural)]
pub struct KeyRouter {
    /// Set by Leader + Option + Arrow: further Option + Arrow presses keep
    /// resizing without another leader press; any other key ends it.
    pub resize_mode: bool,
    /// The leader key was pressed and the chord's next key is awaited.
    pub leader_active: bool,
    /// The second-level chord in progress: `'a'` (assistant), `'e'`
    /// (sidebar) or `'W'` (workspaces).
    pub leader_prefix: Option<char>,
    /// When the awaited chord lapses, in milliseconds on the caller's clock.
    pub leader_deadline_ms: Option<u64>,
}

/// Where a key press goes.
#[derive(Debug, Clone, Copy, PartialEq, Eq, Structural)]
pub enum KeyRoute {
    /// Resize the focused pane's split toward the direction, by one step.
    Resize(FocusDir),
    /// Run a leader action.
    Leader(LeaderAction),
    /// Switch the active workspace to the tab at this index.
    SwitchTab(usize),
    /// The leader key or a chord prefix was pressed; the next key decides.
    AwaitLeaderKey,
    /// A leader chord ended on a key bound to nothing.
    Dropped,
    ToggleAiBlock,
    ToggleSearch,
    ClearTerminal,
    /// No shortcut: the key goes to the focused terminal.
    ToTerminal,
}

/// The direction an arrow key's name stands for.
pub open spec fn arrow_dir(key: Seq<char>) -> Option<FocusDir> {
    if key == "left"@ {
        Some(FocusDir::Left)
    } else if key == "right"@ {
        Some(FocusDir::Right)
    } else if key == "up"@ {
        Some(FocusDir::Up)
    } else if key == "down"@ {
        Some(FocusDir::Down)
    } else {
        None
    }
}

/// The tab number 1 to 9 that `key` reads as: an optional `+`, any number
/// of `0`s, then one digit from 1 to 9 (what parsing it as an unsigned
/// decimal gives, restricted to 1..=9).
pub open spec fn tab_number_spec(key: Seq<char>) -> Option<nat> {
    if key.len() > 0 && key[0] == '+' {
        tab_digits(key.skip(1))
    } else {
        tab_digits(key)
    }
}

/// Zeros followed by one digit from 1 to 9, read as that digit.
pub open spec fn tab_digits(body: Seq<char>) -> Option<nat> {
    if body.len() >= 1 && '1' <= body.last() && body.last() <= '9' && (forall|i: int|
        0 <= i < body.len() - 1 ==> #[trigger] body[i] == '0') {
        Some((body.last() as nat - '0' as nat) as nat)
    } else {
        None
    }
}

/// The action a chord prefix followed by `key` runs, if any.
pub open spec fn prefix_action(prefix: char, key: Seq<char>) -> Option<LeaderAction> {
    if prefix == 'a' {
        if key == "a"@ {
            Some(LeaderAction::ToggleAiPanel)
        } else if key == "e"@ {
            Some(LeaderAction::ExplainLastOutput)
        } else if key == "f"@ {
            Some(LeaderAction::FixLastError)
        } else if key == "z"@ {
            Some(LeaderAction::UndoLastWrite)
        } else {
            None
        }
    } else if prefix == 'e' {
        if key == "e"@ {
            Some(LeaderAction::ToggleWorkspaceSidebar)
        } else {
            None
        }
    } else if prefix == 'W' {
        if key == "&"@ {
            Some(LeaderAction::CloseWorkspace)
        } else if key == ","@ {
            Some(LeaderAction::RenameWorkspace)
        } else if key == "j"@ {
            Some(LeaderAction::NextWorkspace)
        } else if key == "k"@ {
            Some(LeaderAction::PrevWorkspace)
        } else {
            None
        }
    } else {
        None
    }
}

/// A combo with exactly the given one of Ctrl and Cmd held and none of the
/// other modifiers that shortcuts look at.
pub open spec fn only_ctrl(m: Modifiers) -> bool {
    m.control && !m.shift && !m.platform && !m.alt
}

pub open spec fn only_cmd(m: Modifiers) -> bool {
    m.platform && !m.shift && !m.control && !m.alt
}

/// Waiting for the next key of a chord, lapsing at `now + timeout`.
pub open spec fn armed(st: KeyRouter, prefix: Option<char>, now_ms: u64, timeout_ms: u64) -> KeyRouter {
    KeyRouter {
        leader_active: true,
        leader_prefix: prefix,
        leader_deadline_ms: Some((now_ms + timeout_ms) as u64),
        ..st
    }
}

/// The routing of one key press: the router's next state and the route.
pub open spec fn route_spec(
    st: KeyRouter,
    m: Modifiers,
    key: Seq<char>,
    leader_key: Seq<char>,
    map: Map<Seq<char>, LeaderAction>,
    now_ms: u64,
    timeout_ms: u64,
) -> (KeyRouter, KeyRoute) {
    let resize_hit = m.alt && arrow_dir(key) is Some;
    if st.resize_mode && resize_hit {
        (st, KeyRoute::Resize(arrow_dir(key)->0))
    } else {
        let st1 = KeyRouter { resize_mode: false, ..st };
        if !st1.leader_active && m.control && !m.shift && !m.platform && key == leader_key {
            (
                KeyRouter {
                    leader_active: true,
                    leader_deadline_ms: Some((now_ms + timeout_ms) as u64),
                    ..st1
                },
                KeyRoute::AwaitLeaderKey,
            )
        } else if st1.leader_active {
            let st2 = KeyRouter {
                leader_active: false,
                leader_deadline_ms: None,
                leader_prefix: None,
                ..st1
            };
            match st1.leader_prefix {
                Some(p) => (
                    st2,
                    match prefix_action(p, key) {
                        Some(a) => KeyRoute::Leader(a),
                        None => KeyRoute::Dropped,
                    },
                ),
                None => {
                    if resize_hit {
                        (KeyRouter { resize_mode: true, ..st2 }, KeyRoute::Resize(arrow_dir(key)->0))
                    } else if tab_number_spec(key) is Some {
                        (st2, KeyRoute::SwitchTab((tab_number_spec(key)->0 - 1) as usize))
                    } else if key == "a"@ {
                        (armed(st2, Some('a'), now_ms, timeout_ms), KeyRoute::AwaitLeaderKey)
                    } else if key == "w"@ && m.shift {
                        (armed(st2, Some('W'), now_ms, timeout_ms), KeyRoute::AwaitLeaderKey)
                    } else if key == "e"@ {
                        (armed(st2, Some('e'), now_ms, timeout_ms), KeyRoute::AwaitLeaderKey)
                    } else if map.contains_key(key) {
                        (st2, KeyRoute::Leader(map[key]))
                    } else {
                        (st2, KeyRoute::Dropped)
                    }
                },
            }
        } else if only_ctrl(m) && key == "space"@ {
            (st1, KeyRoute::ToggleAiBlock)
        } else if only_cmd(m) && key == "f"@ {
            (st1, KeyRoute::ToggleSearch)
        } else if only_cmd(m) && key == "k"@ {
            (st1, KeyRoute::ClearTerminal)
        } else if m.platform && tab_number_spec(key) is Some {
            (st1, KeyRoute::SwitchTab((tab_number_spec(key)->0 - 1) as usize))
        } else {
            (st1, KeyRoute::ToTerminal)
        }
    }
}

/// A chord prefix is only pending while the leader is active, and the
/// leader is active exactly while a deadline is set.
pub open spec fn router_wf(st: KeyRouter) -> bool {
    &&& st.leader_prefix is Some ==> st.leader_active
    &&& st.leader_active <==> st.leader_deadline_ms is Some
}

/// Routing a key keeps the router well formed; while a chord is pending the
/// key never reaches the terminal or a standalone shortcut, and the chord
/// is over afterwards unless the key opened a sub-chord.
pub proof fn lemma_route_key(
    st: KeyRouter,
    m: Modifiers,
    key: Seq<char>,
    leader_key: Seq<char>,
    map: Map<Seq<char>, LeaderAction>,
    now_ms: u64,
    timeout_ms: u64,
)
    requires
        router_wf(st),
        now_ms + timeout_ms <= u64::MAX,
    ensures
        ({
            let (next, route) = route_spec(st, m, key, leader_key, map, now_ms, timeout_ms);
            &&& router_wf(next)
            &&& st.leader_active ==> !(route is ToTerminal || route is ToggleAiBlock || route is ToggleSearch
                || route is ClearTerminal)
            &&& st.leader_active && !(route is AwaitLeaderKey) && !(st.resize_mode && route is Resize)
                ==> !next.leader_active
            &&& next.leader_active ==> route is AwaitLeaderKey || (st.resize_mode && route is Resize)
        }),
{
}

/// The lengths and first characters of the chord keys and arrow names,
/// which tell any two of them apart.
proof fn lemma_chord_key_chars()
    ensures
        "j"@.len() == 1 && "j"@[0] == 'j',
        "k"@.len() == 1 && "k"@[0] == 'k',
        "&"@.len() == 1 && "&"@[0] == '&',
        ","@.len() == 1 && ","@[0] == ',',
        "a"@.len() == 1 && "a"@[0] == 'a',
        "e"@.len() == 1 && "e"@[0] == 'e',
        "f"@.len() == 1 && "f"@[0] == 'f',
        "z"@.len() == 1 && "z"@[0] == 'z',
        "w"@.len() == 1 && "w"@[0] == 'w',
        "left"@.len() == 4 && "left"@[0] == 'l' && "left"@[1] == 'e',
        "right"@.len() == 5 && "right"@[0] == 'r' && "right"@[1] == 'i',
        "up"@.len() == 2 && "up"@[0] == 'u' && "up"@[1] == 'p',
        "down"@.len() == 4 && "down"@[0] == 'd' && "down"@[1] == 'o',
        "space"@.len() == 5 && "space"@[0] == 's' && "space"@[1] == 'p',
{
    reveal_strlit("j");
    assert("j"@.len() == 1 && "j"@[0] == 'j');
    reveal_strlit("k");
    assert("k"@.len() == 1 && "k"@[0] == 'k');
    reveal_strlit("&");
    assert("&"@.len() == 1 && "&"@[0] == '&');
    reveal_strlit(",");
    assert(","@.len() == 1 && ","@[0] == ',');
    reveal_strlit("a");
    assert("a"@.len() == 1 && "a"@[0] == 'a');
    reveal_strlit("e");
    assert("e"@.len() == 1 && "e"@[0] == 'e');
    reveal_strlit("f");
    assert("f"@.len() == 1 && "f"@[0] == 'f');
    reveal_strlit("z");
    assert("z"@.len() == 1 && "z"@[0] == 'z');
    reveal_strlit("w");
    assert("w"@.len() == 1 && "w"@[0] == 'w');
    reveal_strlit("left");
    assert("left"@.len() == 4 && "left"@[0] == 'l' && "left"@[1] == 'e');
    reveal_strlit("right");
    assert("right"@.len() == 5 && "right"@[0] == 'r' && "right"@[1] == 'i');
    reveal_strlit("up");
    assert("up"@.len() == 2 && "up"@[0] == 'u' && "up"@[1] == 'p');
    reveal_strlit("down");
    assert("down"@.len() == 4 && "down"@[0] == 'd' && "down"@[1] == 'o');
    reveal_strlit("space");
    assert("space"@.len() == 5 && "space"@[0] == 's' && "space"@[1] == 'p');
}

/// Inside a chord, the key after the prefix decides the action and ends
/// the chord: in the workspace chord (Leader Shift+W) `j` goes to the next
/// workspace, `k` to the previous one, `&` closes and `,` renames it; in
/// the assistant chord (Leader a) `a` toggles the panel, `e` explains the
/// last output, `f` fixes the last error, `z` undoes the last write; in
/// the sidebar chord (Leader e) `e` toggles the sidebar. Any other key
/// ends the chord with nothing run.
pub proof fn lemma_chord_keys(
    st: KeyRouter,
    m: Modifiers,
    key: Seq<char>,
    leader_key: Seq<char>,
    map: Map<Seq<char>, LeaderAction>,
    now_ms: u64,
    timeout_ms: u64,
)
    requires
        st.leader_active,
        st.leader_prefix is Some,
        !(st.resize_mode && m.alt && arrow_dir(key) is Some),
    ensures
        !route_spec(st, m, key, leader_key, map, now_ms, timeout_ms).0.leader_active,
        route_spec(st, m, key, leader_key, map, now_ms, timeout_ms).0.leader_prefix is None,
        st.leader_prefix == Some('W') ==> route_spec(st, m, key, leader_key, map, now_ms, timeout_ms).1 == (
        if key == "j"@ {
            KeyRoute::Leader(LeaderAction::NextWorkspace)
        } else if key == "k"@ {
            KeyRoute::Leader(LeaderAction::PrevWorkspace)
        } else if key == "&"@ {
            KeyRoute::Leader(LeaderAction::CloseWorkspace)
        } else if key == ","@ {
            KeyRoute::Leader(LeaderAction::RenameWorkspace)
        } else {
            KeyRoute::Dropped
        }),
        st.leader_prefix == Some('a') ==> route_spec(st, m, key, leader_key, map, now_ms, timeout_ms).1 == (
        if key == "a"@ {
            KeyRoute::Leader(LeaderAction::ToggleAiPanel)
        } else if key == "e"@ {
            KeyRoute::Leader(LeaderAction::ExplainLastOutput)
        } else if key == "f"@ {
            KeyRoute::Leader(LeaderAction::FixLastError)
        } else if key == "z"@ {
            KeyRoute::Leader(LeaderAction::UndoLastWrite)
        } else {
            KeyRoute::Dropped
        }),
        st.leader_prefix == Some('e') ==> route_spec(st, m, key, leader_key, map, now_ms, timeout_ms).1 == (
        if key == "e"@ {
            KeyRoute::Leader(LeaderAction::ToggleWorkspaceSidebar)
        } else {
            KeyRoute::Dropped
        }),
{
    lemma_chord_key_chars();
}

/// Leader (Ctrl + the leader key), then Shift+W, then `j` or `k` runs the
/// next- or previous-workspace action, from any idle router and whatever
/// else is bound: the two keys run different actions.
pub proof fn lemma_workspace_chord(
    st: KeyRouter,
    m1: Modifiers,
    m2: Modifiers,
    m3: Modifiers,
    leader_key: Seq<char>,
    map: Map<Seq<char>, LeaderAction>,
    t1: u64,
    t2: u64,
    t3: u64,
    timeout_ms: u64,
)
    requires
        router_wf(st),
        !st.leader_active,
        !st.resize_mode,
        m1.control && !m1.shift && !m1.platform,
        m2.shift,
    ensures
        ({
            let (s1, r1) = route_spec(st, m1, leader_key, leader_key, map, t1, timeout_ms);
            let (s2, r2) = route_spec(s1, m2, "w"@, leader_key, map, t2, timeout_ms);
            &&& r1 == KeyRoute::AwaitLeaderKey
            &&& r2 == KeyRoute::AwaitLeaderKey
            &&& route_spec(s2, m3, "j"@, leader_key, map, t3, timeout_ms).1 == KeyRoute::Leader(
                LeaderAction::NextWorkspace,
            )
            &&& route_spec(s2, m3, "k"@, leader_key, map, t3, timeout_ms).1 == KeyRoute::Leader(
                LeaderAction::PrevWorkspace,
            )
        }),
{
    lemma_chord_key_chars();
    let (s1, r1) = route_spec(st, m1, leader_key, leader_key, map, t1, timeout_ms);
    assert(s1.leader_active && s1.leader_prefix == st.leader_prefix && !s1.resize_mode);
    assert(tab_number_spec("w"@) is None);
}

/// Outside a chord: a key pressed without Ctrl or Cmd goes to the
/// terminal; Ctrl+Space (alone) toggles the inline AI block, Cmd+F the
/// search bar, Cmd+K clears the terminal, and Cmd with a digit 1 to 9
/// switches to that tab (index digit - 1). None of these starts a chord.
pub proof fn lemma_standalone_keys(
    st: KeyRouter,
    m: Modifiers,
    key: Seq<char>,
    leader_key: Seq<char>,
    map: Map<Seq<char>, LeaderAction>,
    now_ms: u64,
    timeout_ms: u64,
)
    requires
        !st.leader_active,
        !(st.resize_mode && m.alt && arrow_dir(key) is Some),
        key != leader_key,
    ensures
        !m.control && !m.platform ==> route_spec(st, m, key, leader_key, map, now_ms, timeout_ms).1
            == KeyRoute::ToTerminal,
        m.control && !m.shift && !m.platform && !m.alt && key == "space"@ ==> route_spec(
            st,
            m,
            key,
            leader_key,
            map,
            now_ms,
            timeout_ms,
        ).1 == KeyRoute::ToggleAiBlock,
        m.platform && !m.shift && !m.control && !m.alt && key == "f"@ ==> route_spec(
            st,
            m,
            key,
            leader_key,
            map,
            now_ms,
            timeout_ms,
        ).1 == KeyRoute::ToggleSearch,
        m.platform && !m.shift && !m.control && !m.alt && key == "k"@ ==> route_spec(
            st,
            m,
            key,
            leader_key,
            map,
            now_ms,
            timeout_ms,
        ).1 == KeyRoute::ClearTerminal,
        m.platform && key.len() == 1 && '1' <= key[0] <= '9' ==> route_spec(
            st,
            m,
            key,
            leader_key,
            map,
            now_ms,
            timeout_ms,
        ).1 == KeyRoute::SwitchTab((key[0] as u32 - 49) as usize),
        !route_spec(st, m, key, leader_key, map, now_ms, timeout_ms).0.leader_active,
{
    lemma_chord_key_chars();
    if key.len() == 1 && '1' <= key[0] <= '9' {
        assert(key[0] != '+');
        assert(tab_digits(key) == Some((key[0] as nat - '0' as nat) as nat));
    }
}

/// Right after the leader key: Alt with an arrow resizes towards it and
/// enters resize mode; a digit 1 to 9 switches to that tab; `a`, Shift+W
/// and `e` open the assistant, workspace and sidebar chords; any other key
/// runs what the leader table binds it to, or nothing.
pub proof fn lemma_leader_keys(
    st: KeyRouter,
    m: Modifiers,
    key: Seq<char>,
    leader_key: Seq<char>,
    map: Map<Seq<char>, LeaderAction>,
    now_ms: u64,
    timeout_ms: u64,
)
    requires
        st.leader_active,
        st.leader_prefix is None,
        !st.resize_mode,
    ensures
        ({
            let (next, route) = route_spec(st, m, key, leader_key, map, now_ms, timeout_ms);
            &&& m.alt && key == "left"@ ==> route == KeyRoute::Resize(FocusDir::Left) && next.resize_mode
            &&& m.alt && key == "right"@ ==> route == KeyRoute::Resize(FocusDir::Right) && next.resize_mode
            &&& m.alt && key == "up"@ ==> route == KeyRoute::Resize(FocusDir::Up) && next.resize_mode
            &&& m.alt && key == "down"@ ==> route == KeyRoute::Resize(FocusDir::Down) && next.resize_mode
            &&& key.len() == 1 && '1' <= key[0] <= '9' ==> route == KeyRoute::SwitchTab(
                (key[0] as u32 - 49) as usize,
            )
            &&& key == "a"@ ==> route == KeyRoute::AwaitLeaderKey && next.leader_prefix == Some('a')
            &&& key == "w"@ && m.shift ==> route == KeyRoute::AwaitLeaderKey && next.leader_prefix == Some('W')
            &&& key == "e"@ ==> route == KeyRoute::AwaitLeaderKey && next.leader_prefix == Some('e')
            &&& !(m.alt && arrow_dir(key) is Some) && tab_number_spec(key) is None && key != "a"@ && !(key
                == "w"@ && m.shift) && key != "e"@ ==> route == (if map.contains_key(key) {
                KeyRoute::Leader(map[key])
            } else {
                KeyRoute::Dropped
            })
        }),
{
    lemma_chord_key_chars();
    if key.len() == 1 && '1' <= key[0] <= '9' {
        assert(key[0] != '+');
        assert(tab_digits(key) == Some((key[0] as nat - '0' as nat) as nat));
    }
    assert(tab_number_spec("a"@) is None);
    assert(tab_number_spec("w"@) is None);
    assert(tab_number_spec("e"@) is None);
}

/// The resize direction an arrow key drives, if `key` names one.
pub fn arrow_key_to_focus_dir(key: &str) -> (r: Option<FocusDir>)
    ensures
        r == arrow_dir(key@),
{
    if str_eq(key, "left") {
        Some(FocusDir::Left)
    } else if str_eq(key, "right") {
        Some(FocusDir::Right)
    } else if str_eq(key, "up") {
        Some(FocusDir::Up)
    } else if str_eq(key, "down") {
        Some(FocusDir::Down)
    } else {
        None
    }
}

/// The tab number 1 to 9 that `key` names, if it names one.
pub fn tab_number(key: &str) -> (r: Option<usize>)
    ensures
        match tab_number_spec(key@) {
            Some(n) => r == Some(n as usize),
            None => r is None,
        },
{
    let ghost s = key@;
    let mut it = key.chars();
    let ghost mut i: int = 0;
    // Position in `s` where the digits start (after an optional `+`).
    let mut start_set: bool = false;
    let ghost mut start: int = 0;
    // The last character seen after `start`, and whether every earlier
    // one after `start` was a `0`.
    let mut last: Option<char> = None;
    let mut zeros: bool = true;
    assert(s.skip(0) =~= s);
    loop
        invariant
            0 <= i <= s.len(),
            it.remaining() == s.skip(i),
            start_set <==> i > 0,
            start_set ==> start == (if s[0] == '+' { 1int } else { 0 }),
            start_set ==> start <= i,
            !start_set ==> last is None && zeros,
            start_set ==> (last is None <==> i == start),
            start_set && last is Some ==> last->0 == s[i - 1],
            start_set ==> (zeros <==> (forall|j: int| start <= j < i - 1 ==> s[j] == '0')),
        ensures
            i == s.len(),
        decreases s.len() - i,
    {
        let next = it.next();
        match next {
            None => {
                proof {
                    if i < s.len() {
                        assert(s.skip(i).len() > 0);
                    }
                }
                break;
            },
            Some(c) => {
                proof {
                    assert(s.skip(i)[0] == s[i]);
                    assert(s.skip(i).drop_first() =~= s.skip(i + 1));
                }
                if !start_set {
                    start_set = true;
                    if c == '+' {
                        proof {
                            start = 1;
                        }
                    } else {
                        proof {
                            start = 0;
                        }
                        last = Some(c);
                    }
                } else {
                    match last {
                        Some(p) => {
                            zeros = zeros && p == '0';
                        },
                        None => {},
                    }
                    last = Some(c);
                }
                proof {
                    i = i + 1;
                }
            },
        }
    }
    proof {
        let body = if s.len() > 0 && s[0] == '+' { s.skip(1) } else { s };
        if start_set {
            assert(body =~= s.skip(start));
            assert(body.len() == s.len() - start);
            if last is Some {
                assert(body.last() == last->0);
                assert(body.len() >= 1);
            } else {
                assert(body.len() == 0);
            }
            assert forall|j: int| 0 <= j < body.len() - 1 implies (body[j] == '0' <==> s[start + j] == '0') by {}
            if zeros {
                assert forall|j: int| 0 <= j < body.len() - 1 implies body[j] == '0' by {
                    assert(s[start + j] == '0');
                }
            } else {
                let w = choose|j: int| start <= j < i - 1 && s[j] != '0';
                assert(body[w - start] != '0');
            }
        } else {
            assert(s.len() == 0);
        }
    }
    match last {
        Some(c) => {
            if zeros && '1' <= c && c <= '9' {
                let n: u32 = (c as u32) - ('0' as u32);
                proof {
                    assert(n == c as nat - '0' as nat);
                }
                Some(n as usize)
            } else {
                None
            }
        },
        None => None,
    }
}

impl KeyRouter {
    /// No chord in progress and not in resize mode.
    pub fn new() -> (r: Self)
        ensures
            !r.resize_mode,
            !r.leader_active,
            r.leader_prefix is None,
            r.leader_deadline_ms is None,
    {
        KeyRouter { resize_mode: false, leader_active: false, leader_prefix: None, leader_deadline_ms: None }
    }

    /// Let an unfinished leader chord lapse once its deadline has passed;
    /// says whether it did.
    pub fn tick(&mut self, now_ms: u64) -> (r: bool)
        ensures
            r == (old(self).leader_active && (old(self).leader_deadline_ms matches Some(d) && now_ms >= d)),
            r ==> *final(self) == (KeyRouter {
                leader_active: false,
                leader_deadline_ms: None,
                leader_prefix: None,
                ..*old(self)
            }),
            !r ==> *final(self) == *old(self),
    {
        if self.leader_active {
            match self.leader_deadline_ms {
                Some(d) => {
                    if now_ms >= d {
                        self.leader_active = false;
                        self.leader_deadline_ms = None;
                        self.leader_prefix = None;
                        return true;
                    }
                },
                None => {},
            }
        }
        false
    }

    fn arm(&mut self, prefix: Option<char>, now_ms: u64, timeout_ms: u64)
        requires
            now_ms + timeout_ms <= u64::MAX,
        ensures
            *final(self) == armed(*old(self), prefix, now_ms, timeout_ms),
    {
        self.leader_active = true;
        self.leader_prefix = prefix;
        self.leader_deadline_ms = Some(now_ms + timeout_ms);
    }

    /// Route one key press. `leader_key` is the configured leader key
    /// (pressed with Ctrl), `leader_map` the single-key leader bindings,
    /// and a chord armed now lapses `timeout_ms` later.
    pub fn route_key(
        &mut self,
        ks: &Keystroke,
        leader_key: &str,
        leader_map: &LeaderMap,
        now_ms: u64,
        timeout_ms: u64,
    ) -> (r: KeyRoute)
        requires
            leader_map.wf(),
            now_ms + timeout_ms <= u64::MAX,
        ensures
            (*final(self), r) == route_spec(
                *old(self),
                ks.modifiers,
                ks.key@,
                leader_key@,
                leader_map.view(),
                now_ms,
                timeout_ms,
            ),
    {
        let m = ks.modifiers;
        let key = ks.key.as_str();
        let dir = arrow_key_to_focus_dir(key);
        if self.resize_mode && m.alt {
            if let Some(d) = dir {
                return KeyRoute::Resize(d);
            }
        }
        self.resize_mode = false;
        if !self.leader_active && m.control && !m.shift && !m.platform && str_eq(key, leader_key) {
            self.leader_active = true;
            self.leader_deadline_ms = Some(now_ms + timeout_ms);
            return KeyRoute::AwaitLeaderKey;
        }
        if self.leader_active {
            self.leader_active = false;
            self.leader_deadline_ms = None;
            let prefix = self.leader_prefix;
            self.leader_prefix = None;
            if let Some(p) = prefix {
                return match chord_action(p, key) {
                    Some(a) => KeyRoute::Leader(a),
                    None => KeyRoute::Dropped,
                };
            }
            if m.alt {
                if let Some(d) = dir {
                    self.resize_mode = true;
                    return KeyRoute::Resize(d);
                }
            }
            if let Some(n) = tab_number(key) {
                return KeyRoute::SwitchTab(n - 1);
            }
            if str_eq(key, "a") {
                self.arm(Some('a'), now_ms, timeout_ms);
                return KeyRoute::AwaitLeaderKey;
            }
            if str_eq(key, "w") && m.shift {
                self.arm(Some('W'), now_ms, timeout_ms);
                return KeyRoute::AwaitLeaderKey;
            }
            if str_eq(key, "e") {
                self.arm(Some('e'), now_ms, timeout_ms);
                return KeyRoute::AwaitLeaderKey;
            }
            return match leader_map.get(key) {
                Some(a) => KeyRoute::Leader(*a),
                None => KeyRoute::Dropped,
            };
        }
        let only_ctrl_held = m.control && !m.shift && !m.platform && !m.alt;
        let only_cmd_held = m.platform && !m.shift && !m.control && !m.alt;
        if only_ctrl_held && str_eq(key, "space") {
            return KeyRoute::ToggleAiBlock;
        }
        if only_cmd_held && str_eq(key, "f") {
            return KeyRoute::ToggleSearch;
        }
        if only_cmd_held && str_eq(key, "k") {
            return KeyRoute::ClearTerminal;
        }
        if m.platform {
            if let Some(n) = tab_number(key) {
                return KeyRoute::SwitchTab(n - 1);
            }
        }
        KeyRoute::ToTerminal
    }
}

/// The action a chord prefix followed by `key` runs, if any.
fn chord_action(prefix: char, key: &str) -> (r: Option<LeaderAction>)
    ensures
        r == prefix_action(prefix, key@),
{
    if prefix == 'a' {
        if str_eq(key, "a") {
            Some(LeaderAction::ToggleAiPanel)
        } else if str_eq(key, "e") {
            Some(LeaderAction::ExplainLastOutput)
        } else if str_eq(key, "f") {
            Some(LeaderAction::FixLastError)
        } else if str_eq(key, "z") {
            Some(LeaderAction::UndoLastWrite)
        } else {
            None
        }
    } else if prefix == 'e' {
        if str_eq(key, "e") {
            Some(LeaderAction::ToggleWorkspaceSidebar)
        } else {
            None
        }
    } else if prefix == 'W' {
        if str_eq(key, "&") {
            Some(LeaderAction::CloseWorkspace)
        } else if str_eq(key, ",") {
            Some(LeaderAction::RenameWorkspace)
        } else if str_eq(key, "j") {
            Some(LeaderAction::NextWorkspace)
        } else if str_eq(key, "k") {
            Some(LeaderAction::PrevWorkspace)
        } else {
            None
        }
    } else {
        None
    }
}

} // verus!
