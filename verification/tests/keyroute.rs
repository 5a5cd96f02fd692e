use petruterm_shell::key_map::{Keystroke, Modifiers};
use petruterm_shell::keyroute::{arrow_key_to_focus_dir, tab_number, KeyRoute, KeyRouter};
use petruterm_shell::leader::{build_leader_map, KeyBind, LeaderAction};
use petruterm_shell::panes::FocusDir;

fn ks(key: &str, modifiers: Modifiers) -> Keystroke {
    Keystroke { modifiers, key: key.to_string(), key_char: None }
}

fn plain(key: &str) -> Keystroke {
    ks(key, Modifiers::default())
}

fn ctrl(key: &str) -> Keystroke {
    ks(key, Modifiers { control: true, ..Default::default() })
}

fn cmd(key: &str) -> Keystroke {
    ks(key, Modifiers { platform: true, ..Default::default() })
}

fn alt(key: &str) -> Keystroke {
    ks(key, Modifiers { alt: true, ..Default::default() })
}

fn map() -> petruterm_shell::leader::LeaderMap {
    build_leader_map(&[KeyBind { mods: "LEADER".into(), key: "c".into(), action: "NewTab".into() }])
}

#[test]
fn arrow_names_map_to_directions() {
    assert_eq!(arrow_key_to_focus_dir("left"), Some(FocusDir::Left));
    assert_eq!(arrow_key_to_focus_dir("right"), Some(FocusDir::Right));
    assert_eq!(arrow_key_to_focus_dir("up"), Some(FocusDir::Up));
    assert_eq!(arrow_key_to_focus_dir("down"), Some(FocusDir::Down));
    assert_eq!(arrow_key_to_focus_dir("Left"), None);
}

#[test]
fn tab_numbers_read_like_unsigned_parsing() {
    assert_eq!(tab_number("1"), Some(1));
    assert_eq!(tab_number("9"), Some(9));
    assert_eq!(tab_number("0"), None);
    assert_eq!(tab_number("10"), None);
    assert_eq!(tab_number("007"), Some(7));
    assert_eq!(tab_number("+3"), Some(3));
    assert_eq!(tab_number("+"), None);
    assert_eq!(tab_number("-3"), None);
    assert_eq!(tab_number(""), None);
    assert_eq!(tab_number("a"), None);
}

#[test]
fn leader_then_bound_key_runs_its_action() {
    let m = map();
    let mut r = KeyRouter::new();
    assert_eq!(r.route_key(&ctrl("b"), "b", &m, 1_000, 1_500), KeyRoute::AwaitLeaderKey);
    assert!(r.leader_active);
    assert_eq!(r.leader_deadline_ms, Some(2_500));
    assert_eq!(r.route_key(&plain("c"), "b", &m, 1_100, 1_500), KeyRoute::Leader(LeaderAction::NewTab));
    assert!(!r.leader_active);
    assert_eq!(r.route_key(&plain("c"), "b", &m, 1_200, 1_500), KeyRoute::ToTerminal);
}

#[test]
fn leader_then_unbound_key_is_dropped() {
    let m = map();
    let mut r = KeyRouter::new();
    r.route_key(&ctrl("b"), "b", &m, 0, 1_000);
    assert_eq!(r.route_key(&plain("q"), "b", &m, 10, 1_000), KeyRoute::Dropped);
    assert!(!r.leader_active);
}

#[test]
fn leader_sub_chords() {
    let m = map();
    let mut r = KeyRouter::new();
    r.route_key(&ctrl("b"), "b", &m, 0, 1_000);
    assert_eq!(r.route_key(&plain("a"), "b", &m, 10, 1_000), KeyRoute::AwaitLeaderKey);
    assert_eq!(r.leader_prefix, Some('a'));
    assert_eq!(r.route_key(&plain("f"), "b", &m, 20, 1_000), KeyRoute::Leader(LeaderAction::FixLastError));
    assert_eq!(r.leader_prefix, None);

    r.route_key(&ctrl("b"), "b", &m, 30, 1_000);
    r.route_key(&ks("w", Modifiers { shift: true, ..Default::default() }), "b", &m, 40, 1_000);
    assert_eq!(r.leader_prefix, Some('W'));
    assert_eq!(r.route_key(&plain("j"), "b", &m, 50, 1_000), KeyRoute::Leader(LeaderAction::NextWorkspace));

    r.route_key(&ctrl("b"), "b", &m, 60, 1_000);
    r.route_key(&plain("e"), "b", &m, 70, 1_000);
    assert_eq!(
        r.route_key(&plain("e"), "b", &m, 80, 1_000),
        KeyRoute::Leader(LeaderAction::ToggleWorkspaceSidebar)
    );

    r.route_key(&ctrl("b"), "b", &m, 90, 1_000);
    r.route_key(&plain("a"), "b", &m, 95, 1_000);
    assert_eq!(r.route_key(&plain("x"), "b", &m, 99, 1_000), KeyRoute::Dropped);
}

#[test]
fn leader_digit_switches_tabs() {
    let m = map();
    let mut r = KeyRouter::new();
    r.route_key(&ctrl("b"), "b", &m, 0, 1_000);
    assert_eq!(r.route_key(&plain("3"), "b", &m, 1, 1_000), KeyRoute::SwitchTab(2));
    assert_eq!(r.route_key(&cmd("1"), "b", &m, 2, 1_000), KeyRoute::SwitchTab(0));
}

#[test]
fn resize_mode_continues_with_option_arrows_until_another_key() {
    let m = map();
    let mut r = KeyRouter::new();
    r.route_key(&ctrl("b"), "b", &m, 0, 1_000);
    assert_eq!(r.route_key(&alt("left"), "b", &m, 1, 1_000), KeyRoute::Resize(FocusDir::Left));
    assert!(r.resize_mode);
    assert!(!r.leader_active);
    assert_eq!(r.route_key(&alt("up"), "b", &m, 2, 1_000), KeyRoute::Resize(FocusDir::Up));
    assert!(r.resize_mode);
    assert_eq!(r.route_key(&plain("x"), "b", &m, 3, 1_000), KeyRoute::ToTerminal);
    assert!(!r.resize_mode);
    assert_eq!(r.route_key(&alt("up"), "b", &m, 4, 1_000), KeyRoute::ToTerminal);
}

#[test]
fn standalone_shortcuts() {
    let m = map();
    let mut r = KeyRouter::new();
    assert_eq!(r.route_key(&ctrl("space"), "b", &m, 0, 1_000), KeyRoute::ToggleAiBlock);
    assert_eq!(r.route_key(&cmd("f"), "b", &m, 0, 1_000), KeyRoute::ToggleSearch);
    assert_eq!(r.route_key(&cmd("k"), "b", &m, 0, 1_000), KeyRoute::ClearTerminal);
    assert_eq!(r.route_key(&cmd("v"), "b", &m, 0, 1_000), KeyRoute::ToTerminal);
    let cmd_shift_f = ks("f", Modifiers { platform: true, shift: true, ..Default::default() });
    assert_eq!(r.route_key(&cmd_shift_f, "b", &m, 0, 1_000), KeyRoute::ToTerminal);
}

#[test]
fn an_unfinished_chord_lapses_at_its_deadline() {
    let m = map();
    let mut r = KeyRouter::new();
    r.route_key(&ctrl("b"), "b", &m, 1_000, 500);
    r.route_key(&plain("a"), "b", &m, 1_100, 500);
    assert!(!r.tick(1_599));
    assert!(r.leader_active);
    assert!(r.tick(1_600));
    assert!(!r.leader_active);
    assert_eq!(r.leader_prefix, None);
    assert_eq!(r.leader_deadline_ms, None);
    assert!(!r.tick(5_000));
    assert_eq!(r.route_key(&plain("f"), "b", &m, 5_001, 500), KeyRoute::ToTerminal);
}
