use petruterm_shell::leader::{build_leader_map, KeyBind, LeaderAction};
use petruterm_shell::panes::FocusDir;

fn kb(key: &str, action: &str) -> KeyBind {
    KeyBind { mods: "LEADER".into(), key: key.into(), action: action.into() }
}

#[test]
fn parses_all_action_strings() {
    assert_eq!(LeaderAction::try_from("NewTab"), Ok(LeaderAction::NewTab));
    assert_eq!(LeaderAction::try_from("CloseTab"), Ok(LeaderAction::CloseTab));
    assert_eq!(LeaderAction::try_from("NextTab"), Ok(LeaderAction::NextTab));
    assert_eq!(LeaderAction::try_from("PrevTab"), Ok(LeaderAction::PrevTab));
    assert_eq!(LeaderAction::try_from("RenameTab"), Ok(LeaderAction::RenameTab));
    assert_eq!(LeaderAction::try_from("SplitHorizontal"), Ok(LeaderAction::SplitHorizontal));
    assert_eq!(LeaderAction::try_from("SplitVertical"), Ok(LeaderAction::SplitVertical));
    assert_eq!(LeaderAction::try_from("ClosePane"), Ok(LeaderAction::ClosePane));
    assert_eq!(LeaderAction::try_from("ZoomPane"), Ok(LeaderAction::ZoomPane));
    assert_eq!(LeaderAction::try_from("FocusPaneLeft"), Ok(LeaderAction::FocusPane(FocusDir::Left)));
    assert_eq!(LeaderAction::try_from("FocusPaneRight"), Ok(LeaderAction::FocusPane(FocusDir::Right)));
    assert_eq!(LeaderAction::try_from("FocusPaneUp"), Ok(LeaderAction::FocusPane(FocusDir::Up)));
    assert_eq!(LeaderAction::try_from("FocusPaneDown"), Ok(LeaderAction::FocusPane(FocusDir::Down)));
    assert_eq!(LeaderAction::try_from("ToggleAiPanel"), Ok(LeaderAction::ToggleAiPanel));
    assert_eq!(LeaderAction::try_from("NewWorkspace"), Ok(LeaderAction::NewWorkspace));
    assert_eq!(LeaderAction::try_from("CloseWorkspace"), Ok(LeaderAction::CloseWorkspace));
    assert_eq!(LeaderAction::try_from("NextWorkspace"), Ok(LeaderAction::NextWorkspace));
    assert_eq!(LeaderAction::try_from("PrevWorkspace"), Ok(LeaderAction::PrevWorkspace));
    assert_eq!(LeaderAction::try_from("RenameWorkspace"), Ok(LeaderAction::RenameWorkspace));
    assert_eq!(LeaderAction::try_from("ToggleWorkspaceSidebar"), Ok(LeaderAction::ToggleWorkspaceSidebar));
    assert_eq!(LeaderAction::try_from("NotAnAction"), Err(()));
}

#[test]
fn build_leader_map_matches_default_keybinds_lua() {
    let bindings = vec![
        kb("c", "NewTab"),
        kb("&", "CloseTab"),
        kb("n", "NextTab"),
        kb("b", "PrevTab"),
        kb(",", "RenameTab"),
        kb("%", "SplitHorizontal"),
        kb("\"", "SplitVertical"),
        kb("x", "ClosePane"),
        kb("h", "FocusPaneLeft"),
        kb("j", "FocusPaneDown"),
        kb("k", "FocusPaneUp"),
        kb("l", "FocusPaneRight"),
        kb("o", "CommandPalette"),
    ];
    let map = build_leader_map(&bindings);
    assert_eq!(map.get("c"), Some(&LeaderAction::NewTab));
    assert_eq!(map.get("&"), Some(&LeaderAction::CloseTab));
    assert_eq!(map.get("n"), Some(&LeaderAction::NextTab));
    assert_eq!(map.get("b"), Some(&LeaderAction::PrevTab));
    assert_eq!(map.get(","), Some(&LeaderAction::RenameTab));
    assert_eq!(map.get("%"), Some(&LeaderAction::SplitHorizontal));
    assert_eq!(map.get("\""), Some(&LeaderAction::SplitVertical));
    assert_eq!(map.get("x"), Some(&LeaderAction::ClosePane));
    assert_eq!(map.get("h"), Some(&LeaderAction::FocusPane(FocusDir::Left)));
    assert_eq!(map.get("j"), Some(&LeaderAction::FocusPane(FocusDir::Down)));
    assert_eq!(map.get("k"), Some(&LeaderAction::FocusPane(FocusDir::Up)));
    assert_eq!(map.get("l"), Some(&LeaderAction::FocusPane(FocusDir::Right)));
    assert_eq!(map.get("z"), Some(&LeaderAction::ZoomPane));
    assert_eq!(map.get("w"), Some(&LeaderAction::NewWorkspace));
    assert_eq!(map.get("s"), Some(&LeaderAction::ToggleWorkspaceSidebar));
    assert_eq!(map.get("o"), Some(&LeaderAction::OpenCommandPalette));
}

#[test]
fn unparseable_action_strings_are_skipped() {
    let bindings = vec![kb("o", "SomeUnknownFutureAction")];
    let map = build_leader_map(&bindings);
    assert_eq!(map.get("o"), None);
    assert_eq!(map.len(), 3);
}

#[test]
fn a_configured_binding_overrides_a_seeded_default() {
    let map = build_leader_map(&[kb("z", "ClosePane")]);
    assert_eq!(map.get("z"), Some(&LeaderAction::ClosePane));
    assert_eq!(map.len(), 3);
}

#[test]
fn the_later_of_two_bindings_for_a_key_wins() {
    let map = build_leader_map(&[kb("c", "NewTab"), kb("c", "CloseTab")]);
    assert_eq!(map.get("c"), Some(&LeaderAction::CloseTab));
    assert_eq!(map.len(), 4);
}

#[test]
fn from_name_knows_the_palette_alias() {
    assert_eq!(LeaderAction::from_name("CommandPalette"), Some(LeaderAction::OpenCommandPalette));
    assert_eq!(LeaderAction::from_name("OpenCommandPalette"), None);
}
