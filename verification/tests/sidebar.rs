use petruterm_shell::sidebar::{sidebar_key, steering_display_name, wrap_cursor, SidebarKey, SidebarSection, WorkspaceSidebar};

#[test]
fn section_next_cycles_through_all_four_and_wraps() {
    let mut s = SidebarSection::Workspaces;
    s = s.next();
    assert_eq!(s, SidebarSection::Mcp);
    s = s.next();
    assert_eq!(s, SidebarSection::Skills);
    s = s.next();
    assert_eq!(s, SidebarSection::Steering);
    s = s.next();
    assert_eq!(s, SidebarSection::Workspaces);
}

#[test]
fn section_prev_cycles_backward_and_wraps() {
    let mut s = SidebarSection::Workspaces;
    s = s.prev();
    assert_eq!(s, SidebarSection::Steering);
    s = s.prev();
    assert_eq!(s, SidebarSection::Skills);
    s = s.prev();
    assert_eq!(s, SidebarSection::Mcp);
    s = s.prev();
    assert_eq!(s, SidebarSection::Workspaces);
}

#[test]
fn prev_undoes_next_for_every_section() {
    for s in [SidebarSection::Workspaces, SidebarSection::Mcp, SidebarSection::Skills, SidebarSection::Steering] {
        assert_eq!(s.next().prev(), s);
        assert_eq!(s.prev().next(), s);
    }
}

#[test]
fn sidebar_starts_hidden_on_workspaces() {
    let sb = WorkspaceSidebar::default();
    assert!(!sb.is_visible());
    assert_eq!(sb.active_section(), SidebarSection::Workspaces);
    assert_eq!(sb.mcp_cursor(), 0);
    assert_eq!(sb.skills_cursor(), 0);
    assert_eq!(sb.steering_cursor(), 0);
}

#[test]
fn sidebar_toggle_show_and_cursors() {
    let mut sb = WorkspaceSidebar::default();
    sb.toggle();
    assert!(sb.is_visible());
    sb.toggle();
    assert!(!sb.is_visible());
    sb.show();
    sb.show();
    assert!(sb.is_visible());
    sb.next_section();
    assert_eq!(sb.active_section(), SidebarSection::Mcp);
    sb.prev_section();
    sb.prev_section();
    assert_eq!(sb.active_section(), SidebarSection::Steering);
    sb.set_section(SidebarSection::Skills);
    assert_eq!(sb.active_section(), SidebarSection::Skills);
    sb.set_mcp_cursor(4);
    sb.set_skills_cursor(2);
    sb.set_steering_cursor(7);
    assert_eq!((sb.mcp_cursor(), sb.skills_cursor(), sb.steering_cursor()), (4, 2, 7));
}

#[test]
fn cursor_moves_wrap_around_both_ends() {
    assert_eq!(wrap_cursor(0, -1, 5), Some(4));
    assert_eq!(wrap_cursor(4, 1, 5), Some(0));
    assert_eq!(wrap_cursor(2, 1, 5), Some(3));
    assert_eq!(wrap_cursor(2, -7, 5), Some(0));
    assert_eq!(wrap_cursor(0, 1, 0), None);
}

#[test]
fn sidebar_keys() {
    assert_eq!(sidebar_key("tab", false), SidebarKey::NextSection);
    assert_eq!(sidebar_key("tab", true), SidebarKey::PrevSection);
    assert_eq!(sidebar_key("j", false), SidebarKey::Move(1));
    assert_eq!(sidebar_key("down", true), SidebarKey::Move(1));
    assert_eq!(sidebar_key("k", false), SidebarKey::Move(-1));
    assert_eq!(sidebar_key("up", false), SidebarKey::Move(-1));
    assert_eq!(sidebar_key("enter", false), SidebarKey::Activate);
    assert_eq!(sidebar_key("escape", false), SidebarKey::Close);
    assert_eq!(sidebar_key("x", false), SidebarKey::Ignore);
}

#[test]
fn section_cursor_moves_wrap_within_the_active_section() {
    let mut sb = WorkspaceSidebar::default();
    sb.set_section(SidebarSection::Skills);
    sb.move_cursor(-1, 4);
    assert_eq!(sb.skills_cursor(), 3);
    sb.move_cursor(1, 4);
    assert_eq!(sb.skills_cursor(), 0);
    assert_eq!(sb.mcp_cursor(), 0);
    sb.move_cursor(1, 0);
    assert_eq!(sb.skills_cursor(), 0);
    sb.set_section(SidebarSection::Workspaces);
    sb.move_cursor(1, 4);
    assert_eq!((sb.mcp_cursor(), sb.skills_cursor(), sb.steering_cursor()), (0, 0, 0));
    sb.set_section(SidebarSection::Steering);
    sb.move_cursor(2, 3);
    assert_eq!(sb.steering_cursor(), 2);
}

#[test]
fn steering_names_drop_the_markdown_suffix() {
    assert_eq!(steering_display_name("style.md"), "style");
    assert_eq!(steering_display_name("notes.txt"), "notes.txt");
    assert_eq!(steering_display_name(".md"), "");
    assert_eq!(steering_display_name("md"), "md");
}
