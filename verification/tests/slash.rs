use petruterm_shell::slash::{classify_command, composer_submit, parse_slash_command, skills_reply, trim, unknown_command_reply, ComposerSubmit, SkillInfo, SlashCommand};

fn skill(name: &str, description: &str) -> SkillInfo {
    SkillInfo { name: name.to_string(), description: description.to_string() }
}

fn parsed(input: &str) -> (String, String) {
    parse_slash_command(input)
}

#[test]
fn command_and_trimmed_arguments() {
    assert_eq!(parsed("/model gpt-4o "), ("model".to_string(), "gpt-4o".to_string()));
    assert_eq!(parsed("//skills   rust  tips "), ("skills".to_string(), "rust  tips".to_string()));
    assert_eq!(parsed("/clear"), ("clear".to_string(), String::new()));
    assert_eq!(parsed("quit"), ("quit".to_string(), String::new()));
    assert_eq!(parsed("/ x"), (String::new(), "x".to_string()));
    assert_eq!(parsed(""), (String::new(), String::new()));
}

#[test]
fn trimming_uses_unicode_white_space() {
    assert_eq!(trim("\t a b \n"), "a b");
    assert_eq!(trim("\u{3000}x\u{a0}"), "x");
    assert_eq!(trim("   "), "");
}

#[test]
fn commands_and_their_aliases() {
    assert_eq!(classify_command("q"), SlashCommand::Quit);
    assert_eq!(classify_command("quit"), SlashCommand::Quit);
    assert_eq!(classify_command("clear"), SlashCommand::Clear);
    assert_eq!(classify_command("reset"), SlashCommand::Clear);
    assert_eq!(classify_command("skills"), SlashCommand::Skills);
    assert_eq!(classify_command("mcp"), SlashCommand::Mcp);
    assert_eq!(classify_command("model"), SlashCommand::Model);
    assert_eq!(classify_command("agent"), SlashCommand::Agent);
    assert_eq!(classify_command("Quit"), SlashCommand::Unknown);
    assert_eq!(classify_command(""), SlashCommand::Unknown);
}

#[test]
fn unknown_command_reply_lists_the_known_ones() {
    assert_eq!(
        unknown_command_reply("foo"),
        "Unknown command: /foo. Try /clear, /skills, /mcp, /model, /agent or /quit."
    );
}

#[test]
fn skills_reply_without_skills() {
    assert_eq!(
        skills_reply(&[], ""),
        "No skills loaded. Place SKILL.md files in ~/.config/petruterm/skills/<name>/"
    );
}

#[test]
fn skills_reply_lists_and_filters() {
    let skills = vec![skill("rust", "Ownership tips"), skill("git", "Rebase help"), skill("docs", "Write rustdoc")];
    assert_eq!(
        skills_reply(&skills, ""),
        "# Skills\n## rust\nOwnership tips\n## git\nRebase help\n## docs\nWrite rustdoc"
    );
    assert_eq!(skills_reply(&skills, "rust"), "# Skills\n## rust\nOwnership tips\n## docs\nWrite rustdoc");
    assert_eq!(skills_reply(&skills, "Rebase"), "# Skills\n## git\nRebase help");
    assert_eq!(skills_reply(&skills, "python"), "No skills matching 'python'");
}

#[test]
fn composer_enter_routes_commands_and_questions() {
    assert_eq!(composer_submit(true, "  /skills git "), ComposerSubmit::Command("/skills git".to_string()));
    assert_eq!(composer_submit(true, " why is ls slow? "), ComposerSubmit::Ask("why is ls slow?".to_string()));
    assert_eq!(composer_submit(true, "   "), ComposerSubmit::Ignore);
    assert_eq!(composer_submit(false, "/quit"), ComposerSubmit::Ignore);
}
