use petruterm_shell::ai_queries::{action_card_text, explain_query, fix_query, opening_note, running_note, AgentAction};

#[test]
fn explain_query_fences_the_output() {
    assert_eq!(
        explain_query("total 0").as_deref(),
        Some("Explain this terminal output:\n```\ntotal 0\n```")
    );
}

#[test]
fn explain_query_skips_empty_output() {
    assert_eq!(explain_query(""), None);
}

#[test]
fn fix_query_names_the_failed_command() {
    assert_eq!(
        fix_query("boom", "make", 2),
        "The command `make` failed (exit code 2). Output:\n```\nboom\n```\nHow do I fix this?"
    );
    assert_eq!(
        fix_query("x", "kill", -9),
        "The command `kill` failed (exit code -9). Output:\n```\nx\n```\nHow do I fix this?"
    );
    assert_eq!(
        fix_query("", "a", i32::MIN),
        "The command `a` failed (exit code -2147483648). Output:\n```\n\n```\nHow do I fix this?"
    );
}

#[test]
fn fix_query_without_a_reported_command() {
    assert_eq!(fix_query("boom", "", 1), "This command failed. Output:\n```\nboom\n```\nHow do I fix this?");
}

#[test]
fn agent_action_notes() {
    assert_eq!(running_note("ls -la"), "Running: `ls -la`");
    assert_eq!(opening_note("src/main.rs"), "Opening: `src/main.rs`");
}

#[test]
fn agent_action_cards() {
    let run = AgentAction::RunCommand { cmd: "cargo test".to_string(), explanation: String::new() };
    assert_eq!(action_card_text(&run), "Run: `cargo test`");
    let run = AgentAction::RunCommand { cmd: "cargo test".to_string(), explanation: "runs the suite".to_string() };
    assert_eq!(action_card_text(&run), "Run: `cargo test`\nruns the suite");
    assert_eq!(action_card_text(&AgentAction::OpenFile { path: "Cargo.toml".to_string() }), "Open: `Cargo.toml`");
    assert_eq!(
        action_card_text(&AgentAction::ExplainOutput { last_n_lines: 30 }),
        "Explain last 30 terminal lines"
    );
}
