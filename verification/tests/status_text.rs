use petruterm_shell::status_text::{
    ai_block_body, ai_block_hint, ai_block_submit, chat_header_labels, header_status, run_command_bytes, AiState, AiSubmit, BodyTone,
    PanelState,
};

#[test]
fn ai_block_hints_per_state() {
    assert_eq!(ai_block_hint(&AiState::Hidden), "");
    assert_eq!(ai_block_hint(&AiState::Typing), "Enter: send   Esc: cancel");
    assert_eq!(ai_block_hint(&AiState::Loading), "Esc: cancel");
    assert_eq!(ai_block_hint(&AiState::Streaming), "Esc: cancel");
    assert_eq!(ai_block_hint(&AiState::Done), "Enter: run \u{23ce}   Esc: dismiss");
    assert_eq!(ai_block_hint(&AiState::Error("x".to_string())), "Esc: dismiss");
}

#[test]
fn ai_block_body_per_state() {
    assert_eq!(ai_block_body(&AiState::Typing, "", None), (None, BodyTone::Plain));
    assert_eq!(ai_block_body(&AiState::Loading, "", None), (Some("\u{2026} thinking".to_string()), BodyTone::Pending));
    assert_eq!(ai_block_body(&AiState::Streaming, "ls", None), (Some("\u{2192} ls".to_string()), BodyTone::Pending));
    assert_eq!(
        ai_block_body(&AiState::Done, "use ls -la", Some("ls -la")),
        (Some("\u{2192} ls -la".to_string()), BodyTone::Success)
    );
    assert_eq!(ai_block_body(&AiState::Done, "no command", None), (Some("no command".to_string()), BodyTone::Success));
    assert_eq!(
        ai_block_body(&AiState::Error("timeout".to_string()), "", None),
        (Some("\u{2717} timeout".to_string()), BodyTone::Failure)
    );
}

#[test]
fn enter_in_the_ai_block() {
    assert_eq!(ai_block_submit(&AiState::Typing, "  list files "), AiSubmit::Ask("list files".to_string()));
    assert_eq!(ai_block_submit(&AiState::Typing, "   "), AiSubmit::Ignore);
    assert_eq!(ai_block_submit(&AiState::Done, ""), AiSubmit::RunCommand);
    assert_eq!(ai_block_submit(&AiState::Streaming, "x"), AiSubmit::Ignore);
    assert_eq!(run_command_bytes("ls"), b"ls\r".to_vec());
}

#[test]
fn chat_header_status_per_state() {
    assert_eq!(header_status(&PanelState::Idle), "");
    assert_eq!(header_status(&PanelState::Hidden), "");
    assert_eq!(header_status(&PanelState::Loading), "loading\u{2026}");
    assert_eq!(header_status(&PanelState::Streaming), "streaming\u{2026}");
    assert_eq!(header_status(&PanelState::Error("401".to_string())), "error: 401");
    assert_eq!(header_status(&PanelState::AwaitingConfirm), "awaiting confirmation");
    assert_eq!(header_status(&PanelState::ConfirmAction), "confirm action");
}

#[test]
fn chat_header_titles() {
    assert_eq!(
        chat_header_labels(None, "ollama", "library/qwen2.5:7b"),
        ("\u{2726} 7b".to_string(), "ollama:library/qwen2.5:7b".to_string())
    );
    assert_eq!(
        chat_header_labels(Some(("Goose Agent", "goose")), "openai", "gpt-4o"),
        ("\u{25c8} Goose Agent".to_string(), "agent:goose".to_string())
    );
}
