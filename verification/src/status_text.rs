//! What the assistant surfaces show about their state: the inline AI
//! block's body and key hint, what Enter does there, and the chat panel
//! header's status word.

use vstd::prelude::*;
use vstd::string::{StringExecFns, StrSliceExecFns, StringSliceAdditionalSpecFns};
use crate::slash::trim_spec;
use crate::text::after_last;
use crate::text::push_char;

verus! {

/// The inline AI block's life cycle.
#[derive(Debug, Clone, PartialEq, Eq)]
pub enum AiState {
    Hidden,
    /// The user is typing a question.
    Typing,
    /// Waiting for the first token.
    Loading,
    /// The answer is arriving.
    Streaming,
    /// The answer is complete.
    Done,
    /// The request failed with this message.
    Error(String),
}

/// Which colour of the theme the block's body is drawn in.
#[derive(Debug, Clone, Copy, PartialEq, Eq, Structural)]
pub enum BodyTone {
    /// The ordinary foreground.
    Plain,
    /// Work in progress (the theme's yellow).
    Pending,
    /// A finished answer.
    Success,
    /// A failure (the theme's red).
    Failure,
}

/// The key hint shown under the block in each state.
pub open spec fn hint_text(state: AiState) -> Seq<char> {
    match state {
        AiState::Hidden => Seq::<char>::empty(),
        AiState::Typing => "Enter: send   Esc: cancel"@,
        AiState::Loading => "Esc: cancel"@,
        AiState::Streaming => "Esc: cancel"@,
        AiState::Done => "Enter: run "@ + seq!['\u{23ce}'] + "   Esc: dismiss"@,
        AiState::Error(_) => "Esc: dismiss"@,
    }
}

/// `s` after an arrow and a space.
pub open spec fn arrowed(s: Seq<char>) -> Seq<char> {
    seq!['\u{2192}', ' '] + s
}

/// The block's body text and tone: nothing while hidden or typing, a
/// thinking note while loading, the answer so far while streaming, the
/// command to run (or else the whole answer) once done, and the error.
pub open spec fn body_spec(state: AiState, response: Seq<char>, command: Option<Seq<char>>) -> (
    Option<Seq<char>>,
    BodyTone,
) {
    match state {
        AiState::Hidden => (None, BodyTone::Plain),
        AiState::Typing => (None, BodyTone::Plain),
        AiState::Loading => (Some(seq!['\u{2026}'] + " thinking"@), BodyTone::Pending),
        AiState::Streaming => (Some(arrowed(response)), BodyTone::Pending),
        AiState::Done => match command {
            Some(c) => (Some(arrowed(c)), BodyTone::Success),
            None => (Some(response), BodyTone::Success),
        },
        AiState::Error(msg) => (Some(seq!['\u{2717}', ' '] + msg@), BodyTone::Failure),
    }
}

/// The characters of an optional string.
pub open spec fn opt_chars(c: Option<&str>) -> Option<Seq<char>> {
    match c {
        Some(t) => Some(t@),
        None => None,
    }
}

/// The key hint under the inline AI block.
pub fn ai_block_hint(state: &AiState) -> (r: String)
    ensures
        r@ == hint_text(*state),
{
    match state {
        AiState::Hidden => String::new(),
        AiState::Typing => String::from_str("Enter: send   Esc: cancel"),
        AiState::Loading => String::from_str("Esc: cancel"),
        AiState::Streaming => String::from_str("Esc: cancel"),
        AiState::Done => {
            let mut s = String::from_str("Enter: run ");
            push_char(&mut s, '\u{23ce}');
            s.append("   Esc: dismiss");
            s
        },
        AiState::Error(_) => String::from_str("Esc: dismiss"),
    }
}

/// The inline AI block's body: its text (if any) and tone. `response` is
/// the answer so far, `command` the command the finished answer resolves
/// to, if it resolves to one.
pub fn ai_block_body(state: &AiState, response: &str, command: Option<&str>) -> (r: (Option<String>, BodyTone))
    ensures
        r.1 == body_spec(*state, response@, opt_chars(command)).1,
        (match r.0 {
            Some(t) => body_spec(*state, response@, opt_chars(command)).0 == Some(t@),
            None => body_spec(*state, response@, opt_chars(command)).0 is None,
        }),
{
    match state {
        AiState::Hidden => (None, BodyTone::Plain),
        AiState::Typing => (None, BodyTone::Plain),
        AiState::Loading => {
            let mut s = String::new();
            push_char(&mut s, '\u{2026}');
            s.append(" thinking");
            (Some(s), BodyTone::Pending)
        },
        AiState::Streaming => {
            let mut s = String::new();
            push_char(&mut s, '\u{2192}');
            push_char(&mut s, ' ');
            s.append(response);
            assert(s@ =~= arrowed(response@));
            (Some(s), BodyTone::Pending)
        },
        AiState::Done => match command {
            Some(c) => {
                let mut s = String::new();
                push_char(&mut s, '\u{2192}');
                push_char(&mut s, ' ');
                s.append(c);
                assert(s@ =~= arrowed(c@));
                (Some(s), BodyTone::Success)
            },
            None => (Some(String::from_str(response)), BodyTone::Success),
        },
        AiState::Error(msg) => {
            let mut s = String::new();
            push_char(&mut s, '\u{2717}');
            push_char(&mut s, ' ');
            s.append(msg.as_str());
            assert(s@ =~= seq!['\u{2717}', ' '] + msg@);
            (Some(s), BodyTone::Failure)
        },
    }
}

/// What Enter in the inline AI block does.
#[derive(Debug, Clone, PartialEq, Eq)]
pub enum AiSubmit {
    /// Nothing (an empty question, or a request in flight or failed).
    Ignore,
    /// Ask this question (the composer's text, trimmed).
    Ask(String),
    /// Run the finished answer's command and close the block.
    RunCommand,
}

/// Enter in the inline AI block, whose composer holds `content`: while
/// typing, a non-blank question is asked; once the answer is done, its
/// command runs; otherwise nothing happens.
pub fn ai_block_submit(state: &AiState, content: &str) -> (r: AiSubmit)
    ensures
        (match *state {
            AiState::Typing => if trim_spec(content@).len() > 0 {
                r matches AiSubmit::Ask(q) && q@ == trim_spec(content@)
            } else {
                r matches AiSubmit::Ignore
            },
            AiState::Done => r matches AiSubmit::RunCommand,
            _ => r matches AiSubmit::Ignore,
        }),
{
    match state {
        AiState::Typing => {
            let t = crate::slash::trim(content);
            if t.as_str().unicode_len() == 0 {
                AiSubmit::Ignore
            } else {
                AiSubmit::Ask(t)
            }
        },
        AiState::Done => AiSubmit::RunCommand,
        _ => AiSubmit::Ignore,
    }
}

/// What running the block's command writes to the PTY: the command and a
/// carriage return.
pub fn run_command_bytes(cmd: &str) -> (r: Vec<u8>)
    ensures
        r@ == cmd.spec_bytes().push(13u8),
{
    let b = cmd.as_bytes();
    let mut v: Vec<u8> = Vec::new();
    let mut i: usize = 0;
    while i < b.len()
        invariant
            i <= b@.len(),
            v@ == b@.take(i as int),
        decreases b@.len() - i,
    {
        v.push(b[i]);
        i = i + 1;
        assert(v@ =~= b@.take(i as int));
    }
    assert(b@.take(b@.len() as int) =~= b@);
    v.push(13u8);
    v
}

/// The chat panel's state, as far as its header shows it.
#[derive(Debug, Clone, PartialEq, Eq)]
pub enum PanelState {
    Hidden,
    Idle,
    Loading,
    Streaming,
    /// The last request failed with this message.
    Error(String),
    /// A file write waits for the user's yes or no.
    AwaitingConfirm,
    /// An agent action waits for the user's yes or no.
    ConfirmAction,
}

/// The status the chat header shows next to the model name.
pub open spec fn header_status_text(state: PanelState) -> Seq<char> {
    match state {
        PanelState::Hidden => Seq::<char>::empty(),
        PanelState::Idle => Seq::<char>::empty(),
        PanelState::Loading => "loading"@ + seq!['\u{2026}'],
        PanelState::Streaming => "streaming"@ + seq!['\u{2026}'],
        PanelState::Error(msg) => "error: "@ + msg@,
        PanelState::AwaitingConfirm => "awaiting confirmation"@,
        PanelState::ConfirmAction => "confirm action"@,
    }
}

/// The chat header's status: empty when idle or hidden.
pub fn header_status(state: &PanelState) -> (r: String)
    ensures
        r@ == header_status_text(*state),
{
    match state {
        PanelState::Hidden => String::new(),
        PanelState::Idle => String::new(),
        PanelState::Loading => {
            let mut s = String::from_str("loading");
            push_char(&mut s, '\u{2026}');
            s
        },
        PanelState::Streaming => {
            let mut s = String::from_str("streaming");
            push_char(&mut s, '\u{2026}');
            s
        },
        PanelState::Error(msg) => {
            let mut s = String::from_str("error: ");
            s.append(msg.as_str());
            s
        },
        PanelState::AwaitingConfirm => String::from_str("awaiting confirmation"),
        PanelState::ConfirmAction => String::from_str("confirm action"),
    }
}

/// The chat header's title and detail: with an agent session, its display
/// name and `agent:` its agent; otherwise the bare model name and
/// `provider:model`.
pub open spec fn header_labels_spec(session: Option<(Seq<char>, Seq<char>)>, provider: Seq<char>, model: Seq<char>) -> (
    Seq<char>,
    Seq<char>,
) {
    match session {
        Some((display_name, agent_name)) => (seq!['\u{25c8}', ' '] + display_name, "agent:"@ + agent_name),
        None => (
            seq!['\u{2726}', ' '] + after_last(after_last(model, '/'), ':'),
            provider + ":"@ + model,
        ),
    }
}

/// The chat header's title and detail texts; `session` is the connected
/// agent's display name and agent name, if an agent session is active.
pub fn chat_header_labels(session: Option<(&str, &str)>, provider: &str, model: &str) -> (r: (String, String))
    ensures
        r.0@ == header_labels_spec(
            match session {
                Some((d, a)) => Some((d@, a@)),
                None => None,
            },
            provider@,
            model@,
        ).0,
        r.1@ == header_labels_spec(
            match session {
                Some((d, a)) => Some((d@, a@)),
                None => None,
            },
            provider@,
            model@,
        ).1,
{
    match session {
        Some((display_name, agent_name)) => {
            let mut title = String::new();
            push_char(&mut title, '\u{25c8}');
            push_char(&mut title, ' ');
            title.append(display_name);
            let mut detail = String::from_str("agent:");
            detail.append(agent_name);
            assert(title@ =~= seq!['\u{25c8}', ' '] + display_name@);
            (title, detail)
        },
        None => {
            let mut title = String::new();
            push_char(&mut title, '\u{2726}');
            push_char(&mut title, ' ');
            title.append(crate::text::short_model_name(model));
            let mut detail = String::from_str(provider);
            detail.append(":");
            detail.append(model);
            assert(title@ =~= seq!['\u{2726}', ' '] + after_last(after_last(model@, '/'), ':'));
            (title, detail)
        },
    }
}

} // verus!
