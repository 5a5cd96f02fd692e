//! The questions the shell puts to the assistant about the terminal's
//! output ("explain last output", "fix last error") and the notes it adds
//! to the chat when it runs or opens something for the agent.

use vstd::prelude::*;
use vstd::string::{StringExecFns, StrSliceExecFns};
use crate::digits::{dec_chars, push_decimal};
use crate::text::push_char;

verus! {

/// Terminal output shown to the assistant as a fenced block.
pub open spec fn fenced(output: Seq<char>) -> Seq<char> {
    "\n```\n"@ + output + "\n```"@
}

/// `i` in decimal, with a leading minus sign when negative.
pub open spec fn signed_dec(i: int) -> Seq<char> {
    if i < 0 {
        seq!['-'] + dec_chars((-i) as nat)
    } else {
        dec_chars(i as nat)
    }
}

/// The question asking the assistant to explain `output`.
pub open spec fn explain_text(output: Seq<char>) -> Seq<char> {
    "Explain this terminal output:"@ + fenced(output)
}

/// The question asking how to fix a failure whose output was `output`;
/// it names the command and its exit code when the shell reported a
/// command.
pub open spec fn fix_text(output: Seq<char>, last_command: Seq<char>, last_exit_code: int) -> Seq<char> {
    if last_command.len() > 0 {
        "The command `"@ + last_command + "` failed (exit code "@ + signed_dec(last_exit_code) + "). Output:"@
            + fenced(output) + "\nHow do I fix this?"@
    } else {
        "This command failed. Output:"@ + fenced(output) + "\nHow do I fix this?"@
    }
}

fn push_fenced(s: &mut String, output: &str)
    ensures
        final(s)@ == old(s)@ + fenced(output@),
{
    s.append("\n```\n");
    s.append(output);
    s.append("\n```");
    assert(s@ =~= old(s)@ + fenced(output@));
}

/// The "explain last output" question, or `None` when there is no output
/// to ask about.
pub fn explain_query(output: &str) -> (r: Option<String>)
    ensures
        output@.len() == 0 ==> r is None,
        output@.len() > 0 ==> r is Some && r->0@ == explain_text(output@),
{
    if output.unicode_len() == 0 {
        return None;
    }
    let mut s = String::from_str("Explain this terminal output:");
    push_fenced(&mut s, output);
    Some(s)
}

/// The "fix last error" question for `output`; `last_command` is the
/// command the shell last reported (empty when it reported none) and
/// `last_exit_code` its exit status.
pub fn fix_query(output: &str, last_command: &str, last_exit_code: i32) -> (r: String)
    ensures
        r@ == fix_text(output@, last_command@, last_exit_code as int),
{
    if last_command.unicode_len() > 0 {
        let mut s = String::from_str("The command `");
        s.append(last_command);
        s.append("` failed (exit code ");
        if last_exit_code < 0 {
            push_char(&mut s, '-');
            let m: u64 = (0i64 - last_exit_code as i64) as u64;
            push_decimal(&mut s, m);
        } else {
            push_decimal(&mut s, last_exit_code as u64);
        }
        s.append("). Output:");
        push_fenced(&mut s, output);
        s.append("\nHow do I fix this?");
        assert(s@ =~= fix_text(output@, last_command@, last_exit_code as int));
        s
    } else {
        let mut s = String::from_str("This command failed. Output:");
        push_fenced(&mut s, output);
        s.append("\nHow do I fix this?");
        s
    }
}

/// The chat note for a command the agent runs in the terminal.
pub fn running_note(cmd: &str) -> (r: String)
    ensures
        r@ == "Running: `"@ + cmd@ + "`"@,
{
    let mut s = String::from_str("Running: `");
    s.append(cmd);
    s.append("`");
    s
}

/// The chat note for a file the agent opens.
pub fn opening_note(path: &str) -> (r: String)
    ensures
        r@ == "Opening: `"@ + path@ + "`"@,
{
    let mut s = String::from_str("Opening: `");
    s.append(path);
    s.append("`");
    s
}

/// An action the agent proposes, shown for confirmation before it runs.
#[derive(Debug, Clone, PartialEq, Eq)]
pub enum AgentAction {
    /// Run `cmd` in the focused terminal; `explanation` may be empty.
    RunCommand { cmd: String, explanation: String },
    /// Open the file at `path`.
    OpenFile { path: String },
    /// Explain the last `last_n_lines` lines of the terminal.
    ExplainOutput { last_n_lines: usize },
}

/// The confirmation card's text for `action`.
pub open spec fn action_card(action: AgentAction) -> Seq<char> {
    match action {
        AgentAction::RunCommand { cmd, explanation } => if explanation@.len() == 0 {
            "Run: `"@ + cmd@ + "`"@
        } else {
            "Run: `"@ + cmd@ + "`\n"@ + explanation@
        },
        AgentAction::OpenFile { path } => "Open: `"@ + path@ + "`"@,
        AgentAction::ExplainOutput { last_n_lines } => "Explain last "@ + dec_chars(last_n_lines as nat)
            + " terminal lines"@,
    }
}

/// The text of the card that asks to confirm `action`.
pub fn action_card_text(action: &AgentAction) -> (r: String)
    ensures
        r@ == action_card(*action),
{
    match action {
        AgentAction::RunCommand { cmd, explanation } => {
            let mut s = String::from_str("Run: `");
            s.append(cmd.as_str());
            if explanation.as_str().unicode_len() == 0 {
                s.append("`");
            } else {
                s.append("`\n");
                s.append(explanation.as_str());
            }
            s
        },
        AgentAction::OpenFile { path } => {
            let mut s = String::from_str("Open: `");
            s.append(path.as_str());
            s.append("`");
            s
        },
        AgentAction::ExplainOutput { last_n_lines } => {
            let mut s = String::from_str("Explain last ");
            push_decimal(&mut s, *last_n_lines as u64);
            s.append(" terminal lines");
            s
        },
    }
}

} // verus!
