//! The chat panel's slash commands: splitting `/command args`, telling
//! the commands apart, and the replies that depend only on their input.

use vstd::prelude::*;
use vstd::string::StringExecFns;
use crate::strs::{chars_of, str_eq, string_of};

verus! {

/// Whether `c` is white space in the Unicode sense (`char::is_whitespace`).
pub open spec fn is_ws(c: char) -> bool {
    let u = c as u32;
    (0x09 <= u && u <= 0x0D) || u == 0x20 || u == 0x85 || u == 0xA0 || u == 0x1680 || (0x2000 <= u && u
        <= 0x200A) || u == 0x2028 || u == 0x2029 || u == 0x202F || u == 0x205F || u == 0x3000
}

pub fn is_ws_char(c: char) -> (r: bool)
    ensures
        r == is_ws(c),
{
    let u = c as u32;
    (0x09 <= u && u <= 0x0D) || u == 0x20 || u == 0x85 || u == 0xA0 || u == 0x1680 || (0x2000 <= u && u
        <= 0x200A) || u == 0x2028 || u == 0x2029 || u == 0x202F || u == 0x205F || u == 0x3000
}

/// How many leading characters of `s` satisfy `p`.
pub open spec fn lead_count(s: Seq<char>, p: spec_fn(char) -> bool) -> nat
    decreases s.len(),
{
    if s.len() == 0 || !p(s[0]) {
        0
    } else {
        1 + lead_count(s.drop_first(), p)
    }
}

/// How many trailing characters of `s` satisfy `p`.
pub open spec fn trail_count(s: Seq<char>, p: spec_fn(char) -> bool) -> nat
    decreases s.len(),
{
    if s.len() == 0 || !p(s.last()) {
        0
    } else {
        1 + trail_count(s.drop_last(), p)
    }
}

/// `s` without leading and trailing white space.
pub open spec fn trim_spec(s: Seq<char>) -> Seq<char> {
    let t = s.skip(lead_count(s, |c: char| is_ws(c)) as int);
    t.take(t.len() - trail_count(t, |c: char| is_ws(c)))
}

/// Index of the first `c` in `s`, or `None`.
pub open spec fn first_index(s: Seq<char>, c: char) -> Option<int>
    decreases s.len(),
{
    if s.len() == 0 {
        None
    } else if s[0] == c {
        Some(0)
    } else {
        match first_index(s.drop_first(), c) {
            Some(i) => Some(i + 1),
            None => None,
        }
    }
}

/// `/command args`: leading slashes dropped, the command is what precedes
/// the first space, the arguments what follows it, trimmed.
pub open spec fn split_command(input: Seq<char>) -> (Seq<char>, Seq<char>) {
    let t = input.skip(lead_count(input, |c: char| c == '/') as int);
    match first_index(t, ' ') {
        Some(i) => (t.take(i), trim_spec(t.skip(i + 1))),
        None => (t, Seq::empty()),
    }
}

/// `lead_count` is the length of the leading run of characters that
/// satisfy `p`.
pub proof fn lemma_lead_count_char(s: Seq<char>, p: spec_fn(char) -> bool, k: int)
    requires
        0 <= k <= s.len(),
        forall|i: int| 0 <= i < k ==> p(#[trigger] s[i]),
        k < s.len() ==> !p(s[k]),
    ensures
        lead_count(s, p) == k,
    decreases s.len(),
{
    if k > 0 {
        assert forall|i: int| 0 <= i < k - 1 implies p(#[trigger] s.drop_first()[i]) by {
            assert(s.drop_first()[i] == s[i + 1]);
        }
        if k < s.len() {
            assert(s.drop_first()[k - 1] == s[k]);
        }
        lemma_lead_count_char(s.drop_first(), p, k - 1);
    }
}

/// `trail_count` is the length of the trailing run of characters that
/// satisfy `p`.
pub proof fn lemma_trail_count_char(s: Seq<char>, p: spec_fn(char) -> bool, k: int)
    requires
        0 <= k <= s.len(),
        forall|i: int| s.len() - k <= i < s.len() ==> p(#[trigger] s[i]),
        k < s.len() ==> !p(s[s.len() - 1 - k]),
    ensures
        trail_count(s, p) == k,
    decreases s.len(),
{
    if k > 0 {
        let d = s.drop_last();
        assert forall|i: int| d.len() - (k - 1) <= i < d.len() implies p(#[trigger] d[i]) by {
            assert(d[i] == s[i]);
        }
        if k < s.len() {
            assert(d[d.len() - 1 - (k - 1)] == s[s.len() - 1 - k]);
        }
        lemma_trail_count_char(d, p, k - 1);
    }
}

proof fn lemma_first_index(s: Seq<char>, c: char, k: int)
    requires
        0 <= k <= s.len(),
        forall|i: int| 0 <= i < k ==> #[trigger] s[i] != c,
    ensures
        k < s.len() && s[k] == c ==> first_index(s, c) == Some(k),
        k == s.len() ==> first_index(s, c) is None,
    decreases s.len(),
{
    if k > 0 {
        assert forall|i: int| 0 <= i < k - 1 implies #[trigger] s.drop_first()[i] != c by {
            assert(s.drop_first()[i] == s[i + 1]);
        }
        if k < s.len() {
            assert(s.drop_first()[k - 1] == s[k]);
        }
        lemma_first_index(s.drop_first(), c, k - 1);
    }
}

/// `s` without leading and trailing white space.
pub fn trim(s: &str) -> (r: String)
    ensures
        r@ == trim_spec(s@),
{
    let v = chars_of(s);
    let n = v.len();
    let mut a: usize = 0;
    while a < n && is_ws_char(v[a])
        invariant
            a <= n,
            n == v@.len(),
            forall|i: int| 0 <= i < a ==> is_ws(#[trigger] v@[i]),
        decreases n - a,
    {
        a = a + 1;
    }
    let mut b: usize = n;
    while b > a && is_ws_char(v[b - 1])
        invariant
            a <= b <= n,
            n == v@.len(),
            forall|i: int| b <= i < n ==> is_ws(#[trigger] v@[i]),
        decreases b,
    {
        b = b - 1;
    }
    proof {
        let p = |c: char| is_ws(c);
        lemma_lead_count_char(v@, p, a as int);
        let t = v@.skip(a as int);
        assert forall|i: int| t.len() - (n - b) <= i < t.len() implies p(#[trigger] t[i]) by {
            assert(t[i] == v@[a + i]);
        }
        if n - b < t.len() {
            assert(t[t.len() - 1 - (n - b)] == v@[b - 1]);
        }
        lemma_trail_count_char(t, p, (n - b) as int);
        assert(t.take(t.len() - (n - b)) =~= v@.subrange(a as int, b as int));
    }
    string_of(&v, a, b)
}

/// Split a slash-command line into the command and its arguments.
pub fn parse_slash_command(input: &str) -> (r: (String, String))
    ensures
        (r.0@, r.1@) == split_command(input@),
{
    let v = chars_of(input);
    let n = v.len();
    let mut a: usize = 0;
    while a < n && v[a] == '/'
        invariant
            a <= n,
            n == v@.len(),
            forall|i: int| 0 <= i < a ==> #[trigger] v@[i] == '/',
        decreases n - a,
    {
        a = a + 1;
    }
    proof {
        lemma_lead_count_char(v@, |c: char| c == '/', a as int);
    }
    let ghost t = v@.skip(a as int);
    let mut k: usize = a;
    while k < n && v[k] != ' '
        invariant
            a <= k <= n,
            n == v@.len(),
            t == v@.skip(a as int),
            forall|i: int| 0 <= i < k - a ==> #[trigger] t[i] != ' ',
        decreases n - k,
    {
        k = k + 1;
    }
    proof {
        lemma_first_index(t, ' ', (k - a) as int);
    }
    if k < n {
        let cmd = string_of(&v, a, k);
        let rest = string_of(&v, k + 1, n);
        let args = trim(rest.as_str());
        proof {
            assert(t.take((k - a) as int) =~= v@.subrange(a as int, k as int));
            assert(t.skip((k - a) + 1) =~= v@.subrange(k + 1, n as int));
        }
        (cmd, args)
    } else {
        let cmd = string_of(&v, a, n);
        proof {
            assert(t =~= v@.subrange(a as int, n as int));
        }
        (cmd, String::new())
    }
}

/// The slash commands the chat panel knows.
#[derive(Debug, Clone, Copy, PartialEq, Eq, Structural)]
pub enum SlashCommand {
    Quit,
    Clear,
    Skills,
    Mcp,
    Model,
    Agent,
    Unknown,
}

pub open spec fn command_named(cmd: Seq<char>) -> SlashCommand {
    if cmd == "q"@ || cmd == "quit"@ {
        SlashCommand::Quit
    } else if cmd == "clear"@ || cmd == "reset"@ {
        SlashCommand::Clear
    } else if cmd == "skills"@ {
        SlashCommand::Skills
    } else if cmd == "mcp"@ {
        SlashCommand::Mcp
    } else if cmd == "model"@ {
        SlashCommand::Model
    } else if cmd == "agent"@ {
        SlashCommand::Agent
    } else {
        SlashCommand::Unknown
    }
}

/// The characters of the command names, which tell any two apart.
proof fn lemma_command_name_chars()
    ensures
        "q"@.len() == 1 && "q"@[0] == 'q',
        "quit"@.len() == 4 && "quit"@[0] == 'q' && "quit"@[1] == 'u',
        "clear"@.len() == 5 && "clear"@[0] == 'c' && "clear"@[1] == 'l',
        "reset"@.len() == 5 && "reset"@[0] == 'r' && "reset"@[1] == 'e',
        "skills"@.len() == 6 && "skills"@[0] == 's' && "skills"@[1] == 'k',
        "mcp"@.len() == 3 && "mcp"@[0] == 'm' && "mcp"@[1] == 'c',
        "model"@.len() == 5 && "model"@[0] == 'm' && "model"@[1] == 'o',
        "agent"@.len() == 5 && "agent"@[0] == 'a' && "agent"@[1] == 'g',
{
    reveal_strlit("q");
    assert("q"@.len() == 1 && "q"@[0] == 'q');
    reveal_strlit("quit");
    assert("quit"@.len() == 4 && "quit"@[0] == 'q' && "quit"@[1] == 'u');
    reveal_strlit("clear");
    assert("clear"@.len() == 5 && "clear"@[0] == 'c' && "clear"@[1] == 'l');
    reveal_strlit("reset");
    assert("reset"@.len() == 5 && "reset"@[0] == 'r' && "reset"@[1] == 'e');
    reveal_strlit("skills");
    assert("skills"@.len() == 6 && "skills"@[0] == 's' && "skills"@[1] == 'k');
    reveal_strlit("mcp");
    assert("mcp"@.len() == 3 && "mcp"@[0] == 'm' && "mcp"@[1] == 'c');
    reveal_strlit("model");
    assert("model"@.len() == 5 && "model"@[0] == 'm' && "model"@[1] == 'o');
    reveal_strlit("agent");
    assert("agent"@.len() == 5 && "agent"@[0] == 'a' && "agent"@[1] == 'g');
}

/// `/q` and `/quit` quit, `/clear` and `/reset` clear the conversation,
/// `/skills`, `/mcp`, `/model` and `/agent` name their commands; the two
/// spellings of quitting and of clearing mean the same, and any other word
/// is unknown.
pub proof fn lemma_command_names(cmd: Seq<char>)
    ensures
        command_named("q"@) == SlashCommand::Quit,
        command_named("quit"@) == SlashCommand::Quit,
        command_named("clear"@) == SlashCommand::Clear,
        command_named("reset"@) == SlashCommand::Clear,
        command_named("skills"@) == SlashCommand::Skills,
        command_named("mcp"@) == SlashCommand::Mcp,
        command_named("model"@) == SlashCommand::Model,
        command_named("agent"@) == SlashCommand::Agent,
        cmd != "q"@ && cmd != "quit"@ && cmd != "clear"@ && cmd != "reset"@ && cmd != "skills"@ && cmd
            != "mcp"@ && cmd != "model"@ && cmd != "agent"@ ==> command_named(cmd) == SlashCommand::Unknown,
{
    lemma_command_name_chars();
}

/// Which command `cmd` names.
pub fn classify_command(cmd: &str) -> (r: SlashCommand)
    ensures
        r == command_named(cmd@),
{
    if str_eq(cmd, "q") || str_eq(cmd, "quit") {
        SlashCommand::Quit
    } else if str_eq(cmd, "clear") || str_eq(cmd, "reset") {
        SlashCommand::Clear
    } else if str_eq(cmd, "skills") {
        SlashCommand::Skills
    } else if str_eq(cmd, "mcp") {
        SlashCommand::Mcp
    } else if str_eq(cmd, "model") {
        SlashCommand::Model
    } else if str_eq(cmd, "agent") {
        SlashCommand::Agent
    } else {
        SlashCommand::Unknown
    }
}

/// The reply to a command the panel does not know.
pub fn unknown_command_reply(cmd: &str) -> (r: String)
    ensures
        r@ == "Unknown command: /"@ + cmd@ + ". Try /clear, /skills, /mcp, /model, /agent or /quit."@,
{
    let mut s = String::from_str("Unknown command: /");
    s.append(cmd);
    s.append(". Try /clear, /skills, /mcp, /model, /agent or /quit.");
    s
}

/// Whether `p` occurs in `s` as a run of consecutive characters.
pub open spec fn contains_seq(s: Seq<char>, p: Seq<char>) -> bool {
    exists|i: int| 0 <= i && i + p.len() <= s.len() && #[trigger] s.subrange(i, i + p.len()) == p
}

fn occurs_at(s: &Vec<char>, p: &Vec<char>, i: usize) -> (r: bool)
    requires
        i + p@.len() <= s@.len(),
    ensures
        r == (s@.subrange(i as int, i + p@.len()) == p@),
{
    let mut j: usize = 0;
    let sl = s.len();
    while j < p.len()
        invariant
            j <= p@.len(),
            sl == s@.len(),
            i + p@.len() <= s@.len(),
            forall|t: int| 0 <= t < j ==> s@[i + t] == p@[t],
        decreases p@.len() - j,
    {
        if s[i + j] != p[j] {
            assert(s@.subrange(i as int, i + p@.len())[j as int] != p@[j as int]);
            return false;
        }
        j = j + 1;
    }
    assert(s@.subrange(i as int, i + p@.len()) =~= p@);
    true
}

/// Whether `p` occurs in `s` (`str::contains`).
fn contains_chars(s: &Vec<char>, p: &Vec<char>) -> (r: bool)
    ensures
        r == contains_seq(s@, p@),
{
    if p.len() > s.len() {
        return false;
    }
    let mut i: usize = 0;
    let last = s.len() - p.len();
    loop
        invariant
            last == s@.len() - p@.len(),
            p@.len() <= s@.len(),
            i <= last,
            forall|t: int| 0 <= t < i ==> #[trigger] s@.subrange(t, t + p@.len()) != p@,
        decreases last - i,
    {
        if occurs_at(s, p, i) {
            return true;
        }
        if i == last {
            return false;
        }
        i = i + 1;
    }
}

/// A loaded skill, as the chat panel lists it.
#[derive(Debug, Clone)]
pub struct SkillInfo {
    pub name: String,
    pub description: String,
}

/// Whether `/skills args` lists a skill: every skill without arguments,
/// else those whose name or description contains the arguments.
pub open spec fn skill_listed(sk: SkillInfo, args: Seq<char>) -> bool {
    args.len() == 0 || contains_seq(sk.name@, args) || contains_seq(sk.description@, args)
}

pub open spec fn skill_entry(sk: SkillInfo) -> Seq<char> {
    "## "@ + sk.name@ + "\n"@ + sk.description@
}

/// The entries of the listed skills, in order.
pub open spec fn listed_entries(skills: Seq<SkillInfo>, args: Seq<char>) -> Seq<Seq<char>>
    decreases skills.len(),
{
    if skills.len() == 0 {
        Seq::empty()
    } else {
        let prev = listed_entries(skills.drop_last(), args);
        if skill_listed(skills.last(), args) {
            prev.push(skill_entry(skills.last()))
        } else {
            prev
        }
    }
}

/// The lines joined by line breaks.
pub open spec fn join_lines(lines: Seq<Seq<char>>) -> Seq<char>
    decreases lines.len(),
{
    if lines.len() == 0 {
        Seq::empty()
    } else if lines.len() == 1 {
        lines[0]
    } else {
        join_lines(lines.drop_last()) + "\n"@ + lines.last()
    }
}

pub open spec fn skills_reply_spec(skills: Seq<SkillInfo>, args: Seq<char>) -> Seq<char> {
    if skills.len() == 0 {
        "No skills loaded. Place SKILL.md files in ~/.config/petruterm/skills/<name>/"@
    } else if listed_entries(skills, args).len() == 0 {
        "No skills matching '"@ + args + "'"@
    } else {
        "# Skills\n"@ + join_lines(listed_entries(skills, args))
    }
}

/// The reply to `/skills args`.
pub fn skills_reply(skills: &[SkillInfo], args: &str) -> (r: String)
    ensures
        r@ == skills_reply_spec(skills@, args@),
{
    if skills.len() == 0 {
        return String::from_str("No skills loaded. Place SKILL.md files in ~/.config/petruterm/skills/<name>/");
    }
    let pat = chars_of(args);
    let mut body = String::new();
    let mut count: usize = 0;
    let mut i: usize = 0;
    assert(skills@.take(0) =~= Seq::<SkillInfo>::empty());
    while i < skills.len()
        invariant
            i <= skills@.len(),
            pat@ == args@,
            count == listed_entries(skills@.take(i as int), args@).len(),
            count <= i,
            body@ == join_lines(listed_entries(skills@.take(i as int), args@)),
        decreases skills@.len() - i,
    {
        let sk = &skills[i];
        let listed = args.is_empty() || contains_chars(&chars_of(sk.name.as_str()), &pat) || contains_chars(
            &chars_of(sk.description.as_str()),
            &pat,
        );
        let ghost prev = listed_entries(skills@.take(i as int), args@);
        proof {
            assert(skills@.take(i + 1).drop_last() =~= skills@.take(i as int));
            assert(skills@.take(i + 1).last() == skills@[i as int]);
        }
        if listed {
            if count > 0 {
                body.append("\n");
            }
            body.append("## ");
            body.append(sk.name.as_str());
            body.append("\n");
            body.append(sk.description.as_str());
            count = count + 1;
            proof {
                let next = prev.push(skill_entry(skills@[i as int]));
                assert(next.drop_last() =~= prev);
                assert(body@ =~= join_lines(next));
            }
        }
        i = i + 1;
    }
    assert(skills@.take(skills@.len() as int) =~= skills@);
    if count == 0 {
        let mut s = String::from_str("No skills matching '");
        s.append(args);
        s.append("'");
        s
    } else {
        let mut s = String::from_str("# Skills\n");
        s.append(body.as_str());
        s
    }
}

/// What Enter in the chat composer does with its text.
#[derive(Debug, Clone, PartialEq, Eq)]
pub enum ComposerSubmit {
    /// Nothing: a request is in flight or failed, or the text is blank.
    Ignore,
    /// Run this slash command line.
    Command(String),
    /// Send this question.
    Ask(String),
}

/// Enter in the chat composer holding `content`: only while the panel is
/// idle, and only for non-blank text, which (trimmed) is a slash command
/// when it starts with `/` and a question otherwise.
pub fn composer_submit(idle: bool, content: &str) -> (r: ComposerSubmit)
    ensures
        !idle || trim_spec(content@).len() == 0 ==> r matches ComposerSubmit::Ignore,
        idle && trim_spec(content@).len() > 0 && trim_spec(content@)[0] == '/' ==> (r matches ComposerSubmit::Command(
            c,
        ) && c@ == trim_spec(content@)),
        idle && trim_spec(content@).len() > 0 && trim_spec(content@)[0] != '/' ==> (r matches ComposerSubmit::Ask(q)
            && q@ == trim_spec(content@)),
{
    if !idle {
        return ComposerSubmit::Ignore;
    }
    let t = trim(content);
    let v = chars_of(t.as_str());
    if v.len() == 0 {
        ComposerSubmit::Ignore
    } else if v[0] == '/' {
        ComposerSubmit::Command(t)
    } else {
        ComposerSubmit::Ask(t)
    }
}

} // verus!
