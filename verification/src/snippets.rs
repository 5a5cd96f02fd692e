//! Tab-triggered snippet expansion: a tracker of the word typed since the
//! last word break, and the lookup that turns a trigger word into the
//! bytes that erase it and type the snippet's body.

use vstd::prelude::*;
use vstd::string::{StringExecFns, StringSliceAdditionalSpecFns, StrSliceExecFns};
use vstd::utf8::encode_utf8;
use crate::key_map::Keystroke;
use crate::strs::{single_char, str_eq};

verus! {

/// One configured snippet.
#[derive(Debug, Clone)]
pub struct Snippet {
    pub name: String,
    /// The word that expands to `body` on Tab; `None` for a snippet only
    /// reachable from the command palette.
    pub trigger: Option<String>,
    pub body: String,
}

/// Remove the last character of `s`, if any (std's `String::pop`).
#[verifier::external_body]
fn pop_char(s: &mut String)
    ensures
        final(s)@ == (if old(s)@.len() > 0 { old(s)@.drop_last() } else { old(s)@ }),
{
    s.pop();
}

pub open spec fn triggers_on(s: Snippet, word: Seq<char>) -> bool {
    s.trigger matches Some(t) && t@ == word
}

/// `n` DEL bytes.
pub open spec fn deletes(n: nat) -> Seq<u8> {
    Seq::new(n, |_i: int| 0x7fu8)
}

/// Whether a key press asks for snippet expansion: Tab without Shift or
/// Ctrl.
pub fn is_snippet_tab(ks: &Keystroke) -> (r: bool)
    ensures
        r == (ks.key@ == "tab"@ && !ks.modifiers.shift && !ks.modifiers.control),
{
    str_eq(ks.key.as_str(), "tab") && !ks.modifiers.shift && !ks.modifiers.control
}

/// Look `word` up among the snippets' triggers. On a match (the first
/// snippet whose trigger is exactly `word`), clear `word` and return the
/// bytes to write to the terminal: one DEL (a backspace) per character of
/// the typed word, erasing it, then the snippet's body. An empty word
/// matches nothing; without a match `word` is left as it is.
pub fn try_expand_snippet(snippets: &[Snippet], word: &mut String) -> (r: Option<Vec<u8>>)
    ensures
        old(word)@.len() == 0 ==> r is None && final(word)@ == old(word)@,
        old(word)@.len() > 0 && (forall|i: int| 0 <= i < snippets@.len() ==> !triggers_on(#[trigger] snippets@[i], old(word)@))
            ==> r is None && final(word)@ == old(word)@,
        r is None ==> final(word)@ == old(word)@ && (old(word)@.len() == 0 || forall|i: int|
            0 <= i < snippets@.len() ==> !triggers_on(#[trigger] snippets@[i], old(word)@)),
        r matches Some(bytes) ==> {
            &&& old(word)@.len() > 0
            &&& final(word)@ == Seq::<char>::empty()
            &&& exists|k: int| {
                &&& 0 <= k < snippets@.len()
                &&& triggers_on(#[trigger] snippets@[k], old(word)@)
                &&& (forall|j: int| 0 <= j < k ==> !triggers_on(#[trigger] snippets@[j], old(word)@))
                &&& bytes@ == deletes(old(word)@.len()) + encode_utf8(snippets@[k].body@)
            }
        },
{
    if word.as_str().is_empty() {
        return None;
    }
    let mut k: usize = 0;
    while k < snippets.len()
        invariant
            k <= snippets@.len(),
            word@ == old(word)@,
            word@.len() > 0,
            forall|j: int| 0 <= j < k ==> !triggers_on(#[trigger] snippets@[j], word@),
        decreases snippets@.len() - k,
    {
        let hit = match &snippets[k].trigger {
            Some(t) => str_eq(t.as_str(), word.as_str()),
            None => false,
        };
        if hit {
            let n = word.as_str().unicode_len();
            let mut out: Vec<u8> = Vec::new();
            let mut i: usize = 0;
            while i < n
                invariant
                    i <= n,
                    out@ == deletes(i as nat),
                decreases n - i,
            {
                out.push(0x7fu8);
                i = i + 1;
                assert(out@ =~= deletes(i as nat));
            }
            let mut body = snippets[k].body.as_str().as_bytes_vec();
            let ghost w = word@;
            out.append(&mut body);
            *word = String::new();
            proof {
                assert(triggers_on(snippets@[k as int], w));
            }
            return Some(out);
        }
        k = k + 1;
    }
    None
}

/// Keep `word` in step with what the shell's line editor shows after a key
/// that reached the terminal: Backspace drops the last character; Space,
/// Enter and Escape end the word; a key that names a single character
/// appends it. Nothing changes while Cmd or Ctrl is held, or for any other
/// key.
pub fn track_snippet_key(word: &mut String, ks: &Keystroke)
    ensures
        ({
            let k = ks.key@;
            if ks.modifiers.platform || ks.modifiers.control {
                final(word)@ == old(word)@
            } else if k == "backspace"@ {
                final(word)@ == (if old(word)@.len() > 0 { old(word)@.drop_last() } else { old(word)@ })
            } else if k == "space"@ || k == "enter"@ || k == "escape"@ {
                final(word)@ == Seq::<char>::empty()
            } else if k.len() == 1 {
                final(word)@ == old(word)@ + k
            } else {
                final(word)@ == old(word)@
            }
        }),
{
    if ks.modifiers.platform || ks.modifiers.control {
        return;
    }
    let key = ks.key.as_str();
    if str_eq(key, "backspace") {
        pop_char(word);
    } else if str_eq(key, "space") || str_eq(key, "enter") || str_eq(key, "escape") {
        *word = String::new();
    } else if single_char(key).is_some() {
        word.append(key);
    }
}

} // verus!
