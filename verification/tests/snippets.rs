use petruterm_shell::key_map::{Keystroke, Modifiers};
use petruterm_shell::snippets::{is_snippet_tab, track_snippet_key, try_expand_snippet, Snippet};

fn snippet(name: &str, trigger: Option<&str>, body: &str) -> Snippet {
    Snippet { name: name.to_string(), trigger: trigger.map(|t| t.to_string()), body: body.to_string() }
}

fn key(k: &str, modifiers: Modifiers) -> Keystroke {
    Keystroke { modifiers, key: k.to_string(), key_char: None }
}

#[test]
fn no_match_leaves_word_untouched() {
    let snippets = vec![snippet("test", Some("gco"), "git checkout ")];
    let mut word = "xyz".to_string();
    assert_eq!(try_expand_snippet(&snippets, &mut word), None);
    assert_eq!(word, "xyz");
}

#[test]
fn empty_word_never_matches() {
    let snippets = vec![snippet("test", Some(""), "x")];
    let mut word = String::new();
    assert!(word.is_empty());
    assert_eq!(try_expand_snippet(&snippets, &mut word), None);
    assert_eq!(word, "");
}

#[test]
fn match_erases_the_trigger_and_types_the_body() {
    let snippets = vec![
        snippet("palette only", None, "unused"),
        snippet("checkout", Some("gco"), "git checkout "),
        snippet("shadowed", Some("gco"), "never"),
    ];
    let mut word = "gco".to_string();
    let bytes = try_expand_snippet(&snippets, &mut word).unwrap();
    assert_eq!(bytes, b"\x7f\x7f\x7fgit checkout ".to_vec());
    assert_eq!(word, "");
}

#[test]
fn one_delete_per_character_of_the_typed_word() {
    let snippets = vec![snippet("e", Some("é"), "e")];
    let mut word = "é".to_string();
    assert_eq!(try_expand_snippet(&snippets, &mut word), Some(vec![0x7f, b'e']));
}

#[test]
fn tracker_follows_typing() {
    let none = Modifiers::default();
    let mut word = String::new();
    track_snippet_key(&mut word, &key("g", none));
    track_snippet_key(&mut word, &key("c", none));
    track_snippet_key(&mut word, &key("x", none));
    assert_eq!(word, "gcx");
    track_snippet_key(&mut word, &key("backspace", none));
    track_snippet_key(&mut word, &key("o", none));
    assert_eq!(word, "gco");
    track_snippet_key(&mut word, &key("left", none));
    track_snippet_key(&mut word, &key("c", Modifiers { control: true, ..Default::default() }));
    assert_eq!(word, "gco");
    track_snippet_key(&mut word, &key("space", none));
    assert_eq!(word, "");
    track_snippet_key(&mut word, &key("backspace", none));
    assert_eq!(word, "");
}

#[test]
fn only_plain_tab_expands() {
    assert!(is_snippet_tab(&key("tab", Modifiers::default())));
    assert!(is_snippet_tab(&key("tab", Modifiers { alt: true, ..Default::default() })));
    assert!(!is_snippet_tab(&key("tab", Modifiers { shift: true, ..Default::default() })));
    assert!(!is_snippet_tab(&key("tab", Modifiers { control: true, ..Default::default() })));
    assert!(!is_snippet_tab(&key("enter", Modifiers::default())));
}
