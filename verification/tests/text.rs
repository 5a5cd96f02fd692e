use petruterm_shell::text::{acp_command_line, char_range_to_byte_range, committed_name, heading_size, shell_quote, short_model_name};

#[test]
fn shell_quote_wraps_plain_tokens_in_single_quotes() {
    assert_eq!(shell_quote("echo"), "'echo'");
}

#[test]
fn shell_quote_escapes_embedded_single_quotes() {
    assert_eq!(shell_quote("it's"), "'it'\\''s'");
}

#[test]
fn shell_quote_neutralizes_shell_metacharacters() {
    assert_eq!(shell_quote("a; rm -rf /"), "'a; rm -rf /'");
    assert_eq!(shell_quote("$(whoami)"), "'$(whoami)'");
}

#[test]
fn shell_quote_of_empty_and_unicode_tokens() {
    assert_eq!(shell_quote(""), "''");
    assert_eq!(shell_quote("héllo wörld"), "'héllo wörld'");
    assert_eq!(shell_quote("''"), "''\\'''\\'''");
}

#[test]
fn acp_command_line_quotes_every_word_and_ends_with_return() {
    let args = vec!["-la".to_string(), "my dir".to_string()];
    assert_eq!(acp_command_line("ls", &args), "'ls' '-la' 'my dir'\r");
    assert_eq!(acp_command_line("pwd", &[]), "'pwd'\r");
}

#[test]
fn char_range_maps_to_byte_range() {
    assert_eq!(char_range_to_byte_range("hello", 1, 3), Some((1, 3)));
    // 'é' takes two bytes.
    assert_eq!(char_range_to_byte_range("héllo", 1, 3), Some((1, 4)));
    assert_eq!(char_range_to_byte_range("héllo", 2, 5), Some((3, 6)));
    // An end at or past the last character runs to the end of the string.
    assert_eq!(char_range_to_byte_range("héllo", 2, 50), Some((3, 6)));
}

#[test]
fn degenerate_char_ranges_are_none() {
    assert_eq!(char_range_to_byte_range("hello", 3, 3), None);
    assert_eq!(char_range_to_byte_range("hello", 4, 2), None);
    assert_eq!(char_range_to_byte_range("hello", 5, 9), None);
    assert_eq!(char_range_to_byte_range("", 0, 1), None);
}

#[test]
fn short_model_name_strips_provider_and_tag() {
    assert_eq!(short_model_name("openrouter/meta/llama-3:free"), "free");
    assert_eq!(short_model_name("mistral/codestral-large"), "codestral-large");
    assert_eq!(short_model_name("llama3"), "llama3");
    assert_eq!(short_model_name("qwen2.5-coder:7b"), "7b");
    assert_eq!(short_model_name("trailing/"), "");
}

#[test]
fn heading_sizes_by_level() {
    assert_eq!(heading_size(1), 20);
    assert_eq!(heading_size(2), 17);
    assert_eq!(heading_size(3), 15);
    assert_eq!(heading_size(0), 15);
}

#[test]
fn committed_name_trims_and_drops_blank_names() {
    assert_eq!(committed_name("  build  "), Some("build".to_string()));
    assert_eq!(committed_name(" \t "), None);
    assert_eq!(committed_name(""), None);
}
