use pty::handler::quoting::current_word_delete_start;
use pty::handler::quoting::current_word_raw_start;
use pty::handler::quoting::shell_escape_for_context;
use pty::model::QuoteState;

#[test]
fn shell_escape_unquoted_escapes_whitespace_and_metacharacters() {
    let out = shell_escape_for_context("My Folder/file.txt", QuoteState::Unquoted);
    assert_eq!(out, r"My\ Folder/file.txt");

    let out = shell_escape_for_context("a$b`c|d", QuoteState::Unquoted);
    assert_eq!(out, r"a\$b\`c\|d");
}

#[test]
fn shell_escape_unquoted_identity_for_safe_chars() {
    let out = shell_escape_for_context("plain_file.txt", QuoteState::Unquoted);
    assert_eq!(out, "plain_file.txt");
}

#[test]
fn shell_escape_unquoted_leading_tilde_is_not_escaped() {
    let out = shell_escape_for_context("~/Documents/file", QuoteState::Unquoted);
    assert_eq!(out, "~/Documents/file");
}

#[test]
fn shell_escape_unquoted_mid_word_tilde_is_escaped() {
    let out = shell_escape_for_context("a~b", QuoteState::Unquoted);
    assert_eq!(out, r"a\~b");
}

#[test]
fn shell_escape_unquoted_escapes_glob_brace_and_hash() {
    let out = shell_escape_for_context("a*b?c[d]e{f}g#i", QuoteState::Unquoted);
    assert_eq!(out, r"a\*b\?c\[d\]e\{f\}g\#i");
}

#[test]
fn shell_escape_empty_input_is_unchanged_for_all_quote_states() {
    assert_eq!(shell_escape_for_context("", QuoteState::Unquoted), "");
    assert_eq!(shell_escape_for_context("", QuoteState::SingleQuoted), "");
    assert_eq!(shell_escape_for_context("", QuoteState::DoubleQuoted), "");
}

#[test]
fn raw_word_start_plain_word() {
    let buf = "cat My";
    assert_eq!(current_word_raw_start(buf, buf.len()), 4);
}

#[test]
fn raw_word_start_includes_backslash_escapes() {
    let buf = r"cd My\ Folder/";
    assert_eq!(current_word_raw_start(buf, buf.len()), 3);
    let start = current_word_raw_start(buf, buf.len());
    assert_eq!(buf[start..].chars().count(), 11);
}

#[test]
fn raw_word_start_includes_opening_single_quote() {
    let buf = "cat 'My Fo";
    assert_eq!(current_word_raw_start(buf, buf.len()), 4);
    let start = current_word_raw_start(buf, buf.len());
    assert_eq!(buf[start..].chars().count(), 6);
}

#[test]
fn raw_word_start_at_word_boundary_is_cursor() {
    let buf = "cat ";
    assert_eq!(current_word_raw_start(buf, buf.len()), buf.len());
}

#[test]
fn shell_escape_single_quoted_leaves_spaces_alone() {
    let out = shell_escape_for_context("My Folder/file.txt", QuoteState::SingleQuoted);
    assert_eq!(out, "My Folder/file.txt");
}

#[test]
fn shell_escape_single_quoted_close_reopens_internal_apostrophe() {
    let out = shell_escape_for_context("don't.txt", QuoteState::SingleQuoted);
    assert_eq!(out, r"don'\''t.txt");
}

#[test]
fn shell_escape_double_quoted_escapes_only_special_quad() {
    let out = shell_escape_for_context(
        "My Folder/$VAR-`cmd`-\"q\"-\\b",
        QuoteState::DoubleQuoted,
    );
    assert_eq!(out, r#"My Folder/\$VAR-\`cmd\`-\"q\"-\\b"#);
}

#[test]
fn delete_start_unquoted_is_raw_word_start() {
    let buf = "cat My";
    let raw = current_word_raw_start(buf, buf.len());
    assert_eq!(raw, 4);
    assert_eq!(
        current_word_delete_start(buf, raw, buf.len(), QuoteState::Unquoted),
        4
    );
}

#[test]
fn delete_start_open_single_quote_skips_opening_quote() {
    let buf = "cat 'My Fo";
    let raw = current_word_raw_start(buf, buf.len());
    assert_eq!(raw, 4);
    let start = current_word_delete_start(buf, raw, buf.len(), QuoteState::SingleQuoted);
    assert_eq!(start, 5);
    assert_eq!(&buf[start..], "My Fo");
}

#[test]
fn delete_start_open_double_quote_skips_opening_quote() {
    let buf = "cd \"My $";
    let raw = current_word_raw_start(buf, buf.len());
    assert_eq!(raw, 3);
    let start = current_word_delete_start(buf, raw, buf.len(), QuoteState::DoubleQuoted);
    assert_eq!(start, 4);
    assert_eq!(&buf[start..], "My $");
}

#[test]
fn delete_start_quote_opens_mid_word_preserves_only_up_to_quote() {
    let buf = "cat foo'My Fo";
    let raw = current_word_raw_start(buf, buf.len());
    assert_eq!(raw, 4);
    let start = current_word_delete_start(buf, raw, buf.len(), QuoteState::SingleQuoted);
    assert_eq!(start, 8);
    assert_eq!(&buf[start..], "My Fo");
}

#[test]
fn raw_word_start_closed_single_quote_then_more_of_word() {
    let buf = "cd 'a'/My";
    let start = current_word_raw_start(buf, buf.len());
    assert_eq!(start, 3);
    assert_eq!(&buf[start..], "'a'/My");
}

#[test]
fn raw_word_start_closed_double_quote_then_new_word() {
    let buf = "cd \"x\" My";
    let start = current_word_raw_start(buf, buf.len());
    assert_eq!(start, 7);
    assert_eq!(&buf[start..], "My");
}

#[test]
fn raw_word_start_backslash_escaped_quote_inside_double_quote() {
    let buf = "cd \"a\\\"b";
    let start = current_word_raw_start(buf, buf.len());
    assert_eq!(start, 3);
    assert_eq!(&buf[start..], "\"a\\\"b");
}

#[test]
fn raw_word_start_multibyte_prefix() {
    let buf = "café My";
    let start = current_word_raw_start(buf, buf.len());
    assert_eq!(start, 6);
    assert_eq!(&buf[start..], "My");
}

#[test]
fn raw_word_start_operator_boundary() {
    let buf = "ls foo|cat ba";
    let start = current_word_raw_start(buf, buf.len());
    assert_eq!(start, 11);
    assert_eq!(&buf[start..], "ba");
}

#[test]
fn raw_word_start_paren_is_not_a_boundary() {
    let buf = "cat (a)b";
    let start = current_word_raw_start(buf, buf.len());
    assert_eq!(start, 4);
    assert_eq!(&buf[start..], "(a)b");
}

#[test]
fn raw_word_start_trailing_backslash_survives() {
    let buf = "cat foo\\";
    let start = current_word_raw_start(buf, buf.len());
    assert_eq!(start, 4);
    assert_eq!(&buf[start..], "foo\\");
}
