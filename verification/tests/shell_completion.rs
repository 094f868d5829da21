use pty::shell_completion::build_full_text;
use pty::shell_completion::merge_completions;
use pty::shell_completion::word_is_complete;
use pty::shell_completion::CompletionLine;

fn line(completion: &str) -> CompletionLine {
    CompletionLine {
        completion: completion.to_string(),
        description: None,
    }
}

#[test]
fn full_text_prepends_buffer_prefix() {
    // Buffer "supabase b", fish returns "backups" → full text is
    // "supabase backups" so acceptance replaces the whole line.
    let (text, indices) = build_full_text("supabase b", "backups");
    assert_eq!(text, "supabase backups");
    // "supabase b" is a prefix of "supabase backups" → 10 matched chars.
    assert_eq!(indices, vec![0, 1, 2, 3, 4, 5, 6, 7, 8, 9]);
}

#[test]
fn full_text_no_space_uses_empty_prefix() {
    // Single-word buffer: no prefix to prepend.
    let (text, indices) = build_full_text("git", "git");
    assert_eq!(text, "git");
    assert_eq!(indices, vec![0, 1, 2]);
}

#[test]
fn full_text_trailing_space_buffer() {
    // Buffer ends with space: prefix is the whole buffer, completion
    // appends after it.
    let (text, indices) = build_full_text("supabase ", "backups");
    assert_eq!(text, "supabase backups");
    // "supabase " (9 chars) is a prefix of "supabase backups".
    assert_eq!(indices, vec![0, 1, 2, 3, 4, 5, 6, 7, 8]);
}

#[test]
fn full_text_multi_word_prefix() {
    let (text, indices) = build_full_text("git remote a", "add");
    assert_eq!(text, "git remote add");
    assert_eq!(indices, vec![0, 1, 2, 3, 4, 5, 6, 7, 8, 9, 10, 11]);
}

#[test]
fn full_text_completion_replaces_word() {
    // Fish returns the full word replacement, not just the suffix.
    let (text, _) = build_full_text("docker comp", "compose");
    assert_eq!(text, "docker compose");
}

#[test]
fn merge_expanded_rows_carry_completed_word() {
    // Base query "supabase" → ["supabase"] (self-match, uninteresting).
    // Expanded query "supabase " → ["backups", "db", "storage"].
    // Expanded rows are built against "supabase " so their full_text
    // includes the command.
    let base = vec![line("supabase")];
    let expanded = vec![line("backups"), line("db"), line("storage")];
    let out = merge_completions("supabase", "supabase ", &base, &expanded, 10);
    let texts: Vec<&str> = out.iter().map(|s| s.text.as_str()).collect();
    assert_eq!(
        texts,
        vec![
            "supabase",
            "supabase backups",
            "supabase db",
            "supabase storage"
        ]
    );
    // Expanded rows must have match_indices covering "supabase " (9 chars)
    // so the accept path replaces the whole typed buffer.
    assert_eq!(out[1].match_indices, vec![0, 1, 2, 3, 4, 5, 6, 7, 8]);
}

#[test]
fn merge_deduplicates_by_full_text() {
    // Base and expanded both produce "supabase backups" → only once.
    let base = vec![line("backups")];
    let expanded = vec![line("backups"), line("db")];
    // Both built against the same buffer shape for this test.
    let out = merge_completions("supabase ", "supabase ", &base, &expanded, 10);
    let texts: Vec<&str> = out.iter().map(|s| s.text.as_str()).collect();
    assert_eq!(texts, vec!["supabase backups", "supabase db"]);
}

#[test]
fn merge_caps_at_max_results() {
    let base = vec![line("a"), line("b")];
    let expanded = vec![line("c"), line("d"), line("e")];
    let out = merge_completions("x", "x ", &base, &expanded, 3);
    assert_eq!(out.len(), 3);
}

#[test]
fn word_complete_on_empty_result() {
    assert!(word_is_complete(&[], "supabase"));
}

#[test]
fn word_complete_on_exact_self_match() {
    assert!(word_is_complete(&[line("supabase")], "supabase"));
}

#[test]
fn word_not_complete_on_partial_match() {
    assert!(!word_is_complete(&[line("supabase-cli")], "supabase"));
}

#[test]
fn word_not_complete_on_multiple_matches() {
    assert!(!word_is_complete(&[line("git"), line("gitk")], "git"));
}
