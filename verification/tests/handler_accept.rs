use pty::handler::accept::AfterAccept;
use pty::handler::merge::ask_ai_sentinel;
use pty::handler::merge::pin_ask_ai;
use pty::handler::overlay::PopupLayout;
use pty::handler::state::InputHandler;
use pty::handler::state::PopupLimits;
use pty::handler::state::PopupTheme;
use pty::handler::state::ShellKind;
use pty::model::CommandContext;
use pty::model::Geometry;
use pty::model::QuoteState;
use pty::model::Suggestion;
use pty::model::SuggestionKind;
use pty::model::SuggestionSource;
use pty::model::TerminalSnapshot;

fn theme() -> PopupTheme {
    PopupTheme {
        borders: false,
        border_on: Vec::new(),
        show_provider_errors: false,
        index_hints: true,
        key_hints: true,
    }
}

fn make_handler() -> InputHandler {
    let limits = PopupLimits {
        max_visible: 10,
        min_width: 20,
        max_width: 80,
    };
    InputHandler::new(ShellKind::Other, limits, theme()).with_render_block_ms(0)
}

fn popup_layout() -> PopupLayout {
    PopupLayout {
        start_row: 5,
        start_col: 0,
        width: 20,
        height: 1,
        scroll_deficit: 0,
    }
}

/// A visible popup with suggestions and a default layout.
fn make_visible_handler(suggestions: Vec<Suggestion>) -> InputHandler {
    let mut h = make_handler();
    h.popup.suggestions = suggestions;
    h.popup.visible = true;
    h.screen.last_layout = Some(popup_layout());
    h
}

fn numbered_suggestions(count: usize) -> Vec<Suggestion> {
    (0..count)
        .map(|n| command_suggestion(&format!("item-{n}"), None))
        .collect()
}

fn command_suggestion(text: &str, description: Option<&str>) -> Suggestion {
    Suggestion {
        text: text.to_string(),
        description: description.map(str::to_string),
        kind: SuggestionKind::Command,
        source: SuggestionSource::Commands,
        ..Default::default()
    }
}

fn path_suggestion(text: &str, kind: SuggestionKind) -> Suggestion {
    Suggestion {
        text: text.to_string(),
        kind,
        source: SuggestionSource::Filesystem,
        ..Default::default()
    }
}

/// A visible popup with a single, selected suggestion.
fn make_selected_handler(suggestion: Suggestion) -> InputHandler {
    let mut h = make_visible_handler(vec![suggestion]);
    h.popup.overlay.selected = Some(0);
    h
}

/// The completion site of an empty command line.
fn no_context() -> CommandContext {
    CommandContext {
        command: None,
        args: Vec::new(),
        preceding_flag: None,
        word_index: 0,
        current_word: String::new(),
        quote_state: QuoteState::Unquoted,
    }
}

/// A terminal that no command line was reported for.
fn blank_term(screen_rows: u16, screen_cols: u16) -> TerminalSnapshot {
    TerminalSnapshot {
        in_alt_screen: false,
        cpr_synced: false,
        buffer_pending_display: false,
        command_buffer: None,
        buffer_cursor: 0,
        shell_env: None,
        geometry: Geometry {
            cursor_row: 0,
            cursor_col: 0,
            screen_rows,
            screen_cols,
        },
        context: no_context(),
    }
}

/// A terminal with a command line and the cursor at its end.
fn term_with_buffer(buffer: &str) -> TerminalSnapshot {
    TerminalSnapshot {
        command_buffer: Some(buffer.to_string()),
        buffer_cursor: buffer.chars().count(),
        ..blank_term(24, 80)
    }
}

/// A command line whose cursor stands inside of quotes.
fn term_in_quotes(buffer: &str, quote_state: QuoteState) -> TerminalSnapshot {
    let mut term = term_with_buffer(buffer);
    term.context.quote_state = quote_state;
    term
}

fn texts(rows: &[Suggestion]) -> Vec<&str> {
    rows.iter().map(|row| row.text.as_str()).collect()
}

/// How many deletions an accepted suggestion starts with.
fn leading_backspaces(bytes: &[u8]) -> usize {
    bytes.iter().take_while(|&&b| b == 0x7F).count()
}

fn as_text(bytes: &[u8]) -> String {
    String::from_utf8_lossy(bytes).into_owned()
}

#[test]
fn test_accept_suggestion_survives_poisoned_parser_mutex() {
    let handler = make_selected_handler(Suggestion {
        text: "poisoned".to_string(),
        kind: SuggestionKind::Subcommand,
        source: SuggestionSource::Commands,
        ..Default::default()
    });
    let bytes = handler.accept_suggestion(None);
    assert!(
        bytes.is_empty(),
        "accept_suggestion with an unreadable terminal must return empty, got {bytes:?}"
    );
}

#[test]
fn test_accept_with_chaining_survives_poisoned_parser_mutex() {
    let mut handler = make_selected_handler(path_suggestion("Desktop/", SuggestionKind::Directory));
    let (bytes, _) = handler.accept_with_chaining(None);
    assert!(
        bytes.is_empty(),
        "accept_with_chaining with an unreadable terminal must return empty, got {bytes:?}"
    );
}

#[test]
fn ask_ai_forward_bytes_replaces_buffer() {
    let handler = make_handler();
    let term = term_with_buffer("how do I list files");
    let bytes = handler.ask_ai_forward_bytes(Some(&term), "ls -la");
    let mut expected = vec![0x7F; 19];
    expected.extend_from_slice(b"ls -la");
    assert_eq!(bytes, expected);
}

#[test]
fn pin_ask_ai_survives_rerank() {
    let pinned = pin_ask_ai(true, vec![command_suggestion("git status", None)]);
    assert_eq!(pinned[0].kind, SuggestionKind::AskAi);
    let stripped = pin_ask_ai(
        false,
        vec![ask_ai_sentinel(), command_suggestion("git status", None)],
    );
    assert!(!stripped.iter().any(|s| s.kind == SuggestionKind::AskAi));
}

#[test]
fn accept_path_with_spaces_is_shell_escaped() {
    let handler = make_selected_handler(path_suggestion(
        "My Folder/file.txt",
        SuggestionKind::FilePath,
    ));
    let bytes = handler.accept_suggestion(Some(&term_with_buffer("cat My")));
    let s = as_text(&bytes);
    assert!(
        s.contains(r"My\ Folder/file.txt"),
        "unquoted accept must backslash-escape spaces; got bytes={s:?}"
    );
    assert!(
        !s.contains("My Folder/file.txt"),
        "unescaped path must not appear in accept bytes: {s:?}"
    );
}

#[test]
fn accept_path_in_single_quotes_is_not_backslash_escaped() {
    let handler = make_selected_handler(path_suggestion(
        "My Folder/file.txt",
        SuggestionKind::FilePath,
    ));
    let term = term_in_quotes("cat 'My", QuoteState::SingleQuoted);
    let s = as_text(&handler.accept_suggestion(Some(&term)));
    assert!(
        !s.contains(r"\ "),
        "single-quoted accept must NOT backslash-escape spaces; got bytes={s:?}"
    );
    assert!(s.contains("My Folder/file.txt"));
    assert_eq!(
        s,
        format!("{}My Folder/file.txt", "\u{7f}".repeat(2)),
        "single-quoted accept must preserve the opening quote and insert bare text"
    );
}

fn predicted(handler: &mut InputHandler, term: &TerminalSnapshot) -> String {
    match handler.accept_with_chaining(Some(term)).1 {
        AfterAccept::Chain { predicted, .. } => predicted,
        other => panic!("a directory must chain, got {other:?}"),
    }
}

#[test]
fn chaining_uses_escaped_buffer() {
    let mut handler = make_selected_handler(path_suggestion("My Folder/", SuggestionKind::Directory));
    let line = predicted(&mut handler, &term_with_buffer("cd My"));
    assert!(
        line.contains(r"My\ Folder/"),
        "chaining predicted buffer must use escaped path; got {line:?}"
    );
}

#[test]
fn accept_deletes_on_screen_width_of_escaped_word_not_decoded() {
    let handler =
        make_selected_handler(path_suggestion("My Folder/sub/", SuggestionKind::Directory));
    let bytes = handler.accept_suggestion(Some(&term_with_buffer(r"cd My\ Folder/")));
    assert_eq!(
        leading_backspaces(&bytes),
        r"My\ Folder/".chars().count(),
        "must delete the full on-screen (escaped) word width, got {bytes:?}"
    );
}

#[test]
fn accept_deletes_partial_word_inside_open_single_quote_preserves_quote() {
    let handler = make_selected_handler(path_suggestion(
        "My Folder/file.txt",
        SuggestionKind::FilePath,
    ));
    let term = term_in_quotes("cat 'My Fo", QuoteState::SingleQuoted);
    let bytes = handler.accept_suggestion(Some(&term));
    assert_eq!(
        leading_backspaces(&bytes),
        "My Fo".chars().count(),
        "must delete only the in-quote partial word, preserving the opening quote"
    );
    assert_eq!(
        as_text(&bytes),
        format!("{}My Folder/file.txt", "\u{7f}".repeat(5)),
        "resulting accept bytes must keep the opening quote and insert bare text"
    );
}

#[test]
fn double_chain_into_space_dir_deletes_full_escaped_word() {
    let mut handler = make_selected_handler(path_suggestion("My Folder/", SuggestionKind::Directory));
    let line = predicted(&mut handler, &term_with_buffer("cd My"));
    assert!(
        line.contains(r"My\ Folder/"),
        "precondition: chaining must predict escaped buffer; got {line:?}"
    );

    handler.popup.suggestions = vec![path_suggestion("My Folder/sub/", SuggestionKind::Directory)];
    handler.popup.overlay.selected = Some(0);
    let bytes = handler.accept_suggestion(Some(&term_with_buffer(&line)));
    assert_eq!(
        leading_backspaces(&bytes),
        r"My\ Folder/".chars().count(),
        "second accept must delete the full on-screen escaped word; got {bytes:?}"
    );
}

#[test]
fn chaining_inside_open_double_quote_preserves_opening_quote() {
    let mut handler = make_selected_handler(path_suggestion("My Folder/", SuggestionKind::Directory));
    let term = term_in_quotes("cd \"My", QuoteState::DoubleQuoted);
    assert_eq!(
        predicted(&mut handler, &term),
        "cd \"My Folder/",
        "double-quoted chaining predicted buffer must keep the opening quote"
    );
}

#[test]
fn chaining_inside_open_single_quote_preserves_opening_quote() {
    let mut handler = make_selected_handler(path_suggestion("My Folder/", SuggestionKind::Directory));
    let term = term_in_quotes("cd 'My", QuoteState::SingleQuoted);
    assert_eq!(
        predicted(&mut handler, &term),
        "cd 'My Folder/",
        "single-quoted chaining predicted buffer must keep the opening quote"
    );
}

#[test]
fn accept_inside_open_double_quote_escapes_special_quad_only() {
    let handler = make_selected_handler(path_suggestion("My $VAR Dir/", SuggestionKind::Directory));
    let term = term_in_quotes("cd \"My $", QuoteState::DoubleQuoted);
    let s = as_text(&handler.accept_suggestion(Some(&term)));
    assert!(
        s.contains(r"\$VAR"),
        "double-quoted accept must escape `$`; got bytes={s:?}"
    );
    assert!(
        !s.contains(r"\ "),
        "double-quoted accept must leave spaces literal; got bytes={s:?}"
    );
    assert_eq!(
        s,
        format!("{}My \\$VAR Dir/", "\u{7f}".repeat(4)),
        "double-quoted accept must preserve the opening quote and escape only the special quad"
    );
}

#[test]
fn accept_with_multibyte_before_word_counts_char_width_not_bytes() {
    let handler = make_selected_handler(path_suggestion("My Folder/", SuggestionKind::Directory));
    let bytes = handler.accept_suggestion(Some(&term_with_buffer("café My")));
    assert_eq!(
        leading_backspaces(&bytes),
        "My".chars().count(),
        "delete width must be the on-screen char width of the current word; got {bytes:?}"
    );
}

#[test]
fn full_line_provider_accept_deletes_entire_buffer() {
    let handler = make_selected_handler(Suggestion {
        text: "supabase backups".to_string(),
        kind: SuggestionKind::ProviderValue,
        source: SuggestionSource::Provider,
        ..Default::default()
    });
    let bytes = handler.accept_suggestion(Some(&term_with_buffer("supabase ")));
    assert_eq!(
        leading_backspaces(&bytes),
        "supabase ".chars().count(),
        "full-line ProviderValue accept must delete the entire buffer"
    );
    let s = as_text(&bytes);
    assert!(s.contains("supabase backups"));
    assert!(
        !s.contains("supabase supabase"),
        "buffer prefix must not be duplicated, got: {s:?}"
    );
}

#[test]
fn full_line_llm_accept_deletes_entire_buffer() {
    let handler = make_selected_handler(Suggestion {
        text: "git status".to_string(),
        kind: SuggestionKind::Llm,
        source: SuggestionSource::Llm,
        ..Default::default()
    });
    let bytes = handler.accept_suggestion(Some(&term_with_buffer("git st")));
    assert_eq!(
        leading_backspaces(&bytes),
        "git st".chars().count(),
        "full-line Llm accept must delete the entire buffer"
    );
    let s = as_text(&bytes);
    assert!(s.contains("git status"));
    assert!(
        !s.contains("git git"),
        "buffer prefix must not be duplicated, got: {s:?}"
    );
}

#[test]
fn word_level_command_accept_deletes_only_current_word() {
    let handler = make_selected_handler(command_suggestion("status", None));
    let bytes = handler.accept_suggestion(Some(&term_with_buffer("git st")));
    assert_eq!(
        leading_backspaces(&bytes),
        "st".chars().count(),
        "word-level Command accept must delete only the current word"
    );
    assert!(as_text(&bytes).contains("status"));
}

// ---- More of accepting ----

#[test]
fn history_row_replaces_the_line_without_a_space() {
    let mut handler = make_selected_handler(Suggestion {
        text: "git log".to_string(),
        kind: SuggestionKind::History,
        source: SuggestionSource::History,
        ..Default::default()
    });
    let (bytes, after) = handler.accept_with_chaining(Some(&term_with_buffer("git")));
    assert_eq!(bytes, b"\x7f\x7f\x7fgit log");
    assert!(matches!(after, AfterAccept::Clear(_)));
    assert!(!handler.popup.visible);
}

#[test]
fn full_line_row_sets_the_tracked_line() {
    let mut handler = make_selected_handler(Suggestion {
        text: "git status".to_string(),
        kind: SuggestionKind::Llm,
        source: SuggestionSource::Llm,
        ..Default::default()
    })
    .with_shell_kind(ShellKind::Fish);
    let (bytes, _) = handler.accept_with_chaining(Some(&term_with_buffer("git st")));
    assert!(bytes.ends_with(b"git status "));
    assert_eq!(handler.input_model.buffer, "git status ");
    assert_eq!(handler.input_model.cursor, 11);
}

#[test]
fn accepting_in_the_middle_keeps_what_follows() {
    let mut handler = make_selected_handler(path_suggestion("src/", SuggestionKind::Directory));
    let mut term = term_with_buffer("cd s && ls");
    term.buffer_cursor = 4;
    let (bytes, after) = handler.accept_with_chaining(Some(&term));
    assert_eq!(bytes, b"\x7fsrc/");
    match after {
        AfterAccept::Chain { predicted, cursor } => {
            assert_eq!(predicted, "cd src/ && ls");
            assert_eq!(cursor, 7);
        }
        other => panic!("a directory must chain, got {other:?}"),
    }
}

#[test]
fn a_cursor_behind_the_line_counts_as_its_end() {
    let handler = make_selected_handler(command_suggestion("status", None));
    let mut term = term_with_buffer("git st");
    term.buffer_cursor = 99;
    assert_eq!(
        handler.accept_suggestion(Some(&term)),
        b"\x7f\x7fstatus"
    );
}

#[test]
fn a_selection_behind_the_rows_accepts_nothing() {
    let mut handler = make_visible_handler(numbered_suggestions(2));
    handler.popup.overlay.selected = Some(2);
    assert!(handler
        .accept_suggestion(Some(&term_with_buffer("git")))
        .is_empty());
    assert!(!handler.effective_selection_is_ask_ai());
}

#[test]
fn chain_shows_what_was_found() {
    let mut handler = make_selected_handler(path_suggestion("src/", SuggestionKind::Directory));
    handler.accept_with_chaining(Some(&term_with_buffer("cd s")));
    assert_eq!(handler.finish_chain(Some(numbered_suggestions(2))), None);
    assert!(handler.popup.visible);
    assert_eq!(texts(&handler.popup.suggestions), vec!["item-0", "item-1"]);
    assert_eq!(handler.popup.overlay.selected, None);
}

#[test]
fn chain_without_rows_dismisses() {
    let mut handler = make_selected_handler(path_suggestion("src/", SuggestionKind::Directory));
    let teardown = handler.finish_chain(Some(Vec::new())).expect("the popup goes");
    assert_eq!(teardown.popup, Some(popup_layout()));
    assert!(!handler.popup.visible);

    let mut handler = make_selected_handler(path_suggestion("src/", SuggestionKind::Directory));
    assert!(handler.finish_chain(None).is_some());
}

#[test]
fn nothing_replaces_an_unreadable_line() {
    let handler = make_handler();
    assert!(handler.ask_ai_forward_bytes(None, "ls").is_empty());
}

#[test]
fn a_full_line_that_chains_replaces_all_in_front_of_the_cursor() {
    let mut handler = make_selected_handler(Suggestion {
        text: "cd src/".to_string(),
        kind: SuggestionKind::ProviderValue,
        source: SuggestionSource::Provider,
        ..Default::default()
    })
    .with_shell_kind(ShellKind::Fish);
    let mut term = term_with_buffer("cd s && ls");
    term.buffer_cursor = 4;
    let (bytes, after) = handler.accept_with_chaining(Some(&term));
    assert_eq!(bytes, b"\x7f\x7f\x7f\x7fcd src/");
    match after {
        AfterAccept::Chain { predicted, cursor } => {
            assert_eq!(predicted, "cd src/ && ls");
            assert_eq!(cursor, 7);
        }
        other => panic!("a directory must chain, got {other:?}"),
    }
    assert_eq!(handler.input_model.buffer, "cd src/ && ls");
    assert_eq!(handler.input_model.cursor, 7);
}

#[test]
fn an_answer_without_line_ends_is_not_run() {
    let handler = make_selected_handler(command_suggestion("status", None));
    let term = term_with_buffer("list é");
    let bytes = handler.ask_ai_forward_bytes(Some(&term), "ls ʊ č 中");
    assert_eq!(leading_backspaces(&bytes), 6);
    assert!(!bytes.contains(&b'\r') && !bytes.contains(&b'\n'));
}
