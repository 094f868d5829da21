use pty::dynamic_result::DynamicResult;
use pty::dynamic_result::ProviderTag;
use pty::feedback::AsyncFeedback;
use pty::handler::dynamic::BlockWait;
use pty::handler::dynamic::MergeFreshness;
use pty::handler::dynamic::MergeStep;
use pty::handler::fingerprint::buffer_fingerprint;
use pty::handler::merge::merge_dedup_against;
use pty::handler::overlay::PopupLayout;
use pty::handler::rank::RankKey;
use pty::handler::rank::rank_rows;
use pty::handler::site::DynamicCtxSnapshot;
use pty::handler::state::DescriptionBoxMode;
use pty::handler::state::DetailDebounceState;
use pty::handler::state::InputHandler;
use pty::handler::state::MatchMode;
use pty::handler::state::PopupLimits;
use pty::handler::state::PopupTheme;
use pty::handler::state::ProviderSlot;
use pty::handler::state::ShellKind;
use pty::handler::trigger::Repaint;
use pty::handler::trigger::Reranked;
use pty::handler::trigger::TriggerPrepared;
use pty::handler::trigger::TriggerStart;
use pty::model::CommandContext;
use pty::model::Geometry;
use pty::model::QuoteState;
use pty::model::Suggestion;
use pty::model::SuggestionKind;
use pty::model::SuggestionSource;
use pty::model::TerminalSnapshot;
use pty::shell_completion::current_word;

fn theme() -> PopupTheme {
    PopupTheme {
        borders: false,
        border_on: Vec::new(),
        show_provider_errors: false,
        index_hints: true,
        key_hints: true,
    }
}

fn make_handler() -> InputHandler {
    let limits = PopupLimits {
        max_visible: 10,
        min_width: 20,
        max_width: 80,
    };
    InputHandler::new(ShellKind::Other, limits, theme()).with_render_block_ms(0)
}

fn popup_layout() -> PopupLayout {
    PopupLayout {
        start_row: 5,
        start_col: 0,
        width: 20,
        height: 1,
        scroll_deficit: 0,
    }
}

/// A visible popup with suggestions and a default layout.
fn make_visible_handler(suggestions: Vec<Suggestion>) -> InputHandler {
    let mut h = make_handler();
    h.popup.suggestions = suggestions;
    h.popup.visible = true;
    h.screen.last_layout = Some(popup_layout());
    h
}

fn numbered_suggestions(count: usize) -> Vec<Suggestion> {
    (0..count)
        .map(|n| command_suggestion(&format!("item-{n}"), None))
        .collect()
}

fn command_suggestion(text: &str, description: Option<&str>) -> Suggestion {
    Suggestion {
        text: text.to_string(),
        description: description.map(str::to_string),
        kind: SuggestionKind::Command,
        source: SuggestionSource::Commands,
        ..Default::default()
    }
}

fn provider_suggestion(text: &str) -> Suggestion {
    Suggestion {
        text: text.to_string(),
        kind: SuggestionKind::Subcommand,
        source: SuggestionSource::Provider,
        ..Default::default()
    }
}

fn path_suggestion(text: &str, kind: SuggestionKind) -> Suggestion {
    Suggestion {
        text: text.to_string(),
        kind,
        source: SuggestionSource::Filesystem,
        ..Default::default()
    }
}

fn loaded(provider: &str, suggestions: Vec<Suggestion>) -> DynamicResult {
    DynamicResult::Loaded {
        provider: ProviderTag::Async(provider.into()),
        suggestions,
    }
}

fn empty_result(provider: &str) -> DynamicResult {
    DynamicResult::Empty {
        provider: ProviderTag::Async(provider.into()),
    }
}

fn failed(provider: &str, message: &str) -> DynamicResult {
    DynamicResult::Error {
        provider: ProviderTag::Async(provider.into()),
        message: message.into(),
    }
}

/// The completion site of an empty command line.
fn no_context() -> CommandContext {
    CommandContext {
        command: None,
        args: Vec::new(),
        preceding_flag: None,
        word_index: 0,
        current_word: String::new(),
        quote_state: QuoteState::Unquoted,
    }
}

fn ctx(
    cmd: &str,
    args: &[&str],
    preceding_flag: Option<&str>,
    word_index: usize,
    current_word: &str,
) -> CommandContext {
    CommandContext {
        command: Some(cmd.to_string()),
        args: args.iter().map(|s| s.to_string()).collect(),
        preceding_flag: preceding_flag.map(|s| s.to_string()),
        word_index,
        current_word: current_word.to_string(),
        quote_state: QuoteState::Unquoted,
    }
}

/// A terminal that no command line was reported for.
fn blank_term(screen_rows: u16, screen_cols: u16) -> TerminalSnapshot {
    TerminalSnapshot {
        in_alt_screen: false,
        cpr_synced: false,
        buffer_pending_display: false,
        command_buffer: None,
        buffer_cursor: 0,
        shell_env: None,
        geometry: Geometry {
            cursor_row: 0,
            cursor_col: 0,
            screen_rows,
            screen_cols,
        },
        context: no_context(),
    }
}

/// A terminal with a command line and the cursor at its end.
fn term_with_buffer(buffer: &str) -> TerminalSnapshot {
    TerminalSnapshot {
        command_buffer: Some(buffer.to_string()),
        buffer_cursor: buffer.chars().count(),
        ..blank_term(24, 80)
    }
}

/// Ranks that leave the order to the texts.
fn equal_keys(count: usize) -> Vec<RankKey> {
    (0..count)
        .map(|_| RankKey {
            source: 0,
            priority: 0,
        })
        .collect()
}

/// Ranks in the default order of sources.
fn source_keys(rows: &[Suggestion]) -> Vec<RankKey> {
    rows.iter()
        .map(|row| RankKey {
            source: match row.source {
                SuggestionSource::Commands => 0,
                SuggestionSource::Provider => 1,
                SuggestionSource::Filesystem => 2,
                SuggestionSource::History => 3,
                _ => 4,
            },
            priority: 0,
        })
        .collect()
}

/// Takes results in and shows what comes of them, ranked for an empty word. Returns
/// whether the popup has changed, and whether it is painted.
fn merge(
    handler: &mut InputHandler,
    messages: Vec<DynamicResult>,
    disconnected: bool,
    term: &TerminalSnapshot,
    now: u64,
) -> (bool, bool) {
    match handler.try_merge_dynamic(messages, disconnected, Some(term), now) {
        MergeStep::Done { updated, render } => (updated, render),
        MergeStep::Merge { pool, word } => {
            assert_eq!(word, "");
            let keys = source_keys(&pool);
            match handler.rerank_live(&word, pool, &keys) {
                Reranked::Ranked(rows) => {
                    let repaint = handler.finish_merge(rows, disconnected);
                    (true, repaint != Repaint::Nothing)
                }
                Reranked::Match { .. } => panic!("an empty word is not matched"),
            }
        }
    }
}

fn texts(rows: &[Suggestion]) -> Vec<&str> {
    rows.iter().map(|row| row.text.as_str()).collect()
}

/// Runs a trigger to its end. The engine has found these rows, the cache none; the
/// providers are started.
fn trigger_and_show(
    handler: &mut InputHandler,
    term: &TerminalSnapshot,
    found: Vec<Suggestion>,
    now: u64,
) -> Repaint {
    match handler.trigger(Some(term)) {
        TriggerStart::Skip => Repaint::Nothing,
        TriggerStart::Clear(teardown) => Repaint::Clear(teardown),
        TriggerStart::Compute { fingerprint, .. } => {
            let starts = handler.providers_to_start(false).len();
            let pool = handler.sync_pool(Some(found), Vec::new());
            handler.finish_trigger(pool, &term.context, fingerprint, starts, now)
        }
    }
}

const NOW: u64 = 1_000_000;

#[test]
fn test_try_merge_dynamic_empty_query_sorts_branches_before_history_and_files() {
    let mut handler = make_visible_handler(vec![
        path_suggestion("Makefile", SuggestionKind::FilePath),
        Suggestion {
            text: "git checkout demo".to_string(),
            kind: SuggestionKind::History,
            source: SuggestionSource::History,
            ..Default::default()
        },
    ]);
    handler.prime_dynamic_ctx_for_buffer(&no_context());
    handler.work.dynamic_rx = true;

    let (merged, _) = merge(
        &mut handler,
        vec![loaded(
            "git branches",
            vec![provider_suggestion("main"), provider_suggestion("v1.0")],
        )],
        true,
        &blank_term(24, 80),
        NOW,
    );

    assert!(merged, "merge should have happened");
    let kinds: Vec<SuggestionKind> = handler.popup.suggestions.iter().map(|s| s.kind).collect();
    assert_eq!(
        kinds,
        vec![
            SuggestionKind::Subcommand,
            SuggestionKind::Subcommand,
            SuggestionKind::FilePath,
            SuggestionKind::History,
        ],
        "branches and tags must land above files and history on empty query: {:?}",
        handler.popup.suggestions,
    );
}

#[test]
fn test_try_merge_dynamic_empty_query_stable_tiebreak_by_text() {
    let mut handler =
        make_visible_handler(vec![path_suggestion("Makefile", SuggestionKind::FilePath)]);
    handler.prime_dynamic_ctx_for_buffer(&no_context());
    handler.work.dynamic_rx = true;

    let (merged, _) = merge(
        &mut handler,
        vec![loaded(
            "git branches",
            vec![provider_suggestion("zeta"), provider_suggestion("alpha")],
        )],
        true,
        &blank_term(24, 80),
        NOW,
    );

    assert!(merged, "merge should have happened");
    let ordered: Vec<(SuggestionKind, String)> = handler
        .popup
        .suggestions
        .iter()
        .map(|s| (s.kind, s.text.clone()))
        .collect();
    assert_eq!(
        ordered,
        vec![
            (SuggestionKind::Subcommand, "alpha".to_string()),
            (SuggestionKind::Subcommand, "zeta".to_string()),
            (SuggestionKind::FilePath, "Makefile".to_string()),
        ],
        "same-priority subcommands must tiebreak alphabetically and both land above files"
    );
}

#[test]
fn test_try_merge_dynamic_keeps_open_receiver_for_later_batches() {
    let mut handler = make_visible_handler(Vec::new());
    handler.prime_dynamic_ctx_for_buffer(&no_context());
    handler.spawned_generation = handler.buffer_generation;
    handler.work.dynamic_rx = true;
    let term = blank_term(24, 80);

    let first = vec![loaded("git branches", vec![provider_suggestion("main")])];
    assert!(merge(&mut handler, first, false, &term, NOW).0);
    assert!(
        handler.work.dynamic_rx,
        "open receiver must stay installed for later dynamic batches"
    );
    assert!(
        handler.work.dynamic_ctx.is_some(),
        "fresh context must survive until the dynamic channel disconnects"
    );

    let second = vec![loaded("git tags", vec![provider_suggestion("v1.0")])];
    assert!(merge(&mut handler, second, true, &term, NOW).0);
    assert_eq!(texts(&handler.popup.suggestions), vec!["main", "v1.0"]);
    assert!(
        !handler.work.dynamic_rx,
        "receiver should clear after the final disconnected batch"
    );
    assert!(
        handler.work.dynamic_ctx.is_none(),
        "context should clear after the final disconnected batch"
    );
}

#[test]
fn test_try_merge_dynamic_disconnected_rerenders_to_clear_loading() {
    let mut handler = make_visible_handler(vec![command_suggestion("static", None)]);
    handler.work.dynamic_rx = true;

    let (_, painted) = merge(&mut handler, Vec::new(), true, &blank_term(24, 80), NOW);

    assert!(
        !handler.work.dynamic_rx,
        "dynamic_rx must be cleared on Disconnected"
    );
    assert!(
        painted,
        "Disconnected path must re-render so the loading indicator clears"
    );
}

#[test]
fn test_trigger_survives_poisoned_parser_mutex() {
    let mut handler = make_visible_handler(vec![command_suggestion("poisoned", None)]);
    assert_eq!(handler.trigger(None), TriggerStart::Skip);
    assert!(handler.popup.visible);
}

#[test]
fn test_trigger_idempotent_when_buffer_unchanged() {
    let mut handler = make_visible_handler(vec![command_suggestion("prior-static", None)]);
    let buffer = "xyzbogus";
    let cursor = buffer.chars().count();
    let term = term_with_buffer(buffer);
    handler.last_trigger_fingerprint = Some(buffer_fingerprint(buffer, cursor, None));

    assert_eq!(
        handler.trigger(Some(&term)),
        TriggerStart::Skip,
        "idempotent re-trigger must not compute anything"
    );
    assert!(
        handler.popup.visible,
        "popup must remain visible after idempotent re-trigger"
    );
    assert_eq!(
        handler.popup.suggestions.len(),
        1,
        "prior static suggestion must survive idempotent re-trigger"
    );

    assert_eq!(handler.trigger(Some(&term)), TriggerStart::Skip);
    assert!(
        handler.popup.visible,
        "popup must remain visible after second idempotent re-trigger"
    );
}

#[test]
fn test_trigger_suppressed_while_alt_screen_active() {
    let mut handler = make_visible_handler(vec![command_suggestion("prior", None)]);
    let mut term = blank_term(24, 80);
    term.in_alt_screen = true;

    assert_eq!(handler.trigger(Some(&term)), TriggerStart::Skip);
    assert!(
        handler.popup.visible,
        "popup must stay untouched while a TUI owns the alt screen"
    );
}

#[test]
fn test_trigger_active_after_alt_screen_exit() {
    let mut handler = make_visible_handler(vec![command_suggestion("prior", None)]);
    let term = blank_term(24, 80);
    assert!(!term.in_alt_screen);
    assert!(matches!(
        handler.trigger(Some(&term)),
        TriggerStart::Clear(_)
    ));
    assert!(
        !handler.popup.visible,
        "trigger() must act once the alt screen is gone"
    );
}

#[test]
fn trigger_recomputes_when_shell_env_changes_for_same_buffer() {
    let mut handler = make_handler();
    let mut term = term_with_buffer("echo $AWS");
    term.shell_env = Some(vec![("AWS_REGION".to_string(), "us-east-1".to_string())]);
    trigger_and_show(
        &mut handler,
        &term,
        vec![command_suggestion("$AWS_REGION", None)],
        NOW,
    );
    assert!(handler
        .popup
        .suggestions
        .iter()
        .any(|s| s.text == "$AWS_REGION"));

    term.shell_env = Some(vec![(
        "AWS_PROFILE".to_string(),
        "loftyworks-pay-dev".to_string(),
    )]);
    trigger_and_show(
        &mut handler,
        &term,
        vec![command_suggestion("$AWS_PROFILE", None)],
        NOW,
    );

    assert!(
        handler
            .popup
            .suggestions
            .iter()
            .any(|s| s.text == "$AWS_PROFILE"),
        "same-buffer re-trigger must observe updated shell env"
    );
    assert!(
        handler
            .popup
            .suggestions
            .iter()
            .all(|s| s.text != "$AWS_REGION"),
        "updated shell env should replace prior snapshot"
    );
}

#[test]
fn rerank_live_empty_buffer_sorts_by_priority() {
    let handler = make_handler();
    let rows = vec![
        command_suggestion("zebra", None),
        command_suggestion("alpha", None),
    ];
    match handler.rerank_live("", rows, &equal_keys(2)) {
        Reranked::Ranked(ranked) => {
            assert_eq!(ranked.len(), 2, "empty buffer keeps every candidate");
            assert_eq!(
                ranked[0].text, "alpha",
                "equal-priority candidates fall back to alphabetical order"
            );
        }
        other => panic!("an empty word is not matched, got {other:?}"),
    }
}

#[test]
fn a_typed_word_is_matched_under_the_mode() {
    for mode in [MatchMode::Fuzzy, MatchMode::Substring] {
        let handler = make_handler().with_match_mode(mode);
        match handler.rerank_live("cl", numbered_suggestions(2), &Vec::new()) {
            Reranked::Match {
                pool,
                limit,
                mode: matched,
            } => {
                assert_eq!(texts(&pool), vec!["item-0", "item-1"]);
                assert_eq!(limit, 50);
                assert_eq!(matched, mode);
            }
            other => panic!("a word is matched, got {other:?}"),
        }
    }
}

#[test]
fn ranks_come_before_texts() {
    let rows = vec![
        command_suggestion("a", None),
        command_suggestion("b", None),
        command_suggestion("c", None),
        command_suggestion("d", None),
    ];
    let key = |source: i64, priority: i64| RankKey { source, priority };
    let keys = vec![key(1, 5), key(0, 1), key(0, 9), key(0, 1)];
    assert_eq!(texts(&rank_rows(&rows, &keys)), vec!["c", "b", "d", "a"]);
}

#[test]
fn test_trigger_keeps_visible_popup_when_sync_empty_and_async_pending() {
    let mut handler = make_visible_handler(numbered_suggestions(3))
        .with_async_provider(ProviderSlot { backfill: false });
    trigger_and_show(&mut handler, &term_with_buffer("git -"), Vec::new(), NOW);
    assert!(
        handler.popup.visible,
        "popup must stay open while async providers are pending"
    );
    assert!(handler.feedback_kind().is_loading());
}

#[test]
fn test_cache_hit_fires_llm_but_skips_backfill_provider() {
    let handler = make_visible_handler(numbered_suggestions(3))
        .with_async_provider(ProviderSlot { backfill: false })
        .with_async_provider(ProviderSlot { backfill: true });
    let started = handler.providers_to_start(true);
    assert!(
        started.contains(&0),
        "LLM provider must fire on a cache hit"
    );
    assert!(
        !started.contains(&1),
        "backfill (fish) provider must NOT fire on a cache hit"
    );
}

#[test]
fn cache_miss_starts_backfill_providers_last() {
    let handler = make_handler()
        .with_async_provider(ProviderSlot { backfill: true })
        .with_async_provider(ProviderSlot { backfill: false })
        .with_async_provider(ProviderSlot { backfill: true });
    assert_eq!(handler.providers_to_start(false), vec![1, 0, 2]);
    assert_eq!(
        handler.partition_async_providers(),
        (vec![1], vec![0, 2])
    );
}

#[test]
fn test_trigger_dismisses_visible_popup_when_empty_no_async_no_askai() {
    let mut handler = make_visible_handler(numbered_suggestions(3));
    trigger_and_show(&mut handler, &term_with_buffer("git -"), Vec::new(), NOW);
    assert!(
        !handler.popup.visible,
        "popup must close when sync is empty, no async pending, and Ask AI is off"
    );
}

#[test]
fn test_trigger_keeps_visible_popup_when_empty_but_askai_active() {
    let mut handler =
        make_visible_handler(numbered_suggestions(3)).with_ask_ai_provider(true);
    trigger_and_show(&mut handler, &term_with_buffer("git -"), Vec::new(), NOW);
    assert!(
        handler.popup.visible,
        "popup must stay open when Ask AI sentinel is pinned"
    );
}

#[test]
fn ask_ai_sentinel_pinned_when_active() {
    let mut handler = make_handler().with_ask_ai_provider(true);
    trigger_and_show(
        &mut handler,
        &term_with_buffer("git "),
        numbered_suggestions(2),
        NOW,
    );
    assert!(
        handler
            .popup
            .suggestions
            .first()
            .is_some_and(|s| s.kind == SuggestionKind::AskAi),
        "sentinel must be pinned at index 0, got {:?}",
        texts(&handler.popup.suggestions)
    );
    assert_eq!(handler.popup.suggestions.len(), 3);
}

#[test]
fn ask_ai_absent_when_inactive() {
    let mut handler = make_handler();
    trigger_and_show(
        &mut handler,
        &term_with_buffer("git "),
        numbered_suggestions(2),
        NOW,
    );
    assert!(
        !handler
            .popup
            .suggestions
            .iter()
            .any(|s| s.kind == SuggestionKind::AskAi),
        "no AskAi sentinel when provider is None"
    );
}

#[test]
fn test_trigger_aborts_in_flight_generators() {
    let mut handler = make_handler();
    handler.work.dynamic_rx = true;
    handler.prime_dynamic_ctx_for_buffer(&ctx("old-cmd", &[], None, 0, ""));
    handler.seed_dynamic_task_noop();

    match handler.trigger(Some(&term_with_buffer("git "))) {
        TriggerStart::Compute { abort_task, .. } => assert!(abort_task),
        other => panic!("a new line is computed, got {other:?}"),
    }
    if let Some(snapshot) = &handler.work.dynamic_ctx {
        assert_ne!(
            snapshot.command.as_deref(),
            Some("old-cmd"),
            "trigger() must clear or replace stale dynamic_ctx"
        );
    }
    assert!(!handler.has_dynamic_task());
}

#[test]
fn test_apply_block_result_replacement_resets_detail_debounce_state() {
    let mut handler = make_handler().with_description_box(DescriptionBoxMode::Side, 60, 5, 200);
    handler.popup.visible = true;
    handler.popup.detail_debounce = DetailDebounceState {
        displayed_idx: Some(1),
        last_change_at: Some(NOW),
        pending: true,
    };
    let site = || ctx("git", &["checkout"], None, 2, "main");
    handler.prime_dynamic_ctx_for_buffer(&site());
    let mut term = term_with_buffer("git checkout main");
    term.context = site();

    let step = handler.apply_block_result(
        BlockWait::Received {
            messages: vec![loaded(
                "git branches",
                vec![command_suggestion(
                    "main",
                    Some("MAINDETAIL alpha beta gamma delta epsilon zeta eta theta"),
                )],
            )],
            disconnected: false,
        },
        Vec::new(),
        Some(&term),
        (0, 0, u64::MAX),
        NOW,
    );
    match step {
        MergeStep::Merge { pool, word } => {
            assert_eq!(word, "main");
            handler.finish_block_merge(pool, false, (0, 0, u64::MAX));
        }
        other => panic!("fresh rows are merged, got {other:?}"),
    }

    assert_eq!(handler.popup.detail_debounce.displayed_idx, None);
    assert_eq!(handler.popup.detail_debounce.last_change_at, None);
    assert!(
        !handler.popup.detail_debounce.pending,
        "replacing the result set must not keep an old detail redraw timer armed"
    );
    assert_eq!(texts(&handler.popup.suggestions), vec!["main"]);
    assert_eq!(handler.last_trigger_fingerprint(), Some((0, 0, u64::MAX)));
}

#[test]
fn dynamic_ctx_identical_context_is_not_stale() {
    let base = ctx("git", &["checkout"], None, 2, "");
    let snap = DynamicCtxSnapshot::capture(&base);
    assert!(
        !snap.is_stale_against(&base),
        "identical context must not be stale"
    );
}

#[test]
fn dynamic_ctx_different_command_is_stale() {
    let base = ctx("git", &["checkout"], None, 2, "");
    let snap = DynamicCtxSnapshot::capture(&base);
    let changed = ctx("docker", &["checkout"], None, 2, "");
    assert!(
        snap.is_stale_against(&changed),
        "different command must be stale"
    );
}

#[test]
fn dynamic_ctx_different_args_is_stale() {
    let base = ctx("git", &["checkout"], None, 2, "");
    let snap = DynamicCtxSnapshot::capture(&base);
    let changed = ctx("git", &["branch"], None, 2, "");
    assert!(
        snap.is_stale_against(&changed),
        "different args must be stale"
    );
}

#[test]
fn dynamic_ctx_different_preceding_flag_is_stale() {
    let base = ctx("git", &["checkout"], None, 2, "");
    let snap = DynamicCtxSnapshot::capture(&base);
    let changed = ctx("git", &["checkout"], Some("-b"), 2, "");
    assert!(
        snap.is_stale_against(&changed),
        "different preceding_flag must be stale"
    );
}

#[test]
fn dynamic_ctx_different_word_index_is_stale() {
    let base = ctx("git", &["checkout"], None, 2, "");
    let snap = DynamicCtxSnapshot::capture(&base);
    let changed = ctx("git", &["checkout"], None, 3, "");
    assert!(
        snap.is_stale_against(&changed),
        "different word_index must be stale"
    );
}

#[test]
fn dynamic_ctx_prefix_extension_not_stale() {
    let base = ctx("git", &["checkout"], None, 2, "ma");
    let snap = DynamicCtxSnapshot::capture(&base);
    let extended = ctx("git", &["checkout"], None, 2, "main");
    assert!(
        !snap.is_stale_against(&extended),
        "prefix extension must not be stale"
    );
}

#[test]
fn merge_dedup_against_drops_text_duplicates_from_existing_pool() {
    let existing = vec![command_suggestion("main", None)];
    let incoming = vec![
        command_suggestion("main", None),
        command_suggestion("dev", None),
    ];
    let kept = merge_dedup_against(&existing, incoming);
    assert_eq!(kept.len(), 1);
    assert_eq!(kept[0].text, "dev");
}

#[test]
fn merge_dedup_against_drops_duplicates_within_same_batch() {
    let incoming = vec![
        command_suggestion("main", None),
        command_suggestion("main", None),
        command_suggestion("dev", None),
    ];
    let kept = merge_dedup_against(&Vec::new(), incoming);
    assert_eq!(texts(&kept), vec!["main", "dev"]);
}

fn static_flag() -> Suggestion {
    Suggestion {
        text: "--flag".into(),
        kind: SuggestionKind::Flag,
        source: SuggestionSource::Commands,
        ..Default::default()
    }
}

#[test]
fn test_pending_failed_accumulates_across_two_try_merge_dynamic_calls() {
    let mut handler = make_visible_handler(vec![static_flag()]);
    handler.prime_dynamic_ctx_for_buffer(&no_context());
    handler.work.feedback = AsyncFeedback::Loading { spawned_at: NOW };
    handler.work.dynamic_rx = true;
    let term = blank_term(24, 80);

    merge(&mut handler, vec![failed("npm", "oops")], false, &term, NOW);
    assert_eq!(handler.work.pending_failed.len(), 1);
    assert!(handler.work.feedback.is_loading());

    let batch = vec![loaded("git branches", vec![provider_suggestion("main")])];
    merge(&mut handler, batch, true, &term, NOW);
    match handler.feedback_kind() {
        AsyncFeedback::PartialError { failed, .. } => {
            assert_eq!(failed.len(), 1, "batch-1 error must survive batch-2");
        }
        other => panic!("expected PartialError feedback, got {other:?}"),
    }
}

#[test]
fn test_pending_empty_count_accumulates_across_two_try_merge_dynamic_calls() {
    let mut handler = make_visible_handler(vec![static_flag()]);
    handler.prime_dynamic_ctx_for_buffer(&no_context());
    handler.work.feedback = AsyncFeedback::Loading { spawned_at: NOW };
    handler.work.dynamic_rx = true;
    let term = blank_term(24, 80);

    merge(&mut handler, vec![empty_result("npm")], false, &term, NOW);
    assert_eq!(handler.work.pending_empty_count, 1);
    assert!(handler.work.feedback.is_loading());

    let batch = vec![loaded("git branches", vec![provider_suggestion("main")])];
    merge(&mut handler, batch, true, &term, NOW);
    assert_eq!(
        handler.work.pending_empty_count, 0,
        "drained on disconnect"
    );
    assert_eq!(
        handler.work.pending_failed.len(),
        0,
        "no errors accumulated"
    );
}

#[test]
fn test_try_merge_dynamic_error_only_disconnect_yields_error() {
    let mut handler = make_visible_handler(Vec::new());
    handler.prime_dynamic_ctx_for_buffer(&no_context());
    handler.work.dynamic_rx = true;
    let batch = vec![failed("git branches", "boom")];
    merge(&mut handler, batch, true, &blank_term(24, 80), NOW);
    match handler.feedback_kind() {
        AsyncFeedback::Error { failed, .. } => {
            assert_eq!(failed.len(), 1, "single failed provider expected");
        }
        other => panic!("expected Error feedback, got {other:?}"),
    }
}

#[test]
fn test_try_merge_dynamic_partial_error_with_static_present() {
    let mut handler = make_visible_handler(vec![static_flag()]);
    handler.prime_dynamic_ctx_for_buffer(&no_context());
    handler.work.dynamic_rx = true;
    let batch = vec![
        loaded("git branches", vec![provider_suggestion("main")]),
        failed("npm", "oops"),
    ];
    merge(&mut handler, batch, true, &blank_term(24, 80), NOW);
    match handler.feedback_kind() {
        AsyncFeedback::PartialError { failed, .. } => assert_eq!(failed.len(), 1),
        other => panic!("expected PartialError feedback, got {other:?}"),
    }
}

#[test]
fn test_try_merge_dynamic_empty_only_with_no_static_yields_empty() {
    let mut handler = make_visible_handler(Vec::new());
    handler.prime_dynamic_ctx_for_buffer(&no_context());
    handler.work.dynamic_rx = true;
    let batch = vec![empty_result("git branches")];
    merge(&mut handler, batch, true, &blank_term(24, 80), NOW);
    assert!(matches!(
        handler.feedback_kind(),
        AsyncFeedback::Empty { .. }
    ));
}

// ---- More of merging ----

#[test]
fn rows_of_another_line_are_dropped() {
    let mut handler = make_visible_handler(vec![static_flag()]);
    handler.prime_dynamic_ctx_for_buffer(&ctx("git", &[], None, 1, ""));
    handler.work.dynamic_rx = true;
    handler.work.dynamic_task = true;
    let mut term = term_with_buffer("docker ");
    term.context = ctx("docker", &[], None, 1, "");
    let batch = vec![loaded("git branches", vec![provider_suggestion("main")])];
    assert_eq!(merge(&mut handler, batch, false, &term, NOW), (false, true));
    assert_eq!(texts(&handler.popup.suggestions), vec!["--flag"]);
    assert!(!handler.has_dynamic_rx());
    assert!(!handler.has_dynamic_task());
}

#[test]
fn rows_of_an_earlier_trigger_are_dropped() {
    let mut handler = make_visible_handler(vec![static_flag()]);
    handler.prime_dynamic_ctx_for_buffer(&no_context());
    handler.work.dynamic_rx = true;
    handler.set_buffer_generation(5);
    handler.set_spawned_generation(4);
    let batch = vec![loaded("git branches", vec![provider_suggestion("main")])];
    let term = blank_term(24, 80);
    assert_eq!(merge(&mut handler, batch, false, &term, NOW), (false, true));
    assert_eq!(texts(&handler.popup.suggestions), vec!["--flag"]);
}

#[test]
fn freshness_is_told_apart() {
    let mut handler = make_handler();
    let mut term = term_with_buffer("git ma");
    term.context = ctx("git", &[], None, 1, "ma");
    assert!(matches!(
        handler.check_merge_staleness(Some(&term)),
        MergeFreshness::Stale
    ));
    handler.prime_dynamic_ctx_for_buffer(&ctx("git", &[], None, 1, "m"));
    match handler.check_merge_staleness(Some(&term)) {
        MergeFreshness::Fresh {
            current_word,
            buffer,
        } => {
            assert_eq!(current_word, "ma");
            assert_eq!(buffer, "git ma");
        }
        other => panic!("the site is the same, got {other:?}"),
    }
    assert!(matches!(
        handler.check_merge_staleness(None),
        MergeFreshness::PoisonedLock
    ));
    assert!(handler.work.dynamic_ctx.is_none());
}

#[test]
fn nothing_is_taken_in_without_a_channel() {
    let mut handler = make_visible_handler(vec![static_flag()]);
    let batch = vec![loaded("git branches", vec![provider_suggestion("main")])];
    let term = blank_term(24, 80);
    assert_eq!(merge(&mut handler, batch, true, &term, NOW), (false, false));
    assert_eq!(texts(&handler.popup.suggestions), vec!["--flag"]);
}

#[test]
fn a_hidden_popup_opens_for_merged_rows() {
    let mut handler = make_handler();
    handler.prime_dynamic_ctx_for_buffer(&no_context());
    handler.work.dynamic_rx = true;
    let batch = vec![loaded("git branches", vec![provider_suggestion("main")])];
    assert_eq!(
        merge(&mut handler, batch, false, &blank_term(24, 80), NOW),
        (true, true)
    );
    assert!(handler.popup.visible);
}

#[test]
fn merge_without_rows_left_dismisses() {
    let mut handler = make_visible_handler(vec![static_flag()]);
    match handler.finish_merge(Vec::new(), false) {
        Repaint::Clear(teardown) => assert_eq!(teardown.popup, Some(popup_layout())),
        other => panic!("the popup goes, got {other:?}"),
    }
    assert!(!handler.popup.visible);
}

#[test]
fn timed_out_wait_keeps_the_channel() {
    let mut handler = make_visible_handler(vec![static_flag()]);
    let step = handler.apply_block_result(
        BlockWait::TimedOut,
        vec![static_flag()],
        Some(&blank_term(24, 80)),
        (1, 2, 3),
        NOW,
    );
    assert!(matches!(
        step,
        MergeStep::Done {
            updated: false,
            render: false
        }
    ));
    assert!(handler.has_dynamic_rx());
    assert_eq!(handler.last_trigger_fingerprint(), Some((1, 2, 3)));
}

#[test]
fn waited_for_results_without_rows_are_told_of() {
    let mut handler = make_handler();
    let step = handler.apply_block_result(
        BlockWait::Received {
            messages: vec![failed("npm", "oops")],
            disconnected: true,
        },
        vec![static_flag()],
        Some(&blank_term(24, 80)),
        (1, 2, 3),
        NOW,
    );
    assert!(matches!(step, MergeStep::Done { render: true, .. }));
    assert!(matches!(
        handler.feedback_kind(),
        AsyncFeedback::PartialError { .. }
    ));
}

#[test]
fn waiting_trigger_hands_the_channel_out() {
    let mut handler = make_handler()
        .with_render_block_ms(80)
        .with_async_provider(ProviderSlot { backfill: false });
    let mut term = term_with_buffer("git ma");
    term.context = ctx("git", &[], None, 1, "ma");
    let fingerprint = match handler.trigger(Some(&term)) {
        TriggerStart::Compute { fingerprint, .. } => fingerprint,
        other => panic!("a new line is computed, got {other:?}"),
    };
    let prepared =
        handler.prepare_trigger_with_block(numbered_suggestions(1), &term, fingerprint, 1, NOW);
    match prepared {
        TriggerPrepared::NeedsBlock {
            repaint,
            sync_suggestions,
            block_ms,
            geometry,
            fingerprint: stamp,
            current_word,
        } => {
            assert_eq!(repaint, Repaint::Render);
            assert_eq!(texts(&sync_suggestions), vec!["item-0"]);
            assert_eq!(block_ms, 80);
            assert_eq!(geometry, term.geometry);
            assert_eq!(stamp, fingerprint);
            assert_eq!(current_word, "ma");
        }
        other => panic!("providers are waited for, got {other:?}"),
    }
    assert!(!handler.has_dynamic_rx());
    assert!(handler.has_dynamic_task());
    assert!(handler.feedback_kind().is_loading());
}

#[test]
fn trigger_that_does_not_wait_paints_at_once() {
    let mut handler = make_handler().with_async_provider(ProviderSlot { backfill: false });
    let term = term_with_buffer("git ");
    let fingerprint = match handler.trigger(Some(&term)) {
        TriggerStart::Compute { fingerprint, .. } => fingerprint,
        other => panic!("a new line is computed, got {other:?}"),
    };
    let prepared =
        handler.prepare_trigger_with_block(numbered_suggestions(1), &term, fingerprint, 1, NOW);
    assert!(matches!(
        prepared,
        TriggerPrepared::Painted(Repaint::Render)
    ));
    assert!(handler.has_dynamic_rx());
    assert_eq!(handler.last_trigger_fingerprint(), Some(fingerprint));
    assert_eq!(handler.trigger(Some(&term)), TriggerStart::Skip);
}

#[test]
fn cached_rows_follow_those_of_the_engine() {
    let handler = make_handler().with_ask_ai_provider(true);
    let pool = handler.sync_pool(
        Some(vec![command_suggestion("add", None)]),
        vec![
            command_suggestion("add", None),
            command_suggestion("commit", None),
        ],
    );
    assert_eq!(pool[0].text, "add");
    assert_eq!(pool[1].kind, SuggestionKind::AskAi);
    assert_eq!(pool[2].text, "commit");
    assert_eq!(pool.len(), 3);
    let failed_engine = handler.sync_pool(None, vec![command_suggestion("commit", None)]);
    assert_eq!(texts(&failed_engine), vec!["commit"]);
}

#[test]
fn a_reported_cursor_drops_the_deficit() {
    let mut handler = make_handler();
    handler.screen.overlay_scroll_deficit = 3;
    let mut term = blank_term(24, 80);
    term.cpr_synced = true;
    assert_eq!(handler.trigger(Some(&term)), TriggerStart::Skip);
    assert_eq!(handler.screen.overlay_scroll_deficit, 0);
}

#[test]
fn fingerprints_tell_lines_cursors_and_environments_apart() {
    let env = vec![("A".to_string(), "1".to_string())];
    let base = buffer_fingerprint("git", 3, None);
    assert_eq!(base, buffer_fingerprint("git", 3, None));
    assert_ne!(base, buffer_fingerprint("gix", 3, None));
    assert_ne!(base, buffer_fingerprint("git", 2, None));
    assert_ne!(base, buffer_fingerprint("git", 3, Some(&env)));
}
