use pty::feedback::AsyncFeedback;
use pty::handler::dispatch::Navigation;
use pty::handler::dispatch::NextStep;
use pty::handler::overlay::DetailLayout;
use pty::handler::overlay::DetailPosition;
use pty::handler::overlay::PopupLayout;
use pty::handler::render::DetailFit;
use pty::handler::screen::OverlayWriteTicket;
use pty::handler::state::DescriptionBoxMode;
use pty::handler::state::InputHandler;
use pty::handler::state::PopupLimits;
use pty::handler::state::PopupTheme;
use pty::handler::state::ShellKind;
use pty::handler::trigger::Repaint;
use pty::handler::trigger::TriggerStart;
use pty::input::KeyEvent;
use pty::input::KeyParser;
use pty::input::parse_keys;
use pty::model::CommandContext;
use pty::model::Geometry;
use pty::model::QuoteState;
use pty::model::Suggestion;
use pty::model::SuggestionKind;
use pty::model::SuggestionSource;
use pty::model::TerminalSnapshot;
use pty::predict::BufferModel;
use pty::proxy::cpr::CprAction;
use pty::proxy::cpr::CprOwner;
use pty::proxy::cpr::CprSync;
use pty::proxy::cpr::cpr_report;
use pty::proxy::cpr::dispatch_cpr_response;
use pty::proxy::cpr::reconcile_report;
use pty::proxy::overlay_write::OverlayWriteOutcome;
use pty::proxy::overlay_write::WriteGate;
use pty::proxy::providers::AiFeature;
use pty::proxy::providers::AiModel;
use pty::proxy::providers::AiProviderConfig;
use pty::proxy::providers::ApiFormat;
use pty::proxy::providers::ProviderSetup;
use pty::proxy::providers::ShellProvider;
use pty::proxy::providers::build_providers;
use pty::proxy::providers::prompt_override;
use pty::proxy::providers::resolve_feature;
use pty::proxy::shutdown::PollStep;
use pty::proxy::shutdown::ShutdownPhase;
use pty::proxy::shutdown::ShutdownStep;
use pty::proxy::shutdown::WaitStatus;
use pty::proxy::shutdown::exit_code;
use pty::proxy::shutdown::poll_until;
use pty::proxy::shutdown::wait_with_timeout;
use pty::proxy::startup::Terminal;
use pty::proxy::startup::detect_shell_kind;
use pty::proxy::startup::should_fallback_to_shell;
use pty::proxy::stdio::StdinStep;
use pty::proxy::stdio::stdin_step;
use pty::proxy::stdio::terminal_bytes;
use pty::proxy::tasks::DebounceAction;
use pty::proxy::tasks::DebounceEvent;
use pty::proxy::tasks::DebounceState;
use pty::proxy::tasks::OutputAction;
use pty::proxy::tasks::OutputEvent;
use pty::proxy::tasks::debounce_step;
use pty::proxy::tasks::forwarded_report;
use pty::proxy::tasks::reported_position;
use pty::proxy::ticks::TickPaint;
use pty::proxy::ticks::keeps_ticking;
use pty::proxy::ticks::sleep_until;
use pty::proxy::trigger::Action;
use pty::proxy::trigger::PendingTrigger;
use pty::resize::TerminalSize;
use pty::spawn::ReadOutcome;
use pty::spawn::ReaderStep;
use pty::spawn::inserted_libraries;
use pty::spawn::is_fish;
use pty::spawn::reader_joins;
use pty::spawn::reader_step;

fn theme() -> PopupTheme {
    PopupTheme {
        borders: false,
        border_on: Vec::new(),
        show_provider_errors: false,
        index_hints: true,
        key_hints: true,
    }
}

fn make_handler() -> InputHandler {
    let limits = PopupLimits {
        max_visible: 10,
        min_width: 20,
        max_width: 80,
    };
    InputHandler::new(ShellKind::Other, limits, theme()).with_render_block_ms(0)
}

fn popup_layout() -> PopupLayout {
    PopupLayout {
        start_row: 5,
        start_col: 0,
        width: 20,
        height: 1,
        scroll_deficit: 0,
    }
}

/// A visible popup with suggestions and a default layout.
fn make_visible_handler(suggestions: Vec<Suggestion>) -> InputHandler {
    let mut h = make_handler();
    h.popup.suggestions = suggestions;
    h.popup.visible = true;
    h.screen.last_layout = Some(popup_layout());
    h
}

fn numbered_suggestions(count: usize) -> Vec<Suggestion> {
    (0..count)
        .map(|n| command_suggestion(&format!("item-{n}"), None))
        .collect()
}

fn command_suggestion(text: &str, description: Option<&str>) -> Suggestion {
    Suggestion {
        text: text.to_string(),
        description: description.map(str::to_string),
        kind: SuggestionKind::Command,
        source: SuggestionSource::Commands,
        ..Default::default()
    }
}

/// The completion site of an empty command line.
fn no_context() -> CommandContext {
    CommandContext {
        command: None,
        args: Vec::new(),
        preceding_flag: None,
        word_index: 0,
        current_word: String::new(),
        quote_state: QuoteState::Unquoted,
    }
}

/// A terminal that no command line was reported for.
fn blank_term(screen_rows: u16, screen_cols: u16) -> TerminalSnapshot {
    TerminalSnapshot {
        in_alt_screen: false,
        cpr_synced: false,
        buffer_pending_display: false,
        command_buffer: None,
        buffer_cursor: 0,
        shell_env: None,
        geometry: Geometry {
            cursor_row: 0,
            cursor_col: 0,
            screen_rows,
            screen_cols,
        },
        context: no_context(),
    }
}

/// A terminal with a command line and the cursor at its end.
fn term_with_buffer(buffer: &str) -> TerminalSnapshot {
    TerminalSnapshot {
        command_buffer: Some(buffer.to_string()),
        buffer_cursor: buffer.chars().count(),
        ..blank_term(24, 80)
    }
}

fn detail_layout_at(start_row: u16, start_col: u16, width: u16, height: u16) -> DetailLayout {
    DetailLayout {
        start_row,
        start_col,
        width,
        height,
        position: DetailPosition::SideRight,
    }
}

/// Runs a trigger to its end. The engine has found these rows, the cache none; the
/// providers are started.
fn trigger_and_show(
    handler: &mut InputHandler,
    term: &TerminalSnapshot,
    found: Vec<Suggestion>,
    now: u64,
) -> Repaint {
    match handler.trigger(Some(term)) {
        TriggerStart::Skip => Repaint::Nothing,
        TriggerStart::Clear(teardown) => Repaint::Clear(teardown),
        TriggerStart::Compute { fingerprint, .. } => {
            let starts = handler.providers_to_start(false).len();
            let pool = handler.sync_pool(Some(found), Vec::new());
            handler.finish_trigger(pool, &term.context, fingerprint, starts, now)
        }
    }
}

fn feature(enabled: bool) -> AiFeature {
    AiFeature {
        enabled,
        model: "m".into(),
        max_tokens: 256,
    }
}

fn ai_test_provider_config() -> AiProviderConfig {
    AiProviderConfig {
        base_url: "http://127.0.0.1:9/v1".into(),
        api: "openai-chat".into(),
        thinking_budget: 0,
        models: Vec::new(),
    }
}

const NOW: u64 = 1_000_000;

#[test]
fn dispatch_with_ours_at_head_syncs() {
    let action = dispatch_cpr_response(Some(CprOwner::Ours), 5, 10);
    assert_eq!(action, CprAction::SyncOurs(5, 10));
}

#[test]
fn dispatch_with_shell_at_head_forwards() {
    let action = dispatch_cpr_response(Some(CprOwner::Shell), 3, 7);
    assert_eq!(action, CprAction::ForwardToPty(3, 7));
}

#[test]
fn dispatch_with_empty_queue_returns_drop() {
    let action = dispatch_cpr_response(None, 1, 1);
    assert_eq!(action, CprAction::DropEmpty(1, 1));
}

#[test]
fn deferred_sync_reschedules_when_shell_cpr_in_flight() {
    let mut queue = vec![CprOwner::Shell, CprOwner::Ours].into_iter();
    assert_eq!(
        dispatch_cpr_response(queue.next(), 1, 1),
        CprAction::ForwardToPty(1, 1)
    );
    assert_eq!(
        dispatch_cpr_response(queue.next(), 2, 2),
        CprAction::SyncOurs(2, 2)
    );
}

#[test]
fn shell_cpr_arrives_while_our_cpr_pending() {
    let mut queue = vec![CprOwner::Ours, CprOwner::Shell].into_iter();
    assert_eq!(
        dispatch_cpr_response(queue.next(), 4, 4),
        CprAction::SyncOurs(4, 4)
    );
    assert_eq!(
        dispatch_cpr_response(queue.next(), 5, 5),
        CprAction::ForwardToPty(5, 5)
    );
}

#[test]
fn a_forwarded_report_is_the_one_that_came() {
    assert_eq!(cpr_report(3, 7), b"\x1b[3;7R");
    assert_eq!(
        forwarded_report(CprAction::ForwardToPty(24, 80)),
        Some(b"\x1b[24;80R".to_vec())
    );
    assert_eq!(
        forwarded_report(CprAction::DropEmpty(1, 1)),
        Some(b"\x1b[1;1R".to_vec())
    );
    assert_eq!(forwarded_report(CprAction::SyncOurs(1, 1)), None);
    assert_eq!(
        parse_keys(&cpr_report(24, 80)),
        vec![KeyEvent::CursorPositionReport(24, 80)]
    );
    assert_eq!(
        reported_position(&KeyEvent::CursorPositionReport(2, 3)),
        Some((2, 3))
    );
    assert_eq!(reported_position(&KeyEvent::Tab), None);
}

#[test]
fn a_report_off_the_screen_asks_for_the_size() {
    let known = TerminalSize { rows: 24, cols: 80 };
    let other = TerminalSize { rows: 50, cols: 80 };
    assert_eq!(reconcile_report(true, known, None), CprSync::Accept);
    assert_eq!(
        reconcile_report(false, known, Some(other)),
        CprSync::Resize(other)
    );
    assert_eq!(
        reconcile_report(false, known, Some(known)),
        CprSync::GiveUp
    );
    assert_eq!(reconcile_report(false, known, None), CprSync::GiveUp);
    assert_eq!(TerminalSize::from_cols_rows((80, 24)), known);
}

// ---- Overlay writes ----

/// Writes overlay bytes where they may still be.
fn write_overlay(
    handler: &mut InputHandler,
    ticket: OverlayWriteTicket,
    bytes: &[u8],
) -> OverlayWriteOutcome {
    match handler.begin_overlay_write(ticket, bytes) {
        WriteGate::Empty => OverlayWriteOutcome::Empty,
        WriteGate::Stale { .. } => OverlayWriteOutcome::Stale,
        WriteGate::Write => handler
            .finish_overlay_write(ticket, true)
            .expect("the bytes are written"),
    }
}

#[test]
fn write_overlay_if_current_drops_stale_overlay_after_epoch_bump() {
    let mut handler = make_handler();
    let stale_ticket = handler.overlay_write_ticket();
    handler.handle_terminal_output(false, 1, NOW);
    assert_ne!(handler.output_epoch(), stale_ticket.epoch);
    let outcome = write_overlay(&mut handler, stale_ticket, b"stale overlay bytes");
    assert_eq!(outcome, OverlayWriteOutcome::Stale);
}

/// A trigger has shown rows, and the popup is painted but not yet written.
fn painted_handler() -> InputHandler {
    let mut handler = make_handler();
    let repaint = trigger_and_show(
        &mut handler,
        &term_with_buffer("git "),
        numbered_suggestions(3),
        NOW,
    );
    assert_eq!(repaint, Repaint::Render);
    handler.begin_render(NOW);
    handler.finish_render(popup_layout(), None, NOW);
    handler
}

#[test]
fn write_overlay_if_current_discards_owned_state_on_stale_write() {
    let mut handler = painted_handler();
    let stale_ticket = handler.overlay_write_ticket();
    handler.handle_terminal_output(false, 1, NOW);
    assert_ne!(handler.output_epoch(), stale_ticket.epoch);

    let outcome = write_overlay(&mut handler, stale_ticket, b"popup");

    assert_eq!(outcome, OverlayWriteOutcome::Stale);
    assert!(
        !handler.has_overlay_ownership(),
        "handler must not keep ownership for overlay bytes that never reached stdout"
    );
}

#[test]
fn write_overlay_if_current_preserves_newer_overlay_after_stale_render_race() {
    let mut handler = painted_handler();
    let stale_ticket = handler.overlay_write_ticket();

    let term = term_with_buffer("git ");
    let step = handler.process_key(&KeyEvent::ArrowDown, Some(&term), NOW);
    assert!(matches!(
        step.next,
        NextStep::Navigate(Navigation::Down, _)
    ));
    handler.begin_render(NOW);
    handler.finish_render(popup_layout(), None, NOW);
    assert_ne!(handler.output_epoch(), stale_ticket.epoch);
    assert!(
        handler.has_overlay_ownership(),
        "setup: newer overlay ownership should still be current"
    );

    let outcome = write_overlay(&mut handler, stale_ticket, b"popup");

    assert_eq!(outcome, OverlayWriteOutcome::Stale);
    assert!(
        handler.has_overlay_ownership(),
        "dropping an older stale render must not clear newer overlay ownership"
    );
}

#[test]
fn write_overlay_if_current_lets_shell_cleanup_supersede_stale_teardown_cleanup() {
    let mut handler = painted_handler();
    let ticket = handler.overlay_write_ticket();
    handler.commit_overlay_write(ticket);
    assert!(
        handler.has_overlay_ownership(),
        "setup: committed popup should own a layout"
    );

    let step = handler.process_key(&KeyEvent::Escape, Some(&term_with_buffer("git ")), NOW);
    assert!(
        step.outcome.forward_bytes().is_empty(),
        "Escape dismiss forwards no bytes to the shell"
    );
    assert!(matches!(step.next, NextStep::Clear(_)));
    assert!(
        handler.has_overlay_ownership(),
        "staged teardown cleanup must keep layout ownership until the cleanup is written"
    );
    let cleanup_ticket = handler.overlay_write_ticket();

    handler.screen.last_repaint_at = None;
    let shell_cleanup = handler.handle_terminal_output(true, 0, NOW);
    assert!(
        shell_cleanup.is_some_and(|t| t.popup == Some(popup_layout())),
        "shell output racing the pending teardown must clear the still-owned layout"
    );
    assert_ne!(handler.output_epoch(), cleanup_ticket.epoch);

    let outcome = write_overlay(&mut handler, cleanup_ticket, b"cleanup");

    assert_eq!(outcome, OverlayWriteOutcome::Stale);
    assert!(
        !handler.has_overlay_ownership(),
        "shell-output cleanup should have superseded the stale teardown cleanup"
    );
}

#[test]
fn current_bytes_are_written_and_committed() {
    let mut handler = painted_handler();
    let ticket = handler.overlay_write_ticket();
    assert_eq!(
        write_overlay(&mut handler, ticket, b""),
        OverlayWriteOutcome::Empty
    );
    assert_eq!(
        write_overlay(&mut handler, ticket, b"popup"),
        OverlayWriteOutcome::Written
    );
    assert_eq!(handler.screen.last_layout, Some(popup_layout()));
    assert!(handler.overlay_write_ticket().render_token.is_none());
}

#[test]
fn a_failed_write_commits_nothing() {
    let mut handler = painted_handler();
    let ticket = handler.overlay_write_ticket();
    assert_eq!(
        handler.begin_overlay_write(ticket, b"popup"),
        WriteGate::Write
    );
    assert_eq!(handler.finish_overlay_write(ticket, false), None);
    assert_eq!(handler.screen.last_layout, None);
}

// ---- The description box's timer ----

fn handler_with_details(rows: Vec<Suggestion>, debounce_ms: u16) -> InputHandler {
    let mut handler = make_handler()
        .with_popup_widths(20, 40)
        .with_description_box(DescriptionBoxMode::Side, 60, 5, debounce_ms);
    handler.popup.suggestions = rows;
    handler.popup.visible = true;
    handler.popup.overlay.selected = Some(0);
    handler
}

/// Paints the popup with its description box. Returns the row that the box describes.
fn redraw(handler: &mut InputHandler, now: u64) -> Option<usize> {
    handler.begin_render(now);
    let plan = handler.begin_detail(2, now, true);
    let detail = plan.target.map(|idx| {
        handler.settle_detail(idx, DetailFit::Shown);
        detail_layout_at(6, 40, 60, 3)
    });
    handler.finish_render(popup_layout(), detail, now);
    plan.target
}

#[test]
fn detail_redraw_iteration_clears_pending_and_commits_settled_detail() {
    let mut handler = handler_with_details(
        vec![
            command_suggestion(
                "alpha",
                Some("ALPHADETAIL alpha beta gamma delta epsilon zeta eta theta iota ALPHADONE"),
            ),
            command_suggestion(
                "bravo",
                Some("BRAVODETAIL alpha beta gamma delta epsilon zeta eta theta iota BRAVODONE"),
            ),
        ],
        5,
    );
    assert!(handler.render_for_detail_redraw());
    assert_eq!(
        redraw(&mut handler, NOW),
        Some(0),
        "setup should render the initial detail"
    );
    let ticket = handler.overlay_write_ticket();
    handler.commit_overlay_write(ticket);
    assert_eq!(handler.popup.detail_debounce.displayed_idx, Some(0));

    handler.popup.overlay.selected = Some(1);
    assert_eq!(
        redraw(&mut handler, NOW + 1),
        Some(0),
        "in-window render should keep showing the previous detail"
    );
    assert!(handler.popup.detail_debounce.pending);
    let ticket = handler.overlay_write_ticket();
    handler.commit_overlay_write(ticket);

    assert!(handler.detail_timer_fired());
    assert_eq!(
        redraw(&mut handler, NOW + 6),
        Some(1),
        "proxy redraw iteration should write the settled detail"
    );
    let ticket = handler.overlay_write_ticket();
    assert_eq!(
        write_overlay(&mut handler, ticket, b"popup"),
        OverlayWriteOutcome::Written
    );
    assert!(!handler.popup.detail_debounce.pending);
    assert_eq!(handler.popup.detail_debounce.displayed_idx, Some(1));
    assert!(
        handler.overlay_write_ticket().render_token.is_none(),
        "overlay render token should be committed by the redraw write"
    );
}

#[test]
fn detail_redraw_iteration_clears_pending_and_returns_empty_when_popup_dismissed() {
    let mut handler = handler_with_details(
        vec![command_suggestion(
            "alpha",
            Some("ALPHADETAIL alpha beta gamma delta epsilon zeta eta theta iota kappa lambda mu"),
        )],
        0,
    );
    handler.popup.detail_debounce.pending = true;
    handler.set_visible(false);

    assert!(
        !handler.detail_timer_fired(),
        "a dismissed popup must not be painted"
    );
    let ticket = handler.overlay_write_ticket();
    assert_eq!(
        write_overlay(&mut handler, ticket, b""),
        OverlayWriteOutcome::Empty
    );
    assert!(
        !handler.popup.detail_debounce.pending,
        "the pending flag must be cleared so the next debounce wakeup can re-arm"
    );
}

// ---- Shutdown ----

#[test]
fn wait_with_timeout_returns_exit_code_of_already_exited_child() {
    let step = wait_with_timeout(ShutdownPhase::Waiting, WaitStatus::Exited(7), 0, 500);
    assert_eq!(
        step,
        ShutdownStep::Finish(7),
        "already-exited child must return its real exit code"
    );
}

/// Runs a shutdown of a shell that ends once it is killed. Returns the exit code and how
/// long it took.
fn shut_down(deadline_ms: u64, killed_code: Option<u32>) -> (i32, u64) {
    let mut phase = ShutdownPhase::Waiting;
    let mut elapsed = 0;
    let mut total = 0;
    loop {
        let status = match (phase, killed_code) {
            (ShutdownPhase::Reaping, Some(code)) => WaitStatus::Exited(code),
            _ => WaitStatus::Running,
        };
        match wait_with_timeout(phase, status, elapsed, deadline_ms) {
            ShutdownStep::Finish(code) => return (code, total),
            ShutdownStep::Sleep(ms) => {
                elapsed += ms;
                total += ms;
            }
            ShutdownStep::Kill => {
                phase = ShutdownPhase::Reaping;
                elapsed = 0;
            }
        }
    }
}

#[test]
fn a_live_shell_is_killed_at_the_deadline_and_reaped() {
    assert_eq!(shut_down(200, Some(1)), (1, 200));
}

#[test]
fn a_shell_that_cannot_be_reaped_is_reported_as_terminated() {
    assert_eq!(shut_down(200, None), (143, 700));
}

#[test]
fn exit_codes_that_do_not_fit_are_one() {
    assert_eq!(exit_code(0), 0);
    assert_eq!(exit_code(255), 255);
    assert_eq!(exit_code(u32::MAX), 1);
    assert_eq!(
        poll_until(WaitStatus::Failed, 0, 500),
        PollStep::GaveUp
    );
    assert_eq!(
        poll_until(WaitStatus::Running, 0, 500),
        PollStep::Sleep(50)
    );
}

// ---- Providers ----

fn setup(completion: bool, ask: bool, provider: bool) -> ProviderSetup {
    let configured = || {
        if provider {
            Some(ai_test_provider_config())
        } else {
            None
        }
    };
    ProviderSetup {
        completion: feature(completion),
        completion_provider: configured(),
        ask: feature(ask),
        ask_provider: configured(),
        shell_completions: true,
    }
}

#[test]
fn build_providers_returns_no_llm_when_ai_disabled() {
    let plan = build_providers(&setup(false, false, false), ShellKind::Bash);
    assert!(plan.shell.is_none(), "bash has no shell-native tree cache");
    assert!(plan.ask.is_none());
    assert!(
        plan.async_providers().is_empty(),
        "no async providers expected with AI disabled under bash"
    );
}

#[test]
fn build_providers_adds_llm_when_completion_enabled() {
    let plan = build_providers(&setup(true, false, true), ShellKind::Bash);
    assert!(plan.ask.is_none(), "ask feature stays disabled");
    assert_eq!(
        plan.async_providers().len(),
        1,
        "completion provider must be built"
    );
}

#[test]
fn build_providers_adds_ask_ai_when_ask_enabled() {
    let plan = build_providers(&setup(false, true, true), ShellKind::Bash);
    assert!(plan.ask.is_some(), "ask provider must be built");
    assert!(
        plan.async_providers().is_empty(),
        "completion stays disabled, so no inline providers"
    );
}

#[test]
fn shell_providers_only_fill_the_cache() {
    let plan = build_providers(&setup(true, false, true), ShellKind::Fish);
    assert_eq!(plan.shell, Some(ShellProvider::Fish));
    let slots = plan.async_providers();
    assert_eq!(slots.len(), 2);
    assert_eq!(slots.iter().filter(|slot| slot.backfill).count(), 1);
    assert_eq!(ShellProvider::Fish.name(), "fish");
    assert_eq!(ShellProvider::Zsh.name(), "zsh");
    let mut off = setup(false, false, false);
    off.shell_completions = false;
    assert_eq!(build_providers(&off, ShellKind::Zsh).shell, None);
}

#[test]
fn features_resolve_to_what_is_configured() {
    let mut config = ai_test_provider_config();
    config.thinking_budget = 512;
    config.models = vec![AiModel {
        id: "m".into(),
        max_tokens: Some(99),
    }];
    let plan = resolve_feature(Some(&config), &feature(true)).expect("the feature is enabled");
    assert_eq!(plan.api_format, ApiFormat::OpenAiChat);
    assert_eq!(plan.max_tokens, 99);
    assert_eq!(plan.thinking_budget, Some(512));
    config.api = "openai-responses".into();
    let plan = resolve_feature(Some(&config), &feature(true)).expect("the feature is enabled");
    assert_eq!(plan.api_format, ApiFormat::OpenAiResponses);
    config.api = "unheard-of".into();
    let plan = resolve_feature(Some(&config), &feature(true)).expect("the feature is enabled");
    assert_eq!(plan.api_format, ApiFormat::OpenAiChat);
    assert_eq!(resolve_feature(Some(&config), &feature(false)), None);
    assert_eq!(resolve_feature(None, &feature(true)), None);
    config.base_url = String::new();
    assert_eq!(resolve_feature(Some(&config), &feature(true)), None);
}

#[test]
fn blank_prompts_override_nothing() {
    assert_eq!(prompt_override(None), None);
    assert_eq!(prompt_override(Some("  \n")), None);
    assert_eq!(
        prompt_override(Some("  Be brief.\n")),
        Some("Be brief.".to_string())
    );
}

// ---- Startup ----

#[test]
fn test_known_terminals_never_fall_back() {
    let known = [
        Terminal::Ghostty,
        Terminal::Otty,
        Terminal::Kitty,
        Terminal::WezTerm,
        Terminal::Alacritty,
        Terminal::Rio,
        Terminal::ITerm2,
        Terminal::TerminalApp,
    ];
    for terminal in &known {
        assert!(
            !should_fallback_to_shell(terminal, false),
            "{terminal:?} should not fall back without multi_terminal flag"
        );
        assert!(
            !should_fallback_to_shell(terminal, true),
            "{terminal:?} should not fall back with multi_terminal flag"
        );
    }
}

#[test]
fn test_unknown_falls_back_without_flag() {
    assert!(should_fallback_to_shell(
        &Terminal::Unknown("foot".into()),
        false
    ));
}

#[test]
fn test_unknown_runs_with_flag() {
    assert!(!should_fallback_to_shell(
        &Terminal::Unknown("foot".into()),
        true
    ));
}

#[test]
fn shells_are_told_by_their_file_names() {
    assert_eq!(detect_shell_kind("zsh"), ShellKind::Zsh);
    assert_eq!(detect_shell_kind("fish"), ShellKind::Fish);
    assert_eq!(detect_shell_kind("bash"), ShellKind::Bash);
    assert_eq!(detect_shell_kind("nu"), ShellKind::Other);
    assert_eq!(detect_shell_kind("oh/zsh"), ShellKind::Zsh);
    assert_eq!(detect_shell_kind("ozsh"), ShellKind::Other);
}

// ---- Standard input and output ----

#[test]
fn full_screen_programs_get_their_input_raw() {
    let mut parser = KeyParser::new();
    assert!(matches!(
        stdin_step(&mut parser, false, b"\x1b["),
        StdinStep::Keys(keys) if keys.is_empty()
    ));
    match stdin_step(&mut parser, true, b"A") {
        StdinStep::Raw(bytes) => assert_eq!(bytes, b"\x1b[A"),
        other => panic!("the bytes go through as they are, got {other:?}"),
    }
    match stdin_step(&mut parser, false, b"\x1b[A") {
        StdinStep::Keys(keys) => assert_eq!(keys, vec![KeyEvent::ArrowUp]),
        other => panic!("keys are parsed, got {other:?}"),
    }
}

#[test]
fn cleanup_comes_before_output_and_the_request_behind() {
    assert_eq!(
        terminal_bytes(b"clear".to_vec(), b"out".to_vec(), true),
        b"clearout\x1b[6n"
    );
    assert_eq!(
        terminal_bytes(Vec::new(), b"out".to_vec(), false),
        b"out"
    );
}

#[test]
fn a_changed_buffer_triggers_at_once_or_after_a_pause() {
    for (delay, expected) in [(0, Action::Trigger), (150, Action::Debounce)] {
        let mut handler = make_handler();
        let mut slot = PendingTrigger::new();
        let action = handler.on_output(
            &mut slot,
            OutputEvent::Buffer {
                dirty: true,
                pending_display: false,
            },
            delay,
        );
        match expected {
            Action::Trigger => assert_eq!(action, OutputAction::Trigger),
            Action::Debounce => assert_eq!(action, OutputAction::Debounce),
        }
        assert!(!slot.is_pending());
    }
}

#[test]
fn a_deferred_trigger_waits_for_the_display() {
    let mut handler = make_handler();
    let mut slot = PendingTrigger::new();
    let dirty = OutputEvent::Buffer {
        dirty: true,
        pending_display: true,
    };
    assert_eq!(
        handler.on_output(&mut slot, dirty, 0),
        OutputAction::Nothing
    );
    assert!(slot.is_pending());
    assert_eq!(
        handler.on_output(&mut slot, OutputEvent::Display { pending: true }, 0),
        OutputAction::Nothing
    );
    assert_eq!(
        handler.on_output(&mut slot, OutputEvent::Display { pending: false }, 0),
        OutputAction::Trigger
    );
    assert!(!slot.is_pending());
}

#[test]
fn a_prompt_empties_the_tracked_line() {
    let mut handler = make_handler().with_shell_kind(ShellKind::Fish);
    handler.input_model = BufferModel {
        buffer: "ls".into(),
        cursor: 2,
    };
    let mut slot = PendingTrigger::new();
    handler.on_output(&mut slot, OutputEvent::Prompt { seen: true }, 150);
    assert_eq!(handler.input_model.buffer, "");
}

#[test]
fn a_new_environment_triggers_only_where_triggers_are_automatic() {
    let changed = OutputEvent::Environment {
        cwd_dirty: true,
        shell_env_dirty: false,
    };
    let mut slot = PendingTrigger::new();
    let mut handler = make_handler();
    assert_eq!(
        handler.on_output(&mut slot, changed, 150),
        OutputAction::Trigger
    );
    let mut handler = make_handler().with_auto_trigger(false);
    assert_eq!(
        handler.on_output(&mut slot, changed, 150),
        OutputAction::Nothing
    );
}

#[test]
fn a_full_screen_program_takes_the_popup_down() {
    let mut slot = PendingTrigger::new();
    let mut handler = make_visible_handler(numbered_suggestions(1));
    match handler.on_output(&mut slot, OutputEvent::AltScreen { changed: true }, 150) {
        OutputAction::Clear(teardown) => assert_eq!(teardown.popup, Some(popup_layout())),
        other => panic!("the popup goes, got {other:?}"),
    }
    assert!(!handler.popup.visible);
}

// ---- The tasks' clocks ----

#[test]
fn debounce_measures_the_pause_anew_and_waits_for_providers() {
    let fires = make_handler().debounce_fires();
    assert!(fires);
    let step = |state, event| debounce_step(state, event, 150, fires);
    assert_eq!(
        step(DebounceState::Idle, DebounceEvent::Notified),
        (DebounceState::Pausing, DebounceAction::Sleep(150))
    );
    assert_eq!(
        step(DebounceState::Pausing, DebounceEvent::Notified),
        (DebounceState::Pausing, DebounceAction::Sleep(150))
    );
    assert_eq!(
        step(DebounceState::Pausing, DebounceEvent::Elapsed),
        (DebounceState::Idle, DebounceAction::Prepare)
    );
    assert_eq!(
        step(
            DebounceState::Idle,
            DebounceEvent::Prepared { block_ms: Some(80) }
        ),
        (DebounceState::Blocking, DebounceAction::AwaitProviders(80))
    );
    assert_eq!(
        step(DebounceState::Blocking, DebounceEvent::Received),
        (DebounceState::Idle, DebounceAction::Apply)
    );
    assert_eq!(
        step(DebounceState::Blocking, DebounceEvent::Elapsed),
        (DebounceState::Idle, DebounceAction::ApplyTimeout)
    );
    assert_eq!(
        step(DebounceState::Blocking, DebounceEvent::Notified),
        (DebounceState::Pausing, DebounceAction::Abort(150))
    );
    assert_eq!(
        step(DebounceState::Idle, DebounceEvent::WriteFailed),
        (DebounceState::Stopped, DebounceAction::Stop)
    );
}

#[test]
fn a_pause_computes_nothing_where_it_is_suppressed() {
    let mut handler = make_handler();
    handler.debounce_suppressed = true;
    assert!(!handler.debounce_fires());
    assert_eq!(
        debounce_step(DebounceState::Pausing, DebounceEvent::Elapsed, 150, false),
        (DebounceState::Idle, DebounceAction::Wait)
    );
}

#[test]
fn the_feedback_timer_ends_with_a_write_that_fails() {
    assert!(keeps_ticking(true, Some(OverlayWriteOutcome::Written)));
    assert!(keeps_ticking(true, Some(OverlayWriteOutcome::Empty)));
    assert!(!keeps_ticking(true, Some(OverlayWriteOutcome::Stale)));
    assert!(!keeps_ticking(true, None));
    assert!(!keeps_ticking(false, Some(OverlayWriteOutcome::Written)));
}

#[test]
fn ticks_turn_faster_while_loading() {
    let mut handler = make_visible_handler(numbered_suggestions(1));
    handler.begin_ask_ai_loading(NOW);
    let tick = handler.feedback_tick(NOW);
    assert_eq!(tick.next_ms, 80);
    assert!(tick.keep_running);
    assert!(matches!(tick.paint, TickPaint::Indicator(..)));
    handler.work.feedback = AsyncFeedback::Empty { since: NOW };
    let tick = handler.feedback_tick(NOW);
    assert_eq!(tick.next_ms, 200);
    assert!(tick.keep_running);
    handler.popup.suggestions.clear();
    let tick = handler.feedback_tick(NOW + 1200);
    assert!(matches!(tick.paint, TickPaint::Clear(_)));
    handler.work.feedback = AsyncFeedback::Idle;
    assert!(!handler.feedback_tick(NOW).keep_running);
}

#[test]
fn clocks_sleep_until_their_deadline() {
    assert_eq!(sleep_until(NOW + 30, NOW), 30);
    assert_eq!(sleep_until(NOW, NOW + 30), 0);
    let mut handler = make_visible_handler(numbered_suggestions(1));
    handler.toggle_match_mode(NOW);
    assert!(!handler.expire_mode_flash(NOW + 999));
    assert!(handler.expire_mode_flash(NOW + 1000));
    assert!(!handler.expire_mode_flash(NOW + 1000));
}

#[test]
fn asking_needs_a_provider() {
    let mut handler = make_visible_handler(numbered_suggestions(1));
    assert!(!handler.begin_ask_ai(NOW));
    handler.set_ask_ai_provider(true);
    assert!(handler.begin_ask_ai(NOW));
    assert!(handler.feedback_kind().is_loading());
}

// ---- The reader ----

#[test]
fn reader_retries_what_passes() {
    assert_eq!(reader_step(ReadOutcome::Bytes(3)), ReaderStep::Forward(3));
    assert_eq!(reader_step(ReadOutcome::Bytes(0)), ReaderStep::Exit);
    assert_eq!(reader_step(ReadOutcome::Interrupted), ReaderStep::Retry);
    assert_eq!(reader_step(ReadOutcome::IoError), ReaderStep::RetryAfter(10));
    assert_eq!(reader_step(ReadOutcome::Failed), ReaderStep::Exit);
}

#[test]
fn reader_joins_another_foreground_group() {
    assert!(reader_joins(7, 3));
    assert!(!reader_joins(3, 3));
    assert!(!reader_joins(0, 3));
    assert!(!reader_joins(-1, 3));
}

#[test]
fn fish_is_told_by_path_or_name() {
    assert!(is_fish("fish"));
    assert!(is_fish("/usr/bin/fish"));
    assert!(is_fish("-fish"));
    assert!(is_fish("/opt/fish-3.7"));
    assert!(!is_fish("/bin/zsh"));
    assert!(!is_fish("/opt/fish/zsh"));
    assert!(!is_fish("fisherman"));
}

#[test]
fn inserted_libraries_follow_those_there_are() {
    assert_eq!(inserted_libraries("", "b"), "b");
    assert_eq!(inserted_libraries("a", "b"), "a:b");
}
