use pty::feedback::AsyncFeedback;
use pty::handler::keys::Keybindings;
use pty::handler::overlay::DetailLayout;
use pty::handler::overlay::DetailPosition;
use pty::handler::overlay::PopupLayout;
use pty::handler::state::DescriptionBoxMode;
use pty::handler::state::DetailDebounceState;
use pty::handler::state::InputHandler;
use pty::handler::state::MatchMode;
use pty::handler::state::PopupLimits;
use pty::handler::state::PopupTheme;
use pty::handler::state::ProviderSlot;
use pty::handler::state::ShellKind;
use pty::handler::state::Teardown;
use pty::input::KeyEvent;
use pty::model::CommandContext;
use pty::model::QuoteState;
use pty::model::Suggestion;
use pty::model::SuggestionKind;
use pty::model::SuggestionSource;
use pty::predict::BufferModel;
use pty::shell_completion::current_word;

fn theme() -> PopupTheme {
    PopupTheme {
        borders: false,
        border_on: Vec::new(),
        show_provider_errors: false,
        index_hints: true,
        key_hints: true,
    }
}

fn make_handler() -> InputHandler {
    let limits = PopupLimits {
        max_visible: 10,
        min_width: 20,
        max_width: 80,
    };
    InputHandler::new(ShellKind::Other, limits, theme()).with_render_block_ms(0)
}

fn popup_layout() -> PopupLayout {
    PopupLayout {
        start_row: 5,
        start_col: 0,
        width: 20,
        height: 1,
        scroll_deficit: 0,
    }
}

/// A visible popup with suggestions and a default layout.
fn make_visible_handler(suggestions: Vec<Suggestion>) -> InputHandler {
    let mut h = make_handler();
    h.popup.suggestions = suggestions;
    h.popup.visible = true;
    h.screen.last_layout = Some(popup_layout());
    h
}

fn numbered_suggestions(count: usize) -> Vec<Suggestion> {
    (0..count)
        .map(|n| command_suggestion(&format!("item-{n}"), None))
        .collect()
}

fn command_suggestion(text: &str, description: Option<&str>) -> Suggestion {
    Suggestion {
        text: text.to_string(),
        description: description.map(str::to_string),
        kind: SuggestionKind::Command,
        source: SuggestionSource::Commands,
        ..Default::default()
    }
}

/// A visible popup with a single, selected suggestion.
fn make_selected_handler(suggestion: Suggestion) -> InputHandler {
    let mut h = make_visible_handler(vec![suggestion]);
    h.popup.overlay.selected = Some(0);
    h
}

fn ctx(
    cmd: &str,
    args: &[&str],
    preceding_flag: Option<&str>,
    word_index: usize,
    current_word: &str,
) -> CommandContext {
    CommandContext {
        command: Some(cmd.to_string()),
        args: args.iter().map(|s| s.to_string()).collect(),
        preceding_flag: preceding_flag.map(|s| s.to_string()),
        word_index,
        current_word: current_word.to_string(),
        quote_state: QuoteState::Unquoted,
    }
}

fn texts(rows: &[Suggestion]) -> Vec<&str> {
    rows.iter().map(|row| row.text.as_str()).collect()
}

fn detail_layout_at(start_row: u16, start_col: u16, width: u16, height: u16) -> DetailLayout {
    DetailLayout {
        start_row,
        start_col,
        width,
        height,
        position: DetailPosition::SideRight,
    }
}

/// Takes settings over that leave all but these at their defaults.
fn reconfigure(
    handler: &mut InputHandler,
    auto_trigger: bool,
    detail_box_mode: DescriptionBoxMode,
    tab_accepts_top: bool,
) -> Teardown {
    handler.update_config(
        theme(),
        Keybindings::default(),
        10,
        1200,
        auto_trigger,
        20,
        80,
        detail_box_mode,
        60,
        5,
        80,
        80,
        tab_accepts_top,
    )
}

fn clears_nothing(teardown: &Teardown) -> bool {
    teardown.popup.is_none() && teardown.detail.is_none()
}

const NOW: u64 = 1_000_000;

#[test]
fn test_update_config_toggles_tab_accepts_top() {
    let mut handler = make_visible_handler(vec![command_suggestion("status", None)]);
    assert_eq!(
        handler.effective_selected(),
        None,
        "default: no preselect fallback"
    );
    reconfigure(&mut handler, true, DescriptionBoxMode::Off, true);
    assert_eq!(
        handler.effective_selected(),
        Some(0),
        "hot-reload should enable the top-item preselect fallback"
    );
}

#[test]
fn test_update_config_disables_tab_accepts_top() {
    let mut handler =
        make_visible_handler(vec![command_suggestion("status", None)]).with_tab_accepts_top(true);
    assert_eq!(handler.effective_selected(), Some(0));
    reconfigure(&mut handler, true, DescriptionBoxMode::Off, false);
    assert_eq!(
        handler.effective_selected(),
        None,
        "hot-reload should clear the top-item preselect fallback"
    );
}

fn rebound() -> Keybindings {
    Keybindings {
        accept: KeyEvent::Enter,
        accept_and_enter: KeyEvent::Tab,
        dismiss: KeyEvent::Backspace,
        navigate_up: KeyEvent::CtrlSpace,
        navigate_down: KeyEvent::ArrowRight,
        trigger: KeyEvent::Tab,
        toggle_match_mode: KeyEvent::Ctrl('r'),
    }
}

#[test]
fn test_update_config_changes_keybindings() {
    let mut handler = make_handler();
    handler.update_config(
        theme(),
        rebound(),
        10,
        1200,
        true,
        20,
        80,
        DescriptionBoxMode::Off,
        60,
        5,
        80,
        80,
        false,
    );
    assert_eq!(handler.settings.keybindings, rebound());
}

#[test]
fn update_config_takes_the_theme_over() {
    let mut handler = make_handler();
    let coloured = || PopupTheme {
        borders: true,
        border_on: vec![0x1B, b'[', b'2', b'm'],
        show_provider_errors: true,
        index_hints: false,
        key_hints: true,
    };
    handler.update_config(
        coloured(),
        Keybindings::default(),
        15,
        1200,
        true,
        20,
        80,
        DescriptionBoxMode::Off,
        60,
        5,
        80,
        80,
        false,
    );
    assert_eq!(handler.theme(), &coloured());
    assert_eq!(handler.settings.max_visible, 15);
}

#[test]
fn test_update_config_changes_max_visible() {
    let mut handler = make_handler();
    handler.update_config(
        theme(),
        Keybindings::default(),
        20,
        1200,
        true,
        20,
        80,
        DescriptionBoxMode::Off,
        60,
        5,
        80,
        80,
        false,
    );
    assert_eq!(handler.settings.max_visible, 20);
}

#[test]
fn test_update_config_changes_popup_and_detail_knobs() {
    let mut handler = make_handler();
    handler.update_config(
        theme(),
        Keybindings::default(),
        12,
        1200,
        true,
        35,
        120,
        DescriptionBoxMode::Side,
        90,
        7,
        0,
        80,
        false,
    );
    assert_eq!(handler.settings.min_popup_width, 35);
    assert_eq!(handler.settings.max_popup_width, 120);
    assert_eq!(handler.settings.detail_box_mode, DescriptionBoxMode::Side);
    assert_eq!(handler.settings.detail_box_max_width, 90);
    assert_eq!(handler.settings.detail_box_lines, 7);
    assert_eq!(handler.settings.detail_box_debounce_ms, 0);
}

/// A selected row with its description on the screen, in a box beside the popup.
fn handler_with_detail_box() -> InputHandler {
    let mut handler = make_selected_handler(command_suggestion(
        "checkout",
        Some("long description already visible in the detail box"),
    ))
    .with_description_box(DescriptionBoxMode::Side, 60, 5, 0);
    handler.screen.last_detail_layout = Some(detail_layout_at(5, 24, 30, 3));
    handler
}

#[test]
fn test_update_config_side_to_side_with_new_size_does_not_stage_cleanup() {
    let mut handler = handler_with_detail_box();
    let cleanup = handler.update_config(
        theme(),
        Keybindings::default(),
        10,
        1200,
        true,
        20,
        80,
        DescriptionBoxMode::Side,
        30,
        3,
        0,
        80,
        false,
    );
    assert!(
        clears_nothing(&cleanup),
        "Side→Side reload must not clear anything: {cleanup:?}"
    );
    assert!(
        handler.screen.last_detail_layout.is_some(),
        "Side→Side must keep the committed detail layout — no clear is needed",
    );
    assert!(
        handler.overlay_write_ticket().cleanup_token.is_none(),
        "Side→Side must not stage an overlay cleanup token",
    );
    assert_eq!(handler.settings.detail_box_mode, DescriptionBoxMode::Side);
    assert_eq!(handler.settings.detail_box_max_width, 30);
    assert_eq!(handler.settings.detail_box_lines, 3);
    assert_eq!(handler.settings.detail_box_debounce_ms, 0);
}

#[test]
fn test_update_config_clears_visible_detail_box_when_disabled() {
    let mut handler = handler_with_detail_box();
    handler.popup.detail_debounce = DetailDebounceState {
        displayed_idx: Some(0),
        last_change_at: Some(NOW),
        pending: true,
    };
    let before_epoch = handler.output_epoch();

    let cleanup = reconfigure(&mut handler, true, DescriptionBoxMode::Off, false);

    assert_eq!(
        cleanup.detail,
        Some(detail_layout_at(5, 24, 30, 3)),
        "disabling the detail box must clear its old rectangle"
    );
    let ticket = handler.overlay_write_ticket();
    handler.commit_overlay_write(ticket);
    assert!(handler.screen.last_detail_layout.is_none());
    assert_eq!(handler.popup.detail_debounce.displayed_idx, None);
    assert_eq!(handler.popup.detail_debounce.last_change_at, None);
    assert!(!handler.popup.detail_debounce.pending);
    assert!(handler.output_epoch() > before_epoch);
}

#[test]
fn test_update_config_stages_detail_cleanup_until_overlay_write_ack() {
    let mut handler = handler_with_detail_box();
    handler.popup.detail_debounce = DetailDebounceState {
        displayed_idx: Some(0),
        last_change_at: Some(NOW),
        pending: true,
    };

    let cleanup = reconfigure(&mut handler, true, DescriptionBoxMode::Off, false);

    assert_eq!(
        cleanup.detail,
        Some(detail_layout_at(5, 24, 30, 3)),
        "disabling the detail box must stage a clear for its old rectangle"
    );
    assert!(
        handler.screen.last_detail_layout.is_some(),
        "detail layout ownership must remain committed until cleanup bytes are written"
    );
    assert_eq!(handler.popup.detail_debounce.displayed_idx, None);
    assert_eq!(handler.popup.detail_debounce.last_change_at, None);
    assert!(!handler.popup.detail_debounce.pending);

    let ticket = handler.overlay_write_ticket();
    assert!(
        ticket.cleanup_token.is_some(),
        "config cleanup must be acknowledged through the overlay write token"
    );
    handler.commit_overlay_write(ticket);
    assert!(
        handler.screen.last_detail_layout.is_none(),
        "acknowledged cleanup should release the committed detail layout"
    );
    assert!(
        handler.screen.last_layout.is_some(),
        "detail-only cleanup must not release the still-visible main popup layout"
    );

    let dismissed = handler.dismiss();
    assert_eq!(
        dismissed.popup,
        Some(popup_layout()),
        "main popup must remain clearable after detail-only cleanup"
    );
}

#[test]
fn test_update_config_sets_auto_trigger_false() {
    let mut handler = make_handler();
    assert!(handler.auto_trigger_enabled());
    reconfigure(&mut handler, false, DescriptionBoxMode::Off, false);
    assert!(!handler.auto_trigger_enabled());
}

#[test]
fn test_update_config_dismisses_popup_on_auto_trigger_disable() {
    let mut handler = make_visible_handler(vec![command_suggestion("test", None)]);
    assert!(handler.popup.visible);
    assert!(handler.auto_trigger_enabled());

    let cleanup = reconfigure(&mut handler, false, DescriptionBoxMode::Off, false);

    assert!(!handler.popup.visible);
    assert!(!handler.auto_trigger_enabled());
    assert_eq!(
        cleanup.popup,
        Some(popup_layout()),
        "the popup must be cleared"
    );
    assert!(!handler.work.dynamic_rx, "dynamic_rx must be cleared");
    assert!(
        handler.work.dynamic_ctx.is_none(),
        "dynamic_ctx must be cleared"
    );
    assert!(!handler.work.dynamic_task, "dynamic_task must be cleared");
}

#[test]
fn test_update_config_clears_pending_trigger_even_when_not_visible() {
    let mut handler = make_handler();
    handler.trigger_requested = true;
    assert!(!handler.popup.visible);

    let cleanup = reconfigure(&mut handler, false, DescriptionBoxMode::Off, false);

    assert!(
        !handler.has_pending_trigger(),
        "pending trigger must be cancelled"
    );
    assert!(!handler.work.dynamic_task);
    assert!(!handler.work.dynamic_rx);
    assert!(handler.work.dynamic_ctx.is_none());
    assert!(clears_nothing(&cleanup));
}

#[test]
fn test_update_config_keeps_popup_when_auto_trigger_stays_true() {
    let mut handler = make_visible_handler(vec![command_suggestion("test", None)]);
    assert!(handler.popup.visible);
    let cleanup = reconfigure(&mut handler, true, DescriptionBoxMode::Off, false);
    assert!(handler.popup.visible);
    assert!(
        clears_nothing(&cleanup),
        "no cleanup when auto_trigger unchanged"
    );
}

#[test]
fn test_update_config_disable_auto_trigger_clears_orphaned_detail_layout() {
    let mut handler = make_visible_handler(vec![command_suggestion(
        "alpha",
        Some("ALPHADESC alpha beta gamma delta epsilon zeta eta"),
    )])
    .with_description_box(DescriptionBoxMode::Side, 60, 5, 0);
    handler.popup.overlay.selected = Some(0);
    handler.screen.last_detail_layout = Some(detail_layout_at(7, 30, 25, 4));
    handler.screen.last_layout = None;

    let cleanup = reconfigure(&mut handler, false, DescriptionBoxMode::Side, false);

    assert_eq!(
        cleanup.detail,
        Some(detail_layout_at(7, 30, 25, 4)),
        "cleanup must clear the detail layout's rectangle",
    );
    let ticket = handler.overlay_write_ticket();
    assert!(
        ticket.cleanup_token.is_some(),
        "orphaned detail cleanup must be staged through the overlay write token",
    );
    handler.commit_overlay_write(ticket);
    assert!(
        handler.screen.last_detail_layout.is_none(),
        "detail layout must be released after the cleanup write is acknowledged",
    );
}

// ---- Terminal output ----

#[test]
fn test_terminal_output_dismisses_owned_popup_before_shell_bytes() {
    let mut handler = make_visible_handler(numbered_suggestions(3));
    let teardown = handler.handle_terminal_output(true, 0, NOW);
    assert!(!handler.popup.visible);
    assert!(handler.screen.last_layout.is_none());
    assert_eq!(
        teardown.and_then(|t| t.popup),
        Some(popup_layout()),
        "terminal output cleanup should clear the owned popup"
    );
}

#[test]
fn test_terminal_output_preserves_popup_within_grace_period() {
    let mut handler = make_visible_handler(numbered_suggestions(3));
    handler.screen.last_repaint_at = Some(NOW);
    let before_epoch = handler.output_epoch();

    let teardown = handler.handle_terminal_output(true, 0, NOW);

    assert!(handler.popup.visible, "grace period must keep the popup up");
    assert!(handler.screen.last_layout.is_some());
    assert!(
        teardown.is_none(),
        "no teardown cleanup within the repaint grace period"
    );
    assert!(handler.output_epoch() > before_epoch);
}

#[test]
fn test_terminal_output_tears_down_after_grace_expires() {
    let mut handler = make_visible_handler(numbered_suggestions(3));
    handler.screen.last_repaint_at = Some(NOW - 200);
    let teardown = handler.handle_terminal_output(true, 0, NOW);
    assert!(
        !handler.popup.visible,
        "expired grace must tear down the popup"
    );
    assert!(handler.screen.last_layout.is_none());
    assert!(teardown.is_some(), "teardown must clear the popup");
}

#[test]
fn grace_period_ends_at_its_last_millisecond() {
    let mut handler = make_visible_handler(numbered_suggestions(3));
    handler.screen.last_repaint_at = Some(NOW);
    assert!(handler.handle_terminal_output(true, 0, NOW + 149).is_none());
    assert!(handler.handle_terminal_output(true, 0, NOW + 150).is_some());
}

#[test]
fn test_display_dirty_terminal_output_bumps_epoch_without_owned_popup() {
    let mut handler = make_handler();
    let before_epoch = handler.output_epoch();
    assert!(handler.handle_terminal_output(true, 0, NOW).is_none());
    assert!(
        handler.output_epoch() > before_epoch,
        "display-changing PTY output must invalidate pending overlay buffers"
    );
}

#[test]
fn test_terminal_output_clears_feedback_only_layout_when_not_visible() {
    let mut handler = make_handler();
    handler.work.feedback = AsyncFeedback::Loading { spawned_at: NOW };
    handler.screen.last_layout = Some(popup_layout());

    let teardown = handler.handle_terminal_output(true, 0, NOW);

    assert_eq!(teardown.and_then(|t| t.popup), Some(popup_layout()));
    assert!(handler.screen.last_layout.is_none());
    assert!(matches!(handler.work.feedback, AsyncFeedback::Idle));
}

#[test]
fn test_terminal_scroll_resets_overlay_scroll_deficit_when_hidden() {
    let mut handler = make_handler();
    handler.screen.overlay_scroll_deficit = 3;
    assert!(handler.handle_terminal_output(false, 2, NOW).is_none());
    assert_eq!(handler.screen.overlay_scroll_deficit, 0);
}

#[test]
fn test_invalidate_overlay_scroll_deficit_clears_cached_value() {
    let mut handler = make_handler();
    handler.screen.overlay_scroll_deficit = 7;
    handler.invalidate_overlay_scroll_deficit();
    assert_eq!(handler.screen.overlay_scroll_deficit, 0);
}

#[test]
fn test_hidden_terminal_scroll_does_not_create_overlay_scroll_deficit() {
    let mut handler = make_handler();
    assert!(handler.handle_terminal_output(false, 2, NOW).is_none());
    assert_eq!(handler.screen.overlay_scroll_deficit, 0);
}

#[test]
fn output_keeps_a_requested_trigger() {
    let mut handler = make_visible_handler(numbered_suggestions(3));
    handler.trigger_requested = true;
    handler.handle_terminal_output(true, 0, NOW);
    assert!(handler.has_pending_trigger());
    assert!(!handler.has_overlay_ownership());
}

#[test]
fn silent_output_changes_nothing() {
    let mut handler = make_visible_handler(numbered_suggestions(3));
    let before = handler.screen;
    assert!(handler.handle_terminal_output(false, 0, NOW).is_none());
    assert_eq!(handler.screen, before);
    assert!(handler.popup.visible);
}

#[test]
fn resize_hides_the_popup_and_drops_the_deficit() {
    let mut handler = make_visible_handler(numbered_suggestions(3));
    handler.screen.overlay_scroll_deficit = 2;
    let teardown = handler.handle_resize().expect("a visible popup goes");
    assert_eq!(teardown.popup, Some(popup_layout()));
    assert!(!handler.popup.visible);
    assert_eq!(handler.screen.overlay_scroll_deficit, 0);
    assert!(make_handler().handle_resize().is_none());
}

// ---- Dismissing ----

#[test]
fn test_dismiss_clears_state() {
    let mut handler = make_visible_handler(vec![command_suggestion("test", None)]);
    let teardown = handler.dismiss();

    assert!(!handler.popup.visible);
    assert!(handler.popup.suggestions.is_empty());
    assert!(handler.screen.last_layout.is_some());
    let cleanup_ticket = handler.overlay_write_ticket();
    assert!(cleanup_ticket.cleanup_token.is_some());
    handler.commit_overlay_write(cleanup_ticket);
    assert!(handler.screen.last_layout.is_none());
    assert_eq!(teardown.popup, Some(popup_layout()));
}

#[test]
fn test_dismiss_clears_committed_detail_layout() {
    let mut handler = make_visible_handler(vec![command_suggestion("test", None)]);
    handler.screen.last_detail_layout = Some(detail_layout_at(5, 24, 30, 3));

    let teardown = handler.dismiss();

    assert_eq!(
        teardown.detail,
        Some(detail_layout_at(5, 24, 30, 3)),
        "dismiss must clear the committed detail rectangle"
    );
    let cleanup_ticket = handler.overlay_write_ticket();
    assert!(
        cleanup_ticket.cleanup_token.is_some(),
        "dismiss cleanup must remain pending until stdout write ack"
    );
    assert!(handler.screen.last_layout.is_some());
    assert!(handler.screen.last_detail_layout.is_some());

    handler.commit_overlay_write(cleanup_ticket);

    assert!(handler.screen.last_layout.is_none());
    assert!(handler.screen.last_detail_layout.is_none());
}

#[test]
fn test_dismiss_clears_dynamic_task_and_rx() {
    let mut handler = make_visible_handler(vec![command_suggestion("test", None)]);
    handler.work.dynamic_rx = true;
    handler.prime_dynamic_ctx_for_buffer(&ctx("git", &["checkout"], None, 2, ""));
    handler.seed_dynamic_task_noop();

    let teardown = handler.dismiss();

    assert!(teardown.abort_task, "the task in flight must be aborted");
    assert!(
        !handler.has_dynamic_task(),
        "dismiss must clear dynamic_task"
    );
    assert!(!handler.has_dynamic_rx(), "dismiss must clear dynamic_rx");
    assert!(
        handler.work.dynamic_ctx.is_none(),
        "dismiss must clear dynamic_ctx"
    );
}

#[test]
fn test_abort_dynamic_task_and_clear_ctx_clears_both_fields() {
    let mut handler = make_handler();
    handler.seed_dynamic_task_noop();
    handler.prime_dynamic_ctx_for_buffer(&ctx("git", &["checkout"], None, 2, ""));

    assert!(handler.abort_dynamic_task_and_clear_ctx());

    assert!(!handler.work.dynamic_task);
    assert!(handler.work.dynamic_ctx.is_none());
}

#[test]
fn aborting_the_task_keeps_the_site() {
    let mut handler = make_handler();
    handler.seed_dynamic_task_noop();
    handler.prime_dynamic_ctx_for_buffer(&ctx("git", &[], None, 1, ""));
    handler.begin_ask_ai_loading(NOW);
    assert!(handler.abort_dynamic_task());
    assert!(!handler.abort_dynamic_task());
    assert!(handler.work.dynamic_ctx.is_some());
    assert!(handler.feedback_kind().is_idle());
}

#[test]
fn answer_of_the_language_model_ends_loading() {
    let mut handler = make_visible_handler(numbered_suggestions(1));
    handler.begin_ask_ai_loading(NOW);
    assert!(handler.feedback_kind().is_loading());
    let teardown = handler.finish_ask_ai();
    assert_eq!(teardown.popup, Some(popup_layout()));
    assert!(handler.feedback_kind().is_idle());
}

// ---- Builders and getters ----

#[test]
fn builders_set_what_getters_read() {
    let slot = ProviderSlot { backfill: true };
    let mut handler = make_handler()
        .with_async_provider(slot)
        .with_delay_ms(7)
        .with_render_block_ms(9)
        .with_match_mode(MatchMode::Substring)
        .with_shell_kind(ShellKind::Bash)
        .with_popup_widths(11, 13)
        .with_feedback_dismiss_ms(17);
    assert!(handler.has_async_providers());
    assert_eq!(handler.delay_ms(), 7);
    assert_eq!(handler.render_block_ms(), 9);
    assert_eq!(handler.shell_kind(), ShellKind::Bash);
    assert_eq!(handler.settings.match_mode, MatchMode::Substring);
    assert_eq!(handler.settings.min_popup_width, 11);
    assert_eq!(handler.settings.max_popup_width, 13);
    assert_eq!(handler.settings.feedback_dismiss_ms, 17);
    handler.set_delay_ms(8);
    assert_eq!(handler.delay_ms(), 8);
    handler.set_async_providers(Vec::new());
    assert!(!handler.has_async_providers());
    handler.set_ask_ai_provider(true);
    assert!(handler.ask_ai_active());
    assert!(!handler.tab_accepts_top());
}

#[test]
fn new_handler_has_the_default_settings() {
    let limits = PopupLimits {
        max_visible: 10,
        min_width: 20,
        max_width: 80,
    };
    let handler = InputHandler::new(ShellKind::Zsh, limits, theme());
    assert_eq!(handler.delay_ms(), 150);
    assert_eq!(handler.render_block_ms(), 80);
    assert!(handler.auto_trigger_enabled());
    assert_eq!(handler.settings.feedback_dismiss_ms, 1200);
    assert_eq!(handler.settings.detail_box_mode, DescriptionBoxMode::Off);
    assert_eq!(handler.settings.keybindings, Keybindings::default());
    assert_eq!(handler.output_epoch(), 0);
}

#[test]
fn requests_are_set_taken_and_cleared() {
    let mut handler = make_handler();
    handler.trigger_requested = true;
    handler.clear_trigger_request();
    assert!(!handler.has_pending_trigger());
    handler.set_manual_trigger_stashed();
    assert!(handler.take_manual_trigger_stashed());
    handler.restore_dynamic_rx();
    assert!(handler.has_dynamic_rx());
    assert!(handler.take_dynamic_rx());
    assert!(!handler.take_dynamic_rx());
    handler.force_visible_for_test(numbered_suggestions(2));
    assert!(handler.is_visible());
    assert_eq!(texts(handler.current_suggestions()), vec!["item-0", "item-1"]);
    handler.set_visible(false);
    assert!(!handler.is_visible());
    handler.toggle_match_mode(NOW);
    handler.clear_mode_flash();
    assert_eq!(handler.mode_flash_deadline(), None);
    handler.input_model = BufferModel {
        buffer: "ls".into(),
        cursor: 2,
    };
    handler.reset_input_model();
    assert_eq!(handler.input_model.buffer, "");
}
