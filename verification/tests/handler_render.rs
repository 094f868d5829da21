use pty::feedback::AsyncFeedback;
use pty::handler::merge::ask_ai_sentinel;
use pty::handler::overlay::DetailLayout;
use pty::handler::overlay::DetailPosition;
use pty::handler::overlay::PopupLayout;
use pty::handler::render::DetailFit;
use pty::handler::render::Expiry;
use pty::handler::render::FeedbackKind;
use pty::handler::render::scrolled_detail_clear;
use pty::handler::state::DescriptionBoxMode;
use pty::handler::state::InputHandler;
use pty::handler::state::PopupLimits;
use pty::handler::state::PopupTheme;
use pty::handler::state::ShellKind;
use pty::model::Suggestion;
use pty::model::SuggestionKind;
use pty::model::SuggestionSource;

fn theme() -> PopupTheme {
    PopupTheme {
        borders: false,
        border_on: Vec::new(),
        show_provider_errors: false,
        index_hints: true,
        key_hints: true,
    }
}

fn bordered_theme() -> PopupTheme {
    PopupTheme {
        borders: true,
        ..theme()
    }
}

fn make_handler() -> InputHandler {
    let limits = PopupLimits {
        max_visible: 10,
        min_width: 20,
        max_width: 80,
    };
    InputHandler::new(ShellKind::Other, limits, theme()).with_render_block_ms(0)
}

fn popup_layout() -> PopupLayout {
    PopupLayout {
        start_row: 5,
        start_col: 0,
        width: 20,
        height: 1,
        scroll_deficit: 0,
    }
}

/// A visible popup with suggestions and a default layout.
fn make_visible_handler(suggestions: Vec<Suggestion>) -> InputHandler {
    let mut h = make_handler();
    h.popup.suggestions = suggestions;
    h.popup.visible = true;
    h.screen.last_layout = Some(popup_layout());
    h
}

fn numbered_suggestions(count: usize) -> Vec<Suggestion> {
    (0..count)
        .map(|n| command_suggestion(&format!("item-{n}"), None))
        .collect()
}

fn command_suggestion(text: &str, description: Option<&str>) -> Suggestion {
    Suggestion {
        text: text.to_string(),
        description: description.map(str::to_string),
        kind: SuggestionKind::Command,
        source: SuggestionSource::Commands,
        ..Default::default()
    }
}

fn provider_suggestion(text: &str) -> Suggestion {
    Suggestion {
        text: text.to_string(),
        kind: SuggestionKind::Subcommand,
        source: SuggestionSource::Provider,
        ..Default::default()
    }
}

/// A visible popup with a single, selected suggestion.
fn make_selected_handler(suggestion: Suggestion) -> InputHandler {
    let mut h = make_visible_handler(vec![suggestion]);
    h.popup.overlay.selected = Some(0);
    h
}

fn detail_layout_at(start_row: u16, start_col: u16, width: u16, height: u16) -> DetailLayout {
    DetailLayout {
        start_row,
        start_col,
        width,
        height,
        position: DetailPosition::SideRight,
    }
}

fn as_text(bytes: &[u8]) -> String {
    String::from_utf8_lossy(bytes).into_owned()
}

/// Paints the popup at a layout, and writes the bytes.
fn paint(handler: &mut InputHandler, layout: PopupLayout, detail: Option<DetailLayout>, now: u64) {
    handler.begin_render(now);
    handler.finish_render(layout, detail, now);
    let ticket = handler.overlay_write_ticket();
    handler.commit_overlay_write(ticket);
}

const NOW: u64 = 1_000_000;

/// The layout that a paint of the popup is given.
fn painted_layout() -> PopupLayout {
    PopupLayout {
        start_row: 6,
        start_col: 0,
        width: 40,
        height: 2,
        scroll_deficit: 0,
    }
}

/// Paints the popup and its description box, which finds room. Returns the row whose
/// description the box shows.
fn paint_with_detail(handler: &mut InputHandler, now: u64) -> Option<usize> {
    handler.begin_render(now);
    let plan = handler.begin_detail(painted_layout().height, now, true);
    let detail = plan.target.map(|idx| {
        handler.settle_detail(idx, DetailFit::Shown);
        detail_layout_at(6, 40, 60, 3)
    });
    handler.finish_render(painted_layout(), detail, now);
    let ticket = handler.overlay_write_ticket();
    handler.commit_overlay_write(ticket);
    plan.target
}

#[test]
fn build_popup_hints_excludes_ask_ai() {
    let mut handler = make_visible_handler(vec![
        command_suggestion("file-a", None),
        Suggestion {
            text: "Ask AI".to_string(),
            kind: SuggestionKind::AskAi,
            ..Default::default()
        },
        command_suggestion("cmd-b", None),
    ]);
    handler.popup.overlay.selected = Some(2);
    let hints = handler.build_popup_hints(NOW);
    assert_eq!(
        hints.index,
        Some((2, 2)),
        "Ask AI sentinel must not count toward index or total"
    );
}

#[test]
fn build_popup_hints_no_selection() {
    let handler = make_visible_handler(numbered_suggestions(5));
    assert_eq!(handler.popup.overlay.selected, None);
    let hints = handler.build_popup_hints(NOW);
    assert_eq!(
        hints.index,
        Some((1, 5)),
        "no selection reports 1-based index 1 of the full total"
    );
}

#[test]
fn build_popup_hints_key_label_uses_configured_keys() {
    let handler = make_visible_handler(numbered_suggestions(3));
    let hints = handler.build_popup_hints(NOW);
    let label = hints.key_label.expect("key hints default on");
    assert!(
        label.contains("<Tab> Accept"),
        "accept binding must be formatted: {label}"
    );
    assert!(
        label.contains("<Ctrl+R> Mode"),
        "toggle binding must be formatted: {label}"
    );
}

#[test]
fn build_popup_hints_disabled_by_theme() {
    let mut handler = make_visible_handler(numbered_suggestions(3));
    handler.settings.theme.index_hints = false;
    handler.settings.theme.key_hints = false;
    let hints = handler.build_popup_hints(NOW);
    assert!(hints.index.is_none(), "index hint disabled by theme");
    assert!(hints.key_label.is_none(), "key hint disabled by theme");
}

#[test]
fn hints_of_a_popup_without_completions_have_no_index() {
    let handler = make_visible_handler(vec![ask_ai_sentinel()]);
    assert_eq!(handler.build_popup_hints(NOW).index, None);
}

#[test]
fn render_for_flash_expiry_repaints_with_detail_box_off() {
    let handler = make_visible_handler(numbered_suggestions(5));
    assert!(
        handler.render_for_flash_expiry(),
        "flash expiry must repaint even when the detail box is off"
    );
    assert!(!make_handler().render_for_flash_expiry());
}

#[test]
fn test_render_at_clears_scrolled_old_detail_when_new_selection_has_no_detail() {
    let mut suggestions = numbered_suggestions(8);
    suggestions[0] = command_suggestion("checkout", Some("short"));
    let mut handler = make_visible_handler(suggestions)
        .with_popup_widths(20, 80)
        .with_description_box(DescriptionBoxMode::Side, 60, 5, 0);
    handler.popup.overlay.selected = Some(0);
    handler.screen.overlay_scroll_deficit = 4;
    handler.screen.last_layout = Some(PopupLayout {
        start_row: 19,
        start_col: 70,
        width: 10,
        height: 2,
        scroll_deficit: 4,
    });
    let old_detail = DetailLayout {
        start_row: 19,
        start_col: 30,
        width: 10,
        height: 2,
        position: DetailPosition::SideLeft,
    };
    handler.screen.last_detail_layout = Some(old_detail);
    let additional_scroll = 4;
    let shifted_row = old_detail.start_row - additional_scroll;
    let layout = PopupLayout {
        start_row: 15,
        start_col: 0,
        width: 20,
        height: 9,
        scroll_deficit: 8,
    };

    handler.begin_render(NOW);
    let clears = handler.render_clears(additional_scroll);
    handler.begin_detail(layout.height, NOW, false);
    handler.settle_detail(0, DetailFit::Inline);
    handler.finish_render(layout, None, NOW);
    let output = as_text(&scrolled_detail_clear(clears.scrolled_detail, layout, None));

    assert_eq!(clears.popup, None);
    assert_eq!(
        clears.detail, None,
        "stale clear at pre-scroll detail coordinates must still be skipped"
    );
    assert!(!output.contains("\x1b[20;31H"));
    let shifted_clear = format!("\x1b[{};{}H", shifted_row + 1, old_detail.start_col + 1);
    assert!(
        output.contains(&shifted_clear),
        "old detail rectangle must be cleared at its post-scroll coordinates: {output:?}"
    );
    let ticket = handler.overlay_write_ticket();
    handler.commit_overlay_write(ticket);
    assert!(handler.screen.last_detail_layout.is_none());
}

#[test]
fn scrolled_detail_clear_spares_popup_and_new_detail() {
    let scrolled = DetailLayout {
        start_row: 18,
        start_col: 10,
        width: 60,
        height: 2,
        position: DetailPosition::SideLeft,
    };
    let layout = PopupLayout {
        start_row: 15,
        start_col: 0,
        width: 30,
        height: 9,
        scroll_deficit: 8,
    };
    let detail = detail_layout_at(16, 30, 30, 5);
    let output = as_text(&scrolled_detail_clear(Some(scrolled), layout, Some(detail)));
    let spaces = " ".repeat(10);
    assert_eq!(
        output,
        format!("\x1b7\x1b[19;61H{spaces}\x1b[20;61H{spaces}\x1b8")
    );
    assert!(scrolled_detail_clear(None, layout, Some(detail)).is_empty());
}

#[test]
fn scrolling_render_skips_old_clears() {
    let mut handler = make_visible_handler(numbered_suggestions(8));
    handler.screen.last_detail_layout = Some(detail_layout_at(5, 30, 10, 2));
    let staying = handler.render_clears(0);
    assert_eq!(staying.popup, Some(popup_layout()));
    assert_eq!(staying.detail, Some(detail_layout_at(5, 30, 10, 2)));
    assert_eq!(staying.scrolled_detail, None);
    let scrolling = handler.render_clears(2);
    assert_eq!(scrolling.popup, None);
    assert_eq!(scrolling.detail, None);
    assert_eq!(
        scrolling.scrolled_detail,
        Some(detail_layout_at(3, 30, 10, 2))
    );
}

#[test]
fn test_render_at_stages_detail_layout_until_overlay_write_ack() {
    let description = "alpha beta gamma delta epsilon zeta eta theta iota kappa lambda mu";
    let mut handler = make_selected_handler(command_suggestion("checkout", Some(description)))
        .with_popup_widths(20, 40)
        .with_description_box(DescriptionBoxMode::Side, 60, 5, 0);

    handler.begin_render(NOW);
    assert_eq!(handler.begin_detail(2, NOW, true).target, Some(0));
    handler.settle_detail(0, DetailFit::Shown);
    handler.finish_render(painted_layout(), Some(detail_layout_at(6, 40, 60, 3)), NOW);

    assert!(
        handler.screen.last_detail_layout.is_none(),
        "staged render must not commit detail layout before stdout write succeeds"
    );
    let ticket = handler.overlay_write_ticket();
    handler.commit_overlay_write(ticket);
    let layout = handler
        .screen
        .last_detail_layout
        .expect("acknowledged render should retain detail layout");
    assert_eq!(layout.position, DetailPosition::SideRight);
}

fn two_described(debounce_ms: u16) -> InputHandler {
    let desc0 = "ALPHADETAIL alpha beta gamma delta epsilon zeta eta theta iota kappa ALPHATAIL";
    let desc1 = "BRAVODETAIL alpha beta gamma delta epsilon zeta eta theta iota kappa BRAVOTAIL";
    let mut handler = make_visible_handler(vec![
        command_suggestion("alpha", Some(desc0)),
        command_suggestion("bravo", Some(desc1)),
    ])
    .with_popup_widths(20, 40)
    .with_description_box(DescriptionBoxMode::Side, 60, 5, debounce_ms);
    handler.popup.overlay.selected = Some(0);
    handler
}

#[test]
fn test_detail_box_selection_debounce_holds_then_catches_up() {
    let mut handler = two_described(200);
    assert_eq!(
        paint_with_detail(&mut handler, NOW),
        Some(0),
        "setup should render suggestion 0 detail"
    );
    assert_eq!(handler.popup.detail_debounce.displayed_idx, Some(0));

    handler.popup.overlay.selected = Some(1);
    assert_eq!(
        paint_with_detail(&mut handler, NOW),
        Some(0),
        "in-window render should keep the old detail"
    );
    assert!(
        handler.popup.detail_debounce.pending,
        "in-window render should schedule a detail redraw wakeup"
    );

    handler.clear_detail_debounce_pending();
    assert!(handler.render_for_detail_redraw());
    assert_eq!(
        paint_with_detail(&mut handler, NOW + 250),
        Some(1),
        "detail redraw should emit the settled selection detail"
    );
    assert_eq!(handler.popup.detail_debounce.displayed_idx, Some(1));
}

#[test]
fn test_detail_box_debounce_wakeup_notifies_and_redraws_selection() {
    let mut handler = two_described(5);
    paint_with_detail(&mut handler, NOW);
    assert_eq!(handler.popup.detail_debounce.displayed_idx, Some(0));

    handler.popup.overlay.selected = Some(1);
    handler.begin_render(NOW + 1);
    let plan = handler.begin_detail(2, NOW + 1, true);
    assert_eq!(
        plan.wake_after,
        Some(5),
        "selection-change render should set a timer"
    );
    assert!(
        handler.popup.detail_debounce.pending,
        "selection-change render should arm the debounce wakeup"
    );
    assert_eq!(
        handler.begin_detail(2, NOW + 2, true).wake_after,
        None,
        "one timer is in flight already"
    );

    assert!(handler.detail_timer_fired());
    assert_eq!(
        paint_with_detail(&mut handler, NOW + 6),
        Some(1),
        "debounce wakeup redraw should emit the settled selection detail"
    );
    assert_eq!(handler.popup.detail_debounce.displayed_idx, Some(1));
}

#[test]
fn test_detail_box_debounce_zero_repaints_selection_immediately() {
    let mut handler = two_described(0);
    assert_eq!(paint_with_detail(&mut handler, NOW), Some(0));

    handler.popup.overlay.selected = Some(1);
    assert_eq!(
        paint_with_detail(&mut handler, NOW),
        Some(1),
        "debounce disabled should render item 1 detail immediately"
    );
    assert!(
        !handler.popup.detail_debounce.pending,
        "debounce disabled must not arm a debounce wakeup"
    );
}

#[test]
fn test_render_at_description_box_off_skips_detail_box() {
    let description = "alpha beta gamma delta epsilon zeta eta theta iota kappa lambda mu";
    let mut handler = make_selected_handler(command_suggestion("checkout", Some(description)))
        .with_popup_widths(20, 40)
        .with_description_box(DescriptionBoxMode::Off, 60, 5, 0);
    assert_eq!(
        paint_with_detail(&mut handler, NOW),
        None,
        "off mode must not show a detail box"
    );
    assert!(handler.screen.last_detail_layout.is_none());
}

#[test]
fn test_render_at_skips_detail_box_when_inline_description_fits() {
    let mut handler = make_selected_handler(command_suggestion("checkout", Some("short")))
        .with_popup_widths(20, 80)
        .with_description_box(DescriptionBoxMode::Side, 60, 5, 0);
    handler.begin_render(NOW);
    handler.begin_detail(2, NOW, true);
    handler.settle_detail(0, DetailFit::Inline);
    handler.finish_render(painted_layout(), None, NOW);
    assert!(handler.screen.last_detail_layout.is_none());
    assert_eq!(handler.popup.detail_debounce.displayed_idx, Some(0));
}

#[test]
fn test_render_at_clears_previous_detail_when_selection_no_longer_needs_box() {
    let mut handler = make_selected_handler(command_suggestion("checkout", Some("short")))
        .with_popup_widths(20, 80)
        .with_description_box(DescriptionBoxMode::Side, 60, 5, 0);
    handler.screen.last_detail_layout = Some(detail_layout_at(5, 50, 20, 2));

    handler.begin_render(NOW);
    assert_eq!(
        handler.render_clears(0).detail,
        Some(detail_layout_at(5, 50, 20, 2)),
        "old detail layout should be cleared when no new detail is needed"
    );
    handler.begin_detail(2, NOW, true);
    handler.settle_detail(0, DetailFit::Inline);
    handler.finish_render(painted_layout(), None, NOW);
    let ticket = handler.overlay_write_ticket();
    handler.commit_overlay_write(ticket);
    assert!(handler.screen.last_detail_layout.is_none());
}

#[test]
fn test_settled_selection_without_description_does_not_repaint_old_detail() {
    let old_desc = format!("{}UNIQUEDETAILMARKER", "alpha ".repeat(20));
    let mut handler = make_visible_handler(vec![
        command_suggestion("old", Some(&old_desc)),
        command_suggestion("new", None),
    ])
    .with_popup_widths(20, 40)
    .with_description_box(DescriptionBoxMode::Side, 60, 5, 0);
    handler.popup.overlay.selected = Some(0);
    assert_eq!(paint_with_detail(&mut handler, NOW), Some(0));
    assert_eq!(handler.popup.detail_debounce.displayed_idx, Some(0));

    handler.settings.detail_box_debounce_ms = 80;
    handler.popup.overlay.selected = Some(1);
    handler.popup.detail_debounce.last_change_at = Some(NOW - 100);
    assert_eq!(
        paint_with_detail(&mut handler, NOW),
        None,
        "settled no-description selection must not render old detail text"
    );
    assert_eq!(
        paint_with_detail(&mut handler, NOW),
        None,
        "later repaint must not debounce back to the previous detail text"
    );
    assert_eq!(handler.popup.detail_debounce.displayed_idx, Some(1));
}

#[test]
fn a_description_without_room_counts_for_the_selected_row_only() {
    let mut handler = two_described(0);
    handler.settle_detail(0, DetailFit::NoRoom);
    assert_eq!(handler.popup.detail_debounce.displayed_idx, Some(0));
    handler.settle_detail(1, DetailFit::NoRoom);
    assert_eq!(handler.popup.detail_debounce.displayed_idx, Some(0));
    handler.popup.overlay.selected = None;
    handler.settle_detail(1, DetailFit::NoRoom);
    assert_eq!(handler.popup.detail_debounce.displayed_idx, Some(0));
}

#[test]
fn no_timer_is_set_without_a_runtime() {
    let mut handler = two_described(200);
    paint_with_detail(&mut handler, NOW);
    handler.popup.overlay.selected = Some(1);
    let plan = handler.begin_detail(2, NOW, false);
    assert_eq!(plan.target, Some(0));
    assert_eq!(plan.wake_after, None);
    assert!(!handler.popup.detail_debounce.pending);
}

#[test]
fn description_box_stands_below_the_header_of_a_popup_without_borders() {
    let handler = make_visible_handler(numbered_suggestions(2));
    let hints = handler.build_popup_hints(NOW);
    assert_eq!(handler.detail_row_offset(&hints), 1);
    let handler = make_visible_handler(numbered_suggestions(2)).with_theme(bordered_theme());
    assert_eq!(handler.detail_row_offset(&hints), 0);
}

#[test]
fn test_render_at_skips_old_clear_when_feedback_only_render_scrolls() {
    let mut handler = make_handler();
    handler.screen.overlay_scroll_deficit = 4;
    handler.screen.last_layout = Some(PopupLayout {
        start_row: 19,
        start_col: 70,
        width: 10,
        height: 1,
        scroll_deficit: 4,
    });
    handler.work.feedback = AsyncFeedback::Loading { spawned_at: NOW };

    handler.begin_render(NOW);
    assert_eq!(
        handler.render_clears(0).popup,
        None,
        "stale feedback-only clear at old popup coordinates must be skipped"
    );
    let layout = PopupLayout {
        start_row: 19,
        start_col: 0,
        width: 20,
        height: 1,
        scroll_deficit: 5,
    };
    handler.finish_render(layout, None, NOW);
    let ticket = handler.overlay_write_ticket();
    handler.commit_overlay_write(ticket);
    assert_eq!(
        handler
            .screen
            .last_layout
            .expect("feedback layout")
            .scroll_deficit,
        handler.screen.overlay_scroll_deficit
    );
}

#[test]
fn test_render_at_bumps_output_epoch_for_proxy_stale_write_gate() {
    let mut handler = make_visible_handler(numbered_suggestions(3));
    let before_epoch = handler.output_epoch();
    paint(&mut handler, painted_layout(), None, NOW);
    assert!(handler.output_epoch() > before_epoch);
}

#[test]
fn test_render_at_commits_layout_only_after_overlay_write_ack() {
    let mut handler = make_visible_handler(numbered_suggestions(8));
    handler.screen.overlay_scroll_deficit = 4;
    handler.screen.last_layout = Some(PopupLayout {
        start_row: 19,
        start_col: 70,
        width: 10,
        height: 2,
        scroll_deficit: 4,
    });

    handler.begin_render(NOW);
    handler.finish_render(
        PopupLayout {
            start_row: 15,
            start_col: 0,
            width: 20,
            height: 8,
            scroll_deficit: 8,
        },
        None,
        NOW,
    );

    assert_eq!(
        handler.screen.overlay_scroll_deficit, 4,
        "staged render must not commit scroll deficit before stdout write succeeds"
    );
    let layout = handler.screen.last_layout.expect("committed old layout");
    assert_eq!(layout.start_row, 19);
    assert_eq!(layout.start_col, 70);
    assert_eq!(layout.scroll_deficit, 4);

    let ticket = handler.overlay_write_ticket();
    handler.commit_overlay_write(ticket);

    let layout = handler.screen.last_layout.expect("committed new layout");
    assert_eq!(handler.screen.overlay_scroll_deficit, layout.scroll_deficit);
    assert_ne!(
        layout.start_col, 70,
        "acknowledged render should replace the previous committed layout"
    );
}

// ---- Expiry of feedback ----

#[test]
fn test_clear_expired_feedback_returns_false_when_idle() {
    let mut handler = make_visible_handler(Vec::new()).with_feedback_dismiss_ms(1200);
    handler.work.feedback = AsyncFeedback::Idle;
    assert!(matches!(handler.clear_expired_feedback(NOW), Expiry::Kept));
}

#[test]
fn test_clear_expired_feedback_returns_false_when_loading() {
    let mut handler = make_visible_handler(Vec::new()).with_feedback_dismiss_ms(1200);
    handler.work.feedback = AsyncFeedback::Loading { spawned_at: NOW };
    assert!(matches!(handler.clear_expired_feedback(NOW), Expiry::Kept));
}

#[test]
fn test_clear_expired_feedback_returns_false_when_dismiss_disabled() {
    let mut handler = make_visible_handler(Vec::new()).with_feedback_dismiss_ms(0);
    handler.work.feedback = AsyncFeedback::Empty {
        since: NOW - 10_000,
    };
    assert!(matches!(handler.clear_expired_feedback(NOW), Expiry::Kept));
}

#[test]
fn test_clear_expired_feedback_returns_false_when_not_yet_expired() {
    let mut handler = make_visible_handler(Vec::new()).with_feedback_dismiss_ms(10_000);
    handler.work.feedback = AsyncFeedback::Empty { since: NOW };
    assert!(matches!(handler.clear_expired_feedback(NOW), Expiry::Kept));
    assert!(handler.popup.visible);
}

#[test]
fn test_clear_expired_feedback_dismisses_on_expired_empty() {
    let mut handler = make_visible_handler(Vec::new()).with_feedback_dismiss_ms(1200);
    handler.work.feedback = AsyncFeedback::Empty { since: NOW - 2000 };
    assert!(matches!(
        handler.clear_expired_feedback(NOW),
        Expiry::Dismissed(_)
    ));
    assert!(!handler.popup.visible);
    assert!(matches!(handler.work.feedback, AsyncFeedback::Idle));
}

#[test]
fn test_clear_expired_feedback_partial_error_with_suggestions_demotes_to_idle() {
    let mut handler =
        make_visible_handler(vec![provider_suggestion("main")]).with_feedback_dismiss_ms(1200);
    handler.work.feedback = AsyncFeedback::PartialError {
        failed: vec!["git script".into()],
        since: NOW - 2000,
    };
    assert!(matches!(
        handler.clear_expired_feedback(NOW),
        Expiry::IndicatorCleared(_)
    ));
    assert!(handler.popup.visible, "popup must stay visible");
    assert_eq!(
        handler.popup.suggestions.len(),
        1,
        "suggestions must survive"
    );
    assert!(matches!(handler.work.feedback, AsyncFeedback::Idle));
}

#[test]
fn test_clear_expired_feedback_bordered_partial_error_paints_displaced_border_row() {
    let mut handler =
        make_visible_handler(vec![provider_suggestion("main")]).with_feedback_dismiss_ms(1200);
    handler.settings.theme = bordered_theme();
    handler.screen.last_layout = Some(PopupLayout {
        start_row: 5,
        start_col: 10,
        width: 20,
        height: 4,
        scroll_deficit: 0,
    });
    handler.work.feedback = AsyncFeedback::PartialError {
        failed: vec!["git script".into()],
        since: NOW - 2000,
    };

    let painted = match handler.clear_expired_feedback(NOW) {
        Expiry::IndicatorCleared(bytes) => as_text(&bytes),
        other => panic!("only the indicator goes, got {other:?}"),
    };
    assert!(matches!(handler.work.feedback, AsyncFeedback::Idle));
    assert!(
        painted.contains("\x1b[8;11H"),
        "indicator row must be addressed: {painted:?}"
    );
    assert!(
        painted.contains("\x1b[9;11H"),
        "displaced bottom-border row must be cleared: {painted:?}"
    );
    assert!(
        painted.contains('╰') && painted.contains('╯'),
        "bottom border must be redrawn at the new position: {painted:?}"
    );

    let shrunk = handler.screen.last_layout.expect("layout retained");
    assert_eq!(shrunk.height, 3);
    assert_eq!((shrunk.start_row, shrunk.start_col), (5, 10));
}

#[test]
fn cleared_indicator_has_exact_bytes() {
    let mut handler =
        make_visible_handler(vec![provider_suggestion("main")]).with_feedback_dismiss_ms(1200);
    handler.settings.theme = PopupTheme {
        border_on: b"\x1b[2m".to_vec(),
        ..bordered_theme()
    };
    handler.screen.last_layout = Some(PopupLayout {
        start_row: 1,
        start_col: 2,
        width: 4,
        height: 3,
        scroll_deficit: 0,
    });
    handler.work.feedback = AsyncFeedback::PartialError {
        failed: vec!["git script".into()],
        since: NOW - 1200,
    };
    match handler.clear_expired_feedback(NOW) {
        Expiry::IndicatorCleared(bytes) => assert_eq!(
            as_text(&bytes),
            "\x1b[s\x1b[3;3H    \x1b[4;3H    \x1b[3;3H\x1b[2m╰──╯\x1b[0m\x1b[u"
        ),
        other => panic!("only the indicator goes, got {other:?}"),
    }
}

#[test]
fn expired_error_dismisses_even_with_rows() {
    let mut handler = make_visible_handler(numbered_suggestions(1)).with_feedback_dismiss_ms(1200);
    handler.work.feedback = AsyncFeedback::Error {
        failed: vec!["git script".into()],
        since: NOW - 1200,
    };
    assert!(matches!(
        handler.clear_expired_feedback(NOW - 1),
        Expiry::Kept
    ));
    assert!(matches!(
        handler.clear_expired_feedback(NOW),
        Expiry::Dismissed(_)
    ));
}

// ---- The indicator row ----

#[test]
fn test_current_feedback_kind_redacts_provider_when_disabled() {
    let mut handler = make_handler();
    handler.settings.theme.show_provider_errors = false;
    handler.work.feedback = AsyncFeedback::Error {
        failed: vec!["git script".into()],
        since: NOW,
    };
    match handler.current_feedback_kind(NOW) {
        FeedbackKind::Error { provider } => {
            assert_eq!(provider, "", "provider must be redacted");
        }
        other => panic!("expected Error, got {other:?}"),
    }
}

#[test]
fn test_current_feedback_kind_surfaces_provider_when_enabled() {
    let mut handler = make_handler();
    handler.settings.theme.show_provider_errors = true;
    handler.work.feedback = AsyncFeedback::Error {
        failed: vec!["git script".into()],
        since: NOW,
    };
    match handler.current_feedback_kind(NOW) {
        FeedbackKind::Error { provider } => assert_eq!(provider, "git script"),
        other => panic!("expected Error, got {other:?}"),
    }
}

#[test]
fn test_current_feedback_kind_multi_failed_falls_through_to_partial_error() {
    let mut handler = make_handler();
    handler.work.feedback = AsyncFeedback::Error {
        failed: vec!["a".into(), "b".into(), "c".into()],
        since: NOW,
    };
    match handler.current_feedback_kind(NOW) {
        FeedbackKind::PartialError { providers } => assert_eq!(providers, 3),
        other => panic!("expected PartialError, got {other:?}"),
    }
}

#[test]
fn test_current_feedback_kind_partial_error_clamps_at_u8_max() {
    let mut handler = make_handler();
    handler.work.feedback = AsyncFeedback::PartialError {
        failed: (0..300).map(|i| format!("p{i}")).collect(),
        since: NOW,
    };
    match handler.current_feedback_kind(NOW) {
        FeedbackKind::PartialError { providers } => assert_eq!(providers, u8::MAX),
        other => panic!("expected PartialError, got {other:?}"),
    }
}

#[test]
fn loading_frames_turn_every_80_milliseconds() {
    let mut handler = make_handler();
    assert_eq!(handler.current_feedback_kind(NOW), FeedbackKind::Hidden);
    handler.work.feedback = AsyncFeedback::Loading { spawned_at: NOW };
    for (after, frame) in [(0, 0), (79, 0), (80, 1), (799, 9), (800, 0)] {
        assert_eq!(
            handler.current_feedback_kind(NOW + after),
            FeedbackKind::Loading { frame }
        );
    }
    handler.work.feedback = AsyncFeedback::Empty { since: NOW };
    assert_eq!(handler.current_feedback_kind(NOW), FeedbackKind::Empty);
}

#[test]
fn indicator_alone_is_painted_over_a_popup_only() {
    let mut handler = make_visible_handler(numbered_suggestions(1));
    let epoch = handler.output_epoch();
    let (layout, feedback, hints) = handler
        .render_indicator_only(NOW)
        .expect("a popup is on the screen");
    assert_eq!(layout, popup_layout());
    assert_eq!(feedback, FeedbackKind::Hidden);
    assert_eq!(hints.index, Some((1, 1)));
    assert!(handler.output_epoch() > epoch);
    assert!(make_handler().render_indicator_only(NOW).is_none());
}

// ---- Painting the description box again ----

#[test]
fn test_render_for_detail_redraw_noop_when_invisible() {
    let handler = make_handler().with_description_box(DescriptionBoxMode::Side, 60, 5, 0);
    assert!(
        !handler.render_for_detail_redraw(),
        "no-op when handler is not visible"
    );
}

#[test]
fn test_render_for_detail_redraw_noop_when_mode_off() {
    let mut handler = make_visible_handler(vec![command_suggestion(
        "alpha",
        Some("ALPHADESC alpha beta gamma delta epsilon"),
    )]);
    handler.popup.overlay.selected = Some(0);
    assert!(
        !handler.render_for_detail_redraw(),
        "no-op when description_box mode is Off"
    );
}

#[test]
fn test_render_for_detail_redraw_noop_when_selection_unchanged() {
    let mut handler = make_visible_handler(vec![command_suggestion(
        "alpha",
        Some("ALPHADESC alpha beta gamma delta epsilon"),
    )])
    .with_description_box(DescriptionBoxMode::Side, 60, 5, 0);
    handler.popup.overlay.selected = Some(0);
    handler.popup.detail_debounce.displayed_idx = Some(0);
    assert!(
        !handler.render_for_detail_redraw(),
        "no-op when displayed idx already matches selected"
    );
}
