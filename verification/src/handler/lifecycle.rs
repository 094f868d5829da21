//! What happens to the popup from outside: configuration changes, terminal output,
//! resizes, and answers of the language model.

use vstd::prelude::*;
use vstd::string::StrSliceExecFns;

use crate::feedback::AsyncFeedback;
use crate::feedback::Feedback;
use crate::handler::accept::backspaced;
use crate::handler::accept::lemma_backspaced;
use crate::handler::accept::lemma_typed_at;
use crate::handler::accept::typed_at;
use crate::handler::keys::Keybindings;
use crate::handler::keys::utf8_bytes;
use crate::handler::overlay::push_repeated;
use crate::handler::overlay::repeated;
use crate::handler::screen::CleanupScope;
use crate::handler::screen::Screen;
use crate::handler::state::AsyncWork;
use crate::handler::state::DescriptionBoxMode;
use crate::handler::state::DetailDebounceState;
use crate::handler::state::elapsed;
use crate::handler::state::elapsed_ms;
use crate::handler::state::HandlerState;
use crate::handler::state::InputHandler;
use crate::handler::state::Popup;
use crate::handler::state::PopupState;
use crate::handler::state::PopupTheme;
use crate::handler::state::Settings;
use crate::handler::state::Teardown;
use crate::handler::state::WorkState;
use crate::model::TerminalSnapshot;
use crate::predict::BufferModel;
use crate::text::lemma_utf8_lacks_ascii;

verus! {

/// How long after a repaint display-changing output counts as the shell echoing the line.
/// Covers shells that redraw the line in several batches per keystroke.
pub const REPAINT_GRACE_MS: u64 = 150;

impl HandlerState {
    /// Automatic triggers are being switched off.
    pub open spec fn stops_triggers(self, settings: Settings) -> bool {
        self.settings.auto_trigger && !settings.auto_trigger
    }

    /// The visible popup goes away with the automatic triggers.
    pub open spec fn hides(self, settings: Settings) -> bool {
        self.stops_triggers(settings) && self.popup.visible
    }

    /// The description box is being switched off.
    pub open spec fn stops_detail(self, settings: Settings) -> bool {
        self.settings.detail_box_mode != DescriptionBoxMode::Off && settings.detail_box_mode
            == DescriptionBoxMode::Off
    }

    /// What new settings clear on the screen: everything, the description box alone, or
    /// nothing.
    pub open spec fn cleared_by(self, settings: Settings) -> Option<CleanupScope> {
        if self.hides(settings) && self.screen.shows() {
            Some(CleanupScope::MainAndDetail)
        } else if self.stops_detail(settings) && self.screen.last_detail_layout is Some {
            Some(CleanupScope::DetailOnly)
        } else {
            None
        }
    }

    /// With new settings.
    pub open spec fn reconfigured(self, settings: Settings) -> HandlerState {
        HandlerState {
            settings,
            screen: match self.cleared_by(settings) {
                Some(scope) => self.screen.bumped().staged(scope),
                None => self.screen,
            },
            popup: if self.hides(settings) {
                PopupState::closed()
            } else if self.stops_detail(settings) {
                PopupState { detail_debounce: DetailDebounceState::fresh(), ..self.popup }
            } else {
                self.popup
            },
            work: if self.stops_triggers(settings) {
                WorkState::idle()
            } else {
                self.work
            },
            trigger_requested: self.trigger_requested && !self.stops_triggers(settings),
            ..self
        }
    }

    /// The shell is still echoing what the last repaint was made over.
    pub open spec fn within_grace(self, now: u64) -> bool {
        match self.screen.last_repaint_at {
            Some(at) => elapsed(at, now) < REPAINT_GRACE_MS,
            None => false,
        }
    }

    /// Output of the shell takes the popup down.
    pub open spec fn yields_to_output(self, display_dirty: bool, now: u64) -> bool {
        display_dirty && !self.within_grace(now) && self.owns_overlay()
    }

    /// What output of the shell does to the screen, whatever becomes of the popup.
    pub open spec fn overwritten(self, display_dirty: bool, viewport_scrolls: u16) -> HandlerState {
        let screen = if display_dirty || viewport_scrolls > 0 {
            self.screen.bumped()
        } else {
            self.screen
        };
        if viewport_scrolls > 0 {
            HandlerState {
                fingerprint: None,
                screen: Screen { overlay_scroll_deficit: 0, ..screen },
                ..self
            }
        } else {
            HandlerState { screen, ..self }
        }
    }

    /// After output of the shell.
    pub open spec fn after_output(
        self,
        display_dirty: bool,
        viewport_scrolls: u16,
        now: u64,
    ) -> HandlerState {
        let over = self.overwritten(display_dirty, viewport_scrolls);
        if self.yields_to_output(display_dirty, now) {
            let down = HandlerState { screen: over.screen.bumped(), ..over }.torn_down(true);
            HandlerState { screen: down.screen.committed(down.screen.ticket_of()), ..down }
        } else {
            over
        }
    }

    /// After the terminal was resized: the scroll deficit was relative to the old screen.
    pub open spec fn resized(self) -> HandlerState {
        let down = if self.popup.visible {
            self.dismissed()
        } else {
            self
        };
        HandlerState { screen: Screen { overlay_scroll_deficit: 0, ..down.screen }, ..down }
    }
}

/// The bytes that replace the command line up to the cursor by a response: one deletion
/// per character, then the response.
pub open spec fn replacing_bytes(term: TerminalSnapshot, response: Seq<char>) -> Seq<u8> {
    let deleted = if term.buffer_cursor < term.line().len() {
        term.buffer_cursor as int
    } else {
        term.line().len() as int
    };
    repeated(0x7F, deleted) + vstd::utf8::encode_utf8(response)
}

/// The cursor as far as it lies within the line.
pub open spec fn cursor_within(cursor: int, line: Seq<char>) -> int {
    if cursor < line.len() {
        cursor
    } else {
        line.len() as int
    }
}

/// The cursor as far as it lies within the line.
pub fn cursor_in_line(cursor: usize, line: &str) -> (at: usize)
    ensures
        at == cursor_within(cursor as int, line@),
{
    let len: usize = line.unicode_len();
    if cursor < len {
        cursor
    } else {
        len
    }
}

impl InputHandler {
    /// Takes over new settings at runtime. Switching automatic triggers off also drops
    /// what is requested or running but not shown yet.
    ///
    /// Returns what is to be cleared on the screen and aborted.
    pub fn update_config(
        &mut self,
        theme: PopupTheme,
        keybindings: Keybindings,
        max_visible: usize,
        feedback_dismiss_ms: u16,
        auto_trigger: bool,
        min_popup_width: u16,
        max_popup_width: u16,
        detail_box_mode: DescriptionBoxMode,
        detail_box_max_width: u16,
        detail_box_lines: u16,
        detail_box_debounce_ms: u16,
        render_block_ms: u64,
        tab_accepts_top: bool,
    ) -> (cleanup: Teardown)
        ensures
            ({
                let settings = Settings {
                    theme,
                    keybindings,
                    max_visible,
                    feedback_dismiss_ms,
                    auto_trigger,
                    min_popup_width,
                    max_popup_width,
                    detail_box_mode,
                    detail_box_max_width,
                    detail_box_lines,
                    detail_box_debounce_ms: detail_box_debounce_ms as u64,
                    render_block_ms,
                    tab_accepts_top,
                    ..old(self)@.settings
                };
                let before = old(self)@;
                &&& final(self)@ == before.reconfigured(settings)
                &&& cleanup.popup == (if before.cleared_by(settings) == Some(
                    CleanupScope::MainAndDetail,
                ) {
                    before.screen.last_layout
                } else {
                    None
                })
                &&& cleanup.detail == (if before.cleared_by(settings) is Some {
                    before.screen.last_detail_layout
                } else {
                    None
                })
                &&& cleanup.abort_task == (before.stops_triggers(settings)
                    && before.work.dynamic_task)
            }),
            final(self).wf() == old(self).wf(),
    {
        let mut cleanup = Teardown { popup: None, detail: None, abort_task: false };
        let mut scope: Option<CleanupScope> = None;
        if self.settings.auto_trigger && !auto_trigger {
            if self.popup.visible {
                if self.screen.last_layout.is_some() || self.screen.last_detail_layout.is_some() {
                    cleanup.popup = self.screen.last_layout;
                    cleanup.detail = self.screen.last_detail_layout;
                    scope = Some(CleanupScope::MainAndDetail);
                }
                self.popup = Popup::new();
            }
            cleanup.abort_task = self.work.dynamic_task;
            self.work = AsyncWork::new();
            self.trigger_requested = false;
        }
        if self.settings.detail_box_mode != DescriptionBoxMode::Off && detail_box_mode
            == DescriptionBoxMode::Off {
            if scope.is_none() && self.screen.last_detail_layout.is_some() {
                cleanup.detail = self.screen.last_detail_layout;
                scope = Some(CleanupScope::DetailOnly);
            }
            self.reset_detail_debounce_state();
        }
        if let Some(scope) = scope {
            self.bump_output_epoch();
            self.screen.stage_cleanup(scope);
        }
        self.settings.theme = theme;
        self.settings.keybindings = keybindings;
        self.settings.max_visible = max_visible;
        self.settings.feedback_dismiss_ms = feedback_dismiss_ms;
        self.settings.auto_trigger = auto_trigger;
        self.settings.min_popup_width = min_popup_width;
        self.settings.max_popup_width = max_popup_width;
        self.settings.detail_box_mode = detail_box_mode;
        self.settings.detail_box_max_width = detail_box_max_width;
        self.settings.detail_box_lines = detail_box_lines;
        self.settings.detail_box_debounce_ms = detail_box_debounce_ms as u64;
        self.settings.render_block_ms = render_block_ms;
        self.settings.tab_accepts_top = tab_accepts_top;
        cleanup
    }

    /// The shell has written to the terminal. Within the grace period after a repaint that
    /// is the shell echoing the keystroke, and the popup stays.
    ///
    /// Returns what is to be cleared, if the popup goes. Its cleanup counts as written.
    pub fn handle_terminal_output(
        &mut self,
        display_dirty: bool,
        viewport_scrolls: u16,
        now: u64,
    ) -> (teardown: Option<Teardown>)
        ensures
            final(self)@ == old(self)@.after_output(display_dirty, viewport_scrolls, now),
            teardown == (if old(self)@.yields_to_output(display_dirty, now) {
                Some(old(self)@.teardown())
            } else {
                None
            }),
            final(self).wf() == old(self).wf(),
    {
        if display_dirty || viewport_scrolls > 0 {
            self.bump_output_epoch();
        }
        if viewport_scrolls > 0 {
            self.last_trigger_fingerprint = None;
            self.screen.overlay_scroll_deficit = 0;
        }
        let within_grace = match self.screen.last_repaint_at {
            Some(at) => elapsed_ms(at, now) < REPAINT_GRACE_MS,
            None => false,
        };
        if display_dirty && !within_grace && self.has_overlay_ownership() {
            self.bump_output_epoch();
            let teardown = self.teardown_popup(true);
            let ticket = self.screen.ticket();
            self.screen.commit(ticket);
            Some(teardown)
        } else {
            None
        }
    }

    /// The terminal was resized. The popup recomputes on the next trigger.
    pub fn handle_resize(&mut self) -> (teardown: Option<Teardown>)
        ensures
            final(self)@ == old(self)@.resized(),
            teardown == (if old(self)@.popup.visible {
                Some(old(self)@.teardown())
            } else {
                None
            }),
            final(self).wf() == old(self).wf(),
    {
        let teardown = if self.popup.visible {
            Some(self.dismiss())
        } else {
            None
        };
        self.screen.overlay_scroll_deficit = 0;
        teardown
    }

    /// Drops the cached scroll deficit, where the cursor cannot be reconciled with the
    /// screen.
    pub fn invalidate_overlay_scroll_deficit(&mut self)
        ensures
            final(self)@ == (HandlerState {
                screen: Screen { overlay_scroll_deficit: 0, ..old(self)@.screen },
                ..old(self)@
            }),
            final(self).wf() == old(self).wf(),
    {
        self.screen.overlay_scroll_deficit = 0;
    }

    /// Empties the tracked command line, at prompt boundaries.
    pub fn reset_input_model(&mut self)
        ensures
            final(self)@ == (HandlerState { line: (Seq::empty(), 0), ..old(self)@ }),
            final(self).wf(),
    {
        self.input_model = BufferModel::default();
    }

    /// Forgets the task that runs providers. `true` if there is one to abort.
    pub fn abort_dynamic_task(&mut self) -> (abort_task: bool)
        ensures
            final(self)@ == (HandlerState {
                work: WorkState {
                    dynamic_rx: old(self)@.work.dynamic_rx,
                    site: old(self)@.work.site,
                    ..WorkState::idle()
                },
                ..old(self)@
            }),
            abort_task == old(self)@.work.dynamic_task,
            final(self).wf() == old(self).wf(),
    {
        let abort_task = self.work.dynamic_task;
        self.work.dynamic_task = false;
        self.work.feedback = AsyncFeedback::Idle;
        self.work.pending_failed = Vec::new();
        self.work.pending_empty_count = 0;
        abort_task
    }

    /// Forgets the task that runs providers and all that belongs to it. `true` if there is
    /// one to abort.
    pub fn abort_dynamic_task_and_clear_ctx(&mut self) -> (abort_task: bool)
        ensures
            final(self)@ == (HandlerState { work: WorkState::idle(), ..old(self)@ }),
            abort_task == old(self)@.work.dynamic_task,
            final(self).wf() == old(self).wf(),
    {
        let abort_task = self.work.dynamic_task;
        self.work = AsyncWork::new();
        abort_task
    }

    /// The language model was asked: the indicator row shows that.
    pub fn begin_ask_ai_loading(&mut self, now: u64)
        ensures
            final(self)@ == (HandlerState {
                work: WorkState { feedback: Feedback::Loading(now), ..old(self)@.work },
                ..old(self)@
            }),
            final(self).wf() == old(self).wf(),
    {
        self.work.feedback = AsyncFeedback::Loading { spawned_at: now };
    }

    /// The language model has answered, or failed to.
    pub fn finish_ask_ai(&mut self) -> (teardown: Teardown)
        ensures
            final(self)@ == old(self)@.dismissed(),
            teardown == old(self)@.teardown(),
            final(self).wf() == old(self).wf(),
    {
        self.dismiss()
    }

    /// The bytes that replace the command line by an answer of the language model. Nothing
    /// where the terminal's state cannot be read.
    pub fn ask_ai_forward_bytes(
        &self,
        term: Option<&TerminalSnapshot>,
        response: &str,
    ) -> (bytes: Vec<u8>)
        ensures
            bytes@ == (match term {
                Some(t) => replacing_bytes(*t, response@),
                None => Seq::empty(),
            }),
    {
        let mut bytes: Vec<u8> = Vec::new();
        if let Some(t) = term {
            let line = t.buffer_text();
            let deleted: usize = cursor_in_line(t.buffer_cursor, line.as_str());
            push_repeated(&mut bytes, 0x7F, deleted);
            let mut text = utf8_bytes(response);
            bytes.append(&mut text);
            assert(bytes@ =~= replacing_bytes(*t, response@));
        }
        bytes
    }
}

// ---- Laws ----

/// Switching automatic triggers off leaves nothing requested, nothing running and nothing
/// visible.
pub proof fn law_triggers_off_leaves_nothing(h: HandlerState, settings: Settings)
    requires
        h.settings.auto_trigger,
        !settings.auto_trigger,
    ensures
        !h.reconfigured(settings).popup.visible,
        h.reconfigured(settings).work == WorkState::idle(),
        !h.reconfigured(settings).trigger_requested,
{
}

/// Settings that switch off neither automatic triggers nor the description box leave the
/// popup, the screen and what runs as they are.
pub proof fn law_other_settings_keep_popup(h: HandlerState, settings: Settings)
    requires
        !h.stops_triggers(settings),
        !h.stops_detail(settings),
    ensures
        h.reconfigured(settings) == (HandlerState { settings, ..h }),
{
}

/// A description box that is switched off is cleared: no bytes painted before stay valid,
/// and once the cleanup is written it is not owned.
pub proof fn law_detail_off_clears_box(h: HandlerState, settings: Settings)
    requires
        h.stops_detail(settings),
        h.screen.last_detail_layout is Some,
    ensures
        ({
            let after = h.reconfigured(settings).screen;
            &&& after.output_epoch != h.screen.output_epoch
            &&& after.committed(after.ticket_of()).last_detail_layout is None
        }),
{
}

/// An answer of the language model is put on the command line and never run: unless it
/// holds the end of a line itself, nothing that is sent to the shell ends the line.
pub proof fn law_answer_is_not_run(term: TerminalSnapshot, response: Seq<char>)
    requires
        !response.contains('\r'),
        !response.contains('\n'),
    ensures
        !replacing_bytes(term, response).contains(0x0D),
        !replacing_bytes(term, response).contains(0x0A),
{
    lemma_utf8_lacks_ascii(response, '\r');
    lemma_utf8_lacks_ascii(response, '\n');
    let typed = vstd::utf8::encode_utf8(response);
    let bytes = replacing_bytes(term, response);
    let deleted = bytes.len() - typed.len();
    assert forall|i: int| 0 <= i < bytes.len() implies bytes[i] != 0x0D && bytes[i] != 0x0A by {
        if i >= deleted {
            assert(bytes[i] == typed[i - deleted]);
        }
    }
}

/// Output that changes nothing on the display changes nothing here.
pub proof fn law_silent_output_changes_nothing(h: HandlerState, now: u64)
    ensures
        h.after_output(false, 0, now) == h,
{
}

/// The popup survives the shell's echo: output within the grace period keeps it and what
/// runs for it.
pub proof fn law_echo_keeps_popup(
    h: HandlerState,
    display_dirty: bool,
    viewport_scrolls: u16,
    now: u64,
)
    requires
        h.within_grace(now),
    ensures
        ({
            let after = h.after_output(display_dirty, viewport_scrolls, now);
            after.popup == h.popup && after.work == h.work && after.screen.last_layout
                == h.screen.last_layout
        }),
{
}

/// Output behind the grace period that changes the display leaves nothing of the popup,
/// but keeps a requested trigger.
pub proof fn law_output_takes_popup_down(h: HandlerState, viewport_scrolls: u16, now: u64)
    requires
        !h.within_grace(now),
    ensures
        ({
            let after = h.after_output(true, viewport_scrolls, now);
            !after.owns_overlay() && after.trigger_requested == h.trigger_requested
        }),
{
}

/// Overlay bytes made in front of output that shows are stale behind it.
pub proof fn law_output_makes_bytes_stale(h: HandlerState, viewport_scrolls: u16, now: u64)
    ensures
        h.after_output(true, viewport_scrolls, now).screen.output_epoch != h.screen.output_epoch,
{
}

/// A shell that scrolls the viewport makes the scroll deficit meaningless.
pub proof fn law_scroll_drops_deficit(
    h: HandlerState,
    display_dirty: bool,
    viewport_scrolls: u16,
    now: u64,
)
    requires
        viewport_scrolls > 0,
    ensures
        h.after_output(display_dirty, viewport_scrolls, now).screen.overlay_scroll_deficit == 0,
        h.after_output(display_dirty, viewport_scrolls, now).fingerprint is None,
{
}

/// After a resize nothing is visible, and no scroll deficit is left.
pub proof fn law_resize_hides_popup(h: HandlerState)
    ensures
        !h.resized().popup.visible,
        h.resized().screen.overlay_scroll_deficit == 0,
{
}

/// Output that changes the display within 150 milliseconds of a paint is the shell's echo,
/// and the popup and what runs for it stay; from then on the popup yields to it.
pub proof fn law_grace_lasts_150_ms(h: HandlerState, at: u64, viewport_scrolls: u16, now: u64)
    requires
        h.screen.last_repaint_at == Some(at),
        at <= now,
    ensures
        now - at < 150 ==> h.after_output(true, viewport_scrolls, now).popup == h.popup
            && h.after_output(true, viewport_scrolls, now).work == h.work
            && !h.yields_to_output(true, now),
        now - at >= 150 && h.popup.visible ==> h.yields_to_output(true, now) && !h.after_output(
            true,
            viewport_scrolls,
            now,
        ).popup.visible,
{
}

/// A popup that was never painted has no grace: output that changes the display takes it
/// down. Output that does not change the display never does.
pub proof fn law_unpainted_popup_has_no_grace(h: HandlerState, viewport_scrolls: u16, now: u64)
    ensures
        h.screen.last_repaint_at is None && h.popup.visible ==> !h.after_output(
            true,
            viewport_scrolls,
            now,
        ).popup.visible,
        h.after_output(false, viewport_scrolls, now).popup == h.popup,
        h.after_output(false, viewport_scrolls, now).work == h.work,
        !h.yields_to_output(false, now),
{
}

/// Once the popup has yielded to output, nothing of it is owned, and nothing is left to be
/// written; a trigger that was requested still is, and the tracked line stays.
pub proof fn law_yielded_popup_is_gone(h: HandlerState, viewport_scrolls: u16, now: u64)
    requires
        h.yields_to_output(true, now),
    ensures
        ({
            let after = h.after_output(true, viewport_scrolls, now);
            &&& !after.owns_overlay()
            &&& after.screen.last_layout is None && after.screen.last_detail_layout is None
            &&& after.screen.pending_overlay_cleanup is None
            &&& after.screen.pending_overlay_render is None
            &&& after.trigger_requested == h.trigger_requested
            &&& after.line == h.line
            &&& after.settings == h.settings
        }),
{
}

/// The popup is computed anew where the viewport has scrolled, and all bytes made before
/// are stale.
pub proof fn law_scroll_forgets_the_fingerprint(
    h: HandlerState,
    display_dirty: bool,
    viewport_scrolls: u16,
    now: u64,
)
    ensures
        viewport_scrolls > 0 ==> h.after_output(
            display_dirty,
            viewport_scrolls,
            now,
        ).fingerprint is None,
        viewport_scrolls == 0 && !h.yields_to_output(display_dirty, now) ==> h.after_output(
            display_dirty,
            viewport_scrolls,
            now,
        ).fingerprint == h.fingerprint && h.after_output(
            display_dirty,
            viewport_scrolls,
            now,
        ).screen.overlay_scroll_deficit == h.screen.overlay_scroll_deficit,
        viewport_scrolls > 0 && !display_dirty ==> h.after_output(
            false,
            viewport_scrolls,
            now,
        ).screen.output_epoch != h.screen.output_epoch,
{
}

/// New settings are taken over as they are. What is on the screen is cleared where they
/// hide it: all of a visible popup where automatic triggers go, the description box alone
/// where that goes, and nothing else.
pub proof fn law_new_settings_clear_what_they_hide(h: HandlerState, settings: Settings)
    ensures
        ({
            let after = h.reconfigured(settings);
            let off = h.settings.auto_trigger && !settings.auto_trigger;
            let unboxed = h.settings.detail_box_mode != DescriptionBoxMode::Off
                && settings.detail_box_mode == DescriptionBoxMode::Off;
            &&& after.settings == settings
            &&& after.line == h.line
            &&& off && h.popup.visible && h.screen.last_layout is Some ==> (
            after.screen.pending_overlay_cleanup matches Some(p) && p.scope
                == CleanupScope::MainAndDetail) && after.screen.output_epoch
                != h.screen.output_epoch
            &&& !off && unboxed && h.screen.last_detail_layout is Some ==> (
            after.screen.pending_overlay_cleanup matches Some(p) && p.scope
                == CleanupScope::DetailOnly)
            &&& !off && !unboxed ==> after.screen == h.screen
            &&& !off ==> after.popup.visible == h.popup.visible && after.popup.suggestions
                == h.popup.suggestions && after.popup.overlay == h.popup.overlay && after.work
                == h.work && after.trigger_requested == h.trigger_requested
            &&& off ==> !after.popup.visible && !after.work.dynamic_task && !after.trigger_requested
        }),
{
}

/// A resize takes a visible popup down and forgets the scroll deficit; a hidden one, the
/// tracked line and the settings stay as they are.
pub proof fn law_resize_keeps_the_rest(h: HandlerState)
    ensures
        h.resized().line == h.line,
        h.resized().settings == h.settings,
        !h.popup.visible ==> h.resized().popup == h.popup && h.resized().work == h.work
            && h.resized().trigger_requested == h.trigger_requested,
        h.popup.visible ==> h.resized().popup.suggestions.len() == 0
            && !h.resized().work.dynamic_task && !h.resized().trigger_requested,
        h.resized().screen.last_layout == h.screen.last_layout,
{
}

/// An answer of the language model takes the place of everything in front of the cursor,
/// and what stands behind it stays: so do the keystrokes that its bytes amount to.
pub proof fn law_answer_replaces_the_line(term: TerminalSnapshot, response: Seq<char>)
    requires
        term.buffer_cursor <= term.line().len(),
    ensures
        replacing_bytes(term, response) == Seq::new(term.buffer_cursor as nat, |i: int| 0x7Fu8)
            + vstd::utf8::encode_utf8(response),
        typed_at(
            backspaced((term.line(), term.buffer_cursor as int), term.buffer_cursor as nat),
            response,
        ) == (response + term.line().skip(term.buffer_cursor as int), response.len() as int),
{
    let n = term.buffer_cursor as int;
    let front = term.line().take(n);
    let back = term.line().skip(n);
    let none = Seq::<char>::empty();
    assert(none + front + back =~= term.line());
    assert(none + front =~= front);
    lemma_backspaced(none, front, back, front.len());
    assert(none + front.take(0) + back =~= none + back);
    lemma_typed_at(none, response, back);
    assert(none + response =~= response);
    assert(replacing_bytes(term, response) =~= Seq::new(
        term.buffer_cursor as nat,
        |i: int| 0x7Fu8,
    ) + vstd::utf8::encode_utf8(response));
}

/// A cursor within the line, or right behind it, stays where it is; one beyond is taken for
/// the end of the line.
pub proof fn law_cursor_stays_within_the_line(cursor: int, line: Seq<char>)
    ensures
        0 <= cursor <= line.len() ==> cursor_within(cursor, line) == cursor,
        cursor > line.len() ==> cursor_within(cursor, line) == line.len(),
{
}

/// Switching the description box off forgets what it was about to show; all else of a popup
/// that stays is kept. New settings that switch nothing off change nothing else.
pub proof fn law_box_switched_off_forgets_its_wait(h: HandlerState, settings: Settings)
    requires
        h.settings.auto_trigger ==> settings.auto_trigger,
    ensures
        ({
            let after = h.reconfigured(settings);
            let off = h.settings.detail_box_mode != DescriptionBoxMode::Off
                && settings.detail_box_mode == DescriptionBoxMode::Off;
            &&& off ==> !after.popup.detail_debounce.pending
            &&& off ==> after.popup.detail_debounce == DetailDebounceState::fresh()
            &&& after.popup.visible == h.popup.visible
            &&& after.popup.suggestions == h.popup.suggestions
            &&& after.popup.overlay == h.popup.overlay
            &&& after.work == h.work
            &&& !off ==> after == (HandlerState { settings, ..h })
        }),
{
}

} // verus!
