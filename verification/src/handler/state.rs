//! The state of the popup and of what runs for it.
//!
//! Times are in milliseconds of a monotonic clock.

use vstd::prelude::*;

use crate::feedback::AsyncFeedback;
use crate::feedback::Feedback;
use crate::handler::fingerprint::TriggerFingerprint;
use crate::handler::keys::Keybindings;
use crate::handler::merge::is_pinned;
use crate::handler::merge::pin_ask_ai;
use crate::handler::overlay::DetailLayout;
use crate::handler::overlay::PopupLayout;
use crate::handler::screen::Dropped;
use crate::handler::screen::OverlayWriteTicket;
use crate::handler::screen::Screen;
use crate::handler::site::DynamicCtxSnapshot;
use crate::handler::site::Site;
use crate::model::Suggestion;
use crate::predict::BufferModel;

verus! {

// ---- Settings ----

/// What the handler reads of the popup's theme.
#[derive(Debug, PartialEq, Eq)]
pub struct PopupTheme {
    pub borders: bool,
    /// The control sequence that colours the border.
    pub border_on: Vec<u8>,
    /// Whether errors name the provider that failed.
    pub show_provider_errors: bool,
    pub index_hints: bool,
    pub key_hints: bool,
}

/// How a query matches suggestions.
#[derive(Debug, Clone, Copy, PartialEq, Eq, Structural)]
pub enum MatchMode {
    Fuzzy,
    Substring,
}

/// Whether the selected suggestion's description is shown in a box beside the popup.
#[derive(Debug, Clone, Copy, PartialEq, Eq, Structural)]
pub enum DescriptionBoxMode {
    Off,
    Side,
}

/// Shell-family classification. Zsh reports its command line; for the other shells it is
/// tracked by keystrokes.
#[derive(Debug, Clone, Copy, PartialEq, Eq, Structural)]
pub enum ShellKind {
    Zsh,
    Fish,
    Bash,
    Other,
}

/// Bounds of the popup.
#[derive(Debug, Clone, Copy, PartialEq, Eq, Structural)]
pub struct PopupLimits {
    pub max_visible: usize,
    pub min_width: u16,
    pub max_width: u16,
}

#[derive(Debug)]
pub struct Settings {
    pub shell_kind: ShellKind,
    pub keybindings: Keybindings,
    pub theme: PopupTheme,
    pub match_mode: MatchMode,
    pub auto_trigger: bool,
    /// Typing-pause debounce window.
    pub delay_ms: u64,
    pub max_visible: usize,
    pub min_popup_width: u16,
    pub max_popup_width: u16,
    pub feedback_dismiss_ms: u16,
    /// How long to wait for providers before painting; 0 paints at once.
    pub render_block_ms: u64,
    /// The accept key accepts the top completion even where nothing is selected.
    pub tab_accepts_top: bool,
    pub detail_box_mode: DescriptionBoxMode,
    pub detail_box_max_width: u16,
    pub detail_box_lines: u16,
    pub detail_box_debounce_ms: u64,
}

// ---- The popup ----

/// Selection and scrolling inside of the popup.
#[derive(Debug, Clone, Copy, PartialEq, Eq, Structural)]
pub struct OverlayState {
    pub selected: Option<usize>,
    pub scroll_offset: usize,
}

impl OverlayState {
    /// Nothing selected, nothing scrolled.
    pub open spec fn fresh() -> OverlayState {
        OverlayState { selected: None, scroll_offset: 0 }
    }

    pub fn new() -> (state: Self)
        ensures
            state == OverlayState::fresh(),
    {
        OverlayState { selected: None, scroll_offset: 0 }
    }
}

/// Runtime state of the description box's debounce window. The fields are reset together:
/// a stale index would resolve to another suggestion.
#[derive(Debug, Clone, Copy, PartialEq, Eq, Structural)]
pub struct DetailDebounceState {
    /// The suggestion whose description is shown.
    pub displayed_idx: Option<usize>,
    /// When the selection first changed in the current window.
    pub last_change_at: Option<u64>,
    /// A timer is in flight.
    pub pending: bool,
}

impl DetailDebounceState {
    pub open spec fn fresh() -> DetailDebounceState {
        DetailDebounceState { displayed_idx: None, last_change_at: None, pending: false }
    }

    pub fn reset(&mut self)
        ensures
            *final(self) == DetailDebounceState::fresh(),
    {
        self.displayed_idx = None;
        self.last_change_at = None;
        self.pending = false;
    }
}

impl Default for DetailDebounceState {
    fn default() -> (state: Self)
        ensures
            state == DetailDebounceState::fresh(),
    {
        DetailDebounceState { displayed_idx: None, last_change_at: None, pending: false }
    }
}

/// What the popup shows.
#[derive(Debug)]
pub struct Popup {
    pub visible: bool,
    pub suggestions: Vec<Suggestion>,
    pub overlay: OverlayState,
    pub detail_debounce: DetailDebounceState,
}

/// The mathematical value of a [`Popup`].
#[verifier::ext_equal]
pub struct PopupState {
    pub visible: bool,
    pub suggestions: Seq<Suggestion>,
    pub overlay: OverlayState,
    pub detail_debounce: DetailDebounceState,
}

impl View for Popup {
    type V = PopupState;

    open spec fn view(&self) -> PopupState {
        PopupState {
            visible: self.visible,
            suggestions: self.suggestions@,
            overlay: self.overlay,
            detail_debounce: self.detail_debounce,
        }
    }
}

impl PopupState {
    pub open spec fn closed() -> PopupState {
        PopupState {
            visible: false,
            suggestions: Seq::empty(),
            overlay: OverlayState::fresh(),
            detail_debounce: DetailDebounceState::fresh(),
        }
    }
}

impl Popup {
    pub fn new() -> (popup: Self)
        ensures
            popup@ == PopupState::closed(),
    {
        Popup {
            visible: false,
            suggestions: Vec::new(),
            overlay: OverlayState::new(),
            detail_debounce: DetailDebounceState::default(),
        }
    }
}

// ---- What runs for it ----

/// A registered asynchronous provider.
#[derive(Debug, Clone, Copy, PartialEq, Eq, Structural)]
pub struct ProviderSlot {
    /// It only runs to fill the completion cache.
    pub backfill: bool,
}

/// The asynchronous providers that were started for the popup.
#[derive(Debug)]
pub struct AsyncWork {
    /// A channel of provider results is open.
    pub dynamic_rx: bool,
    /// A task that runs providers is owned.
    pub dynamic_task: bool,
    /// The completion site that the providers were started for.
    pub dynamic_ctx: Option<DynamicCtxSnapshot>,
    pub feedback: AsyncFeedback,
    /// The providers that failed so far.
    pub pending_failed: Vec<String>,
    /// How many providers brought nothing so far.
    pub pending_empty_count: usize,
}

/// The mathematical value of an [`AsyncWork`].
#[verifier::ext_equal]
pub struct WorkState {
    pub dynamic_rx: bool,
    pub dynamic_task: bool,
    pub site: Option<Site>,
    pub feedback: Feedback,
    pub pending_failed: Seq<String>,
    pub pending_empty_count: usize,
}

impl View for AsyncWork {
    type V = WorkState;

    open spec fn view(&self) -> WorkState {
        WorkState {
            dynamic_rx: self.dynamic_rx,
            dynamic_task: self.dynamic_task,
            site: match self.dynamic_ctx {
                Some(snapshot) => Some(snapshot.site()),
                None => None,
            },
            feedback: self.feedback@,
            pending_failed: self.pending_failed@,
            pending_empty_count: self.pending_empty_count,
        }
    }
}

impl WorkState {
    /// Nothing runs, and there is nothing to tell.
    pub open spec fn idle() -> WorkState {
        WorkState {
            dynamic_rx: false,
            dynamic_task: false,
            site: None,
            feedback: Feedback::Idle,
            pending_failed: Seq::empty(),
            pending_empty_count: 0,
        }
    }
}

impl AsyncWork {
    pub fn new() -> (work: Self)
        ensures
            work@ == WorkState::idle(),
    {
        AsyncWork {
            dynamic_rx: false,
            dynamic_task: false,
            dynamic_ctx: None,
            feedback: AsyncFeedback::Idle,
            pending_failed: Vec::new(),
            pending_empty_count: 0,
        }
    }
}

// ---- The handler ----

#[derive(Debug)]
pub struct InputHandler {
    pub settings: Settings,
    pub popup: Popup,
    pub work: AsyncWork,
    pub screen: Screen,
    pub trigger_requested: bool,
    /// The trigger key was pressed while the shell had not echoed the line yet.
    pub manual_trigger_stashed: bool,
    pub debounce_suppressed: bool,
    /// What the visible popup was computed from. A trigger that finds the same is skipped.
    pub last_trigger_fingerprint: Option<TriggerFingerprint>,
    /// Ticked by every trigger that computes suggestions.
    pub buffer_generation: u64,
    /// `buffer_generation` at the time the running providers were started.
    pub spawned_generation: u64,
    /// Keystroke model of the command line, for shells that do not report it.
    pub input_model: BufferModel,
    pub async_providers: Vec<ProviderSlot>,
    /// On-demand "Ask AI" is available.
    pub ask_ai: bool,
    /// The key hint shows this mode until the deadline.
    pub mode_flash: Option<(MatchMode, u64)>,
}

/// The mathematical value of an [`InputHandler`].
#[verifier::ext_equal]
pub struct HandlerState {
    pub settings: Settings,
    pub popup: PopupState,
    pub work: WorkState,
    pub screen: Screen,
    pub trigger_requested: bool,
    pub manual_trigger_stashed: bool,
    pub debounce_suppressed: bool,
    pub fingerprint: Option<TriggerFingerprint>,
    pub buffer_generation: u64,
    pub spawned_generation: u64,
    /// The tracked command line and the cursor in it.
    pub line: (Seq<char>, int),
    pub providers: Seq<ProviderSlot>,
    pub ask_ai: bool,
    pub mode_flash: Option<(MatchMode, u64)>,
}

impl View for InputHandler {
    type V = HandlerState;

    open spec fn view(&self) -> HandlerState {
        HandlerState {
            settings: self.settings,
            popup: self.popup@,
            work: self.work@,
            screen: self.screen,
            trigger_requested: self.trigger_requested,
            manual_trigger_stashed: self.manual_trigger_stashed,
            debounce_suppressed: self.debounce_suppressed,
            fingerprint: self.last_trigger_fingerprint,
            buffer_generation: self.buffer_generation,
            spawned_generation: self.spawned_generation,
            line: self.input_model@,
            providers: self.async_providers@,
            ask_ai: self.ask_ai,
            mode_flash: self.mode_flash,
        }
    }
}

impl HandlerState {
    /// With nothing shown, nothing running, and nothing left of it.
    pub open spec fn closed(self) -> HandlerState {
        HandlerState {
            popup: PopupState::closed(),
            work: WorkState::idle(),
            debounce_suppressed: false,
            fingerprint: None,
            ..self
        }
    }

    /// With the popup taken down. A requested trigger survives where it is to be kept.
    pub open spec fn torn_down(self, keep_request: bool) -> HandlerState {
        HandlerState {
            screen: self.screen.taken_down(),
            trigger_requested: keep_request && self.trigger_requested,
            ..self.closed()
        }
    }

    /// Showing other rows, with nothing selected.
    pub open spec fn showing(self, rows: Seq<Suggestion>) -> HandlerState {
        HandlerState {
            popup: PopupState { visible: true, suggestions: rows, ..PopupState::closed() },
            ..self
        }
    }

    pub open spec fn dismissed(self) -> HandlerState {
        self.torn_down(false)
    }

    /// What tearing the popup down clears and aborts.
    pub open spec fn teardown(self) -> Teardown {
        Teardown {
            popup: self.screen.last_layout,
            detail: self.screen.last_detail_layout,
            abort_task: self.work.dynamic_task,
        }
    }

    /// Something is shown, or there is something to tell.
    pub open spec fn owns_overlay(self) -> bool {
        self.popup.visible || self.screen.last_layout is Some || !(self.work.feedback is Idle)
    }

    /// Once the bytes of a ticket were dropped.
    pub open spec fn after_loss(self, ticket: OverlayWriteTicket) -> HandlerState {
        let rest = HandlerState { screen: self.screen.after_loss(ticket), ..self };
        if self.screen.lost(ticket) == Dropped::Render {
            rest.closed()
        } else {
            rest
        }
    }
}

/// What is to be cleared on the screen, and whether the running providers are to be
/// aborted.
#[derive(Debug, Clone, Copy, PartialEq, Eq, Structural)]
pub struct Teardown {
    pub popup: Option<PopupLayout>,
    pub detail: Option<DetailLayout>,
    pub abort_task: bool,
}

/// The time from `since` until `now`; none where the clock has not reached `since`.
pub open spec fn elapsed(since: u64, now: u64) -> int {
    if now >= since {
        now - since
    } else {
        0
    }
}

pub fn elapsed_ms(since: u64, now: u64) -> (ms: u64)
    ensures
        ms == elapsed(since, now),
{
    if now >= since {
        now - since
    } else {
        0
    }
}

impl InputHandler {
    pub fn new(shell_kind: ShellKind, limits: PopupLimits, theme: PopupTheme) -> (handler: Self)
        ensures
            handler.wf(),
            handler@ == (HandlerState {
                settings: handler.settings,
                popup: PopupState::closed(),
                work: WorkState::idle(),
                screen: Screen::blank(),
                trigger_requested: false,
                manual_trigger_stashed: false,
                debounce_suppressed: false,
                fingerprint: None,
                buffer_generation: 0,
                spawned_generation: 0,
                line: (Seq::empty(), 0),
                providers: Seq::empty(),
                ask_ai: false,
                mode_flash: None,
            }),
            handler.settings == (Settings {
                shell_kind,
                keybindings: handler.settings.keybindings,
                theme,
                match_mode: MatchMode::Fuzzy,
                auto_trigger: true,
                delay_ms: 150,
                max_visible: limits.max_visible,
                min_popup_width: limits.min_width,
                max_popup_width: limits.max_width,
                feedback_dismiss_ms: 1200,
                render_block_ms: 80,
                tab_accepts_top: false,
                detail_box_mode: DescriptionBoxMode::Off,
                detail_box_max_width: 60,
                detail_box_lines: 5,
                detail_box_debounce_ms: 80,
            }),
            handler.settings.keybindings.is_default(),
    {
        InputHandler {
            settings: Settings {
                shell_kind,
                keybindings: Keybindings::default(),
                theme,
                match_mode: MatchMode::Fuzzy,
                auto_trigger: true,
                delay_ms: 150,
                max_visible: limits.max_visible,
                min_popup_width: limits.min_width,
                max_popup_width: limits.max_width,
                feedback_dismiss_ms: 1200,
                render_block_ms: 80,
                tab_accepts_top: false,
                detail_box_mode: DescriptionBoxMode::Off,
                detail_box_max_width: 60,
                detail_box_lines: 5,
                detail_box_debounce_ms: 80,
            },
            popup: Popup::new(),
            work: AsyncWork::new(),
            screen: Screen::new(),
            trigger_requested: false,
            manual_trigger_stashed: false,
            debounce_suppressed: false,
            last_trigger_fingerprint: None,
            buffer_generation: 0,
            spawned_generation: 0,
            input_model: BufferModel::default(),
            async_providers: Vec::new(),
            ask_ai: false,
            mode_flash: None,
        }
    }

    /// The tracked command line is well-formed.
    pub open spec fn wf(&self) -> bool {
        self.input_model.wf()
    }

    /// Bytes for the popup that were made before are stale from now on.
    pub fn bump_output_epoch(&mut self)
        ensures
            final(self)@ == (HandlerState { screen: old(self)@.screen.bumped(), ..old(self)@ }),
            final(self).wf() == old(self).wf(),
    {
        self.screen.bump();
    }

    /// Forgets what the description box shows.
    pub fn reset_detail_debounce_state(&mut self)
        ensures
            final(self)@ == (HandlerState {
                popup: PopupState {
                    detail_debounce: DetailDebounceState::fresh(),
                    ..old(self)@.popup
                },
                ..old(self)@
            }),
            final(self).wf() == old(self).wf(),
    {
        self.popup.detail_debounce.reset();
    }

    /// Shows other suggestions, with nothing selected.
    pub fn replace_suggestions_and_reset_overlay(&mut self, suggestions: Vec<Suggestion>)
        ensures
            is_pinned(suggestions@, old(self)@.ask_ai, final(self)@.popup.suggestions),
            final(self)@ == (HandlerState {
                popup: PopupState {
                    visible: old(self)@.popup.visible,
                    suggestions: final(self)@.popup.suggestions,
                    ..PopupState::closed()
                },
                ..old(self)@
            }),
            final(self).wf() == old(self).wf(),
    {
        self.popup.suggestions = pin_ask_ai(self.ask_ai, suggestions);
        self.popup.overlay = OverlayState::new();
        self.popup.detail_debounce.reset();
    }

    /// The ticket for overlay bytes that are made from the current state.
    pub fn overlay_write_ticket(&self) -> (ticket: OverlayWriteTicket)
        ensures
            ticket == self@.screen.ticket_of(),
    {
        self.screen.ticket()
    }

    /// The bytes of a ticket are on the screen.
    pub fn commit_overlay_write(&mut self, ticket: OverlayWriteTicket)
        ensures
            final(self)@ == (HandlerState {
                screen: old(self)@.screen.committed(ticket),
                ..old(self)@
            }),
            final(self).wf() == old(self).wf(),
    {
        self.screen.commit(ticket);
    }

    pub fn has_overlay_ownership(&self) -> (owns: bool)
        ensures
            owns == self@.owns_overlay(),
    {
        self.popup.visible || self.screen.last_layout.is_some() || !self.work.feedback.is_idle()
    }

    /// Forgets everything that is shown or runs.
    pub fn close(&mut self)
        ensures
            final(self)@ == old(self)@.closed(),
            final(self).wf() == old(self).wf(),
    {
        self.popup = Popup::new();
        self.work = AsyncWork::new();
        self.debounce_suppressed = false;
        self.last_trigger_fingerprint = None;
    }

    /// The bytes of a ticket were dropped. `true` if the running providers are to be
    /// aborted.
    pub fn discard_overlay_ownership_after_stale_write(
        &mut self,
        ticket: OverlayWriteTicket,
    ) -> (abort_task: bool)
        ensures
            final(self)@ == old(self)@.after_loss(ticket),
            abort_task == (old(self)@.screen.lost(ticket) == Dropped::Render
                && old(self)@.work.dynamic_task),
            final(self).wf() == old(self).wf(),
    {
        let abort_task = self.work.dynamic_task;
        let dropped = self.screen.discard(ticket);
        if dropped == Dropped::Render {
            self.close();
            abort_task
        } else {
            false
        }
    }

    /// Takes the popup down. Its layouts stay owned until the cleanup bytes are written.
    pub fn teardown_popup(&mut self, preserve_trigger_request: bool) -> (teardown: Teardown)
        ensures
            final(self)@ == old(self)@.torn_down(preserve_trigger_request),
            teardown == old(self)@.teardown(),
            final(self).wf() == old(self).wf(),
    {
        let teardown = Teardown {
            popup: self.screen.last_layout,
            detail: self.screen.last_detail_layout,
            abort_task: self.work.dynamic_task,
        };
        self.screen.take_down();
        if !preserve_trigger_request {
            self.trigger_requested = false;
        }
        self.close();
        teardown
    }

    /// Takes the popup down, and drops a requested trigger.
    pub fn dismiss(&mut self) -> (teardown: Teardown)
        ensures
            final(self)@ == old(self)@.dismissed(),
            teardown == old(self)@.teardown(),
            final(self).wf() == old(self).wf(),
    {
        self.teardown_popup(false)
    }
}

// ---- Laws ----

/// Dismissing leaves nothing shown, nothing running, nothing requested and nothing to
/// tell, and forgets what the popup was computed from.
pub proof fn law_dismiss_closes_everything(h: HandlerState)
    ensures
        ({
            let d = h.dismissed();
            &&& d.popup == PopupState::closed()
            &&& d.work == WorkState::idle()
            &&& !d.trigger_requested
            &&& d.fingerprint is None
            &&& d.screen.pending_overlay_render is None
        }),
{
}

/// Dismissing keeps the settings, the tracked command line, the generations, the
/// providers and the scroll deficit.
pub proof fn law_dismiss_keeps_the_rest(h: HandlerState)
    ensures
        ({
            let d = h.dismissed();
            &&& d.settings == h.settings
            &&& d.line == h.line
            &&& d.buffer_generation == h.buffer_generation
            &&& d.spawned_generation == h.spawned_generation
            &&& d.providers == h.providers
            &&& d.ask_ai == h.ask_ai
            &&& d.screen.overlay_scroll_deficit == h.screen.overlay_scroll_deficit
        }),
{
}

/// Once the cleanup bytes of a dismissed popup are written, the handler owns nothing.
pub proof fn law_written_dismissal_owns_nothing(h: HandlerState)
    ensures
        ({
            let d = h.dismissed();
            let done = HandlerState { screen: d.screen.committed(d.screen.ticket_of()), ..d };
            !done.owns_overlay()
        }),
{
}

/// Losing the bytes of a render closes the popup; losing anything else leaves it open.
pub proof fn law_lost_render_closes_popup(h: HandlerState, ticket: OverlayWriteTicket)
    ensures
        h.screen.lost(ticket) == Dropped::Render ==> !h.after_loss(ticket).owns_overlay(),
        h.screen.lost(ticket) != Dropped::Render ==> h.after_loss(ticket).popup == h.popup
            && h.after_loss(ticket).work == h.work,
{
}

/// A dismissed popup has no rows, no selection and no scroll position, and nothing runs,
/// waits or is counted for it; the automatic trigger is awake.
pub proof fn law_dismissed_popup_is_empty(h: HandlerState, keep_request: bool)
    ensures
        ({
            let d = h.torn_down(keep_request);
            &&& !d.popup.visible
            &&& d.popup.suggestions.len() == 0
            &&& d.popup.overlay.selected is None && d.popup.overlay.scroll_offset == 0
            &&& d.popup.detail_debounce.displayed_idx is None
            &&& d.popup.detail_debounce.last_change_at is None
            &&& !d.popup.detail_debounce.pending
            &&& !d.work.dynamic_rx && !d.work.dynamic_task && d.work.site is None
            &&& d.work.feedback is Idle
            &&& d.work.pending_failed.len() == 0 && d.work.pending_empty_count == 0
            &&& !d.debounce_suppressed
            &&& d.fingerprint is None
            &&& d.trigger_requested == (keep_request && h.trigger_requested)
            &&& d.manual_trigger_stashed == h.manual_trigger_stashed
            &&& d.mode_flash == h.mode_flash
            &&& d.settings == h.settings && d.line == h.line
        }),
        h.dismissed() == h.torn_down(false),
{
}

/// What is cleared is what stands on the screen, and what is aborted is what runs.
pub proof fn law_teardown_is_what_stands_and_runs(h: HandlerState)
    ensures
        h.teardown().popup == h.screen.last_layout,
        h.teardown().detail == h.screen.last_detail_layout,
        h.teardown().abort_task == h.work.dynamic_task,
{
}

/// The overlay is owned as long as the popup is visible, stands on the screen, or has
/// something to tell.
pub proof fn law_overlay_is_owned_while_anything_shows(h: HandlerState)
    ensures
        h.owns_overlay() <==> h.popup.visible || h.screen.last_layout is Some || !(
        h.work.feedback is Idle),
{
}

/// Rows that are shown replace all others, with nothing selected and nothing scrolled.
pub proof fn law_shown_rows_start_unselected(h: HandlerState, rows: Seq<Suggestion>)
    ensures
        ({
            let s = h.showing(rows);
            &&& s.popup.visible
            &&& s.popup.suggestions == rows
            &&& s.popup.overlay.selected is None && s.popup.overlay.scroll_offset == 0
            &&& s.popup.detail_debounce.displayed_idx is None
            &&& s == (HandlerState { popup: s.popup, ..h })
        }),
{
}

/// Time passes from one reading of the clock to a later one, and not backwards.
pub proof fn law_elapsed_is_the_difference(since: u64, later: u64)
    requires
        since <= later,
    ensures
        since + elapsed(since, later) == later,
        elapsed(later, since) == 0,
{
}

} // verus!
