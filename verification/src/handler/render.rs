//! Painting the popup.
//!
//! A paint runs in steps, since the layout is computed and the rows are drawn in between:
//! [`InputHandler::begin_render`], [`InputHandler::render_clears`],
//! [`InputHandler::begin_detail`] and [`InputHandler::settle_detail`], then
//! [`InputHandler::finish_render`].

use vstd::prelude::*;
use vstd::string::StringExecFns;
use vstd::utf8::encode_utf8;

use crate::feedback::AsyncFeedback;
use crate::feedback::Feedback;
use crate::handler::dispatch::MODE_FLASH_MS;
use crate::handler::keys::format_key_event;
use crate::handler::keys::key_label;
use crate::handler::merge::completions;
use crate::handler::merge::completions_before;
use crate::handler::merge::count_completions;
use crate::handler::merge::first_completion;
use crate::handler::overlay::clear_detail_box_uncovered_by;
use crate::handler::overlay::detail_layout_after_scroll;
use crate::handler::overlay::DetailLayout;
use crate::handler::overlay::is_covered;
use crate::handler::overlay::move_to_bytes;
use crate::handler::overlay::OverlayRect;
use crate::handler::overlay::PopupLayout;
use crate::handler::overlay::push_move_to;
use crate::handler::overlay::push_repeated;
use crate::handler::overlay::repeated;
use crate::handler::overlay::scrolled_layout;
use crate::handler::overlay::uncovered_clear_bytes;
use crate::handler::screen::Screen;
use crate::handler::state::DescriptionBoxMode;
use crate::handler::state::DetailDebounceState;
use crate::handler::state::elapsed;
use crate::handler::state::elapsed_ms;
use crate::handler::state::HandlerState;
use crate::handler::state::InputHandler;
use crate::handler::state::MatchMode;
use crate::handler::state::PopupState;
use crate::handler::state::Teardown;
use crate::handler::state::WorkState;
use crate::model::Suggestion;
use crate::model::SuggestionKind;

verus! {

// ---- Indicator and hints ----

/// What the indicator row shows.
#[derive(Debug, PartialEq, Eq)]
pub enum FeedbackKind {
    /// There is no indicator row.
    Hidden,
    Loading { frame: u8 },
    Empty,
    /// The provider that failed; empty where it is not to be named.
    Error { provider: String },
    PartialError { providers: u8 },
}

/// How long a frame of the loading animation stands.
pub const FRAME_MS: u64 = 80;

/// How many frames the loading animation has.
pub const FRAMES: u64 = 10;

/// The number, or the greatest value of 8 bits where it is greater.
pub open spec fn clamp_u8(n: int) -> int {
    if n <= u8::MAX {
        n
    } else {
        u8::MAX as int
    }
}

impl HandlerState {
    /// What the indicator row shows.
    pub open spec fn shows_feedback(self, now: u64, kind: FeedbackKind) -> bool {
        match self.work.feedback {
            Feedback::Idle => kind is Hidden,
            Feedback::Loading(at) => kind matches FeedbackKind::Loading { frame } && frame == (
            elapsed(at, now) / FRAME_MS as int) % (FRAMES as int),
            Feedback::Empty(_) => kind is Empty,
            Feedback::Error(failed, _) => if failed.len() > 1 {
                kind matches FeedbackKind::PartialError { providers } && providers == clamp_u8(
                    failed.len() as int,
                )
            } else {
                kind matches FeedbackKind::Error { provider } && provider@ == (
                if self.settings.theme.show_provider_errors && failed.len() > 0 {
                    failed[0]@
                } else {
                    Seq::empty()
                })
            },
            Feedback::PartialError(failed, _) => kind matches FeedbackKind::PartialError {
                providers,
            } && providers == clamp_u8(failed.len() as int),
        }
    }

    /// Position of the selected row among the completions, and their number. The pinned
    /// "Ask AI" row does not count.
    pub open spec fn hint_index(self) -> Option<(int, int)> {
        let rows = self.popup.suggestions;
        let total = completions(rows).len() as int;
        if !self.settings.theme.index_hints || total == 0 {
            None
        } else {
            let at = match self.effective() {
                Some(i) => completions_before(rows, i + 1),
                None => 1,
            };
            Some(
                (
                    if at < 1 {
                        1
                    } else {
                        at
                    },
                    total,
                ),
            )
        }
    }

    /// The key hint: a match mode just chosen, else the keys that accept and that switch
    /// the mode.
    pub open spec fn hint_label(self, now: u64) -> Option<Seq<char>> {
        if !self.settings.theme.key_hints {
            None
        } else {
            Some(
                match self.mode_flash {
                    Some((mode, deadline)) => if now < deadline {
                        mode_name(mode)
                    } else {
                        self.keys_label()
                    },
                    None => self.keys_label(),
                },
            )
        }
    }

    pub open spec fn keys_label(self) -> Seq<char> {
        "<"@ + key_label(self.settings.keybindings.accept@) + "> Accept · <"@ + key_label(
            self.settings.keybindings.toggle_match_mode@,
        ) + "> Mode"@
    }

    /// The selected row is one of the rows, as far as a hint speaks of it.
    pub open spec fn selection_is_valid(self) -> bool {
        self.hint_index() is Some ==> (self.effective() matches Some(i) ==> i
            < self.popup.suggestions.len())
    }
}

pub open spec fn mode_name(mode: MatchMode) -> Seq<char> {
    match mode {
        MatchMode::Fuzzy => "Fuzzy"@,
        MatchMode::Substring => "Substring"@,
    }
}

/// Header and footer of the popup.
#[derive(Debug, PartialEq, Eq)]
pub struct PopupHints {
    /// Position of the selected row, and number of rows.
    pub index: Option<(usize, usize)>,
    pub key_label: Option<String>,
}

impl HandlerState {
    pub open spec fn shows_hints(self, now: u64, hints: PopupHints) -> bool {
        &&& match self.hint_index() {
            Some((at, total)) => hints.index matches Some(index) && index.0 == at && index.1
                == total,
            None => hints.index is None,
        }
        &&& match self.hint_label(now) {
            Some(label) => hints.key_label matches Some(text) && text@ == label,
            None => hints.key_label is None,
        }
    }
}

fn clamped(n: usize) -> (m: u8)
    ensures
        m == clamp_u8(n as int),
{
    if n <= 255 {
        n as u8
    } else {
        255
    }
}

impl InputHandler {
    /// What the indicator row shows.
    pub fn current_feedback_kind(&self, now: u64) -> (kind: FeedbackKind)
        ensures
            self@.shows_feedback(now, kind),
    {
        match &self.work.feedback {
            AsyncFeedback::Idle => FeedbackKind::Hidden,
            AsyncFeedback::Loading { spawned_at } => {
                let frame: u64 = (elapsed_ms(*spawned_at, now) / FRAME_MS) % FRAMES;
                FeedbackKind::Loading { frame: frame as u8 }
            },
            AsyncFeedback::Empty { .. } => FeedbackKind::Empty,
            AsyncFeedback::Error { failed, .. } => {
                if failed.len() > 1 {
                    FeedbackKind::PartialError { providers: clamped(failed.len()) }
                } else {
                    let provider = if self.settings.theme.show_provider_errors && failed.len() > 0 {
                        failed[0].clone()
                    } else {
                        String::new()
                    };
                    FeedbackKind::Error { provider }
                }
            },
            AsyncFeedback::PartialError { failed, .. } => FeedbackKind::PartialError {
                providers: clamped(failed.len()),
            },
        }
    }

    /// Header and footer of the popup.
    pub fn build_popup_hints(&self, now: u64) -> (hints: PopupHints)
        requires
            self@.selection_is_valid(),
        ensures
            self@.shows_hints(now, hints),
    {
        let rows = &self.popup.suggestions;
        assert(rows@.take(rows@.len() as int) =~= rows@);
        let total: usize = count_completions(rows, rows.len());
        let index = if self.settings.theme.index_hints && total > 0 {
            let at: usize = match self.effective_selected() {
                Some(i) => count_completions(rows, i + 1),
                None => 1,
            };
            Some(
                (
                    if at < 1 {
                        1
                    } else {
                        at
                    },
                    total,
                ),
            )
        } else {
            None
        };
        let key_label = if self.settings.theme.key_hints {
            Some(self.key_hint(now))
        } else {
            None
        };
        PopupHints { index, key_label }
    }

    fn key_hint(&self, now: u64) -> (label: String)
        ensures
            label@ == (match self@.mode_flash {
                Some((mode, deadline)) => if now < deadline {
                    mode_name(mode)
                } else {
                    self@.keys_label()
                },
                None => self@.keys_label(),
            }),
    {
        if let Some((mode, deadline)) = self.mode_flash {
            if now < deadline {
                return match mode {
                    MatchMode::Fuzzy => String::from_str("Fuzzy"),
                    MatchMode::Substring => String::from_str("Substring"),
                };
            }
        }
        let mut label = String::from_str("<");
        let accept = format_key_event(&self.settings.keybindings.accept);
        label.append(accept.as_str());
        label.append("> Accept · <");
        let mode = format_key_event(&self.settings.keybindings.toggle_match_mode);
        label.append(mode.as_str());
        label.append("> Mode");
        assert(label@ =~= self@.keys_label());
        label
    }
}

// ---- Painting ----

/// What is on the screen to be cleared before the popup is drawn, or behind it.
#[derive(Debug, Clone, Copy, PartialEq, Eq, Structural)]
pub struct RenderClears {
    pub popup: Option<PopupLayout>,
    pub detail: Option<DetailLayout>,
    /// Where the viewport scrolls: the old description box, where it then stands. What the
    /// new popup does not cover of it is cleared behind the drawing.
    pub scrolled_detail: Option<DetailLayout>,
}

/// Which description the box beside the popup is to show.
#[derive(Debug, Clone, Copy, PartialEq, Eq, Structural)]
pub struct DetailPlan {
    /// The suggestion whose description is shown.
    pub target: Option<usize>,
    /// The box is to be painted again after this time.
    pub wake_after: Option<u64>,
}

/// How a description fits beside the popup.
#[derive(Debug, Clone, Copy, PartialEq, Eq, Structural)]
pub enum DetailFit {
    /// It is shown in full in the popup's row: no box is needed.
    Inline,
    /// There is no room for a box.
    NoRoom,
    /// The box is drawn.
    Shown,
}

/// The suggestion at the position has a description to show.
pub open spec fn has_description(rows: Seq<Suggestion>, i: int) -> bool {
    &&& 0 <= i < rows.len()
    &&& rows[i].description matches Some(text)
    &&& text@.len() > 0
}

impl HandlerState {
    /// Only the indicator row is painted, over a viewport that was scrolled for a popup.
    pub open spec fn paints_indicator_after_scroll(self) -> bool {
        self.popup.suggestions.len() == 0 && !(self.work.feedback is Idle)
            && self.screen.overlay_scroll_deficit > 0
    }

    /// What a paint clears that scrolls the viewport by so many rows. The old popup is
    /// cleared where it stays in its place.
    pub open spec fn clears(self, additional_scroll: u16) -> RenderClears {
        let stays = additional_scroll == 0 && !self.paints_indicator_after_scroll();
        RenderClears {
            popup: if stays {
                self.screen.last_layout
            } else {
                None
            },
            detail: if stays {
                self.screen.last_detail_layout
            } else {
                None
            },
            scrolled_detail: match self.screen.last_detail_layout {
                Some(detail) => if additional_scroll > 0 {
                    scrolled_layout(detail, additional_scroll)
                } else {
                    None
                },
                None => None,
            },
        }
    }

    /// There is a selected row whose description a box may show.
    pub open spec fn wants_detail(self, popup_height: u16) -> bool {
        &&& self.settings.detail_box_mode != DescriptionBoxMode::Off
        &&& popup_height > 0
        &&& self.popup.suggestions.len() > 0
        &&& self.popup.overlay.selected is Some
    }

    /// When the selection has first changed in the current window.
    pub open spec fn window_start(self, now: u64) -> u64 {
        match self.popup.detail_debounce.last_change_at {
            Some(at) => at,
            None => now,
        }
    }

    /// The selection has moved on from the description shown, but not for long enough.
    pub open spec fn holds_detail(self, now: u64) -> bool {
        let debounce = self.popup.detail_debounce;
        &&& debounce.displayed_idx is Some
        &&& debounce.displayed_idx != self.popup.overlay.selected
        &&& elapsed(self.window_start(now), now) < self.settings.detail_box_debounce_ms
    }

    /// Which description the box shows, and when it is to be painted again. A timer is set
    /// only where timers can be, and none is in flight.
    pub open spec fn detail_plan(self, popup_height: u16, now: u64, timers: bool) -> DetailPlan {
        let debounce = self.popup.detail_debounce;
        if !self.wants_detail(popup_height) {
            DetailPlan { target: None, wake_after: None }
        } else if self.holds_detail(now) {
            DetailPlan {
                target: if has_description(
                    self.popup.suggestions,
                    debounce.displayed_idx->0 as int,
                ) {
                    debounce.displayed_idx
                } else {
                    None
                },
                wake_after: if timers && !debounce.pending {
                    Some(
                        (self.settings.detail_box_debounce_ms - elapsed(
                            self.window_start(now),
                            now,
                        )) as u64,
                    )
                } else {
                    None
                },
            }
        } else {
            let selected = self.popup.overlay.selected;
            DetailPlan {
                target: if has_description(self.popup.suggestions, selected->0 as int) {
                    selected
                } else {
                    None
                },
                wake_after: None,
            }
        }
    }

    /// With the description chosen. A selected row without one counts as shown.
    pub open spec fn detail_chosen(self, popup_height: u16, now: u64, timers: bool) -> HandlerState {
        let debounce = self.popup.detail_debounce;
        self.with_detail(
            if !self.wants_detail(popup_height) {
                DetailDebounceState { displayed_idx: None, ..debounce }
            } else if self.holds_detail(now) {
                DetailDebounceState {
                    displayed_idx: debounce.displayed_idx,
                    last_change_at: Some(self.window_start(now)),
                    pending: debounce.pending || timers,
                }
            } else {
                DetailDebounceState {
                    displayed_idx: if has_description(
                        self.popup.suggestions,
                        self.popup.overlay.selected->0 as int,
                    ) {
                        debounce.displayed_idx
                    } else {
                        self.popup.overlay.selected
                    },
                    last_change_at: None,
                    pending: debounce.pending,
                }
            },
        )
    }

    pub open spec fn with_detail(self, debounce: DetailDebounceState) -> HandlerState {
        HandlerState { popup: PopupState { detail_debounce: debounce, ..self.popup }, ..self }
    }

    /// With the description at the position dealt with. One that finds no room counts as
    /// shown only where it is that of the selected row.
    pub open spec fn detail_settled(self, idx: usize, fit: DetailFit) -> HandlerState {
        if fit == DetailFit::NoRoom && self.popup.overlay.selected != Some(idx) {
            self
        } else {
            self.with_detail(
                DetailDebounceState { displayed_idx: Some(idx), ..self.popup.detail_debounce },
            )
        }
    }

    /// The box shows another description than that of the selected row.
    pub open spec fn detail_trails(self) -> bool {
        &&& self.popup.visible
        &&& self.popup.suggestions.len() > 0
        &&& self.settings.detail_box_mode != DescriptionBoxMode::Off
        &&& self.popup.detail_debounce.displayed_idx != self.popup.overlay.selected
    }
}

fn described(rows: &Vec<Suggestion>, i: usize) -> (has: bool)
    ensures
        has == has_description(rows@, i as int),
{
    if i >= rows.len() {
        return false;
    }
    match &rows[i].description {
        Some(text) => !text.as_str().is_empty(),
        None => false,
    }
}

impl InputHandler {
    /// Begins a paint. Returns what the indicator row, the header and the footer show.
    pub fn begin_render(&mut self, now: u64) -> (shown: (FeedbackKind, PopupHints))
        requires
            old(self)@.selection_is_valid(),
        ensures
            final(self)@ == (HandlerState { screen: old(self)@.screen.bumped(), ..old(self)@ }),
            old(self)@.shows_feedback(now, shown.0),
            old(self)@.shows_hints(now, shown.1),
            final(self).wf() == old(self).wf(),
    {
        let feedback = self.current_feedback_kind(now);
        let hints = self.build_popup_hints(now);
        self.bump_output_epoch();
        (feedback, hints)
    }

    /// What the paint clears, where it scrolls the viewport by so many rows.
    pub fn render_clears(&self, additional_scroll: u16) -> (clears: RenderClears)
        ensures
            clears == self@.clears(additional_scroll),
    {
        let indicator_after_scroll = self.popup.suggestions.len() == 0
            && !self.work.feedback.is_idle() && self.screen.overlay_scroll_deficit > 0;
        let mut clears = RenderClears { popup: None, detail: None, scrolled_detail: None };
        if additional_scroll == 0 && !indicator_after_scroll {
            clears.popup = self.screen.last_layout;
            clears.detail = self.screen.last_detail_layout;
        }
        if additional_scroll > 0 {
            if let Some(detail) = self.screen.last_detail_layout {
                clears.scrolled_detail = detail_layout_after_scroll(&detail, additional_scroll);
            }
        }
        clears
    }

    /// Chooses the description that the box beside the popup shows. While the selection
    /// moves fast, the box keeps what it shows. `timers` says that a timer can be set.
    #[verifier::spinoff_prover]
    #[verifier::rlimit(40)]
    pub fn begin_detail(&mut self, popup_height: u16, now: u64, timers: bool) -> (plan: DetailPlan)
        ensures
            plan == old(self)@.detail_plan(popup_height, now, timers),
            final(self)@ == old(self)@.detail_chosen(popup_height, now, timers),
            final(self).wf() == old(self).wf(),
    {
        let selected: usize = match self.popup.overlay.selected {
            Some(selected) => selected,
            None => {
                self.popup.detail_debounce.displayed_idx = None;
                return DetailPlan { target: None, wake_after: None };
            },
        };
        if self.settings.detail_box_mode == DescriptionBoxMode::Off || popup_height == 0
            || self.popup.suggestions.len() == 0 {
            self.popup.detail_debounce.displayed_idx = None;
            return DetailPlan { target: None, wake_after: None };
        }
        if let Some(displayed) = self.popup.detail_debounce.displayed_idx {
            let window: u64 = self.settings.detail_box_debounce_ms;
            if displayed != selected {
                let since: u64 = match self.popup.detail_debounce.last_change_at {
                    Some(at) => at,
                    None => now,
                };
                let passed: u64 = elapsed_ms(since, now);
                if passed < window {
                    self.popup.detail_debounce.last_change_at = Some(since);
                    let wake_after = self.schedule_detail_debounce_wakeup(window - passed, timers);
                    let target = if described(&self.popup.suggestions, displayed) {
                        Some(displayed)
                    } else {
                        None
                    };
                    return DetailPlan { target, wake_after };
                }
            }
        }
        self.popup.detail_debounce.last_change_at = None;
        let target = if described(&self.popup.suggestions, selected) {
            Some(selected)
        } else {
            self.popup.detail_debounce.displayed_idx = Some(selected);
            None
        };
        DetailPlan { target, wake_after: None }
    }

    /// Notes that a timer is set which paints the box again. Returns its delay, at least a
    /// millisecond; none where one is in flight already, or none can be set.
    pub fn schedule_detail_debounce_wakeup(&mut self, delay_ms: u64, timers: bool) -> (wake_after:
        Option<u64>)
        ensures
            wake_after == (if timers && !old(self)@.popup.detail_debounce.pending {
                Some(if delay_ms > 0 { delay_ms } else { 1 })
            } else {
                None
            }),
            final(self)@ == old(self)@.with_detail(
                DetailDebounceState {
                    pending: old(self)@.popup.detail_debounce.pending || timers,
                    ..old(self)@.popup.detail_debounce
                },
            ),
            final(self).wf() == old(self).wf(),
    {
        if self.popup.detail_debounce.pending || !timers {
            return None;
        }
        self.popup.detail_debounce.pending = true;
        Some(if delay_ms > 0 { delay_ms } else { 1 })
    }

    /// By how many rows the box stands below the popup's first row: a popup without borders
    /// has its header there.
    pub fn detail_row_offset(&self, hints: &PopupHints) -> (offset: u16)
        ensures
            offset == box_offset(self@.settings.theme.borders, hints.index is Some),
    {
        if !self.settings.theme.borders && hints.index.is_some() {
            1
        } else {
            0
        }
    }

    /// The description at the position was drawn, or not.
    pub fn settle_detail(&mut self, idx: usize, fit: DetailFit)
        ensures
            final(self)@ == old(self)@.detail_settled(idx, fit),
            final(self).wf() == old(self).wf(),
    {
        if fit == DetailFit::NoRoom {
            match self.popup.overlay.selected {
                Some(selected) => {
                    if selected != idx {
                        return;
                    }
                },
                None => {
                    return;
                },
            }
        }
        self.popup.detail_debounce.displayed_idx = Some(idx);
    }

    /// Ends a paint: its bytes are made, and not yet written.
    pub fn finish_render(
        &mut self,
        layout: PopupLayout,
        detail_layout: Option<DetailLayout>,
        now: u64,
    )
        ensures
            final(self)@ == (HandlerState {
                screen: old(self)@.screen.rendered(layout, detail_layout, now),
                ..old(self)@
            }),
            final(self).wf() == old(self).wf(),
    {
        self.screen.stage_render(layout, detail_layout, now);
    }

    /// The timer of the description box has fired.
    pub fn clear_detail_debounce_pending(&mut self)
        ensures
            final(self)@ == old(self)@.with_detail(
                DetailDebounceState { pending: false, ..old(self)@.popup.detail_debounce },
            ),
            final(self).wf() == old(self).wf(),
    {
        self.popup.detail_debounce.pending = false;
    }

    /// Whether the popup is to be painted as the timer of the description box has fired.
    pub fn render_for_detail_redraw(&self) -> (render: bool)
        ensures
            render == self@.detail_trails(),
    {
        if !self.popup.visible || self.popup.suggestions.len() == 0
            || self.settings.detail_box_mode == DescriptionBoxMode::Off {
            return false;
        }
        match (self.popup.detail_debounce.displayed_idx, self.popup.overlay.selected) {
            (Some(displayed), Some(selected)) => displayed != selected,
            (None, None) => false,
            _ => true,
        }
    }

    /// Whether the popup is to be painted as the key hint goes back to normal.
    pub fn render_for_flash_expiry(&self) -> (render: bool)
        ensures
            render == (self@.popup.visible && self@.popup.suggestions.len() > 0),
    {
        self.popup.visible && self.popup.suggestions.len() > 0
    }

    /// Begins a paint of the indicator row alone. Nothing where no popup is on the screen.
    pub fn render_indicator_only(&mut self, now: u64) -> (row: Option<
        (PopupLayout, FeedbackKind, PopupHints),
    >)
        requires
            old(self)@.selection_is_valid(),
        ensures
            match old(self)@.screen.last_layout {
                Some(layout) => {
                    &&& row matches Some(r)
                    &&& r.0 == layout
                    &&& old(self)@.shows_feedback(now, r.1)
                    &&& old(self)@.shows_hints(now, r.2)
                    &&& final(self)@ == (HandlerState {
                        screen: old(self)@.screen.bumped(),
                        ..old(self)@
                    })
                },
                None => row is None && final(self)@ == old(self)@,
            },
            final(self).wf() == old(self).wf(),
    {
        match self.screen.last_layout {
            Some(layout) => {
                let (feedback, hints) = self.begin_render(now);
                Some((layout, feedback, hints))
            },
            None => None,
        }
    }
}

/// What covers the old description box once the popup is drawn.
pub open spec fn drawn_over(layout: PopupLayout, detail: Option<DetailLayout>) -> Seq<OverlayRect> {
    let popup = OverlayRect {
        start_row: layout.start_row,
        start_col: layout.start_col,
        width: layout.width,
        height: layout.height,
    };
    match detail {
        Some(d) => seq![
            popup,
            OverlayRect {
                start_row: d.start_row,
                start_col: d.start_col,
                width: d.width,
                height: d.height,
            },
        ],
        None => seq![popup],
    }
}

/// The bytes that clear what is left to be seen of a description box that was scrolled
/// along.
pub fn scrolled_detail_clear(
    scrolled: Option<DetailLayout>,
    layout: PopupLayout,
    detail: Option<DetailLayout>,
) -> (bytes: Vec<u8>)
    ensures
        bytes@ == (match scrolled {
            Some(old_detail) => uncovered_clear_bytes(old_detail, drawn_over(layout, detail)),
            None => Seq::empty(),
        }),
{
    let mut bytes: Vec<u8> = Vec::new();
    if let Some(old_detail) = scrolled {
        let mut covers: Vec<OverlayRect> = Vec::new();
        covers.push(OverlayRect::from_popup(&layout));
        if let Some(d) = detail {
            covers.push(OverlayRect::from_detail(&d));
        }
        assert(covers@ =~= drawn_over(layout, detail));
        clear_detail_box_uncovered_by(&mut bytes, &old_detail, covers.as_slice());
        assert(bytes@ =~= uncovered_clear_bytes(old_detail, drawn_over(layout, detail)));
    }
    bytes
}

// ---- Expiry of feedback ----

/// What becomes of feedback that has stood long enough.
#[derive(Debug)]
pub enum Expiry {
    /// It stays: there is none, or it has not stood long enough.
    Kept,
    /// The indicator row goes; these bytes take it off the screen.
    IndicatorCleared(Vec<u8>),
    /// The popup goes.
    Dismissed(Teardown),
}

/// `n` times a horizontal line.
pub open spec fn rule_bytes(n: int) -> Seq<u8>
    decreases n,
{
    if n <= 0 {
        Seq::empty()
    } else {
        rule_bytes(n - 1) + seq![0xE2u8, 0x94u8, 0x80u8]
    }
}

/// The row of the screen that the indicator stands in.
pub open spec fn indicator_row(layout: PopupLayout, borders: bool) -> int {
    layout.start_row + layout.height - 1 - (if borders {
        1int
    } else {
        0int
    })
}

/// The bytes that draw the lower border where the indicator row was.
pub open spec fn border_bytes(layout: PopupLayout, border_on: Seq<u8>) -> Seq<u8> {
    let last = layout.start_row + layout.height - 1;
    let col = layout.start_col as int;
    let inner = if layout.width >= 2 {
        layout.width - 2
    } else {
        0
    };
    move_to_bytes(last, col) + repeated(0x20, layout.width as int) + move_to_bytes(
        indicator_row(layout, true),
        col,
    ) + border_on + seq![0xE2u8, 0x95u8, 0xB0u8] + rule_bytes(inner) + seq![
        0xE2u8,
        0x95u8,
        0xAFu8,
    ] + seq![0x1Bu8, 0x5Bu8, 0x30u8, 0x6Du8]
}

/// The bytes that take the indicator row off the screen, between saving and restoring the
/// cursor. Below it stands the border, which moves up.
pub open spec fn indicator_clear_bytes(
    layout: PopupLayout,
    borders: bool,
    border_on: Seq<u8>,
) -> Seq<u8> {
    seq![0x1Bu8, 0x5Bu8, 0x73u8] + move_to_bytes(
        indicator_row(layout, borders),
        layout.start_col as int,
    ) + repeated(0x20, layout.width as int) + (if borders {
        border_bytes(layout, border_on)
    } else {
        Seq::empty()
    }) + seq![0x1Bu8, 0x5Bu8, 0x75u8]
}

impl HandlerState {
    /// The feedback has stood long enough.
    pub open spec fn feedback_expired(self, now: u64) -> bool {
        &&& self.settings.feedback_dismiss_ms > 0
        &&& match self.work.feedback {
            Feedback::Empty(at) => elapsed(at, now) >= self.settings.feedback_dismiss_ms,
            Feedback::Error(_, at) => elapsed(at, now) >= self.settings.feedback_dismiss_ms,
            Feedback::PartialError(_, at) => elapsed(at, now) >= self.settings.feedback_dismiss_ms,
            _ => false,
        }
    }

    /// Only the indicator row goes with the feedback: there are rows to keep.
    pub open spec fn keeps_rows(self) -> bool {
        self.work.feedback is PartialError && self.popup.suggestions.len() > 0
    }

    /// The popup on the screen has an indicator row, and all of it lies on the screen.
    pub open spec fn indicator_fits(self) -> bool {
        self.screen.last_layout matches Some(layout) ==> layout.height > 0 ==> {
            &&& layout.start_row + layout.height <= u16::MAX
            &&& layout.start_col < u16::MAX
            &&& indicator_row(layout, self.settings.theme.borders) >= 0
        }
    }

    /// With the feedback, and its row on the screen, gone.
    pub open spec fn indicator_dropped(self) -> HandlerState {
        HandlerState {
            work: WorkState { feedback: Feedback::Idle, ..self.work },
            screen: match self.screen.last_layout {
                Some(layout) => if layout.height > 0 {
                    Screen {
                        last_layout: Some(
                            PopupLayout { height: (layout.height - 1) as u16, ..layout },
                        ),
                        ..self.screen.bumped()
                    }
                } else {
                    self.screen
                },
                None => self.screen,
            },
            ..self
        }
    }

    /// The bytes that take the indicator row off the screen, where it is on it.
    pub open spec fn indicator_bytes(self) -> Seq<u8> {
        match self.screen.last_layout {
            Some(layout) => if layout.height > 0 {
                indicator_clear_bytes(
                    layout,
                    self.settings.theme.borders,
                    self.settings.theme.border_on@,
                )
            } else {
                Seq::empty()
            },
            None => Seq::empty(),
        }
    }
}

fn push_rule(buf: &mut Vec<u8>, n: u16)
    ensures
        final(buf)@ == old(buf)@ + rule_bytes(n as int),
{
    let ghost before = buf@;
    let mut i: u16 = 0;
    assert(before + rule_bytes(0) =~= before);
    while i < n
        invariant
            i <= n,
            buf@ == before + rule_bytes(i as int),
        decreases n - i,
    {
        buf.push(0xE2);
        buf.push(0x94);
        buf.push(0x80);
        i = i + 1;
        assert(buf@ =~= before + rule_bytes(i as int));
    }
}

fn push_border(buf: &mut Vec<u8>, layout: &PopupLayout, border_on: &Vec<u8>)
    requires
        layout.height > 0,
        layout.start_row + layout.height <= u16::MAX,
        indicator_row(*layout, true) >= 0,
    ensures
        final(buf)@ == old(buf)@ + border_bytes(*layout, border_on@),
{
    let ghost before = buf@;
    let last: u16 = layout.start_row + layout.height - 1;
    push_move_to(buf, last, layout.start_col);
    push_repeated(buf, 0x20, layout.width as usize);
    push_move_to(buf, last - 1, layout.start_col);
    buf.extend_from_slice(border_on.as_slice());
    buf.push(0xE2);
    buf.push(0x95);
    buf.push(0xB0);
    let inner: u16 = if layout.width >= 2 {
        layout.width - 2
    } else {
        0
    };
    push_rule(buf, inner);
    buf.push(0xE2);
    buf.push(0x95);
    buf.push(0xAF);
    buf.push(0x1B);
    buf.push(0x5B);
    buf.push(0x30);
    buf.push(0x6D);
    assert(buf@ =~= before + border_bytes(*layout, border_on@));
}

impl InputHandler {
    /// The bytes that take the indicator row of a popup off the screen.
    fn indicator_clear(&self, layout: &PopupLayout) -> (bytes: Vec<u8>)
        requires
            layout.height > 0,
            layout.start_row + layout.height <= u16::MAX,
            indicator_row(*layout, self@.settings.theme.borders) >= 0,
        ensures
            bytes@ == indicator_clear_bytes(
                *layout,
                self@.settings.theme.borders,
                self@.settings.theme.border_on@,
            ),
    {
        let borders = self.settings.theme.borders;
        let last: u16 = layout.start_row + layout.height - 1;
        let row: u16 = if borders {
            last - 1
        } else {
            last
        };
        let mut bytes: Vec<u8> = Vec::new();
        bytes.push(0x1B);
        bytes.push(0x5B);
        bytes.push(0x73);
        push_move_to(&mut bytes, row, layout.start_col);
        push_repeated(&mut bytes, 0x20, layout.width as usize);
        if borders {
            push_border(&mut bytes, layout, &self.settings.theme.border_on);
        }
        bytes.push(0x1B);
        bytes.push(0x5B);
        bytes.push(0x75);
        assert(bytes@ =~= indicator_clear_bytes(
            *layout,
            borders,
            self.settings.theme.border_on@,
        ));
        bytes
    }

    /// Drops feedback that has stood long enough. Where only some providers failed and
    /// there are rows to keep, just the indicator row goes; else the popup does.
    pub fn clear_expired_feedback(&mut self, now: u64) -> (expiry: Expiry)
        requires
            old(self)@.feedback_expired(now) && old(self)@.keeps_rows()
                ==> old(self)@.indicator_fits(),
        ensures
            if !old(self)@.feedback_expired(now) {
                &&& expiry is Kept
                &&& final(self)@ == old(self)@
            } else if old(self)@.keeps_rows() {
                &&& expiry matches Expiry::IndicatorCleared(bytes)
                &&& bytes@ == old(self)@.indicator_bytes()
                &&& final(self)@ == old(self)@.indicator_dropped()
            } else {
                &&& expiry == Expiry::Dismissed(old(self)@.teardown())
                &&& final(self)@ == old(self)@.dismissed()
            },
            final(self).wf() == old(self).wf(),
    {
        if self.settings.feedback_dismiss_ms == 0 {
            return Expiry::Kept;
        }
        let since: u64 = match self.work.feedback.since() {
            Some(since) => since,
            None => {
                return Expiry::Kept;
            },
        };
        if elapsed_ms(since, now) < self.settings.feedback_dismiss_ms as u64 {
            return Expiry::Kept;
        }
        let partial = matches!(self.work.feedback, AsyncFeedback::PartialError { .. });
        if partial && self.popup.suggestions.len() > 0 {
            self.work.feedback = AsyncFeedback::Idle;
            let mut bytes: Vec<u8> = Vec::new();
            if let Some(layout) = self.screen.last_layout {
                if layout.height > 0 {
                    bytes = self.indicator_clear(&layout);
                    self.bump_output_epoch();
                    self.screen.last_layout = Some(
                        PopupLayout {
                            start_row: layout.start_row,
                            start_col: layout.start_col,
                            width: layout.width,
                            height: layout.height - 1,
                            scroll_deficit: layout.scroll_deficit,
                        },
                    );
                }
            }
            return Expiry::IndicatorCleared(bytes);
        }
        Expiry::Dismissed(self.dismiss())
    }
}

// ---- Laws ----

proof fn lemma_completions_grow(rows: Seq<Suggestion>, n: int, m: int)
    requires
        0 <= n <= m <= rows.len(),
    ensures
        completions_before(rows, n) <= completions_before(rows, m),
    decreases m - n,
{
    if n < m {
        lemma_completions_grow(rows, n, m - 1);
        assert(rows.take(m).drop_last() =~= rows.take(m - 1));
    }
}

/// The header counts completions only, from one: the position never exceeds their number.
pub proof fn law_hint_position_is_in_range(h: HandlerState)
    requires
        h.selection_is_valid(),
    ensures
        h.hint_index() matches Some((at, total)) ==> 1 <= at <= total && total == completions(
            h.popup.suggestions,
        ).len(),
{
    let rows = h.popup.suggestions;
    assert(rows.take(rows.len() as int) =~= rows);
    if h.hint_index() is Some {
        if let Some(i) = h.effective() {
            lemma_completions_grow(rows, i + 1, rows.len() as int);
        }
    }
}

/// The name of a match mode gives way to the key hint at the deadline.
pub proof fn law_flash_ends_at_deadline(h: HandlerState, now: u64, later: u64)
    requires
        now <= u64::MAX - MODE_FLASH_MS,
        h.settings.theme.key_hints,
    ensures
        ({
            let toggled = h.mode_toggled(now);
            &&& later < now + MODE_FLASH_MS ==> toggled.hint_label(later) == Some(
                mode_name(toggled.settings.match_mode),
            )
            &&& later >= now + MODE_FLASH_MS ==> toggled.hint_label(later) == Some(toggled.keys_label())
        }),
{
}

/// The box shows the description of the selected row, or what it has shown before; and
/// only where there is one.
pub proof fn law_box_shows_a_description(h: HandlerState, popup_height: u16, now: u64, timers: bool)
    ensures
        h.detail_plan(popup_height, now, timers).target matches Some(i) ==> {
            &&& has_description(h.popup.suggestions, i as int)
            &&& h.popup.overlay.selected == Some(i) || h.popup.detail_debounce.displayed_idx
                == Some(i)
        },
{
}

/// At most one timer of the description box is in flight.
pub proof fn law_one_timer_at_a_time(h: HandlerState, popup_height: u16, now: u64, timers: bool)
    ensures
        h.popup.detail_debounce.pending ==> h.detail_plan(
            popup_height,
            now,
            timers,
        ).wake_after is None,
        h.detail_plan(popup_height, now, timers).wake_after is Some ==> h.detail_chosen(
            popup_height,
            now,
            timers,
        ).popup.detail_debounce.pending,
{
}

/// The box catches up once the window has passed: a paint then chooses the selected row.
pub proof fn law_box_catches_up(
    h: HandlerState,
    popup_height: u16,
    now: u64,
    later: u64,
    timers: bool,
)
    requires
        h.wants_detail(popup_height),
        h.holds_detail(now),
        later >= h.window_start(now) + h.settings.detail_box_debounce_ms,
        has_description(h.popup.suggestions, h.popup.overlay.selected->0 as int),
    ensures
        h.detail_chosen(popup_height, now, timers).detail_plan(popup_height, later, timers).target
            == h.popup.overlay.selected,
{
}

/// Once drawn, the description of the selected row is not drawn again.
pub proof fn law_drawn_box_does_not_trail(h: HandlerState, idx: usize)
    requires
        h.popup.overlay.selected == Some(idx),
    ensures
        !h.detail_settled(idx, DetailFit::Shown).detail_trails(),
{
}

/// Providers that still run are told of without end.
pub proof fn law_loading_does_not_expire(h: HandlerState, now: u64)
    ensures
        h.work.feedback is Loading ==> !h.feedback_expired(now),
        h.work.feedback is Idle ==> !h.feedback_expired(now),
        h.settings.feedback_dismiss_ms == 0 ==> !h.feedback_expired(now),
{
}

/// Dropping the indicator row keeps the rows of the popup, and takes one line off it.
pub proof fn law_dropped_indicator_keeps_rows(h: HandlerState)
    requires
        h.screen.last_layout is Some,
        h.screen.last_layout->0.height > 0,
    ensures
        h.indicator_dropped().popup == h.popup,
        h.indicator_dropped().work.feedback is Idle,
        h.indicator_dropped().screen.last_layout->0.height == h.screen.last_layout->0.height - 1,
{
}

/// A paint that scrolls the viewport clears nothing where it stood before.
pub proof fn law_scrolling_paint_clears_behind(h: HandlerState, additional_scroll: u16)
    requires
        additional_scroll > 0,
    ensures
        h.clears(additional_scroll).popup is None,
        h.clears(additional_scroll).detail is None,
{
}

/// While providers run, the indicator shows one of ten frames, each for 80 milliseconds,
/// from the first one on.
pub proof fn law_loading_shows_ten_frames(
    h: HandlerState,
    at: u64,
    now: u64,
    kind: FeedbackKind,
    turn: nat,
    frame: nat,
)
    requires
        h.work.feedback == Feedback::Loading(at),
        h.shows_feedback(now, kind),
        frame < 10,
        at + 800 * turn + 80 * frame <= now < at + 800 * turn + 80 * frame + 80,
    ensures
        kind matches FeedbackKind::Loading { frame: shown } && shown == frame,
{
    let e = now - at;
    assert(e / 80 == 10 * turn + frame) by (nonlinear_arith)
        requires
            800 * turn + 80 * frame <= e < 800 * turn + 80 * frame + 80,
    ;
    assert((10 * turn + frame) % 10 == frame) by (nonlinear_arith)
        requires
            frame < 10,
    ;
}

/// The indicator tells what the feedback is: nothing where there is none, that nothing was
/// found, the provider that failed where it is to be named, or how many failed.
pub proof fn law_indicator_tells_the_feedback(h: HandlerState, now: u64, kind: FeedbackKind)
    requires
        h.shows_feedback(now, kind),
    ensures
        h.work.feedback is Idle <==> kind is Hidden,
        h.work.feedback is Loading <==> kind is Loading,
        h.work.feedback is Empty <==> kind is Empty,
        h.work.feedback matches Feedback::Error(failed, _) ==> failed.len() == 1 ==> (
        kind matches FeedbackKind::Error { provider } && provider@ == (
        if h.settings.theme.show_provider_errors {
            failed[0]@
        } else {
            Seq::empty()
        })),
        h.work.feedback matches Feedback::Error(failed, _) ==> 1 < failed.len() <= 255 ==> (
        kind matches FeedbackKind::PartialError { providers } && providers == failed.len()),
        h.work.feedback matches Feedback::PartialError(failed, _) ==> failed.len() <= 255 ==> (
        kind matches FeedbackKind::PartialError { providers } && providers == failed.len()),
        h.work.feedback matches Feedback::PartialError(failed, _) ==> failed.len() > 255 ==> (
        kind matches FeedbackKind::PartialError { providers } && providers == 255),
{
}

proof fn lemma_all_completions(rows: Seq<Suggestion>, n: int)
    requires
        0 <= n <= rows.len(),
        forall|i: int| 0 <= i < rows.len() ==> (#[trigger] rows[i]).kind != SuggestionKind::AskAi,
    ensures
        completions_before(rows, n) == n,
    decreases n,
{
    if n > 0 {
        lemma_all_completions(rows, n - 1);
        assert(rows.take(n).drop_last() =~= rows.take(n - 1));
        assert(rows.take(n).last() == rows[n - 1]);
    }
}

/// Where all rows are completions, the header counts the selected one from one, out of
/// all; and where nothing is selected it shows the first.
pub proof fn law_header_counts_rows_from_one(h: HandlerState, i: int)
    requires
        h.settings.theme.index_hints,
        0 <= i < h.popup.suggestions.len() <= usize::MAX,
        forall|j: int|
            0 <= j < h.popup.suggestions.len() ==> (#[trigger] h.popup.suggestions[j]).kind
                != SuggestionKind::AskAi,
    ensures
        h.popup.overlay.selected == Some(i as usize) ==> h.hint_index() == Some(
            (i + 1, h.popup.suggestions.len() as int),
        ),
        h.popup.overlay.selected is None ==> h.hint_index() == Some(
            (1int, h.popup.suggestions.len() as int),
        ),
{
    let rows = h.popup.suggestions;
    lemma_all_completions(rows, i + 1);
    lemma_all_completions(rows, rows.len() as int);
    lemma_all_completions(rows, 1);
    assert(rows.take(rows.len() as int) =~= rows);
    if h.popup.overlay.selected is None && h.settings.tab_accepts_top {
        assert(rows[0].kind != SuggestionKind::AskAi);
        assert(first_completion(rows, 0) == 0);
    }
}

/// The pinned "Ask AI" row in front is not counted: behind it the first completion is the
/// first, and while it is selected the header shows the first as well.
pub proof fn law_header_skips_the_pinned_row(h: HandlerState, i: int)
    requires
        h.settings.theme.index_hints,
        0 <= i < h.popup.suggestions.len() <= usize::MAX,
        h.popup.suggestions.len() > 1,
        h.popup.suggestions[0].kind == SuggestionKind::AskAi,
        forall|j: int|
            1 <= j < h.popup.suggestions.len() ==> (#[trigger] h.popup.suggestions[j]).kind
                != SuggestionKind::AskAi,
        h.popup.overlay.selected == Some(i as usize),
    ensures
        h.hint_index() == Some(
            (
                if i == 0 {
                    1
                } else {
                    i
                },
                h.popup.suggestions.len() - 1,
            ),
        ),
{
    let rows = h.popup.suggestions;
    lemma_behind_pinned(rows, i + 1);
    lemma_behind_pinned(rows, rows.len() as int);
    assert(rows.take(rows.len() as int) =~= rows);
}

proof fn lemma_behind_pinned(rows: Seq<Suggestion>, n: int)
    requires
        1 <= n <= rows.len(),
        rows[0].kind == SuggestionKind::AskAi,
        forall|j: int| 1 <= j < rows.len() ==> (#[trigger] rows[j]).kind != SuggestionKind::AskAi,
    ensures
        completions_before(rows, n) == n - 1,
    decreases n,
{
    assert(rows.take(n).drop_last() =~= rows.take(n - 1));
    assert(rows.take(n).last() == rows[n - 1]);
    if n > 1 {
        lemma_behind_pinned(rows, n - 1);
    } else {
        assert(rows.take(0) =~= Seq::<Suggestion>::empty());
        assert(completions(rows.take(0)).len() == 0);
    }
}

/// Header and footer show only where they are switched on; the footer names the key that
/// accepts and the key that switches the mode, in this order.
pub proof fn law_hints_show_where_switched_on(h: HandlerState, now: u64)
    ensures
        !h.settings.theme.index_hints ==> h.hint_index() is None,
        h.hint_label(now) is Some <==> h.settings.theme.key_hints,
        h.settings.theme.key_hints && h.mode_flash is None ==> ({
            let label = h.hint_label(now)->0;
            let accept = key_label(h.settings.keybindings.accept@);
            let mode = key_label(h.settings.keybindings.toggle_match_mode@);
            &&& label.len() > 1 + accept.len() + mode.len()
            &&& label[0] == '<'
            &&& label.subrange(1, 1 + accept.len() as int) == accept
            &&& label.subrange(13 + accept.len() as int, 13 + accept.len() + mode.len() as int) == mode
        }),
        h.mode_flash matches Some((_, deadline)) ==> deadline <= now ==> h.hint_label(now)
            == (HandlerState { mode_flash: None, ..h }).hint_label(now),
{
    reveal_strlit("<");
    reveal_strlit("> Accept · <");
    reveal_strlit("> Mode");
    let accept = key_label(h.settings.keybindings.accept@);
    let mode = key_label(h.settings.keybindings.toggle_match_mode@);
    let label = h.keys_label();
    assert(label.subrange(1, 1 + accept.len() as int) =~= accept);
    assert("> Accept · <"@.len() == 12);
    assert(label.subrange(13 + accept.len() as int, 13 + accept.len() + mode.len() as int) =~= mode);
}

/// A paint that does not scroll clears the popup and the box that stand on the screen,
/// unless only the indicator is drawn where the viewport was scrolled for them; one that
/// scrolls has the old box cleared where it has moved to.
pub proof fn law_paint_clears_what_stands(h: HandlerState, additional_scroll: u16)
    ensures
        additional_scroll == 0 && h.popup.suggestions.len() > 0 ==> h.clears(0).popup
            == h.screen.last_layout && h.clears(0).detail == h.screen.last_detail_layout,
        additional_scroll == 0 && h.screen.overlay_scroll_deficit == 0 ==> h.clears(0).popup
            == h.screen.last_layout && h.clears(0).detail == h.screen.last_detail_layout,
        h.popup.suggestions.len() == 0 && !(h.work.feedback is Idle)
            && h.screen.overlay_scroll_deficit > 0 ==> h.clears(additional_scroll).popup is None
            && h.clears(additional_scroll).detail is None,
        h.clears(0).scrolled_detail is None,
        additional_scroll > 0 ==> h.clears(additional_scroll).scrolled_detail == (
        match h.screen.last_detail_layout {
            Some(detail) => scrolled_layout(detail, additional_scroll),
            None => None,
        }),
{
}

/// The box follows the selection once it has stood for the debounce window: until then it
/// keeps what it shows, and is painted again when the window ends.
pub proof fn law_box_waits_for_the_window(
    h: HandlerState,
    popup_height: u16,
    at: u64,
    now: u64,
    selected: usize,
    shown: usize,
)
    requires
        h.settings.detail_box_mode != DescriptionBoxMode::Off,
        popup_height > 0,
        h.popup.overlay.selected == Some(selected),
        selected < h.popup.suggestions.len(),
        shown < h.popup.suggestions.len(),
        h.popup.suggestions[selected as int].description matches Some(d) && d@.len() > 0,
        h.popup.suggestions[shown as int].description matches Some(d) && d@.len() > 0,
        h.popup.detail_debounce.displayed_idx == Some(shown),
        h.popup.detail_debounce.last_change_at == Some(at),
        at <= now,
    ensures
        shown == selected ==> h.detail_plan(popup_height, now, true) == (DetailPlan {
            target: Some(selected),
            wake_after: None,
        }),
        shown != selected && now - at >= h.settings.detail_box_debounce_ms ==> h.detail_plan(
            popup_height,
            now,
            true,
        ) == (DetailPlan { target: Some(selected), wake_after: None }),
        shown != selected && now - at < h.settings.detail_box_debounce_ms ==> ({
            let plan = h.detail_plan(popup_height, now, true);
            &&& plan.target == Some(shown)
            &&& !h.popup.detail_debounce.pending ==> (plan.wake_after matches Some(ms) && now + ms
                == at + h.settings.detail_box_debounce_ms)
            &&& h.popup.detail_debounce.pending ==> plan.wake_after is None
            &&& h.detail_plan(popup_height, now, false).wake_after is None
            &&& h.detail_chosen(
                popup_height,
                now,
                true,
            ).popup.detail_debounce.last_change_at == Some(at)
        }),
{
}

/// The first selection is described at once, and a selected row without a description
/// shows no box. Without a selection, a mode or a popup there is no box either, and what it
/// showed is forgotten.
pub proof fn law_box_needs_a_described_selection(
    h: HandlerState,
    popup_height: u16,
    now: u64,
    timers: bool,
)
    ensures
        h.settings.detail_box_mode == DescriptionBoxMode::Off || popup_height == 0
            || h.popup.suggestions.len() == 0 || h.popup.overlay.selected is None
            ==> h.detail_plan(popup_height, now, timers) == (DetailPlan {
            target: None,
            wake_after: None,
        }) && h.detail_chosen(
            popup_height,
            now,
            timers,
        ).popup.detail_debounce.displayed_idx is None,
        h.settings.detail_box_mode != DescriptionBoxMode::Off && popup_height > 0
            && h.popup.suggestions.len() > 0 && h.popup.detail_debounce.displayed_idx is None ==> (
        h.popup.overlay.selected matches Some(i) ==> h.detail_plan(
            popup_height,
            now,
            timers,
        ).target == (if i < h.popup.suggestions.len() && (
        h.popup.suggestions[i as int].description matches Some(d) && d@.len() > 0) {
            Some(i)
        } else {
            None
        })),
        h.detail_chosen(popup_height, now, timers).popup.suggestions == h.popup.suggestions,
        h.detail_chosen(popup_height, now, timers).popup.overlay == h.popup.overlay,
        h.detail_chosen(popup_height, now, timers).screen == h.screen,
{
}

/// A box that was drawn, or was not needed, counts as shown; one that found no room does
/// only where it was that of the selected row, so that it is tried again else.
pub proof fn law_drawn_box_counts_as_shown(h: HandlerState, idx: usize, fit: DetailFit)
    ensures
        fit == DetailFit::Shown || fit == DetailFit::Inline ==> h.detail_settled(
            idx,
            fit,
        ).popup.detail_debounce.displayed_idx == Some(idx),
        fit == DetailFit::NoRoom && h.popup.overlay.selected == Some(idx) ==> h.detail_settled(
            idx,
            fit,
        ).popup.detail_debounce.displayed_idx == Some(idx),
        fit == DetailFit::NoRoom && h.popup.overlay.selected != Some(idx) ==> h.detail_settled(
            idx,
            fit,
        ) == h,
{
}

/// The box is painted again only where a visible popup shows another row's description
/// than the selected one's.
pub proof fn law_box_is_repainted_where_it_trails(h: HandlerState)
    ensures
        h.detail_trails() <==> h.popup.visible && h.popup.suggestions.len() > 0
            && h.settings.detail_box_mode != DescriptionBoxMode::Off
            && h.popup.detail_debounce.displayed_idx != h.popup.overlay.selected,
{
}

/// Feedback of providers that have finished expires after its time, counted from when it
/// came up; where no time is set it stays.
pub proof fn law_feedback_expires_after_its_time(h: HandlerState, at: u64, now: u64)
    requires
        h.settings.feedback_dismiss_ms > 0,
        at <= now,
    ensures
        h.work.feedback == Feedback::Empty(at) ==> (h.feedback_expired(now) <==> now - at
            >= h.settings.feedback_dismiss_ms),
        h.work.feedback matches Feedback::Error(_, since) ==> since == at ==> (h.feedback_expired(
            now,
        ) <==> now - at >= h.settings.feedback_dismiss_ms),
        h.work.feedback matches Feedback::PartialError(_, since) ==> since == at ==> (
        h.feedback_expired(now) <==> now - at >= h.settings.feedback_dismiss_ms),
{
}

/// The indicator is the last row of the popup, above the border where there is one.
pub proof fn law_indicator_is_the_last_row(layout: PopupLayout)
    ensures
        indicator_row(layout, false) + 1 == layout.start_row + layout.height,
        indicator_row(layout, true) + 2 == layout.start_row + layout.height,
{
}

/// Taking the indicator off starts by saving the cursor and ends by restoring it, and in
/// between overwrites the row where it stands, over the width of the popup. Without
/// borders that is all.
pub proof fn law_indicator_is_overwritten(layout: PopupLayout, border_on: Seq<u8>)
    ensures
        indicator_clear_bytes(layout, false, border_on) == seq![0x1Bu8, '[' as u8, 's' as u8]
            + move_to_bytes(layout.start_row + layout.height - 1, layout.start_col as int)
            + Seq::new(layout.width as nat, |i: int| ' ' as u8) + seq![
            0x1Bu8,
            '[' as u8,
            'u' as u8,
        ],
        ({
            let bytes = indicator_clear_bytes(layout, true, border_on);
            let head = seq![0x1Bu8, '[' as u8, 's' as u8] + move_to_bytes(
                layout.start_row + layout.height - 2,
                layout.start_col as int,
            ) + Seq::new(layout.width as nat, |i: int| ' ' as u8);
            &&& head.is_prefix_of(bytes)
            &&& bytes == head + border_bytes(layout, border_on) + seq![
                0x1Bu8,
                '[' as u8,
                'u' as u8,
            ]
        }),
{
    let spaces = Seq::new(layout.width as nat, |i: int| ' ' as u8);
    assert(repeated(0x20, layout.width as int) =~= spaces);
    let none = Seq::<u8>::empty();
    let head = seq![0x1Bu8, '[' as u8, 's' as u8] + move_to_bytes(
        layout.start_row + layout.height - 1,
        layout.start_col as int,
    ) + spaces;
    assert(head + none =~= head);
}

/// The lower border moves up by one row: its old row is overwritten, and it is drawn over
/// the width of the popup in its place, between its two corners, and in its colour.
pub proof fn law_border_moves_up(layout: PopupLayout, border_on: Seq<u8>)
    requires
        layout.width >= 2,
    ensures
        border_bytes(layout, border_on) == move_to_bytes(
            layout.start_row + layout.height - 1,
            layout.start_col as int,
        ) + Seq::new(layout.width as nat, |i: int| ' ' as u8) + move_to_bytes(
            layout.start_row + layout.height - 2,
            layout.start_col as int,
        ) + border_on + encode_utf8(seq!['╰']) + rule_bytes(layout.width - 2) + encode_utf8(
            seq!['╯'],
        ) + seq![0x1Bu8, '[' as u8, '0' as u8, 'm' as u8],
        forall|n: int| n >= 0 ==> (#[trigger] rule_bytes(n)).len() == 3 * n,
        forall|n: int|
            n >= 0 ==> #[trigger] rule_bytes(n + 1) == rule_bytes(n) + encode_utf8(seq!['─']),
{
    assert(0xE0u8 | ((0x2570u32 >> 12) & 0x0F) as u8 == 0xE2 && 0x80u8 | ((0x2570u32 >> 6)
        & 0x3F) as u8 == 0x95 && 0x80u8 | (0x2570u32 & 0x3F) as u8 == 0xB0) by (bit_vector);
    assert(0xE0u8 | ((0x256Fu32 >> 12) & 0x0F) as u8 == 0xE2 && 0x80u8 | ((0x256Fu32 >> 6)
        & 0x3F) as u8 == 0x95 && 0x80u8 | (0x256Fu32 & 0x3F) as u8 == 0xAF) by (bit_vector);
    assert(0xE0u8 | ((0x2500u32 >> 12) & 0x0F) as u8 == 0xE2 && 0x80u8 | ((0x2500u32 >> 6)
        & 0x3F) as u8 == 0x94 && 0x80u8 | (0x2500u32 & 0x3F) as u8 == 0x80) by (bit_vector);
    lemma_box_char('╰', 0xE2, 0x95, 0xB0);
    lemma_box_char('╯', 0xE2, 0x95, 0xAF);
    lemma_box_char('─', 0xE2, 0x94, 0x80);
    assert(repeated(0x20, layout.width as int) =~= Seq::new(
        layout.width as nat,
        |i: int| ' ' as u8,
    ));
    assert forall|n: int| n >= 0 implies (#[trigger] rule_bytes(n)).len() == 3 * n by {
        lemma_rule_len(n);
    }
}

proof fn lemma_rule_len(n: int)
    requires
        n >= 0,
    ensures
        rule_bytes(n).len() == 3 * n,
    decreases n,
{
    if n > 0 {
        lemma_rule_len(n - 1);
    }
}

/// The three bytes of a character of three.
proof fn lemma_box_char(c: char, a: u8, b: u8, d: u8)
    requires
        0x800 <= c as u32 <= 0xD7FF,
        a == (0xE0 | ((c as u32 >> 12) & 0x0F) as u8),
        b == (0x80 | ((c as u32 >> 6) & 0x3F) as u8),
        d == (0x80 | (c as u32 & 0x3F) as u8),
    ensures
        encode_utf8(seq![c]) == seq![a, b, d],
{
    let s = seq![c];
    assert(s.drop_first() =~= Seq::<char>::empty());
    assert(encode_utf8(s.drop_first()) =~= Seq::<u8>::empty());
    assert(encode_utf8(s) =~= seq![a, b, d]);
}

/// By how many rows the description box stands below the popup's first row.
pub open spec fn box_offset(borders: bool, has_header: bool) -> int {
    if !borders && has_header {
        1
    } else {
        0
    }
}

/// The description box stands one row lower where the popup's first row is a header, and
/// level with it otherwise.
pub proof fn law_box_stands_below_the_header(borders: bool, has_header: bool)
    ensures
        box_offset(false, true) == 1,
        box_offset(true, has_header) == 0,
        box_offset(borders, false) == 0,
{
}

/// What is drawn over a box are all cells of the popup and of the new box, and no others.
pub proof fn law_popup_and_new_box_are_drawn_over(
    layout: PopupLayout,
    detail: DetailLayout,
    row: int,
    col: int,
)
    requires
        layout.start_row + layout.height <= u16::MAX,
        layout.start_col + layout.width <= u16::MAX,
        detail.start_row + detail.height <= u16::MAX,
        detail.start_col + detail.width <= u16::MAX,
    ensures
        ({
            let in_popup = layout.start_row <= row < layout.start_row + layout.height
                && layout.start_col <= col < layout.start_col + layout.width;
            let in_box = detail.start_row <= row < detail.start_row + detail.height
                && detail.start_col <= col < detail.start_col + detail.width;
            &&& is_covered(drawn_over(layout, Some(detail)), row, col) <==> in_popup || in_box
            &&& is_covered(drawn_over(layout, None), row, col) <==> in_popup
        }),
{
    let both = drawn_over(layout, Some(detail));
    let one = drawn_over(layout, None);
    assert(both[0].covers(row, col) == one[0].covers(row, col));
    assert(both[1].covers(row, col) || !both[1].covers(row, col));
}

/// A match mode just chosen stands on the key hint, by its name, until its time is over.
pub proof fn law_chosen_mode_stands_on_the_hint(
    h: HandlerState,
    mode: MatchMode,
    deadline: u64,
    now: u64,
)
    requires
        h.settings.theme.key_hints,
        h.mode_flash == Some((mode, deadline)),
        now < deadline,
    ensures
        mode == MatchMode::Fuzzy ==> h.hint_label(now) == Some("Fuzzy"@),
        mode == MatchMode::Substring ==> h.hint_label(now) == Some("Substring"@),
{
}

} // verus!
