//! What the proxy's timers do.

use vstd::prelude::*;

use crate::feedback::Feedback;
use crate::handler::overlay::PopupLayout;
use crate::handler::render::Expiry;
use crate::handler::render::FeedbackKind;
use crate::handler::render::PopupHints;
use crate::handler::state::DetailDebounceState;
use crate::handler::state::HandlerState;
use crate::handler::state::InputHandler;
use crate::handler::state::Teardown;
use crate::handler::state::WorkState;
use crate::proxy::overlay_write::OverlayWriteOutcome;

verus! {

/// How often the indicator row is animated while providers run.
pub const LOADING_TICK_MS: u64 = 80;

/// How often standing feedback is looked at.
pub const FEEDBACK_TICK_MS: u64 = 200;

/// What a tick paints.
#[derive(Debug)]
pub enum TickPaint {
    Nothing,
    /// The indicator row of the popup.
    Indicator(PopupLayout, FeedbackKind, PopupHints),
    /// These bytes.
    Bytes(Vec<u8>),
    /// The popup goes.
    Clear(Teardown),
}

/// What a tick of the feedback timer leads to.
#[derive(Debug)]
pub struct Tick {
    /// The time until the next tick.
    pub next_ms: u64,
    /// There is a next tick.
    pub keep_running: bool,
    pub paint: TickPaint,
}

/// What a tick of the feedback timer does.
pub open spec fn tick_step(before: HandlerState, now: u64, after: HandlerState, tick: Tick) -> bool {
    if before.work.feedback is Loading {
        &&& tick.next_ms == LOADING_TICK_MS
        &&& tick.keep_running
        &&& match before.screen.last_layout {
            Some(layout) => {
                &&& tick.paint matches TickPaint::Indicator(l, feedback, hints)
                &&& l == layout
                &&& before.shows_feedback(now, feedback)
                &&& before.shows_hints(now, hints)
                &&& after == (HandlerState { screen: before.screen.bumped(), ..before })
            },
            None => tick.paint is Nothing && after == before,
        }
    } else {
        &&& tick.next_ms == FEEDBACK_TICK_MS
        &&& if !before.feedback_expired(now) {
            &&& tick.keep_running == !(before.work.feedback is Idle)
            &&& tick.paint is Nothing
            &&& after == before
        } else if before.keeps_rows() {
            &&& !tick.keep_running
            &&& tick.paint matches TickPaint::Bytes(bytes) && bytes@ == before.indicator_bytes()
            &&& after == before.indicator_dropped()
        } else {
            &&& !tick.keep_running
            &&& tick.paint == TickPaint::Clear(before.teardown())
            &&& after == before.dismissed()
        }
    }
}

impl HandlerState {
    /// The name of the match mode has stood on the key hint for its time.
    pub open spec fn flash_is_over(self, now: u64) -> bool {
        match self.mode_flash {
            Some((_, deadline)) => now >= deadline,
            None => false,
        }
    }

    /// A pause in typing computes suggestions.
    pub open spec fn pause_computes(self) -> bool {
        !self.debounce_suppressed && self.settings.auto_trigger
    }
}

impl InputHandler {
    /// A tick of the feedback timer: animates the indicator row while providers run, and
    /// drops feedback that has stood long enough.
    pub fn feedback_tick(&mut self, now: u64) -> (tick: Tick)
        requires
            old(self)@.selection_is_valid(),
            old(self)@.feedback_expired(now) && old(self)@.keeps_rows()
                ==> old(self)@.indicator_fits(),
        ensures
            tick_step(old(self)@, now, final(self)@, tick),
            final(self).wf() == old(self).wf(),
    {
        if self.work.feedback.is_loading() {
            let paint = match self.render_indicator_only(now) {
                Some((layout, feedback, hints)) => TickPaint::Indicator(layout, feedback, hints),
                None => TickPaint::Nothing,
            };
            return Tick { next_ms: LOADING_TICK_MS, keep_running: true, paint };
        }
        match self.clear_expired_feedback(now) {
            Expiry::Kept => Tick {
                next_ms: FEEDBACK_TICK_MS,
                keep_running: self.work.feedback.since().is_some(),
                paint: TickPaint::Nothing,
            },
            Expiry::IndicatorCleared(bytes) => Tick {
                next_ms: FEEDBACK_TICK_MS,
                keep_running: false,
                paint: TickPaint::Bytes(bytes),
            },
            Expiry::Dismissed(teardown) => Tick {
                next_ms: FEEDBACK_TICK_MS,
                keep_running: false,
                paint: TickPaint::Clear(teardown),
            },
        }
    }

    /// Takes the name of the match mode off the key hint where its time is over. `true` if
    /// the popup is to be painted.
    pub fn expire_mode_flash(&mut self, now: u64) -> (expired: bool)
        ensures
            expired == old(self)@.flash_is_over(now),
            final(self)@ == (if expired {
                HandlerState { mode_flash: None, ..old(self)@ }
            } else {
                old(self)@
            }),
            final(self).wf() == old(self).wf(),
    {
        if let Some((_, deadline)) = self.mode_flash {
            if now >= deadline {
                self.mode_flash = None;
                return true;
            }
        }
        false
    }

    /// Whether a pause in typing computes suggestions.
    pub fn debounce_fires(&self) -> (fires: bool)
        ensures
            fires == self@.pause_computes(),
    {
        !self.debounce_suppressed && self.settings.auto_trigger
    }

    /// The timer of the description box has fired. `true` if the popup is to be painted.
    pub fn detail_timer_fired(&mut self) -> (render: bool)
        ensures
            render == old(self)@.detail_trails(),
            final(self)@ == old(self)@.with_detail(
                DetailDebounceState { pending: false, ..old(self)@.popup.detail_debounce },
            ),
            final(self).wf() == old(self).wf(),
    {
        self.clear_detail_debounce_pending();
        self.render_for_detail_redraw()
    }

    /// Begins to ask the language model, where one is available.
    pub fn begin_ask_ai(&mut self, now: u64) -> (asks: bool)
        ensures
            asks == old(self)@.ask_ai,
            final(self)@ == (if asks {
                HandlerState {
                    work: WorkState { feedback: Feedback::Loading(now), ..old(self)@.work },
                    ..old(self)@
                }
            } else {
                old(self)@
            }),
            final(self).wf() == old(self).wf(),
    {
        if self.ask_ai {
            self.begin_ask_ai_loading(now);
        }
        self.ask_ai
    }
}

/// The feedback timer goes on, given what became of the bytes of a tick.
pub open spec fn goes_on_after(keep_running: bool, written: Option<OverlayWriteOutcome>) -> bool {
    keep_running && (written == Some(OverlayWriteOutcome::Written) || written == Some(
        OverlayWriteOutcome::Empty,
    ))
}

/// Whether the feedback timer goes on, given what became of the bytes of a tick. Bytes
/// that could not be written, or may no longer be, end it.
pub fn keeps_ticking(keep_running: bool, written: Option<OverlayWriteOutcome>) -> (goes_on: bool)
    ensures
        goes_on == goes_on_after(keep_running, written),
{
    match written {
        Some(OverlayWriteOutcome::Written) => keep_running,
        Some(OverlayWriteOutcome::Empty) => keep_running,
        _ => false,
    }
}

/// The time left until a deadline.
pub open spec fn time_left(deadline: u64, now: u64) -> int {
    if deadline > now {
        deadline - now
    } else {
        0
    }
}

/// How long to sleep until a deadline; not at all where it has passed.
pub fn sleep_until(deadline: u64, now: u64) -> (ms: u64)
    ensures
        ms == time_left(deadline, now),
{
    if deadline > now {
        deadline - now
    } else {
        0
    }
}

// ---- Laws ----

/// The timer runs as long as there is feedback: it stops only where the feedback is gone.
pub proof fn law_timer_stops_with_feedback(
    before: HandlerState,
    now: u64,
    after: HandlerState,
    tick: Tick,
)
    requires
        tick_step(before, now, after, tick),
        !tick.keep_running,
    ensures
        after.work.feedback is Idle,
{
}

/// Sleeping until the deadline of a match mode's name is enough for it to expire.
pub proof fn law_flash_expires_after_sleep(deadline: u64, now: u64)
    ensures
        now + (if deadline > now {
            deadline - now
        } else {
            0
        }) >= deadline,
{
}

/// The sleep until a deadline ends exactly at it, or is none where it has passed.
pub proof fn law_sleep_ends_at_the_deadline(deadline: u64, now: u64)
    ensures
        now <= deadline ==> now + time_left(deadline, now) == deadline,
        now >= deadline ==> time_left(deadline, now) == 0,
{
}

/// The name of a match mode stands until its deadline, and not at it or behind it.
pub proof fn law_flash_stands_until_its_deadline(h: HandlerState, now: u64)
    ensures
        h.mode_flash is None ==> !h.flash_is_over(now),
        h.mode_flash matches Some((_, deadline)) ==> (h.flash_is_over(now) <==> now >= deadline),
        h.mode_flash matches Some((_, deadline)) ==> now + time_left(deadline, now) <= u64::MAX
            ==> h.flash_is_over((now + time_left(deadline, now)) as u64),
{
}

/// A pause computes suggestions where automatic triggers are on and the popup was not
/// dismissed.
pub proof fn law_pause_computes_where_allowed(h: HandlerState)
    ensures
        h.settings.auto_trigger && !h.debounce_suppressed ==> h.pause_computes(),
        !h.settings.auto_trigger ==> !h.pause_computes(),
        h.debounce_suppressed ==> !h.pause_computes(),
{
}

/// The timer goes on behind a tick that was painted or had nothing to paint, as long as the
/// tick asks for it; bytes that were outdated or could not be written end it.
pub proof fn law_lost_tick_ends_the_timer(written: Option<OverlayWriteOutcome>)
    ensures
        !goes_on_after(false, written),
        goes_on_after(true, Some(OverlayWriteOutcome::Written)),
        goes_on_after(true, Some(OverlayWriteOutcome::Empty)),
        !goes_on_after(true, Some(OverlayWriteOutcome::Stale)),
        !goes_on_after(true, None),
{
}

/// While providers run, the popup on the screen is animated every 80 ms. The popup, its
/// place and the providers stay as they are.
pub proof fn law_running_providers_are_animated(
    before: HandlerState,
    now: u64,
    after: HandlerState,
    tick: Tick,
)
    requires
        tick_step(before, now, after, tick),
        before.work.feedback is Loading,
    ensures
        tick.next_ms == 80,
        tick.keep_running,
        before.screen.last_layout matches Some(layout) ==> (tick.paint matches TickPaint::Indicator(
            l,
            _,
            _,
        ) && l == layout),
        before.screen.last_layout is None ==> tick.paint is Nothing,
        after.popup == before.popup,
        after.work == before.work,
        after.screen.last_layout == before.screen.last_layout,
{
}

/// Other feedback is looked at every 200 ms, and stays as it is until its time is over.
pub proof fn law_standing_feedback_is_kept_until_its_time(
    before: HandlerState,
    now: u64,
    after: HandlerState,
    tick: Tick,
)
    requires
        tick_step(before, now, after, tick),
        !(before.work.feedback is Loading),
        !before.feedback_expired(now),
    ensures
        tick.next_ms == 200,
        tick.keep_running <==> before.work.feedback !is Idle,
        tick.paint is Nothing,
        after == before,
{
}

/// Feedback whose time is over goes, and the timer ends. Rows that came beside an error
/// stay; else the popup goes with it.
pub proof fn law_expired_feedback_goes(
    before: HandlerState,
    now: u64,
    after: HandlerState,
    tick: Tick,
)
    requires
        tick_step(before, now, after, tick),
        before.feedback_expired(now),
    ensures
        !tick.keep_running,
        after.work.feedback is Idle,
        before.work.feedback is PartialError && before.popup.suggestions.len() > 0 ==> after.popup
            == before.popup && tick.paint is Bytes,
        !(before.work.feedback is PartialError) || before.popup.suggestions.len() == 0
            ==> !after.popup.visible && tick.paint == TickPaint::Clear(before.teardown()),
{
}

} // verus!
