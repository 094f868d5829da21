//! When a change of the command line makes the popup fire.

use vstd::prelude::*;

verus! {

/// What to do with a single suggestion-relevant event, independent of timing.
#[derive(Debug, Clone, Copy, PartialEq, Eq, Structural)]
pub enum Action {
    /// Fire suggestions synchronously. Bypasses debounce suppression because it only
    /// comes from paths that already cleared that gate.
    Trigger,
    /// Notify the debounce loop; the loop re-checks suppression at fire time.
    Debounce,
}

/// Outcome of [`buffer_dirty_action`].
#[derive(Debug, Clone, Copy, PartialEq, Eq, Structural)]
pub enum BufferDirtyAction {
    /// Apply the action now; the display has caught up to the buffer report.
    Immediate(Action),
    /// Stash the action until a display-changing byte arrives, so that popup geometry is
    /// computed against a current cursor.
    Defer(Action),
    /// Drop the buffer event.
    Ignore,
}

/// The action that a buffer event calls for, if any: a requested trigger always fires;
/// otherwise auto-trigger must be on and debounce not suppressed, and the delay decides.
pub open spec fn wanted_action(
    has_pending_trigger: bool,
    delay_ms: u64,
    auto_trigger_enabled: bool,
    debounce_suppressed: bool,
) -> Option<Action> {
    if has_pending_trigger {
        Some(Action::Trigger)
    } else if !auto_trigger_enabled || debounce_suppressed {
        None
    } else if delay_ms == 0 {
        Some(Action::Trigger)
    } else {
        Some(Action::Debounce)
    }
}

pub open spec fn timed(action: Option<Action>, buffer_pending_display: bool) -> BufferDirtyAction {
    match action {
        Some(a) => if buffer_pending_display {
            BufferDirtyAction::Defer(a)
        } else {
            BufferDirtyAction::Immediate(a)
        },
        None => BufferDirtyAction::Ignore,
    }
}

pub fn buffer_dirty_action(
    has_pending_trigger: bool,
    delay_ms: u64,
    auto_trigger_enabled: bool,
    debounce_suppressed: bool,
    buffer_pending_display: bool,
) -> (action: BufferDirtyAction)
    ensures
        action == timed(
            wanted_action(has_pending_trigger, delay_ms, auto_trigger_enabled, debounce_suppressed),
            buffer_pending_display,
        ),
{
    // A manual trigger takes precedence over the auto-trigger gate.
    if has_pending_trigger {
        return if buffer_pending_display {
            BufferDirtyAction::Defer(Action::Trigger)
        } else {
            BufferDirtyAction::Immediate(Action::Trigger)
        };
    }
    if !auto_trigger_enabled {
        return BufferDirtyAction::Ignore;
    }
    if debounce_suppressed {
        return BufferDirtyAction::Ignore;
    }
    if delay_ms == 0 {
        if buffer_pending_display {
            BufferDirtyAction::Defer(Action::Trigger)
        } else {
            BufferDirtyAction::Immediate(Action::Trigger)
        }
    } else if buffer_pending_display {
        BufferDirtyAction::Defer(Action::Debounce)
    } else {
        BufferDirtyAction::Immediate(Action::Debounce)
    }
}

/// Single-slot stash for a deferred [`Action`].
///
/// A newer buffer event reflects newer cursor geometry, so `stash` overwrites. `resolve`
/// drains the slot even where it drops the action, so that a stale entry cannot fire on a
/// later redraw.
#[derive(Debug)]
pub struct PendingTrigger(Option<Action>);

impl View for PendingTrigger {
    type V = Option<Action>;

    closed spec fn view(&self) -> Option<Action> {
        self.0
    }
}

impl Default for PendingTrigger {
    fn default() -> (slot: Self)
        ensures
            slot@ is None,
    {
        PendingTrigger(None)
    }
}

/// What a drained slot fires: nothing with auto-trigger off; a debounce only where it is
/// not suppressed; a trigger in any other case.
pub open spec fn fired(
    slot: Option<Action>,
    auto_trigger_enabled: bool,
    debounce_suppressed: bool,
) -> Option<Action> {
    if !auto_trigger_enabled || (slot == Some(Action::Debounce) && debounce_suppressed) {
        None
    } else {
        slot
    }
}

/// The slot after a buffer event: a deferred action replaces what was there, and any
/// other outcome empties it.
pub open spec fn slot_after(action: BufferDirtyAction) -> Option<Action> {
    match action {
        BufferDirtyAction::Defer(a) => Some(a),
        _ => None,
    }
}

impl PendingTrigger {
    pub fn new() -> (slot: Self)
        ensures
            slot@ is None,
    {
        PendingTrigger(None)
    }

    /// Stashes a deferred action in place of any other.
    pub fn stash(&mut self, action: Action)
        ensures
            final(self)@ == Some(action),
    {
        self.0 = Some(action);
    }

    pub fn is_pending(&self) -> (pending: bool)
        ensures
            pending == self@ is Some,
    {
        self.0.is_some()
    }

    /// Clears the slot where a fresher outcome superseded it, for the reason given.
    pub fn clear_for_supersede(&mut self, _reason: &'static str)
        ensures
            final(self)@ is None,
    {
        self.0 = None;
    }

    /// Drains the slot and says what fires.
    pub fn resolve(
        &mut self,
        auto_trigger_enabled: bool,
        debounce_suppressed: bool,
    ) -> (action: Option<Action>)
        ensures
            action == fired(old(self)@, auto_trigger_enabled, debounce_suppressed),
            final(self)@ is None,
    {
        let action = self.0;
        self.0 = None;
        if !auto_trigger_enabled {
            return None;
        }
        match action {
            Some(Action::Debounce) => if debounce_suppressed {
                None
            } else {
                Some(Action::Debounce)
            },
            other => other,
        }
    }

    /// Updates the slot for the outcome of a buffer event, and returns the action to
    /// apply at once, if any.
    pub fn apply(&mut self, action: BufferDirtyAction) -> (now: Option<Action>)
        ensures
            final(self)@ == slot_after(action),
            now == (match action {
                BufferDirtyAction::Immediate(a) => Some(a),
                _ => None,
            }),
    {
        match action {
            BufferDirtyAction::Immediate(a) => {
                self.clear_for_supersede("immediate");
                Some(a)
            },
            BufferDirtyAction::Defer(a) => {
                self.stash(a);
                None
            },
            BufferDirtyAction::Ignore => {
                self.clear_for_supersede("ignore");
                None
            },
        }
    }
}

// ---- Laws ----

/// A requested trigger is never dropped by a buffer event, whatever the settings.
pub proof fn law_requested_trigger_always_fires(
    delay_ms: u64,
    auto_trigger_enabled: bool,
    debounce_suppressed: bool,
    buffer_pending_display: bool,
)
    ensures
        !(timed(
            wanted_action(true, delay_ms, auto_trigger_enabled, debounce_suppressed),
            buffer_pending_display,
        ) is Ignore),
{
}

/// Whether the display lags behind decides when an action is applied, never which.
pub proof fn law_display_lag_only_defers(action: Option<Action>)
    ensures
        match (timed(action, true), timed(action, false)) {
            (BufferDirtyAction::Defer(a), BufferDirtyAction::Immediate(b)) => a == b,
            (BufferDirtyAction::Ignore, BufferDirtyAction::Ignore) => true,
            _ => false,
        },
{
}

/// An action deferred by one event fires after a later one only if that event deferred
/// it again: the newest event alone decides what the slot holds.
pub proof fn law_newest_event_decides_slot(
    newest: BufferDirtyAction,
    auto_trigger_enabled: bool,
    debounce_suppressed: bool,
)
    ensures
        match newest {
            BufferDirtyAction::Defer(a) => fired(
                slot_after(newest),
                auto_trigger_enabled,
                debounce_suppressed,
            ) == fired(Some(a), auto_trigger_enabled, debounce_suppressed),
            _ => fired(slot_after(newest), auto_trigger_enabled, debounce_suppressed) is None,
        },
{
}

/// A deferred trigger survives debounce suppression, a deferred debounce does not.
pub proof fn law_trigger_bypasses_suppression(debounce_suppressed: bool)
    ensures
        fired(Some(Action::Trigger), true, debounce_suppressed) == Some(Action::Trigger),
        fired(Some(Action::Debounce), true, debounce_suppressed) is Some <==> !debounce_suppressed,
{
}

/// What a buffer event leads to while the display is up to date: a requested trigger fires;
/// without one the delay decides between firing and waiting for a pause, and either switch
/// turns both off.
pub proof fn law_delay_decides_between_trigger_and_pause(
    delay_ms: u64,
    auto_trigger_enabled: bool,
    debounce_suppressed: bool,
)
    ensures
        timed(wanted_action(true, delay_ms, auto_trigger_enabled, debounce_suppressed), false)
            == BufferDirtyAction::Immediate(Action::Trigger),
        timed(wanted_action(false, 0, true, false), false) == BufferDirtyAction::Immediate(
            Action::Trigger,
        ),
        delay_ms > 0 ==> timed(wanted_action(false, delay_ms, true, false), false)
            == BufferDirtyAction::Immediate(Action::Debounce),
        timed(wanted_action(false, delay_ms, false, debounce_suppressed), false)
            == BufferDirtyAction::Ignore,
        timed(wanted_action(false, delay_ms, auto_trigger_enabled, true), false)
            == BufferDirtyAction::Ignore,
{
}

/// A slot fires what was put in it, nothing where nothing was, and nothing at all while
/// automatic triggers are off.
pub proof fn law_slot_fires_what_it_holds(a: Action, debounce_suppressed: bool)
    ensures
        fired(slot_after(BufferDirtyAction::Defer(a)), true, false) == Some(a),
        fired(None, true, debounce_suppressed) is None,
        fired(Some(a), false, debounce_suppressed) is None,
        slot_after(BufferDirtyAction::Immediate(a)) is None,
        slot_after(BufferDirtyAction::Ignore) is None,
{
}

} // verus!
