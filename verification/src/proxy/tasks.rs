//! The proxy's tasks, as machines that are driven by what happens outside.

use vstd::prelude::*;

use crate::handler::state::HandlerState;
use crate::handler::state::InputHandler;
use crate::handler::state::ShellKind;
use crate::handler::state::Teardown;
use crate::input::keys_of;
use crate::input::Key;
use crate::input::KeyEvent;
use crate::proxy::cpr::action_for;
use crate::proxy::cpr::cpr_report;
use crate::proxy::cpr::law_forwarded_report_reads_back;
use crate::proxy::cpr::report_bytes;
use crate::proxy::cpr::CprAction;
use crate::proxy::cpr::CprOwner;
use crate::proxy::trigger::slot_after;
use crate::proxy::trigger::Action;
use crate::proxy::trigger::BufferDirtyAction;
use crate::proxy::trigger::PendingTrigger;

verus! {

// ---- From the terminal to the shell ----

/// The position that a key reports, where it is a report of the terminal.
pub open spec fn position_in(key: Key) -> Option<(u16, u16)> {
    match key {
        Key::CursorPositionReport(row, col) => Some((row, col)),
        _ => None,
    }
}

/// The position that a key reports, where it is a report of the terminal.
pub fn reported_position(key: &KeyEvent) -> (position: Option<(u16, u16)>)
    ensures
        position == position_in(key@),
{
    match key {
        KeyEvent::CursorPositionReport(row, col) => Some((*row, *col)),
        _ => None,
    }
}

/// The bytes for the shell that a report leads to.
pub open spec fn shell_bytes_of(action: CprAction) -> Option<Seq<u8>> {
    match action {
        CprAction::SyncOurs(_, _) => None,
        CprAction::ForwardToPty(row, col) => Some(report_bytes(row, col)),
        CprAction::DropEmpty(row, col) => Some(report_bytes(row, col)),
    }
}

/// The bytes for the shell that a report leads to; none where the proxy has asked for it.
pub fn forwarded_report(action: CprAction) -> (bytes: Option<Vec<u8>>)
    ensures
        match bytes {
            Some(b) => shell_bytes_of(action) == Some(b@),
            None => shell_bytes_of(action) is None,
        },
{
    match action {
        CprAction::SyncOurs(_, _) => None,
        CprAction::ForwardToPty(row, col) => Some(cpr_report(row, col)),
        CprAction::DropEmpty(row, col) => Some(cpr_report(row, col)),
    }
}

// ---- From the shell to the terminal ----

/// What the terminal's state says once output of the shell was written. The events come in
/// the order in which they are listed.
#[derive(Debug, Clone, Copy, PartialEq, Eq, Structural)]
pub enum OutputEvent {
    /// A prompt was drawn, or not.
    Prompt { seen: bool },
    /// A full-screen program has started or ended, or not.
    AltScreen { changed: bool },
    /// The command line has changed, or not; and the shell has yet to echo it, or not.
    Buffer { dirty: bool, pending_display: bool },
    /// The shell has yet to echo the command line, or not.
    Display { pending: bool },
    /// Directory or environment of the shell have changed, or not.
    Environment { cwd_dirty: bool, shell_env_dirty: bool },
}

/// What follows on an event.
#[derive(Debug, Clone, Copy, PartialEq, Eq, Structural)]
pub enum OutputAction {
    Nothing,
    /// The popup goes.
    Clear(Teardown),
    /// Suggestions are computed.
    Trigger,
    /// Suggestions are computed once typing pauses.
    Debounce,
}

pub open spec fn as_output_action(action: Option<Action>) -> OutputAction {
    match action {
        Some(Action::Trigger) => OutputAction::Trigger,
        Some(Action::Debounce) => OutputAction::Debounce,
        None => OutputAction::Nothing,
    }
}

/// What an event does: handler and slot behind it, and what follows.
pub open spec fn output_step(
    before: HandlerState,
    slot: Option<Action>,
    event: OutputEvent,
    delay_ms: u64,
) -> (HandlerState, Option<Action>, OutputAction) {
    match event {
        OutputEvent::Prompt { seen } => (
            if seen && before.settings.shell_kind != ShellKind::Zsh {
                HandlerState { line: (Seq::empty(), 0), ..before }
            } else {
                before
            },
            slot,
            OutputAction::Nothing,
        ),
        OutputEvent::AltScreen { changed } => if changed {
            (before.dismissed(), slot, OutputAction::Clear(before.teardown()))
        } else {
            (before, slot, OutputAction::Nothing)
        },
        OutputEvent::Buffer { dirty, pending_display } => if dirty {
            let action = before.on_buffer_change(delay_ms, pending_display);
            (
                HandlerState { trigger_requested: false, ..before },
                slot_after(action),
                match action {
                    BufferDirtyAction::Immediate(a) => as_output_action(Some(a)),
                    _ => OutputAction::Nothing,
                },
            )
        } else {
            (before, slot, OutputAction::Nothing)
        },
        OutputEvent::Display { pending } => if slot is Some && !pending {
            (
                HandlerState { manual_trigger_stashed: false, ..before },
                None,
                as_output_action(before.on_display(slot)),
            )
        } else {
            (before, slot, OutputAction::Nothing)
        },
        OutputEvent::Environment { cwd_dirty, shell_env_dirty } => (
            before,
            slot,
            if (cwd_dirty || shell_env_dirty) && before.settings.auto_trigger {
                OutputAction::Trigger
            } else {
                OutputAction::Nothing
            },
        ),
    }
}

fn to_output_action(action: Option<Action>) -> (out: OutputAction)
    ensures
        out == as_output_action(action),
{
    match action {
        Some(Action::Trigger) => OutputAction::Trigger,
        Some(Action::Debounce) => OutputAction::Debounce,
        None => OutputAction::Nothing,
    }
}

impl InputHandler {
    /// What an event behind output of the shell leads to.
    pub fn on_output(&mut self, slot: &mut PendingTrigger, event: OutputEvent, delay_ms: u64) -> (
        action: OutputAction)
        ensures
            (final(self)@, final(slot)@, action) == output_step(
                old(self)@,
                old(slot)@,
                event,
                delay_ms,
            ),
            old(self).wf() ==> final(self).wf(),
    {
        match event {
            OutputEvent::Prompt { seen } => {
                if seen {
                    self.prompt_seen();
                }
                OutputAction::Nothing
            },
            OutputEvent::AltScreen { changed } => if changed {
                OutputAction::Clear(self.dismiss())
            } else {
                OutputAction::Nothing
            },
            OutputEvent::Buffer { dirty, pending_display } => if dirty {
                to_output_action(self.buffer_changed(slot, delay_ms, pending_display))
            } else {
                OutputAction::Nothing
            },
            OutputEvent::Display { pending } => to_output_action(
                self.resolve_deferred(slot, pending),
            ),
            OutputEvent::Environment { cwd_dirty, shell_env_dirty } => {
                if self.triggers_on_environment(cwd_dirty, shell_env_dirty) {
                    OutputAction::Trigger
                } else {
                    OutputAction::Nothing
                }
            },
        }
    }
}

// ---- The typing pause ----

/// How far the debounce task has come.
#[derive(Debug, Clone, Copy, PartialEq, Eq, Structural)]
pub enum DebounceState {
    /// The command line has not changed.
    Idle,
    /// It has; the pause is measured.
    Pausing,
    /// Suggestions were computed; providers are waited for.
    Blocking,
    /// The terminal is gone.
    Stopped,
}

/// What happens to the debounce task.
#[derive(Debug, Clone, Copy, PartialEq, Eq, Structural)]
pub enum DebounceEvent {
    /// The command line has changed.
    Notified,
    /// The time asked for has passed.
    Elapsed,
    /// Suggestions were computed. They are shown, and providers may be waited for.
    Prepared { block_ms: Option<u64> },
    /// A provider has brought something, or all have ended.
    Received,
    /// Bytes could not be written.
    WriteFailed,
}

/// What the debounce task does.
#[derive(Debug, Clone, Copy, PartialEq, Eq, Structural)]
pub enum DebounceAction {
    /// Waits for the command line to change.
    Wait,
    /// Waits for the command line to change, or for so long.
    Sleep(u64),
    /// Computes suggestions.
    Prepare,
    /// Waits for providers, for the command line to change, or for so long.
    AwaitProviders(u64),
    /// Applies what came.
    Apply,
    /// Applies that nothing came in time.
    ApplyTimeout,
    /// Aborts the providers; then measures the pause.
    Abort(u64),
    Stop,
}

/// What the debounce task does on an event. `fires` says whether a pause computes
/// suggestions.
pub open spec fn debounced(
    state: DebounceState,
    event: DebounceEvent,
    delay_ms: u64,
    fires: bool,
) -> (DebounceState, DebounceAction) {
    match (state, event) {
        (DebounceState::Stopped, _) => (DebounceState::Stopped, DebounceAction::Stop),
        (_, DebounceEvent::WriteFailed) => (DebounceState::Stopped, DebounceAction::Stop),
        (DebounceState::Blocking, DebounceEvent::Notified) => (
            DebounceState::Pausing,
            DebounceAction::Abort(delay_ms),
        ),
        (_, DebounceEvent::Notified) => (DebounceState::Pausing, DebounceAction::Sleep(delay_ms)),
        (DebounceState::Pausing, DebounceEvent::Elapsed) => if fires {
            (DebounceState::Idle, DebounceAction::Prepare)
        } else {
            (DebounceState::Idle, DebounceAction::Wait)
        },
        (DebounceState::Idle, DebounceEvent::Prepared { block_ms: Some(ms) }) => (
            DebounceState::Blocking,
            DebounceAction::AwaitProviders(ms),
        ),
        (DebounceState::Blocking, DebounceEvent::Elapsed) => (
            DebounceState::Idle,
            DebounceAction::ApplyTimeout,
        ),
        (DebounceState::Blocking, DebounceEvent::Received) => (
            DebounceState::Idle,
            DebounceAction::Apply,
        ),
        _ => (state, DebounceAction::Wait),
    }
}

/// One step of the debounce task.
pub fn debounce_step(
    state: DebounceState,
    event: DebounceEvent,
    delay_ms: u64,
    fires: bool,
) -> (step: (DebounceState, DebounceAction))
    ensures
        step == debounced(state, event, delay_ms, fires),
{
    match (state, event) {
        (DebounceState::Stopped, _) => (DebounceState::Stopped, DebounceAction::Stop),
        (_, DebounceEvent::WriteFailed) => (DebounceState::Stopped, DebounceAction::Stop),
        (DebounceState::Blocking, DebounceEvent::Notified) => (
            DebounceState::Pausing,
            DebounceAction::Abort(delay_ms),
        ),
        (_, DebounceEvent::Notified) => (DebounceState::Pausing, DebounceAction::Sleep(delay_ms)),
        (DebounceState::Pausing, DebounceEvent::Elapsed) => if fires {
            (DebounceState::Idle, DebounceAction::Prepare)
        } else {
            (DebounceState::Idle, DebounceAction::Wait)
        },
        (DebounceState::Idle, DebounceEvent::Prepared { block_ms: Some(ms) }) => (
            DebounceState::Blocking,
            DebounceAction::AwaitProviders(ms),
        ),
        (DebounceState::Blocking, DebounceEvent::Elapsed) => (
            DebounceState::Idle,
            DebounceAction::ApplyTimeout,
        ),
        (DebounceState::Blocking, DebounceEvent::Received) => (
            DebounceState::Idle,
            DebounceAction::Apply,
        ),
        _ => (state, DebounceAction::Wait),
    }
}

// ---- Laws ----

/// Only a pause computes suggestions: while the command line keeps changing, the pause is
/// measured anew.
pub proof fn law_typing_restarts_the_pause(state: DebounceState, delay_ms: u64, fires: bool)
    requires
        !(state is Stopped),
    ensures
        debounced(state, DebounceEvent::Notified, delay_ms, fires).0 == DebounceState::Pausing,
        debounced(state, DebounceEvent::Notified, delay_ms, fires).1 != DebounceAction::Prepare,
{
}

/// Suggestions are computed only at the end of a pause, and only where a pause is to
/// compute them.
pub proof fn law_only_a_pause_computes(
    state: DebounceState,
    event: DebounceEvent,
    delay_ms: u64,
    fires: bool,
)
    requires
        debounced(state, event, delay_ms, fires).1 == DebounceAction::Prepare,
    ensures
        state == DebounceState::Pausing,
        event == DebounceEvent::Elapsed,
        fires,
{
}

/// A change of the command line gives up waiting for providers that were started for the
/// old one.
pub proof fn law_typing_aborts_the_wait(delay_ms: u64, fires: bool)
    ensures
        debounced(DebounceState::Blocking, DebounceEvent::Notified, delay_ms, fires).1
            == DebounceAction::Abort(delay_ms),
{
}

/// No event behind output of the shell moves the popup on the screen, except that of a
/// full-screen program.
pub proof fn law_output_events_keep_popup(
    before: HandlerState,
    slot: Option<Action>,
    event: OutputEvent,
    delay_ms: u64,
)
    requires
        !(event is AltScreen),
    ensures
        output_step(before, slot, event, delay_ms).0.popup == before.popup,
        output_step(before, slot, event, delay_ms).0.screen == before.screen,
        output_step(before, slot, event, delay_ms).0.work == before.work,
{
}

/// A report that the proxy has asked for never reaches the shell; every other one does, and
/// the shell reads from it the position that the terminal sent.
pub proof fn law_reports_of_others_reach_the_shell(row: u16, col: u16)
    ensures
        shell_bytes_of(action_for(Some(CprOwner::Ours), row, col)) is None,
        action_for(Some(CprOwner::Ours), row, col) == CprAction::SyncOurs(row, col),
        shell_bytes_of(action_for(Some(CprOwner::Shell), row, col)) matches Some(bytes) && keys_of(
            bytes,
        ) == seq![Key::CursorPositionReport(row, col)],
        shell_bytes_of(action_for(None, row, col)) matches Some(bytes) && keys_of(bytes) == seq![
            Key::CursorPositionReport(row, col),
        ],
{
    law_forwarded_report_reads_back(row, col);
}

/// Only a report holds a position, and it is the one that the terminal sent.
pub proof fn law_only_reports_hold_positions(key: Key, row: u16, col: u16)
    ensures
        position_in(Key::CursorPositionReport(row, col)) == Some((row, col)),
        position_in(key) is Some ==> key is CursorPositionReport,
{
}

/// A prompt empties the tracked line and nothing else. In zsh, which reports the line by
/// itself, it leaves the line too.
pub proof fn law_prompt_empties_tracked_line(
    before: HandlerState,
    slot: Option<Action>,
    delay_ms: u64,
)
    ensures
        ({
            let (after, slot_then, action) = output_step(
                before,
                slot,
                OutputEvent::Prompt { seen: true },
                delay_ms,
            );
            &&& before.settings.shell_kind != ShellKind::Zsh ==> after.line.0.len() == 0
                && after.line.1 == 0
            &&& before.settings.shell_kind == ShellKind::Zsh ==> after == before
            &&& after == (HandlerState { line: after.line, ..before })
            &&& slot_then == slot
            &&& action == OutputAction::Nothing
        }),
{
}

/// A full-screen program that starts or ends takes the popup down.
pub proof fn law_full_screen_takes_popup_down(
    before: HandlerState,
    slot: Option<Action>,
    delay_ms: u64,
)
    ensures
        ({
            let (after, slot_then, action) = output_step(
                before,
                slot,
                OutputEvent::AltScreen { changed: true },
                delay_ms,
            );
            &&& !after.popup.visible
            &&& after.popup.suggestions.len() == 0
            &&& action == OutputAction::Clear(before.teardown())
            &&& slot_then == slot
        }),
{
}

/// An event that reports no change does nothing.
pub proof fn law_unchanged_state_does_nothing(
    before: HandlerState,
    slot: Option<Action>,
    pending: bool,
    delay_ms: u64,
)
    ensures
        ({
            let idle = (before, slot, OutputAction::Nothing);
            &&& output_step(before, slot, OutputEvent::Prompt { seen: false }, delay_ms) == idle
            &&& output_step(before, slot, OutputEvent::AltScreen { changed: false }, delay_ms)
                == idle
            &&& output_step(
                before,
                slot,
                OutputEvent::Buffer { dirty: false, pending_display: pending },
                delay_ms,
            ) == idle
            &&& output_step(before, slot, OutputEvent::Display { pending: true }, delay_ms) == idle
            &&& output_step(before, None, OutputEvent::Display { pending }, delay_ms).2
                == OutputAction::Nothing
            &&& output_step(
                before,
                slot,
                OutputEvent::Environment { cwd_dirty: false, shell_env_dirty: false },
                delay_ms,
            ) == idle
        }),
{
}

/// A changed line that the shell has echoed fires at once, with no delay set, and waits for
/// a pause with one. The request for a trigger is used up.
pub proof fn law_echoed_change_fires_at_once(
    before: HandlerState,
    slot: Option<Action>,
    delay_ms: u64,
)
    requires
        before.settings.auto_trigger,
        !before.debounce_suppressed,
    ensures
        ({
            let (after, slot_then, action) = output_step(
                before,
                slot,
                OutputEvent::Buffer { dirty: true, pending_display: false },
                delay_ms,
            );
            &&& action == (if before.trigger_requested || delay_ms == 0 {
                OutputAction::Trigger
            } else {
                OutputAction::Debounce
            })
            &&& slot_then is None
            &&& !after.trigger_requested
            &&& after.line == before.line
        }),
{
}

/// A changed line that the shell has yet to echo fires nothing, and the same thing as it
/// would have fired once the echo is there.
pub proof fn law_change_waits_for_the_echo(
    before: HandlerState,
    slot: Option<Action>,
    delay_ms: u64,
)
    requires
        before.settings.auto_trigger,
    ensures
        ({
            let (then, held, action) = output_step(
                before,
                slot,
                OutputEvent::Buffer { dirty: true, pending_display: true },
                delay_ms,
            );
            let echoed = output_step(then, held, OutputEvent::Display { pending: false }, delay_ms);
            let at_once = output_step(
                before,
                slot,
                OutputEvent::Buffer { dirty: true, pending_display: false },
                delay_ms,
            );
            &&& action == OutputAction::Nothing
            &&& echoed.2 == at_once.2
            &&& echoed.1 is None
            &&& held is Some ==> !echoed.0.manual_trigger_stashed
        }),
{
}

/// Another directory, or another environment, computes suggestions where automatic triggers
/// are on, and nowhere else.
pub proof fn law_new_directory_or_environment_computes(
    before: HandlerState,
    slot: Option<Action>,
    flag: bool,
    delay_ms: u64,
)
    ensures
        ({
            let want = if before.settings.auto_trigger {
                OutputAction::Trigger
            } else {
                OutputAction::Nothing
            };
            &&& output_step(
                before,
                slot,
                OutputEvent::Environment { cwd_dirty: true, shell_env_dirty: flag },
                delay_ms,
            ) == (before, slot, want)
            &&& output_step(
                before,
                slot,
                OutputEvent::Environment { cwd_dirty: flag, shell_env_dirty: true },
                delay_ms,
            ) == (before, slot, want)
        }),
{
}

/// A change of the line followed by a pause of the given length computes suggestions, where
/// a pause is to, and else waits for the next change.
pub proof fn law_change_and_pause_compute(
    state: DebounceState,
    delay_ms: u64,
    fires: bool,
    later: bool,
)
    requires
        !(state is Stopped),
    ensures
        ({
            let (paused, asked) = debounced(state, DebounceEvent::Notified, delay_ms, fires);
            let (then, done) = debounced(paused, DebounceEvent::Elapsed, delay_ms, later);
            &&& asked == (if state is Blocking {
                DebounceAction::Abort(delay_ms)
            } else {
                DebounceAction::Sleep(delay_ms)
            })
            &&& done == (if later {
                DebounceAction::Prepare
            } else {
                DebounceAction::Wait
            })
            &&& then == DebounceState::Idle
        }),
{
}

/// Behind suggestions that wait for providers, what comes in time is applied, and that
/// nothing came in time is applied too; then the next change is waited for.
pub proof fn law_providers_are_awaited_once(ms: u64, delay_ms: u64, fires: bool)
    ensures
        ({
            let (blocked, asked) = debounced(
                DebounceState::Idle,
                DebounceEvent::Prepared { block_ms: Some(ms) },
                delay_ms,
                fires,
            );
            &&& asked == DebounceAction::AwaitProviders(ms)
            &&& debounced(blocked, DebounceEvent::Received, delay_ms, fires) == (
                DebounceState::Idle,
                DebounceAction::Apply,
            )
            &&& debounced(blocked, DebounceEvent::Elapsed, delay_ms, fires) == (
                DebounceState::Idle,
                DebounceAction::ApplyTimeout,
            )
        }),
        debounced(
            DebounceState::Idle,
            DebounceEvent::Prepared { block_ms: None },
            delay_ms,
            fires,
        ) == (DebounceState::Idle, DebounceAction::Wait),
{
}

/// Bytes that cannot be written stop the task, from any state and for good.
pub proof fn law_failed_write_stops_for_good(
    state: DebounceState,
    event: DebounceEvent,
    delay_ms: u64,
    fires: bool,
)
    ensures
        ({
            let (stopped, action) = debounced(state, DebounceEvent::WriteFailed, delay_ms, fires);
            &&& action == DebounceAction::Stop
            &&& debounced(stopped, event, delay_ms, fires) == (stopped, DebounceAction::Stop)
        }),
        debounced(state, event, delay_ms, fires).1 == DebounceAction::Stop ==> state is Stopped
            || event is WriteFailed,
{
}

/// What nothing was asked for changes nothing: time that passes without a pause or a wait,
/// and providers that are not waited for.
pub proof fn law_unasked_events_are_ignored(ms: Option<u64>, delay_ms: u64, fires: bool)
    ensures
        debounced(DebounceState::Idle, DebounceEvent::Elapsed, delay_ms, fires) == (
            DebounceState::Idle,
            DebounceAction::Wait,
        ),
        debounced(DebounceState::Idle, DebounceEvent::Received, delay_ms, fires) == (
            DebounceState::Idle,
            DebounceAction::Wait,
        ),
        debounced(DebounceState::Pausing, DebounceEvent::Received, delay_ms, fires) == (
            DebounceState::Pausing,
            DebounceAction::Wait,
        ),
        debounced(
            DebounceState::Pausing,
            DebounceEvent::Prepared { block_ms: ms },
            delay_ms,
            fires,
        ) == (DebounceState::Pausing, DebounceAction::Wait),
        debounced(
            DebounceState::Blocking,
            DebounceEvent::Prepared { block_ms: ms },
            delay_ms,
            fires,
        ) == (DebounceState::Blocking, DebounceAction::Wait),
{
}

} // verus!
