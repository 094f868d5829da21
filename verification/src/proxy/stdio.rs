//! What passes between the terminal and the shell.

use vstd::prelude::*;
use vstd::slice::slice_to_vec;

use crate::handler::state::HandlerState;
use crate::handler::state::InputHandler;
use crate::handler::state::ShellKind;
use crate::input::key_views;
use crate::input::keys_of;
use crate::input::lemma_pending_start_bounds;
use crate::input::pending_start;
use crate::input::KeyEvent;
use crate::input::KeyParser;
use crate::predict::BufferModel;
use crate::proxy::trigger::buffer_dirty_action;
use crate::proxy::trigger::fired;
use crate::proxy::trigger::slot_after;
use crate::proxy::trigger::timed;
use crate::proxy::trigger::wanted_action;
use crate::proxy::trigger::Action;
use crate::proxy::trigger::BufferDirtyAction;
use crate::proxy::trigger::PendingTrigger;

verus! {

/// What the terminal has sent.
#[derive(Debug)]
pub enum StdinStep {
    /// Bytes for the shell as they are.
    Raw(Vec<u8>),
    /// Keys for the popup to look at.
    Keys(Vec<KeyEvent>),
}

/// What is read of bytes from the terminal, behind those held back; and what is held back
/// of them.
pub open spec fn reads_stdin(
    held: Seq<u8>,
    in_alt_screen: bool,
    bytes: Seq<u8>,
    step: StdinStep,
    held_then: Seq<u8>,
) -> bool {
    let all = held + bytes;
    if in_alt_screen {
        &&& step matches StdinStep::Raw(raw) && raw@ == all
        &&& held_then == Seq::<u8>::empty()
    } else {
        &&& step matches StdinStep::Keys(keys) && key_views(keys@) == keys_of(
            all.take(pending_start(all)),
        )
        &&& held_then == all.skip(pending_start(all))
    }
}

/// Reads what the terminal has sent. A program that owns the alternate screen gets every
/// byte as it came, with what was held back of an unfinished escape sequence in front.
pub fn stdin_step(parser: &mut KeyParser, in_alt_screen: bool, bytes: &[u8]) -> (step: StdinStep)
    ensures
        reads_stdin(old(parser)@, in_alt_screen, bytes@, step, final(parser)@),
{
    if in_alt_screen {
        let mut raw = parser.drain_pending();
        let mut tail = slice_to_vec(bytes);
        raw.append(&mut tail);
        StdinStep::Raw(raw)
    } else {
        StdinStep::Keys(parser.parse(bytes))
    }
}

/// The request for a cursor position report.
pub open spec fn cursor_request() -> Seq<u8> {
    seq![0x1Bu8, 0x5Bu8, 0x36u8, 0x6Eu8]
}

/// The bytes for the terminal behind output of the shell.
pub open spec fn terminal_output(
    cleanup: Seq<u8>,
    output: Seq<u8>,
    request_cursor: bool,
) -> Seq<u8> {
    cleanup + output + (if request_cursor {
        cursor_request()
    } else {
        Seq::empty()
    })
}

/// The bytes for the terminal: those that clear the popup, the output of the shell, and a
/// request for the position of the cursor where one is due.
pub fn terminal_bytes(cleanup: Vec<u8>, output: Vec<u8>, request_cursor: bool) -> (bytes: Vec<u8>)
    ensures
        bytes@ == terminal_output(cleanup@, output@, request_cursor),
{
    let mut bytes = cleanup;
    let mut rest = output;
    bytes.append(&mut rest);
    if request_cursor {
        bytes.push(0x1B);
        bytes.push(0x5B);
        bytes.push(0x36);
        bytes.push(0x6E);
    }
    assert(bytes@ =~= terminal_output(cleanup@, output@, request_cursor));
    bytes
}

impl HandlerState {
    /// What a change of the command line leads to.
    pub open spec fn on_buffer_change(
        self,
        delay_ms: u64,
        buffer_pending_display: bool,
    ) -> BufferDirtyAction {
        timed(
            wanted_action(
                self.trigger_requested,
                delay_ms,
                self.settings.auto_trigger,
                self.debounce_suppressed,
            ),
            buffer_pending_display,
        )
    }

    /// What a deferred action leads to once the display has caught up. A trigger by key
    /// does not depend on automatic triggers.
    pub open spec fn on_display(self, slot: Option<Action>) -> Option<Action> {
        fired(
            slot,
            self.settings.auto_trigger || self.manual_trigger_stashed,
            self.debounce_suppressed,
        )
    }
}

impl InputHandler {
    /// The command line has changed. Returns what is to be done at once; what has to wait
    /// for the shell's echo is put in the slot.
    pub fn buffer_changed(
        &mut self,
        slot: &mut PendingTrigger,
        delay_ms: u64,
        buffer_pending_display: bool,
    ) -> (now: Option<Action>)
        ensures
            ({
                let action = old(self)@.on_buffer_change(delay_ms, buffer_pending_display);
                &&& now == (match action {
                    BufferDirtyAction::Immediate(a) => Some(a),
                    _ => None,
                })
                &&& final(slot)@ == slot_after(action)
            }),
            final(self)@ == (HandlerState { trigger_requested: false, ..old(self)@ }),
            final(self).wf() == old(self).wf(),
    {
        let action = buffer_dirty_action(
            self.trigger_requested,
            delay_ms,
            self.settings.auto_trigger,
            self.debounce_suppressed,
            buffer_pending_display,
        );
        self.trigger_requested = false;
        slot.apply(action)
    }

    /// Once the display has caught up, says what a deferred action leads to, and empties
    /// the slot.
    pub fn resolve_deferred(
        &mut self,
        slot: &mut PendingTrigger,
        buffer_pending_display: bool,
    ) -> (now: Option<Action>)
        ensures
            if old(slot)@ is Some && !buffer_pending_display {
                &&& now == old(self)@.on_display(old(slot)@)
                &&& final(slot)@ is None
                &&& final(self)@ == (HandlerState { manual_trigger_stashed: false, ..old(self)@ })
            } else {
                &&& now is None
                &&& final(slot)@ == old(slot)@
                &&& final(self)@ == old(self)@
            },
            final(self).wf() == old(self).wf(),
    {
        if !slot.is_pending() || buffer_pending_display {
            return None;
        }
        let manual = self.manual_trigger_stashed;
        self.manual_trigger_stashed = false;
        slot.resolve(self.settings.auto_trigger || manual, self.debounce_suppressed)
    }

    /// A prompt was drawn: the tracked command line starts anew.
    pub fn prompt_seen(&mut self)
        ensures
            final(self)@ == (HandlerState {
                line: if old(self)@.settings.shell_kind != ShellKind::Zsh {
                    (Seq::empty(), 0)
                } else {
                    old(self)@.line
                },
                ..old(self)@
            }),
            old(self).wf() ==> final(self).wf(),
    {
        if self.settings.shell_kind != ShellKind::Zsh {
            self.input_model = BufferModel::default();
        }
    }

    /// Whether another directory or environment of the shell computes suggestions.
    pub fn triggers_on_environment(&self, cwd_dirty: bool, shell_env_dirty: bool) -> (triggers:
        bool)
        ensures
            triggers == ((cwd_dirty || shell_env_dirty) && self@.settings.auto_trigger),
    {
        (cwd_dirty || shell_env_dirty) && self.settings.auto_trigger
    }
}

// ---- Laws ----

/// A trigger by key that had to wait for the shell's echo fires once the display has
/// caught up, even where automatic triggers are off.
pub proof fn law_stashed_key_trigger_fires(h: HandlerState, delay_ms: u64)
    ensures
        ({
            let stashed = h.trigger_stashed();
            let action = stashed.on_buffer_change(delay_ms, true);
            let cleared = HandlerState { trigger_requested: false, ..stashed };
            cleared.on_display(slot_after(action)) == Some(Action::Trigger)
        }),
{
}

/// With automatic triggers off and none requested, a change of the line does nothing, now
/// or later.
pub proof fn law_no_automatic_trigger_when_off(
    h: HandlerState,
    delay_ms: u64,
    buffer_pending_display: bool,
)
    requires
        !h.settings.auto_trigger,
        !h.trigger_requested,
    ensures
        h.on_buffer_change(delay_ms, buffer_pending_display) is Ignore,
        slot_after(h.on_buffer_change(delay_ms, buffer_pending_display)) is None,
{
}

/// A program that owns the alternate screen gets every byte in its order, and nothing is
/// held back from it.
pub proof fn law_full_screen_program_gets_every_byte(
    held: Seq<u8>,
    bytes: Seq<u8>,
    step: StdinStep,
    held_then: Seq<u8>,
)
    requires
        reads_stdin(held, true, bytes, step, held_then),
    ensures
        step matches StdinStep::Raw(raw) && raw@ == held + bytes,
        held_then.len() == 0,
{
}

/// Outside of it no byte is lost: what is not held back is read as keys.
pub proof fn law_bytes_are_read_or_held_back(
    held: Seq<u8>,
    bytes: Seq<u8>,
    step: StdinStep,
    held_then: Seq<u8>,
)
    requires
        reads_stdin(held, false, bytes, step, held_then),
    ensures
        step is Keys,
        exists|read: Seq<u8>|
            #![trigger keys_of(read)]
            read + held_then == held + bytes && key_views(step->Keys_0@) == keys_of(read),
{
    let all = held + bytes;
    lemma_pending_start_bounds(all);
    let read = all.take(pending_start(all));
    assert(read + held_then =~= all);
    assert(key_views(step->Keys_0@) == keys_of(read));
}

/// The popup is cleared before the shell's output is shown, and the position of the cursor
/// is asked for behind it, by a device status request.
pub proof fn law_popup_is_cleared_before_output(cleanup: Seq<u8>, output: Seq<u8>)
    ensures
        terminal_output(cleanup, output, false) == cleanup + output,
        terminal_output(cleanup, output, true) == cleanup + output + seq![
            0x1Bu8,
            '[' as u8,
            '6' as u8,
            'n' as u8,
        ],
{
    assert(terminal_output(cleanup, output, false) =~= cleanup + output);
    assert(terminal_output(cleanup, output, true) =~= cleanup + output + seq![
        0x1Bu8,
        '[' as u8,
        '6' as u8,
        'n' as u8,
    ]);
}

/// With automatic triggers on, a change of the line that the shell has echoed fires at once
/// or after a pause, as the delay says; a dismissed popup keeps quiet.
pub proof fn law_automatic_triggers_follow_the_delay(h: HandlerState, delay_ms: u64)
    requires
        h.settings.auto_trigger,
        !h.trigger_requested,
    ensures
        !h.debounce_suppressed ==> h.on_buffer_change(delay_ms, false)
            == BufferDirtyAction::Immediate(
            if delay_ms == 0 {
                Action::Trigger
            } else {
                Action::Debounce
            },
        ),
        h.debounce_suppressed ==> h.on_buffer_change(delay_ms, false) == BufferDirtyAction::Ignore,
{
}

/// Once the display has caught up, a deferred trigger fires where automatic triggers are on
/// or it came by key; a deferred pause is measured only while the popup may come up.
pub proof fn law_deferred_action_fires_on_display(h: HandlerState)
    ensures
        h.on_display(None) is None,
        h.settings.auto_trigger || h.manual_trigger_stashed ==> h.on_display(Some(Action::Trigger))
            == Some(Action::Trigger),
        !h.settings.auto_trigger && !h.manual_trigger_stashed ==> h.on_display(
            Some(Action::Trigger),
        ) is None && h.on_display(Some(Action::Debounce)) is None,
        h.settings.auto_trigger ==> (h.on_display(Some(Action::Debounce)) is Some
            <==> !h.debounce_suppressed),
{
}

} // verus!
