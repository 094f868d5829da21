//! Writing overlay bytes to the terminal.
//!
//! The bytes are made under the handler's lock and written later. In between, the shell
//! may have written to the screen; then the bytes are dropped.

use vstd::prelude::*;

use crate::handler::screen::Dropped;
use crate::handler::screen::OverlayWriteTicket;
use crate::handler::state::HandlerState;
use crate::handler::state::InputHandler;

verus! {

/// What became of overlay bytes.
#[derive(Debug, Clone, Copy, PartialEq, Eq, Structural)]
pub enum OverlayWriteOutcome {
    Empty,
    Written,
    Stale,
}

/// Whether overlay bytes may be written.
#[derive(Debug, Clone, Copy, PartialEq, Eq, Structural)]
pub enum WriteGate {
    /// There is nothing to write.
    Empty,
    /// The screen has changed since. The running providers may have to be aborted.
    Stale { abort_task: bool },
    /// They may, as long as the handler's lock is held.
    Write,
}

impl HandlerState {
    /// Whether the bytes of a ticket may be written.
    pub open spec fn gate(self, ticket: OverlayWriteTicket, empty: bool) -> WriteGate {
        if empty {
            WriteGate::Empty
        } else if self.screen.output_epoch != ticket.epoch {
            WriteGate::Stale {
                abort_task: self.screen.lost(ticket) == Dropped::Render && self.work.dynamic_task,
            }
        } else {
            WriteGate::Write
        }
    }
}

impl InputHandler {
    /// Asks whether the bytes of a ticket may be written. Bytes that may not are lost.
    pub fn begin_overlay_write(&mut self, ticket: OverlayWriteTicket, bytes: &[u8]) -> (gate:
        WriteGate)
        ensures
            gate == old(self)@.gate(ticket, bytes@.len() == 0),
            final(self)@ == (if gate is Stale {
                old(self)@.after_loss(ticket)
            } else {
                old(self)@
            }),
            final(self).wf() == old(self).wf(),
    {
        if bytes.len() == 0 {
            return WriteGate::Empty;
        }
        if self.screen.output_epoch != ticket.epoch {
            let abort_task = self.discard_overlay_ownership_after_stale_write(ticket);
            return WriteGate::Stale { abort_task };
        }
        WriteGate::Write
    }

    /// The bytes of a ticket were written, or writing them has failed. What they show is
    /// owned only where they were written.
    pub fn finish_overlay_write(&mut self, ticket: OverlayWriteTicket, written: bool) -> (outcome:
        Option<OverlayWriteOutcome>)
        ensures
            if written {
                &&& outcome == Some(OverlayWriteOutcome::Written)
                &&& final(self)@ == (HandlerState {
                    screen: old(self)@.screen.committed(ticket),
                    ..old(self)@
                })
            } else {
                &&& outcome is None
                &&& final(self)@ == old(self)@
            },
            final(self).wf() == old(self).wf(),
    {
        if written {
            self.commit_overlay_write(ticket);
            Some(OverlayWriteOutcome::Written)
        } else {
            None
        }
    }
}

// ---- Laws ----

/// No byte is written that was made before the screen last changed.
pub proof fn law_stale_bytes_are_never_written(
    h: HandlerState,
    ticket: OverlayWriteTicket,
    empty: bool,
)
    requires
        h.screen.output_epoch != ticket.epoch,
    ensures
        !(h.gate(ticket, empty) is Write),
{
}

/// Bytes made from the current state may be written.
pub proof fn law_current_bytes_may_be_written(h: HandlerState)
    ensures
        h.gate(h.screen.ticket_of(), false) == WriteGate::Write,
{
}

/// Dropping the bytes of an older paint keeps a newer one.
pub proof fn law_newer_paint_survives_older_loss(
    h: HandlerState,
    older: OverlayWriteTicket,
)
    requires
        !h.screen.render_matches(older),
        !h.screen.cleanup_matches(older),
    ensures
        h.after_loss(older) == h,
{
}

/// Nothing to write is no write, however old. Of outdated bytes only those of a render that
/// is still pending abort the running providers, and only where some run.
pub proof fn law_outdated_render_aborts_providers(h: HandlerState, ticket: OverlayWriteTicket)
    ensures
        h.gate(ticket, true) == WriteGate::Empty,
        ticket.epoch == h.screen.output_epoch ==> h.gate(ticket, false) == WriteGate::Write,
        ticket.epoch != h.screen.output_epoch && ticket.cleanup_token is None && (
        h.screen.pending_overlay_render matches Some(p) && ticket.render_token == Some(p.token))
            ==> h.gate(ticket, false) == (WriteGate::Stale { abort_task: h.work.dynamic_task }),
        ticket.epoch != h.screen.output_epoch && ticket.render_token is None ==> h.gate(
            ticket,
            false,
        ) == (WriteGate::Stale { abort_task: false }),
{
}

} // verus!
