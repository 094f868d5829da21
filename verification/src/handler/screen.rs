//! What the popup owns on the screen.
//!
//! Overlay bytes are made under the handler's lock and written later. Until they are
//! written, their effect on the screen is pending; a ticket says which pending effect a
//! buffer of bytes has.

use vstd::prelude::*;

use crate::handler::overlay::DetailLayout;
use crate::handler::overlay::PopupLayout;

verus! {

#[derive(Debug, Clone, Copy, PartialEq, Eq, Structural)]
pub struct OverlayRenderToken(pub u64);

#[derive(Debug, Clone, Copy, PartialEq, Eq, Structural)]
pub struct OverlayCleanupToken(pub u64);

/// Which state of the screen a buffer of overlay bytes was made from.
#[derive(Debug, Clone, Copy, PartialEq, Eq, Structural)]
pub struct OverlayWriteTicket {
    pub epoch: u64,
    pub render_token: Option<OverlayRenderToken>,
    pub cleanup_token: Option<OverlayCleanupToken>,
}

/// Layouts of a render buffer that has not reached the terminal yet.
#[derive(Debug, Clone, Copy, PartialEq, Eq, Structural)]
pub struct PendingOverlayRender {
    pub token: OverlayRenderToken,
    pub layout: PopupLayout,
    pub detail_layout: Option<DetailLayout>,
}

#[derive(Debug, Clone, Copy, PartialEq, Eq, Structural)]
pub enum CleanupScope {
    /// Cleanup bytes clear both the popup and the description box.
    MainAndDetail,
    /// Cleanup bytes clear only the description box; the popup stays.
    DetailOnly,
}

/// Cleanup bytes that have not reached the terminal yet.
#[derive(Debug, Clone, Copy, PartialEq, Eq, Structural)]
pub struct PendingOverlayCleanup {
    pub token: OverlayCleanupToken,
    pub scope: CleanupScope,
}

/// What a dropped buffer of overlay bytes would have done.
#[derive(Debug, Clone, Copy, PartialEq, Eq, Structural)]
pub enum Dropped {
    Cleanup,
    Render,
    Nothing,
}

#[derive(Debug, Clone, Copy, PartialEq, Eq, Structural)]
pub struct Screen {
    /// The popup on the screen.
    pub last_layout: Option<PopupLayout>,
    /// The description box on the screen.
    pub last_detail_layout: Option<DetailLayout>,
    /// Viewport scroll caused by rendering popups. It outlasts a dismissed popup, because
    /// the viewport stays scrolled.
    pub overlay_scroll_deficit: u16,
    /// Stamp of overlay bytes: they are dropped if it has moved on before they are
    /// written.
    pub output_epoch: u64,
    pub overlay_render_generation: u64,
    pub pending_overlay_render: Option<PendingOverlayRender>,
    pub overlay_cleanup_generation: u64,
    pub pending_overlay_cleanup: Option<PendingOverlayCleanup>,
    pub last_repaint_at: Option<u64>,
}

/// The counter behind `n`, which starts anew behind the greatest.
pub open spec fn next(n: u64) -> u64 {
    if n == u64::MAX {
        0
    } else {
        (n + 1) as u64
    }
}

/// Counts one up.
pub fn next_of(n: u64) -> (m: u64)
    ensures
        m == next(n),
{
    n.wrapping_add(1)
}

impl Screen {
    /// Nothing owned, nothing pending.
    pub open spec fn blank() -> Screen {
        Screen {
            last_layout: None,
            last_detail_layout: None,
            overlay_scroll_deficit: 0,
            output_epoch: 0,
            overlay_render_generation: 0,
            pending_overlay_render: None,
            overlay_cleanup_generation: 0,
            pending_overlay_cleanup: None,
            last_repaint_at: None,
        }
    }

    /// Something of the popup is on the screen.
    pub open spec fn shows(self) -> bool {
        self.last_layout is Some || self.last_detail_layout is Some
    }

    pub open spec fn bumped(self) -> Screen {
        Screen { output_epoch: next(self.output_epoch), ..self }
    }

    /// With cleanup bytes pending. They supersede a pending render.
    pub open spec fn staged(self, scope: CleanupScope) -> Screen {
        Screen {
            overlay_cleanup_generation: next(self.overlay_cleanup_generation),
            pending_overlay_render: None,
            pending_overlay_cleanup: Some(
                PendingOverlayCleanup {
                    token: OverlayCleanupToken(next(self.overlay_cleanup_generation)),
                    scope,
                },
            ),
            ..self
        }
    }

    /// With the popup cleared as soon as the cleanup bytes are written.
    pub open spec fn taken_down(self) -> Screen {
        if self.shows() {
            self.bumped().staged(CleanupScope::MainAndDetail)
        } else {
            Screen { pending_overlay_render: None, pending_overlay_cleanup: None, ..self }
        }
    }

    /// With the bytes of a popup pending.
    pub open spec fn rendered(
        self,
        layout: PopupLayout,
        detail_layout: Option<DetailLayout>,
        now: u64,
    ) -> Screen {
        Screen {
            overlay_render_generation: next(self.overlay_render_generation),
            last_repaint_at: Some(now),
            pending_overlay_cleanup: None,
            pending_overlay_render: Some(
                PendingOverlayRender {
                    token: OverlayRenderToken(next(self.overlay_render_generation)),
                    layout,
                    detail_layout,
                },
            ),
            ..self
        }
    }

    /// The ticket of overlay bytes made from this state.
    pub open spec fn ticket_of(self) -> OverlayWriteTicket {
        OverlayWriteTicket {
            epoch: self.output_epoch,
            render_token: match self.pending_overlay_render {
                Some(pending) => Some(pending.token),
                None => None,
            },
            cleanup_token: match self.pending_overlay_cleanup {
                Some(pending) => Some(pending.token),
                None => None,
            },
        }
    }

    /// The ticket belongs to the render that is pending.
    pub open spec fn render_matches(self, ticket: OverlayWriteTicket) -> bool {
        &&& self.pending_overlay_render matches Some(pending)
        &&& ticket.render_token == Some(pending.token)
    }

    /// The ticket belongs to the cleanup that is pending.
    pub open spec fn cleanup_matches(self, ticket: OverlayWriteTicket) -> bool {
        &&& self.pending_overlay_cleanup matches Some(pending)
        &&& ticket.cleanup_token == Some(pending.token)
    }

    /// What is owned once the pending render is on the screen.
    pub open spec fn render_owned(self) -> Screen {
        match self.pending_overlay_render {
            Some(pending) => Screen {
                pending_overlay_render: None,
                overlay_scroll_deficit: pending.layout.scroll_deficit,
                last_layout: Some(pending.layout),
                last_detail_layout: pending.detail_layout,
                ..self
            },
            None => self,
        }
    }

    /// What is owned once the pending cleanup is on the screen.
    pub open spec fn cleanup_owned(self) -> Screen {
        match self.pending_overlay_cleanup {
            Some(pending) => Screen {
                pending_overlay_cleanup: None,
                last_layout: if pending.scope == CleanupScope::MainAndDetail {
                    None
                } else {
                    self.last_layout
                },
                last_detail_layout: None,
                ..self
            },
            None => self,
        }
    }

    /// Once the bytes of a ticket are on the screen, what was pending under the ticket is
    /// owned.
    pub open spec fn committed(self, ticket: OverlayWriteTicket) -> Screen {
        let rendered = if self.render_matches(ticket) {
            self.render_owned()
        } else {
            self
        };
        if rendered.cleanup_matches(ticket) {
            rendered.cleanup_owned()
        } else {
            rendered
        }
    }

    /// What the bytes of a ticket would have done.
    pub open spec fn lost(self, ticket: OverlayWriteTicket) -> Dropped {
        if self.cleanup_matches(ticket) {
            Dropped::Cleanup
        } else if self.render_matches(ticket) {
            Dropped::Render
        } else {
            Dropped::Nothing
        }
    }

    /// Once the bytes of a ticket were dropped: a pending cleanup is given up, and with a
    /// pending render everything that was owned.
    pub open spec fn after_loss(self, ticket: OverlayWriteTicket) -> Screen {
        match self.lost(ticket) {
            Dropped::Cleanup => Screen { pending_overlay_cleanup: None, ..self },
            Dropped::Render => Screen {
                pending_overlay_render: None,
                last_layout: None,
                last_detail_layout: None,
                output_epoch: next(self.output_epoch),
                ..self
            },
            Dropped::Nothing => self,
        }
    }

    pub fn new() -> (screen: Self)
        ensures
            screen == Screen::blank(),
    {
        Screen {
            last_layout: None,
            last_detail_layout: None,
            overlay_scroll_deficit: 0,
            output_epoch: 0,
            overlay_render_generation: 0,
            pending_overlay_render: None,
            overlay_cleanup_generation: 0,
            pending_overlay_cleanup: None,
            last_repaint_at: None,
        }
    }

    /// Marks everything painted so far as out of date.
    pub fn bump(&mut self)
        ensures
            *final(self) == old(self).bumped(),
    {
        self.output_epoch = next_of(self.output_epoch);
    }

    pub fn stage_cleanup(&mut self, scope: CleanupScope)
        ensures
            *final(self) == old(self).staged(scope),
    {
        self.overlay_cleanup_generation = next_of(self.overlay_cleanup_generation);
        self.pending_overlay_render = None;
        self.pending_overlay_cleanup = Some(
            PendingOverlayCleanup {
                token: OverlayCleanupToken(self.overlay_cleanup_generation),
                scope,
            },
        );
    }

    pub fn take_down(&mut self)
        ensures
            *final(self) == old(self).taken_down(),
    {
        if self.last_layout.is_some() || self.last_detail_layout.is_some() {
            self.bump();
            self.stage_cleanup(CleanupScope::MainAndDetail);
        } else {
            self.pending_overlay_cleanup = None;
        }
        self.pending_overlay_render = None;
    }

    pub fn stage_render(
        &mut self,
        layout: PopupLayout,
        detail_layout: Option<DetailLayout>,
        now: u64,
    )
        ensures
            *final(self) == old(self).rendered(layout, detail_layout, now),
    {
        self.overlay_render_generation = next_of(self.overlay_render_generation);
        self.last_repaint_at = Some(now);
        self.pending_overlay_cleanup = None;
        self.pending_overlay_render = Some(
            PendingOverlayRender {
                token: OverlayRenderToken(self.overlay_render_generation),
                layout,
                detail_layout,
            },
        );
    }

    pub fn ticket(&self) -> (ticket: OverlayWriteTicket)
        ensures
            ticket == self.ticket_of(),
    {
        OverlayWriteTicket {
            epoch: self.output_epoch,
            render_token: match self.pending_overlay_render {
                Some(pending) => Some(pending.token),
                None => None,
            },
            cleanup_token: match self.pending_overlay_cleanup {
                Some(pending) => Some(pending.token),
                None => None,
            },
        }
    }

    pub fn commit(&mut self, ticket: OverlayWriteTicket)
        ensures
            *final(self) == old(self).committed(ticket),
    {
        if let (Some(token), Some(pending)) = (ticket.render_token, self.pending_overlay_render) {
            if pending.token == token {
                self.pending_overlay_render = None;
                self.overlay_scroll_deficit = pending.layout.scroll_deficit;
                self.last_layout = Some(pending.layout);
                self.last_detail_layout = pending.detail_layout;
            }
        }
        if let (Some(token), Some(pending)) = (ticket.cleanup_token, self.pending_overlay_cleanup) {
            if pending.token == token {
                self.pending_overlay_cleanup = None;
                if pending.scope == CleanupScope::MainAndDetail {
                    self.last_layout = None;
                }
                self.last_detail_layout = None;
            }
        }
    }

    pub fn discard(&mut self, ticket: OverlayWriteTicket) -> (dropped: Dropped)
        ensures
            dropped == old(self).lost(ticket),
            *final(self) == old(self).after_loss(ticket),
    {
        if let (Some(token), Some(pending)) = (ticket.cleanup_token, self.pending_overlay_cleanup) {
            if pending.token == token {
                self.pending_overlay_cleanup = None;
                return Dropped::Cleanup;
            }
        }
        if let (Some(token), Some(pending)) = (ticket.render_token, self.pending_overlay_render) {
            if pending.token == token {
                self.pending_overlay_render = None;
                self.last_layout = None;
                self.last_detail_layout = None;
                self.bump();
                return Dropped::Render;
            }
        }
        Dropped::Nothing
    }
}

// ---- Laws ----

/// Once the bytes of a render are written, its layouts are what the popup owns, and
/// nothing of it is pending.
pub proof fn law_written_render_is_owned(
    s: Screen,
    layout: PopupLayout,
    detail_layout: Option<DetailLayout>,
    now: u64,
)
    ensures
        ({
            let r = s.rendered(layout, detail_layout, now);
            let done = r.committed(r.ticket_of());
            &&& done.last_layout == Some(layout)
            &&& done.last_detail_layout == detail_layout
            &&& done.overlay_scroll_deficit == layout.scroll_deficit
            &&& done.pending_overlay_render is None
            &&& done.pending_overlay_cleanup is None
        }),
{
}

/// Until its bytes are written, a render changes nothing that the popup owns.
pub proof fn law_pending_render_owns_nothing(
    s: Screen,
    layout: PopupLayout,
    detail_layout: Option<DetailLayout>,
    now: u64,
)
    ensures
        ({
            let r = s.rendered(layout, detail_layout, now);
            &&& r.last_layout == s.last_layout
            &&& r.last_detail_layout == s.last_detail_layout
            &&& r.overlay_scroll_deficit == s.overlay_scroll_deficit
        }),
{
}

/// Once the cleanup bytes of a popup that was taken down are written, nothing of it is
/// owned or pending. The layouts stay owned until then.
pub proof fn law_written_teardown_owns_nothing(s: Screen)
    ensures
        s.taken_down().last_layout == s.last_layout,
        s.taken_down().last_detail_layout == s.last_detail_layout,
        ({
            let done = s.taken_down().committed(s.taken_down().ticket_of());
            &&& !done.shows()
            &&& done.pending_overlay_render is None
            &&& done.pending_overlay_cleanup is None
        }),
{
}

/// The bytes of a ticket commit nothing and lose nothing where something else, or
/// nothing, is pending.
pub proof fn law_foreign_ticket_changes_nothing(s: Screen, ticket: OverlayWriteTicket)
    requires
        !s.render_matches(ticket),
        !s.cleanup_matches(ticket),
    ensures
        s.committed(ticket) == s,
        s.after_loss(ticket) == s,
{
}

/// A later render supersedes an earlier one: the earlier ticket no longer commits.
pub proof fn law_later_render_supersedes(
    s: Screen,
    first: PopupLayout,
    first_detail: Option<DetailLayout>,
    second: PopupLayout,
    second_detail: Option<DetailLayout>,
    now: u64,
    later: u64,
)
    ensures
        ({
            let r = s.rendered(first, first_detail, now);
            let rr = r.rendered(second, second_detail, later);
            rr.committed(r.ticket_of()) == rr
        }),
{
}

/// A teardown supersedes a render: the ticket of the render no longer commits.
pub proof fn law_teardown_supersedes_render(
    s: Screen,
    layout: PopupLayout,
    detail_layout: Option<DetailLayout>,
    now: u64,
)
    ensures
        ({
            let r = s.rendered(layout, detail_layout, now);
            r.taken_down().committed(r.ticket_of()) == r.taken_down()
        }),
{
}

/// Marking the screen as out of date makes every ticket taken before stale.
pub proof fn law_bump_makes_tickets_stale(s: Screen)
    ensures
        s.bumped().ticket_of().epoch != s.ticket_of().epoch,
{
}

/// Clearing the description box alone keeps the popup.
pub proof fn law_detail_cleanup_keeps_popup(s: Screen)
    ensures
        ({
            let staged = s.staged(CleanupScope::DetailOnly);
            let done = staged.committed(staged.ticket_of());
            &&& done.last_layout == s.last_layout
            &&& done.last_detail_layout is None
        }),
{
}

/// A popup that stands on the screen is cleared under a new epoch, so that older bytes are
/// stale; where none stands, the epoch stays. Either way a render that is pending is given
/// up, and what is owned stays owned until the cleanup is written.
pub proof fn law_teardown_outdates_older_bytes(s: Screen)
    ensures
        s.shows() <==> s.last_layout is Some || s.last_detail_layout is Some,
        s.shows() ==> s.taken_down().output_epoch != s.output_epoch,
        !s.shows() ==> s.taken_down().output_epoch == s.output_epoch,
        s.shows() ==> (s.taken_down().pending_overlay_cleanup matches Some(p) && p.scope
            == CleanupScope::MainAndDetail),
        !s.shows() ==> s.taken_down().pending_overlay_cleanup is None,
        s.taken_down().pending_overlay_render is None,
        s.taken_down().overlay_scroll_deficit == s.overlay_scroll_deficit,
        s.taken_down().last_repaint_at == s.last_repaint_at,
{
}

/// Making bytes for a popup moves neither the epoch nor what is owned; it notes the time.
pub proof fn law_render_notes_the_time(
    s: Screen,
    layout: PopupLayout,
    detail_layout: Option<DetailLayout>,
    now: u64,
)
    ensures
        ({
            let r = s.rendered(layout, detail_layout, now);
            &&& r.last_repaint_at == Some(now)
            &&& r.output_epoch == s.output_epoch
            &&& r.overlay_render_generation != s.overlay_render_generation
            &&& r.overlay_cleanup_generation == s.overlay_cleanup_generation
            &&& r.pending_overlay_cleanup is None
        }),
{
}

/// Writing bytes changes what is owned, and neither epoch nor generations nor the time of
/// the last paint. Only a render moves the scroll deficit.
pub proof fn law_commit_changes_ownership_only(s: Screen, ticket: OverlayWriteTicket)
    ensures
        s.committed(ticket).output_epoch == s.output_epoch,
        s.committed(ticket).overlay_render_generation == s.overlay_render_generation,
        s.committed(ticket).overlay_cleanup_generation == s.overlay_cleanup_generation,
        s.committed(ticket).last_repaint_at == s.last_repaint_at,
        s.pending_overlay_render is None ==> s.committed(ticket).overlay_scroll_deficit
            == s.overlay_scroll_deficit,
        ticket.render_token is None && ticket.cleanup_token is None ==> s.committed(ticket) == s,
{
}

/// Bytes of a cleanup that are dropped leave the popup owned, for the next cleanup; bytes
/// of a render that are dropped leave nothing owned, and outdate all others.
pub proof fn law_dropped_bytes_leave_no_guess(s: Screen)
    ensures
        ({
            let ticket = s.ticket_of();
            let after = s.after_loss(ticket);
            &&& s.pending_overlay_cleanup is Some ==> after.last_layout == s.last_layout
                && after.last_detail_layout == s.last_detail_layout
                && after.pending_overlay_cleanup is None && after.output_epoch == s.output_epoch
            &&& s.pending_overlay_cleanup is None && s.pending_overlay_render is Some
                ==> after.last_layout is None && after.last_detail_layout is None
                && after.pending_overlay_render is None && after.output_epoch != s.output_epoch
            &&& s.pending_overlay_cleanup is None && s.pending_overlay_render is None ==> after == s
            &&& after.overlay_scroll_deficit == s.overlay_scroll_deficit
        }),
{
}

/// A later cleanup supersedes an earlier one, and any render: neither of their tickets
/// commits any more.
pub proof fn law_later_cleanup_supersedes(s: Screen, first: CleanupScope, second: CleanupScope)
    ensures
        ({
            let a = s.staged(first);
            let b = a.staged(second);
            &&& b.committed(a.ticket_of()) == b
            &&& b.committed(s.ticket_of()).pending_overlay_render is None
            &&& b.last_layout == s.last_layout && b.last_detail_layout == s.last_detail_layout
            &&& b.output_epoch == s.output_epoch
        }),
{
}

} // verus!
