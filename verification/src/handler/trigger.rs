//! Computing suggestions for the command line.
//!
//! A trigger runs in steps, since the engine and the completion cache are asked in between:
//! [`InputHandler::trigger`] decides whether anything is to be computed, and the rows found
//! are put together by [`InputHandler::sync_pool`] and [`InputHandler::rerank_live`]. Then
//! [`InputHandler::finish_trigger`] or [`InputHandler::prepare_trigger_with_block`] shows
//! them.

use vstd::prelude::*;

use crate::feedback::AsyncFeedback;
use crate::feedback::Feedback;
use crate::handler::fingerprint::buffer_fingerprint;
use crate::handler::fingerprint::entry_views;
use crate::handler::fingerprint::fingerprint_of;
use crate::handler::fingerprint::TriggerFingerprint;
use crate::handler::merge::ask_ai_sentinel;
use crate::handler::merge::completions;
use crate::handler::merge::has_ask_ai;
use crate::handler::merge::has_text;
use crate::handler::merge::holds_ask_ai;
use crate::handler::merge::is_pinned;
use crate::handler::merge::is_sentinel;
use crate::handler::merge::law_merge_loses_no_text;
use crate::handler::merge::law_pinned_row_is_first_and_only;
use crate::handler::merge::law_pinning_keeps_completions;
use crate::handler::merge::merge_cached_suggestions;
use crate::handler::merge::new_rows;
use crate::handler::rank::is_ranked;
use crate::handler::rank::rank_rows;
use crate::handler::rank::RankKey;
use crate::handler::screen::next;
use crate::handler::screen::next_of;
use crate::handler::screen::Screen;
use crate::handler::site::DynamicCtxSnapshot;
use crate::handler::site::Site;
use crate::handler::state::AsyncWork;
use crate::handler::state::HandlerState;
use crate::handler::state::InputHandler;
use crate::handler::state::MatchMode;
use crate::handler::state::ProviderSlot;
use crate::handler::state::Teardown;
use crate::handler::state::WorkState;
use crate::model::CommandContext;
use crate::model::copy_suggestions;
use crate::model::Geometry;
use crate::model::Suggestion;
use crate::model::SuggestionKind;
use crate::model::TerminalSnapshot;

verus! {

/// What becomes of the popup on the screen.
#[derive(Debug, Clone, Copy, PartialEq, Eq, Structural)]
pub enum Repaint {
    Nothing,
    Render,
    Clear(Teardown),
}

/// Whether a trigger computes suggestions.
#[derive(Debug, Clone, Copy, PartialEq, Eq)]
pub enum TriggerStart {
    Skip,
    /// There is no command line: the popup goes.
    Clear(Teardown),
    Compute {
        fingerprint: TriggerFingerprint,
        /// The running providers are to be aborted.
        abort_task: bool,
    },
}

/// Rows put in order, or still to be matched against the typed word.
#[derive(Debug)]
pub enum Reranked {
    Ranked(Vec<Suggestion>),
    Match {
        pool: Vec<Suggestion>,
        /// At most so many rows are kept.
        limit: usize,
        mode: MatchMode,
    },
}

/// What a trigger leads to that may wait for providers.
#[derive(Debug)]
pub enum TriggerPrepared {
    /// The suggestions at hand are shown, or there are none. Nothing is to be waited for.
    Painted(Repaint),
    /// The suggestions at hand are shown, and providers were started. The caller waits for
    /// them for a while, and then applies what came.
    NeedsBlock {
        repaint: Repaint,
        sync_suggestions: Vec<Suggestion>,
        block_ms: u64,
        geometry: Geometry,
        fingerprint: TriggerFingerprint,
        current_word: String,
    },
}

impl TerminalSnapshot {
    /// What suggestions are computed from.
    pub open spec fn fingerprint(self) -> TriggerFingerprint {
        fingerprint_of(
            self.line(),
            self.buffer_cursor,
            match self.shell_env {
                Some(env) => Some(entry_views(env@)),
                None => None,
            },
        )
    }
}

impl HandlerState {
    /// Where the cursor position was reported anew, the scroll deficit is out of date.
    pub open spec fn synced(self, term: TerminalSnapshot) -> HandlerState {
        if term.cpr_synced {
            HandlerState { screen: Screen { overlay_scroll_deficit: 0, ..self.screen }, ..self }
        } else {
            self
        }
    }

    /// The visible popup was computed from the same command line.
    pub open spec fn is_current(self, term: TerminalSnapshot) -> bool {
        self.popup.visible && self.fingerprint == Some(term.fingerprint())
    }

    /// Whether a trigger computes suggestions.
    pub open spec fn trigger_start(self, term: Option<TerminalSnapshot>) -> TriggerStart {
        match term {
            Some(t) => if t.in_alt_screen {
                TriggerStart::Skip
            } else if t.line().len() == 0 {
                if self.popup.visible {
                    TriggerStart::Clear(self.teardown())
                } else {
                    TriggerStart::Skip
                }
            } else if self.is_current(t) {
                TriggerStart::Skip
            } else {
                TriggerStart::Compute {
                    fingerprint: t.fingerprint(),
                    abort_task: self.work.dynamic_task,
                }
            },
            None => TriggerStart::Skip,
        }
    }

    /// After a trigger has started.
    pub open spec fn triggered(self, term: Option<TerminalSnapshot>) -> HandlerState {
        match term {
            Some(t) => if t.in_alt_screen {
                self
            } else {
                match self.trigger_start(term) {
                    TriggerStart::Skip => self.synced(t),
                    TriggerStart::Clear(_) => self.synced(t).dismissed(),
                    TriggerStart::Compute { fingerprint, abort_task } => HandlerState {
                        work: WorkState::idle(),
                        buffer_generation: next(self.buffer_generation),
                        ..self.synced(t)
                    },
                }
            },
            None => self,
        }
    }

    /// With providers started for a completion site.
    pub open spec fn spawned(self, site: Site, now: u64) -> HandlerState {
        HandlerState {
            work: WorkState {
                dynamic_rx: true,
                dynamic_task: true,
                site: Some(site),
                feedback: Feedback::Loading(now),
                ..WorkState::idle()
            },
            spawned_generation: self.buffer_generation,
            ..self
        }
    }

    /// With providers started, if any are to be.
    pub open spec fn started(self, site: Site, starts: usize, now: u64) -> HandlerState {
        if starts > 0 {
            self.spawned(site, now)
        } else {
            self
        }
    }
}

/// A trigger shows the rows found, starts providers, and drops the popup where there is
/// nothing to show and nothing to wait for.
pub open spec fn trigger_shown(
    before: HandlerState,
    pool: Seq<Suggestion>,
    site: Site,
    fingerprint: TriggerFingerprint,
    starts: usize,
    now: u64,
    after: HandlerState,
    repaint: Repaint,
) -> bool {
    if pool.len() > 0 {
        &&& repaint == Repaint::Render
        &&& is_pinned(pool, before.ask_ai, after.popup.suggestions)
        &&& after == (HandlerState {
            fingerprint: Some(fingerprint),
            ..before.showing(after.popup.suggestions).started(site, starts, now)
        })
    } else if starts > 0 {
        &&& repaint == Repaint::Nothing
        &&& after == before.spawned(site, now)
    } else if before.popup.visible && !before.ask_ai {
        &&& repaint == Repaint::Clear(before.teardown())
        &&& after == before.dismissed()
    } else {
        &&& repaint == Repaint::Nothing
        &&& after == before
    }
}

/// The positions among the first `n` providers of those that do, or do not, only fill the
/// cache.
pub open spec fn slots(providers: Seq<ProviderSlot>, backfill: bool, n: int) -> Seq<usize>
    decreases n,
{
    if n <= 0 {
        Seq::empty()
    } else if providers[n - 1].backfill == backfill {
        slots(providers, backfill, n - 1).push((n - 1) as usize)
    } else {
        slots(providers, backfill, n - 1)
    }
}

/// The providers that a trigger starts: those that only fill the cache are left out where
/// the cache had the answer, and come last else.
pub open spec fn starting(providers: Seq<ProviderSlot>, cache_hit: bool) -> Seq<usize> {
    let live = slots(providers, false, providers.len() as int);
    if cache_hit {
        live
    } else {
        live + slots(providers, true, providers.len() as int)
    }
}

/// `out` is `rows`, with the "Ask AI" row behind them where it is missing.
pub open spec fn has_sentinel_added(
    rows: Seq<Suggestion>,
    active: bool,
    out: Seq<Suggestion>,
) -> bool {
    if active && !has_ask_ai(rows) {
        &&& out.len() == rows.len() + 1
        &&& out.drop_last() == rows
        &&& is_sentinel(out.last())
    } else {
        out == rows
    }
}

/// `pool` holds the rows of the engine, then the new ones of the cache. An engine that
/// failed has no rows, not even that of "Ask AI".
pub open spec fn is_sync_pool(
    sync: Option<Seq<Suggestion>>,
    active: bool,
    cached: Seq<Suggestion>,
    pool: Seq<Suggestion>,
) -> bool {
    match sync {
        Some(rows) => {
            let n = rows.len() + (if active && !has_ask_ai(rows) {
                1int
            } else {
                0int
            });
            let base = pool.take(n);
            &&& pool.len() >= n
            &&& has_sentinel_added(rows, active, base)
            &&& pool == base + new_rows(base, cached)
        },
        None => pool == new_rows(Seq::empty(), cached),
    }
}

/// Whether the pool of a trigger is put in order anew, given how many rows the cache
/// brought: the rows of the engine alone come in order.
pub fn ranks_pool(cached: usize) -> (ranks: bool)
    ensures
        ranks == (cached > 0),
{
    cached > 0
}

impl InputHandler {
    /// Starts a trigger: decides whether suggestions are to be computed for the command
    /// line. Nothing is done while a full-screen program runs, where the terminal's state
    /// cannot be read, and where the visible popup was computed from the same line.
    pub fn trigger(&mut self, term: Option<&TerminalSnapshot>) -> (start: TriggerStart)
        ensures
            ({
                let t = match term {
                    Some(t) => Some(*t),
                    None => None,
                };
                &&& start == old(self)@.trigger_start(t)
                &&& final(self)@ == old(self)@.triggered(t)
            }),
            final(self).wf() == old(self).wf(),
    {
        let t = match term {
            Some(t) => t,
            None => {
                return TriggerStart::Skip;
            },
        };
        if t.in_alt_screen {
            return TriggerStart::Skip;
        }
        if t.cpr_synced {
            self.screen.overlay_scroll_deficit = 0;
        }
        let line = t.buffer_text();
        if line.as_str().is_empty() {
            if self.popup.visible {
                return TriggerStart::Clear(self.dismiss());
            }
            return TriggerStart::Skip;
        }
        let env = match &t.shell_env {
            Some(env) => Some(env),
            None => None,
        };
        let fingerprint = buffer_fingerprint(line.as_str(), t.buffer_cursor, env);
        if self.popup.visible {
            if let Some(last) = self.last_trigger_fingerprint {
                if last.0 == fingerprint.0 && last.1 == fingerprint.1 && last.2 == fingerprint.2 {
                    return TriggerStart::Skip;
                }
            }
        }
        let abort_task = self.work.dynamic_task;
        self.work = AsyncWork::new();
        self.buffer_generation = next_of(self.buffer_generation);
        TriggerStart::Compute { fingerprint, abort_task }
    }

    /// The providers that run on every trigger, and those that only fill the cache.
    pub fn partition_async_providers(&self) -> (parts: (Vec<usize>, Vec<usize>))
        ensures
            parts.0@ == slots(self@.providers, false, self@.providers.len() as int),
            parts.1@ == slots(self@.providers, true, self@.providers.len() as int),
    {
        let mut live: Vec<usize> = Vec::new();
        let mut backfill: Vec<usize> = Vec::new();
        let mut i: usize = 0;
        while i < self.async_providers.len()
            invariant
                i <= self.async_providers@.len(),
                live@ == slots(self.async_providers@, false, i as int),
                backfill@ == slots(self.async_providers@, true, i as int),
            decreases self.async_providers.len() - i,
        {
            if self.async_providers[i].backfill {
                backfill.push(i);
            } else {
                live.push(i);
            }
            i = i + 1;
        }
        (live, backfill)
    }

    /// The providers that a trigger starts.
    pub fn providers_to_start(&self, cache_hit: bool) -> (providers: Vec<usize>)
        ensures
            providers@ == starting(self@.providers, cache_hit),
    {
        let (mut live, mut backfill) = self.partition_async_providers();
        if !cache_hit {
            live.append(&mut backfill);
        }
        live
    }

    /// The rows of the engine, nothing where it failed, and of the cache, in one pool. With
    /// "Ask AI" available the pool has its row, so that the popup shows even where nothing
    /// matches.
    pub fn sync_pool(
        &self,
        sync: Option<Vec<Suggestion>>,
        cached: Vec<Suggestion>,
    ) -> (pool: Vec<Suggestion>)
        ensures
            is_sync_pool(
                match sync {
                    Some(rows) => Some(rows@),
                    None => None,
                },
                self@.ask_ai,
                cached@,
                pool@,
            ),
    {
        match sync {
            Some(rows) => {
                let mut base = rows;
                let ghost found = base@;
                if self.ask_ai && !holds_ask_ai(&base) {
                    base.push(ask_ai_sentinel());
                    assert(base@.drop_last() =~= found);
                }
                let ghost all = base@;
                let pool = merge_cached_suggestions(base, cached);
                assert(pool@.take(all.len() as int) =~= all);
                pool
            },
            None => {
                let pool = merge_cached_suggestions(Vec::new(), cached);
                assert(pool@ =~= new_rows(Seq::empty(), cached@));
                pool
            },
        }
    }

    /// Puts a pool in order for the typed word. Where nothing is typed the rows are ranked,
    /// and all are kept; else they are to be matched against the word under the current
    /// mode.
    pub fn rerank_live(
        &self,
        word: &str,
        pool: Vec<Suggestion>,
        keys: &Vec<RankKey>,
    ) -> (reranked: Reranked)
        requires
            word@.len() == 0 ==> keys@.len() == pool@.len(),
            word@.len() > 0 ==> self@.settings.max_visible * 5 <= usize::MAX,
        ensures
            if word@.len() == 0 {
                reranked matches Reranked::Ranked(rows) && is_ranked(pool@, keys@, rows@)
            } else {
                reranked == (Reranked::Match {
                    pool,
                    limit: (self@.settings.max_visible * 5) as usize,
                    mode: self@.settings.match_mode,
                })
            },
    {
        if word.is_empty() {
            Reranked::Ranked(rank_rows(&pool, keys))
        } else {
            Reranked::Match {
                pool,
                limit: self.settings.max_visible * 5,
                mode: self.settings.match_mode,
            }
        }
    }

    /// Providers were started for a completion site.
    pub fn spawn_async_providers(&mut self, ctx: &CommandContext, providers: usize, now: u64)
        ensures
            final(self)@ == old(self)@.started(ctx.site(), providers, now),
            final(self).wf() == old(self).wf(),
    {
        if providers == 0 {
            return;
        }
        self.work = AsyncWork {
            dynamic_rx: true,
            dynamic_task: true,
            dynamic_ctx: Some(DynamicCtxSnapshot::capture(ctx)),
            feedback: AsyncFeedback::Loading { spawned_at: now },
            pending_failed: Vec::new(),
            pending_empty_count: 0,
        };
        self.spawned_generation = self.buffer_generation;
    }

    /// Ends a trigger: shows the rows found, and starts so many providers.
    pub fn finish_trigger(
        &mut self,
        pool: Vec<Suggestion>,
        ctx: &CommandContext,
        fingerprint: TriggerFingerprint,
        starts: usize,
        now: u64,
    ) -> (repaint: Repaint)
        ensures
            trigger_shown(
                old(self)@,
                pool@,
                ctx.site(),
                fingerprint,
                starts,
                now,
                final(self)@,
                repaint,
            ),
            final(self).wf() == old(self).wf(),
    {
        if pool.len() > 0 {
            self.replace_suggestions_and_reset_overlay(pool);
            self.popup.visible = true;
            self.spawn_async_providers(ctx, starts, now);
            self.last_trigger_fingerprint = Some(fingerprint);
            Repaint::Render
        } else if starts > 0 {
            self.spawn_async_providers(ctx, starts, now);
            Repaint::Nothing
        } else if self.popup.visible && !self.ask_ai {
            Repaint::Clear(self.dismiss())
        } else {
            Repaint::Nothing
        }
    }

    /// Ends a trigger like [`Self::finish_trigger`], but takes the results of the providers
    /// out for the caller to wait for, where that is configured and any are started. The
    /// rows at hand are shown meanwhile.
    pub fn prepare_trigger_with_block(
        &mut self,
        pool: Vec<Suggestion>,
        term: &TerminalSnapshot,
        fingerprint: TriggerFingerprint,
        starts: usize,
        now: u64,
    ) -> (prepared: TriggerPrepared)
        ensures
            ({
                let before = old(self)@;
                let after = final(self)@;
                let site = term.context.site();
                if before.settings.render_block_ms > 0 && starts > 0 {
                    &&& prepared matches TriggerPrepared::NeedsBlock {
                        repaint,
                        sync_suggestions,
                        block_ms,
                        geometry,
                        fingerprint: stamp,
                        current_word,
                    }
                    &&& sync_suggestions@ == pool@
                    &&& block_ms == before.settings.render_block_ms
                    &&& geometry == term.geometry
                    &&& stamp == fingerprint
                    &&& current_word@ == term.context.current_word@
                    &&& ({
                        let waiting = HandlerState {
                            work: WorkState {
                                dynamic_rx: false,
                                ..before.spawned(site, now).work
                            },
                            ..before.spawned(site, now)
                        };
                        if pool@.len() > 0 {
                            &&& repaint == Repaint::Render
                            &&& is_pinned(pool@, before.ask_ai, after.popup.suggestions)
                            &&& after == waiting.showing(after.popup.suggestions)
                        } else {
                            &&& repaint == Repaint::Nothing
                            &&& after == waiting
                        }
                    })
                } else {
                    prepared matches TriggerPrepared::Painted(repaint) && trigger_shown(
                        before,
                        pool@,
                        site,
                        fingerprint,
                        starts,
                        now,
                        after,
                        repaint,
                    )
                }
            }),
            final(self).wf() == old(self).wf(),
    {
        let block_ms: u64 = self.settings.render_block_ms;
        if block_ms == 0 || starts == 0 {
            return TriggerPrepared::Painted(
                self.finish_trigger(pool, &term.context, fingerprint, starts, now),
            );
        }
        self.spawn_async_providers(&term.context, starts, now);
        self.work.dynamic_rx = false;
        let repaint = if pool.len() > 0 {
            self.replace_suggestions_and_reset_overlay(copy_suggestions(&pool));
            self.popup.visible = true;
            Repaint::Render
        } else {
            Repaint::Nothing
        };
        TriggerPrepared::NeedsBlock {
            repaint,
            sync_suggestions: pool,
            block_ms,
            geometry: term.geometry,
            fingerprint,
            current_word: term.context.current_word.clone(),
        }
    }
}

// ---- Laws ----

/// No trigger computes or shows anything while a full-screen program runs.
pub proof fn law_alt_screen_suppresses_trigger(h: HandlerState, term: TerminalSnapshot)
    requires
        term.in_alt_screen,
    ensures
        h.trigger_start(Some(term)) == TriggerStart::Skip,
        h.triggered(Some(term)) == h,
{
}

/// A trigger that shows rows makes the next one for the same line a no-op.
pub proof fn law_trigger_is_idempotent(
    before: HandlerState,
    pool: Seq<Suggestion>,
    term: TerminalSnapshot,
    starts: usize,
    now: u64,
    after: HandlerState,
    repaint: Repaint,
)
    requires
        pool.len() > 0,
        term.line().len() > 0,
        trigger_shown(
            before,
            pool,
            term.context.site(),
            term.fingerprint(),
            starts,
            now,
            after,
            repaint,
        ),
    ensures
        after.trigger_start(Some(term)) == TriggerStart::Skip,
        after.triggered(Some(term)).popup == after.popup,
        after.triggered(Some(term)).work == after.work,
        !term.cpr_synced ==> after.triggered(Some(term)) == after,
{
}

/// Behind a dismissal a trigger computes anew, even for the same line.
pub proof fn law_trigger_after_dismissal_computes(h: HandlerState, term: TerminalSnapshot)
    requires
        !term.in_alt_screen,
        term.line().len() > 0,
    ensures
        h.dismissed().trigger_start(Some(term)) is Compute,
{
}

/// A trigger that computes drops whatever ran before.
pub proof fn law_trigger_drops_running_work(h: HandlerState, term: TerminalSnapshot)
    requires
        h.trigger_start(Some(term)) is Compute,
    ensures
        h.triggered(Some(term)).work == WorkState::idle(),
        h.triggered(Some(term)).buffer_generation != h.buffer_generation,
{
}

/// A visible popup stays on the screen where a trigger finds no rows but starts providers.
pub proof fn law_popup_waits_for_providers(
    before: HandlerState,
    site: Site,
    fingerprint: TriggerFingerprint,
    starts: usize,
    now: u64,
    after: HandlerState,
    repaint: Repaint,
)
    requires
        starts > 0,
        trigger_shown(
            before,
            Seq::empty(),
            site,
            fingerprint,
            starts,
            now,
            after,
            repaint,
        ),
    ensures
        after.popup == before.popup,
        after.screen == before.screen,
{
}

proof fn lemma_slots(providers: Seq<ProviderSlot>, backfill: bool, n: int, k: int)
    requires
        0 <= n <= providers.len() <= usize::MAX,
        0 <= k < slots(providers, backfill, n).len(),
    ensures
        slots(providers, backfill, n)[k] < n,
        providers[slots(providers, backfill, n)[k] as int].backfill == backfill,
    decreases n,
{
    if providers[n - 1].backfill == backfill && k == slots(providers, backfill, n).len() - 1 {
    } else {
        lemma_slots(providers, backfill, n - 1, k);
    }
}

/// Where the cache had the answer, no provider is started that only fills it.
pub proof fn law_cache_hit_starts_live_providers_only(providers: Seq<ProviderSlot>, k: int)
    requires
        providers.len() <= usize::MAX,
        0 <= k < starting(providers, true).len(),
    ensures
        starting(providers, true)[k] < providers.len(),
        !providers[starting(providers, true)[k] as int].backfill,
{
    lemma_slots(providers, false, providers.len() as int, k);
}

proof fn lemma_slots_hold(providers: Seq<ProviderSlot>, i: int, n: int)
    requires
        0 <= i < n <= providers.len() <= usize::MAX,
    ensures
        slots(providers, providers[i].backfill, n).contains(i as usize),
    decreases n,
{
    let all = slots(providers, providers[i].backfill, n);
    if i == n - 1 {
        assert(all.last() == i as usize);
        assert(all[all.len() - 1] == i as usize);
    } else {
        lemma_slots_hold(providers, i, n - 1);
        let rest = slots(providers, providers[i].backfill, n - 1);
        let k = choose|k: int| 0 <= k < rest.len() && rest[k] == i as usize;
        assert(all[k] == i as usize);
    }
}

proof fn lemma_slots_len(providers: Seq<ProviderSlot>, n: int)
    requires
        0 <= n <= providers.len(),
    ensures
        slots(providers, false, n).len() + slots(providers, true, n).len() == n,
    decreases n,
{
    if n > 0 {
        lemma_slots_len(providers, n - 1);
    }
}

/// Where the cache had no answer, every provider is started, with as many starts as there
/// are providers.
pub proof fn law_cache_miss_starts_every_provider(providers: Seq<ProviderSlot>, i: int)
    requires
        providers.len() <= usize::MAX,
        0 <= i < providers.len(),
    ensures
        starting(providers, false).contains(i as usize),
        starting(providers, false).len() == providers.len(),
{
    let n = providers.len() as int;
    lemma_slots_hold(providers, i, n);
    lemma_slots_len(providers, n);
    let live = slots(providers, false, n);
    let part = slots(providers, providers[i].backfill, n);
    let k = choose|k: int| 0 <= k < part.len() && part[k] == i as usize;
    if providers[i].backfill {
        assert(starting(providers, false)[live.len() + k] == i as usize);
    } else {
        assert(starting(providers, false)[k] == i as usize);
    }
}

/// A trigger computes suggestions for every command line but an empty one, unless the
/// popup that is visible was computed from the same line. Until they are there the popup
/// stays as it is; only what runs for it is given up.
pub proof fn law_trigger_computes_for_a_line(h: HandlerState, term: TerminalSnapshot)
    requires
        !term.in_alt_screen,
        term.line().len() > 0,
        !h.popup.visible || h.fingerprint != Some(term.fingerprint()),
    ensures
        h.trigger_start(Some(term)) == (TriggerStart::Compute {
            fingerprint: term.fingerprint(),
            abort_task: h.work.dynamic_task,
        }),
        ({
            let after = h.triggered(Some(term));
            &&& after.popup == h.popup
            &&& after.settings == h.settings
            &&& after.line == h.line
            &&& after.fingerprint == h.fingerprint
            &&& after.trigger_requested == h.trigger_requested
            &&& after.spawned_generation == h.spawned_generation
            &&& !after.work.dynamic_rx && !after.work.dynamic_task && after.work.feedback is Idle
            &&& after.screen.last_layout == h.screen.last_layout
        }),
{
}

/// An empty command line shows no popup: a visible one goes, and nothing is computed.
pub proof fn law_empty_line_shows_nothing(h: HandlerState, term: TerminalSnapshot)
    requires
        !term.in_alt_screen,
        term.line().len() == 0,
    ensures
        !h.triggered(Some(term)).popup.visible,
        h.popup.visible ==> h.trigger_start(Some(term)) == TriggerStart::Clear(h.teardown()),
        !h.popup.visible ==> h.trigger_start(Some(term)) == TriggerStart::Skip,
        !h.popup.visible ==> h.triggered(Some(term)).work == h.work,
{
}

/// The scroll deficit is forgotten exactly where the terminal has told the cursor position
/// anew.
pub proof fn law_report_clears_scroll_deficit(h: HandlerState, term: TerminalSnapshot)
    requires
        !term.in_alt_screen,
    ensures
        term.cpr_synced ==> h.triggered(Some(term)).screen.overlay_scroll_deficit == 0,
        !term.cpr_synced ==> h.triggered(Some(term)).screen.overlay_scroll_deficit
            == h.screen.overlay_scroll_deficit,
        h.triggered(None) == h,
{
}

/// Rows that a trigger finds are shown: all of them, with nothing selected and nothing
/// scrolled, and the popup is painted. Providers that are started show as loading from
/// then on; where none is, what runs is left alone.
pub proof fn law_found_rows_are_shown(
    before: HandlerState,
    pool: Seq<Suggestion>,
    site: Site,
    fingerprint: TriggerFingerprint,
    starts: usize,
    now: u64,
    after: HandlerState,
    repaint: Repaint,
)
    requires
        trigger_shown(before, pool, site, fingerprint, starts, now, after, repaint),
        pool.len() > 0,
    ensures
        repaint == Repaint::Render,
        after.popup.visible,
        completions(after.popup.suggestions) == completions(pool),
        has_ask_ai(after.popup.suggestions) <==> before.ask_ai,
        after.popup.overlay.selected is None,
        after.popup.overlay.scroll_offset == 0,
        after.fingerprint == Some(fingerprint),
        starts == 0 ==> after.work == before.work,
        starts > 0 ==> after.work.dynamic_rx && after.work.dynamic_task && after.work.site == Some(
            site,
        ) && after.work.feedback == Feedback::Loading(now) && after.spawned_generation
            == before.buffer_generation,
        after.settings == before.settings,
        after.line == before.line,
        after.screen == before.screen,
{
    law_pinning_keeps_completions(pool, before.ask_ai, after.popup.suggestions);
    let rows = after.popup.suggestions;
    if before.ask_ai {
        law_pinned_row_is_first_and_only(pool, true, rows, 0);
        assert(rows[0].kind == SuggestionKind::AskAi);
    } else if has_ask_ai(rows) {
        let i = choose|i: int|
            0 <= i < rows.len() && (#[trigger] rows[i]).kind == SuggestionKind::AskAi;
        law_pinned_row_is_first_and_only(pool, false, rows, i);
    }
}

/// Where a trigger finds no rows and starts no provider, a visible popup goes, unless it
/// has "Ask AI" to offer; else nothing happens.
pub proof fn law_nothing_found_takes_popup_down(
    before: HandlerState,
    site: Site,
    fingerprint: TriggerFingerprint,
    starts: usize,
    now: u64,
    after: HandlerState,
    repaint: Repaint,
)
    requires
        trigger_shown(
            before,
            Seq::empty(),
            site,
            fingerprint,
            starts,
            now,
            after,
            repaint,
        ),
    ensures
        starts == 0 && before.popup.visible && !before.ask_ai ==> !after.popup.visible && repaint
            == Repaint::Clear(before.teardown()),
        starts == 0 && (!before.popup.visible || before.ask_ai) ==> after == before && repaint
            == Repaint::Nothing,
        starts > 0 ==> repaint == Repaint::Nothing && after.work.dynamic_task
            && after.work.feedback == Feedback::Loading(now) && after.popup == before.popup
            && after.fingerprint == before.fingerprint,
{
}

proof fn lemma_slots_ascend(providers: Seq<ProviderSlot>, backfill: bool, n: int, j: int, k: int)
    requires
        0 <= n <= providers.len() <= usize::MAX,
        0 <= j < k < slots(providers, backfill, n).len(),
    ensures
        slots(providers, backfill, n)[j] < slots(providers, backfill, n)[k],
    decreases n,
{
    if providers[n - 1].backfill == backfill {
        let rest = slots(providers, backfill, n - 1);
        if k == rest.len() {
            lemma_slots(providers, backfill, n - 1, j);
        } else {
            lemma_slots_ascend(providers, backfill, n - 1, j, k);
        }
    } else {
        lemma_slots_ascend(providers, backfill, n - 1, j, k);
    }
}

/// Providers are started in the order in which they were registered, those that only fill
/// the cache behind the others; and every other one is started, cache or no cache.
pub proof fn law_providers_start_in_order(
    providers: Seq<ProviderSlot>,
    cache_hit: bool,
    j: int,
    k: int,
)
    requires
        providers.len() <= usize::MAX,
        0 <= j < k < starting(providers, cache_hit).len(),
    ensures
        ({
            let a = starting(providers, cache_hit)[j] as int;
            let b = starting(providers, cache_hit)[k] as int;
            &&& 0 <= a < providers.len() && 0 <= b < providers.len()
            &&& providers[a].backfill ==> providers[b].backfill
            &&& providers[a].backfill == providers[b].backfill ==> a < b
        }),
        forall|i: int|
            0 <= i < providers.len() && !(#[trigger] providers[i]).backfill ==> starting(
                providers,
                cache_hit,
            ).contains(i as usize),
{
    let n = providers.len() as int;
    let live = slots(providers, false, n);
    let fill = slots(providers, true, n);
    let all = starting(providers, cache_hit);
    if j < live.len() {
        lemma_slots(providers, false, n, j);
    } else {
        lemma_slots(providers, true, n, j - live.len());
    }
    if k < live.len() {
        lemma_slots(providers, false, n, k);
        lemma_slots_ascend(providers, false, n, j, k);
    } else {
        lemma_slots(providers, true, n, k - live.len());
        if j >= live.len() {
            lemma_slots_ascend(providers, true, n, j - live.len(), k - live.len());
        }
    }
    assert forall|i: int| 0 <= i < n && !(#[trigger] providers[i]).backfill implies all.contains(
        i as usize,
    ) by {
        lemma_slots_hold(providers, i, n);
        let m = choose|m: int| 0 <= m < live.len() && live[m] == i as usize;
        assert(all[m] == i as usize);
    }
}

/// The pool of a trigger holds the rows of the engine first and as they came, then what
/// the cache adds: every text of the cache is in it. Where "Ask AI" is available and the
/// engine did not fail, its row is in it; where it is not, nothing is added.
pub proof fn law_pool_holds_engine_and_cache(
    rows: Seq<Suggestion>,
    active: bool,
    cached: Seq<Suggestion>,
    pool: Seq<Suggestion>,
    i: int,
)
    requires
        is_sync_pool(Some(rows), active, cached, pool),
    ensures
        rows.is_prefix_of(pool),
        0 <= i < cached.len() ==> has_text(pool, cached[i].text@),
        active ==> has_ask_ai(pool),
        !active && cached.len() == 0 ==> pool == rows,
{
    let n = rows.len() + (if active && !has_ask_ai(rows) {
        1int
    } else {
        0int
    });
    let base = pool.take(n);
    if active && !has_ask_ai(rows) {
        assert(base.drop_last() =~= pool.take(rows.len() as int));
        assert(pool[n - 1] == base.last());
        assert(pool[n - 1].kind == SuggestionKind::AskAi);
    } else if active {
        let k = choose|k: int|
            0 <= k < rows.len() && (#[trigger] rows[k]).kind == SuggestionKind::AskAi;
        assert(pool[k] == base[k]);
        assert(pool[k].kind == SuggestionKind::AskAi);
    }
    assert(pool.take(rows.len() as int) =~= rows);
    if 0 <= i < cached.len() {
        law_merge_loses_no_text(base, cached, i);
    }
    if cached.len() == 0 {
        assert(new_rows(base, cached) =~= Seq::<Suggestion>::empty());
        assert(pool =~= base);
    }
}

/// Where the engine failed, the cache alone is shown.
pub proof fn law_failed_engine_leaves_the_cache(
    active: bool,
    cached: Seq<Suggestion>,
    pool: Seq<Suggestion>,
    i: int,
)
    requires
        is_sync_pool(None, active, cached, pool),
    ensures
        0 <= i < cached.len() ==> has_text(pool, cached[i].text@),
        cached.len() == 0 ==> pool.len() == 0,
{
    if 0 <= i < cached.len() {
        let none = Seq::<Suggestion>::empty();
        law_merge_loses_no_text(none, cached, i);
        assert(none + new_rows(none, cached) =~= pool);
    }
}

} // verus!
