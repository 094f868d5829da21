//! Merging what asynchronous providers bring into the popup.
//!
//! A merge runs in steps, since the merged rows are matched against the typed word in
//! between: [`InputHandler::try_merge_dynamic`] or [`InputHandler::apply_block_result`]
//! takes the results in and hands the pool out, [`InputHandler::finish_merge`] or
//! [`InputHandler::finish_block_merge`] shows what is left of it.

use vstd::prelude::*;

use crate::dynamic_result::DynamicResult;
use crate::feedback::AsyncFeedback;
use crate::feedback::empty_results;
use crate::feedback::failed_names;
use crate::feedback::Feedback;
use crate::feedback::loaded_rows;
use crate::feedback::terminal_feedback;
use crate::handler::fingerprint::TriggerFingerprint;
use crate::handler::merge::has_text;
use crate::handler::merge::is_pinned;
use crate::handler::merge::law_all_other_rows_are_completions;
use crate::handler::merge::law_merge_loses_no_text;
use crate::handler::merge::merge_dedup_against;
use crate::handler::merge::new_rows;
use crate::handler::merge::pin_ask_ai;
use crate::handler::state::AsyncWork;
use crate::handler::state::DetailDebounceState;
use crate::handler::state::HandlerState;
use crate::handler::state::InputHandler;
use crate::handler::state::OverlayState;
use crate::handler::state::PopupState;
use crate::handler::state::WorkState;
use crate::handler::trigger::Repaint;
use crate::model::copy_strings;
use crate::model::Suggestion;
use crate::model::SuggestionKind;
use crate::model::TerminalSnapshot;

verus! {

/// Whether results of providers still belong to the command line.
#[derive(Debug)]
pub enum MergeFreshness {
    /// They do; these are the word at the cursor and the line.
    Fresh { current_word: String, buffer: String },
    /// They do not.
    Stale,
    /// The terminal's state cannot be read.
    PoisonedLock,
}

/// What came of waiting for providers.
#[derive(Debug)]
pub enum BlockWait {
    /// Nothing, in time.
    TimedOut,
    /// These results. No more come where the channel is closed.
    Received { messages: Vec<DynamicResult>, disconnected: bool },
}

/// What taking results in leads to.
#[derive(Debug)]
pub enum MergeStep {
    /// The merge is over.
    Done {
        /// The popup has changed.
        updated: bool,
        /// The popup is to be painted.
        render: bool,
    },
    /// The pool is to be put in order for the word, and shown.
    Merge { pool: Vec<Suggestion>, word: String },
}

/// The feedback once all providers have finished and none has loaded anything.
pub open spec fn settled_feedback(
    failed: Seq<String>,
    empty_count: nat,
    has_rows: bool,
    now: u64,
) -> Feedback {
    if has_rows && failed.len() > 0 {
        Feedback::PartialError(failed, now)
    } else if has_rows && empty_count > 0 {
        Feedback::Idle
    } else {
        terminal_feedback(false, failed, empty_count, now)
    }
}

impl WorkState {
    /// With results taken in. Once the channel is closed nothing runs any more, and there
    /// may be something to tell; `has_rows` says whether there are other rows to show.
    pub open spec fn absorbed(
        self,
        results: Seq<DynamicResult>,
        disconnected: bool,
        has_rows: bool,
        now: u64,
    ) -> WorkState {
        let failed = self.pending_failed + failed_names(results);
        let empty = self.pending_empty_count + empty_results(results);
        let loaded = loaded_rows(results).len() > 0;
        if disconnected {
            WorkState {
                site: if loaded {
                    self.site
                } else {
                    None
                },
                feedback: if loaded {
                    terminal_feedback(true, failed, empty as nat, now)
                } else {
                    settled_feedback(failed, empty as nat, has_rows, now)
                },
                ..WorkState::idle()
            }
        } else {
            WorkState { pending_failed: failed, pending_empty_count: empty as usize, ..self }
        }
    }

    /// With nothing running, whatever there is to tell.
    pub open spec fn detached(self) -> WorkState {
        WorkState { dynamic_rx: false, dynamic_task: false, site: None, ..self }
    }
}

impl HandlerState {
    /// Results of the running providers still belong to the command line: it has not been
    /// triggered anew, and its completion site is the one they were started for.
    pub open spec fn is_fresh(self, term: TerminalSnapshot) -> bool {
        self.spawned_generation == self.buffer_generation && self.work.site == Some(
            term.context.site(),
        )
    }

    pub open spec fn has_rows(self) -> bool {
        self.popup.suggestions.len() > 0
    }

    /// With results taken in from the open channel.
    pub open spec fn merging(
        self,
        results: Seq<DynamicResult>,
        disconnected: bool,
        has_rows: bool,
        now: u64,
    ) -> HandlerState {
        HandlerState { work: self.work.absorbed(results, disconnected, has_rows, now), ..self }
    }

    /// With loaded rows that no longer belong to the line dropped, or whose line cannot be
    /// read.
    pub open spec fn dropping(self, term: Option<TerminalSnapshot>) -> HandlerState {
        HandlerState {
            work: if term is Some {
                WorkState::idle()
            } else {
                self.work.detached()
            },
            ..self
        }
    }

    /// With the popup opened to show merged rows, which are handed out.
    pub open spec fn opened(self) -> HandlerState {
        HandlerState {
            popup: PopupState {
                suggestions: Seq::empty(),
                ..(if self.popup.visible {
                    self.popup
                } else {
                    PopupState { visible: true, ..PopupState::closed() }
                })
            },
            ..self
        }
    }
}

/// There is something that all providers have finished with to tell.
pub open spec fn is_terminal_feedback(feedback: Feedback) -> bool {
    feedback is Empty || feedback is Error || feedback is PartialError
}

/// What taking results in does that came on the open channel.
pub open spec fn merge_step(
    before: HandlerState,
    results: Seq<DynamicResult>,
    disconnected: bool,
    term: Option<TerminalSnapshot>,
    now: u64,
    after: HandlerState,
    step: MergeStep,
) -> bool {
    let taken = before.merging(results, disconnected, before.has_rows(), now);
    if !before.work.dynamic_rx || (results.len() == 0 && !disconnected) {
        &&& after == before
        &&& step == (MergeStep::Done { updated: false, render: false })
    } else if results.len() == 0 {
        &&& after == taken
        &&& step == (MergeStep::Done { updated: false, render: before.popup.visible })
    } else if loaded_rows(results).len() == 0 {
        &&& after == taken
        &&& step == (MergeStep::Done { updated: !(taken.work.feedback is Idle), render: true })
    } else if term matches Some(t) && before.is_fresh(t) {
        &&& after == taken.opened()
        &&& step matches MergeStep::Merge { pool, word }
        &&& pool@ == before.popup.suggestions + new_rows(
            before.popup.suggestions,
            loaded_rows(results),
        )
        &&& word@ == term->0.context.current_word@
    } else {
        &&& after == taken.dropping(term)
        &&& step == (MergeStep::Done {
            updated: false,
            render: term is Some && before.popup.visible,
        })
    }
}

/// What applying the results does that a trigger has waited for.
pub open spec fn block_step(
    before: HandlerState,
    wait: BlockWait,
    sync: Seq<Suggestion>,
    term: Option<TerminalSnapshot>,
    fingerprint: TriggerFingerprint,
    now: u64,
    after: HandlerState,
    step: MergeStep,
) -> bool {
    match wait {
        BlockWait::TimedOut => {
            &&& after == (HandlerState {
                work: WorkState { dynamic_rx: true, ..before.work },
                fingerprint: Some(fingerprint),
                ..before
            })
            &&& step == (MergeStep::Done { updated: false, render: false })
        },
        BlockWait::Received { messages, disconnected } => {
            let results = messages@;
            let taken = HandlerState {
                work: WorkState { dynamic_rx: true, ..before.work },
                ..before
            }.merging(results, disconnected, sync.len() > 0, now);
            if loaded_rows(results).len() == 0 {
                &&& after == (HandlerState { fingerprint: Some(fingerprint), ..taken })
                &&& step == (MergeStep::Done {
                    updated: false,
                    render: before.popup.visible || is_terminal_feedback(taken.work.feedback)
                        || taken.work.feedback is Loading,
                })
            } else if term matches Some(t) && before.is_fresh(t) {
                &&& after == taken
                &&& step matches MergeStep::Merge { pool, word }
                &&& pool@ == sync + new_rows(sync, loaded_rows(results))
                &&& word@ == term->0.context.current_word@
            } else {
                &&& after == taken.dropping(term)
                &&& step == (MergeStep::Done {
                    updated: false,
                    render: term is Some && before.popup.visible,
                })
            }
        },
    }
}

impl AsyncWork {
    /// Takes results in. Returns the rows they loaded.
    fn absorb(
        &mut self,
        results: Vec<DynamicResult>,
        disconnected: bool,
        has_rows: bool,
        now: u64,
    ) -> (loaded: Vec<Suggestion>)
        requires
            old(self)@.pending_empty_count + empty_results(results@) <= usize::MAX,
        ensures
            final(self)@ == old(self)@.absorbed(results@, disconnected, has_rows, now),
            loaded@ == loaded_rows(results@),
    {
        let mut batch = AsyncFeedback::aggregate(results);
        self.pending_failed.append(&mut batch.failed);
        self.pending_empty_count = self.pending_empty_count + batch.empty_count;
        let loaded = batch.loaded;
        if disconnected {
            self.dynamic_rx = false;
            self.dynamic_task = false;
            if loaded.len() > 0 {
                self.feedback = AsyncFeedback::terminal_for_outcome(
                    true,
                    &self.pending_failed,
                    self.pending_empty_count,
                    now,
                );
            } else {
                self.dynamic_ctx = None;
                self.feedback = if self.pending_failed.len() > 0 && has_rows {
                    AsyncFeedback::PartialError {
                        failed: copy_strings(&self.pending_failed),
                        since: now,
                    }
                } else if self.pending_empty_count > 0 && has_rows {
                    AsyncFeedback::Idle
                } else {
                    AsyncFeedback::terminal_for_outcome(
                        false,
                        &self.pending_failed,
                        self.pending_empty_count,
                        now,
                    )
                };
            }
            self.pending_failed = Vec::new();
            self.pending_empty_count = 0;
        }
        loaded
    }
}

impl InputHandler {
    /// Checks whether results of the running providers still belong to the command line.
    pub fn check_merge_staleness(&mut self, term: Option<&TerminalSnapshot>) -> (freshness:
        MergeFreshness)
        ensures
            match term {
                Some(t) => {
                    &&& if old(self)@.is_fresh(*t) {
                        &&& freshness matches MergeFreshness::Fresh { current_word, buffer }
                        &&& current_word@ == t.context.current_word@
                        &&& buffer@ == t.line()
                    } else {
                        freshness is Stale
                    }
                    &&& final(self)@ == (HandlerState {
                        work: WorkState {
                            site: if old(self)@.spawned_generation != old(self)@.buffer_generation {
                                None
                            } else {
                                old(self)@.work.site
                            },
                            ..old(self)@.work
                        },
                        ..old(self)@
                    })
                },
                None => {
                    &&& freshness is PoisonedLock
                    &&& final(self)@ == (HandlerState {
                        work: old(self)@.work.detached(),
                        ..old(self)@
                    })
                },
            },
            final(self).wf() == old(self).wf(),
    {
        let t = match term {
            Some(t) => t,
            None => {
                self.work.dynamic_rx = false;
                self.work.dynamic_ctx = None;
                self.work.dynamic_task = false;
                return MergeFreshness::PoisonedLock;
            },
        };
        if self.spawned_generation != self.buffer_generation {
            self.work.dynamic_ctx = None;
            return MergeFreshness::Stale;
        }
        let stale = match &self.work.dynamic_ctx {
            Some(spawned) => spawned.is_stale_against(&t.context),
            None => true,
        };
        if stale {
            return MergeFreshness::Stale;
        }
        MergeFreshness::Fresh {
            current_word: t.context.current_word.clone(),
            buffer: t.buffer_text(),
        }
    }

    /// Takes in what has come on the channel of provider results. `disconnected` says that
    /// no more will come.
    pub fn try_merge_dynamic(
        &mut self,
        messages: Vec<DynamicResult>,
        disconnected: bool,
        term: Option<&TerminalSnapshot>,
        now: u64,
    ) -> (step: MergeStep)
        requires
            old(self)@.work.pending_empty_count + empty_results(messages@) <= usize::MAX,
        ensures
            merge_step(
                old(self)@,
                messages@,
                disconnected,
                match term {
                    Some(t) => Some(*t),
                    None => None,
                },
                now,
                final(self)@,
                step,
            ),
            final(self).wf() == old(self).wf(),
    {
        if !self.work.dynamic_rx {
            return MergeStep::Done { updated: false, render: false };
        }
        let none_came = messages.len() == 0;
        if none_came && !disconnected {
            return MergeStep::Done { updated: false, render: false };
        }
        let has_rows = self.popup.suggestions.len() > 0;
        let loaded = self.work.absorb(messages, disconnected, has_rows, now);
        if none_came {
            return MergeStep::Done { updated: false, render: self.popup.visible };
        }
        if loaded.len() == 0 {
            return MergeStep::Done { updated: !self.work.feedback.is_idle(), render: true };
        }
        match self.check_merge_staleness(term) {
            MergeFreshness::Fresh { current_word, buffer: _ } => {
                if !self.popup.visible {
                    self.popup.visible = true;
                    self.popup.overlay = OverlayState::new();
                    self.reset_detail_debounce_state();
                }
                let mut extras = merge_dedup_against(&self.popup.suggestions, loaded);
                let mut pool: Vec<Suggestion> = Vec::new();
                pool.append(&mut self.popup.suggestions);
                pool.append(&mut extras);
                MergeStep::Merge { pool, word: current_word }
            },
            MergeFreshness::Stale => {
                self.work = AsyncWork::new();
                MergeStep::Done { updated: false, render: self.popup.visible }
            },
            MergeFreshness::PoisonedLock => MergeStep::Done { updated: false, render: false },
        }
    }

    /// Shows the merged rows, put in order. Where none is left the popup goes.
    pub fn finish_merge(&mut self, ranked: Vec<Suggestion>, disconnected: bool) -> (repaint: Repaint)
        ensures
            ({
                let shown = final(self)@.popup.suggestions;
                if ranked_is_empty(ranked@, old(self)@.ask_ai) {
                    &&& repaint == Repaint::Clear(old(self)@.teardown())
                    &&& final(self)@ == old(self)@.dismissed()
                } else {
                    &&& repaint == Repaint::Render
                    &&& is_pinned(ranked@, old(self)@.ask_ai, shown)
                    &&& final(self)@ == (HandlerState {
                        popup: PopupState {
                            suggestions: shown,
                            detail_debounce: DetailDebounceState::fresh(),
                            ..old(self)@.popup
                        },
                        work: if disconnected {
                            WorkState { site: None, ..old(self)@.work }
                        } else {
                            old(self)@.work
                        },
                        ..old(self)@
                    })
                }
            }),
            final(self).wf() == old(self).wf(),
    {
        self.popup.suggestions = pin_ask_ai(self.ask_ai, ranked);
        self.reset_detail_debounce_state();
        if self.popup.suggestions.len() == 0 {
            return Repaint::Clear(self.dismiss());
        }
        if disconnected {
            self.work.dynamic_ctx = None;
        }
        Repaint::Render
    }

    /// Applies what a trigger has waited for. `sync_suggestions` are the rows that it has
    /// shown meanwhile.
    pub fn apply_block_result(
        &mut self,
        wait: BlockWait,
        sync_suggestions: Vec<Suggestion>,
        term: Option<&TerminalSnapshot>,
        fingerprint: TriggerFingerprint,
        now: u64,
    ) -> (step: MergeStep)
        requires
            wait matches BlockWait::Received { messages, disconnected }
                ==> old(self)@.work.pending_empty_count + empty_results(messages@) <= usize::MAX,
        ensures
            block_step(
                old(self)@,
                wait,
                sync_suggestions@,
                match term {
                    Some(t) => Some(*t),
                    None => None,
                },
                fingerprint,
                now,
                final(self)@,
                step,
            ),
            final(self).wf() == old(self).wf(),
    {
        self.work.dynamic_rx = true;
        match wait {
            BlockWait::TimedOut => {
                self.last_trigger_fingerprint = Some(fingerprint);
                MergeStep::Done { updated: false, render: false }
            },
            BlockWait::Received { messages, disconnected } => {
                let has_rows = sync_suggestions.len() > 0;
                let loaded = self.work.absorb(messages, disconnected, has_rows, now);
                if loaded.len() == 0 {
                    self.last_trigger_fingerprint = Some(fingerprint);
                    return MergeStep::Done {
                        updated: false,
                        render: self.popup.visible || self.work.feedback.is_terminal()
                            || self.work.feedback.is_loading(),
                    };
                }
                match self.check_merge_staleness(term) {
                    MergeFreshness::Fresh { current_word, buffer: _ } => {
                        let mut extras = merge_dedup_against(&sync_suggestions, loaded);
                        let mut pool = sync_suggestions;
                        pool.append(&mut extras);
                        MergeStep::Merge { pool, word: current_word }
                    },
                    MergeFreshness::Stale => {
                        self.work = AsyncWork::new();
                        MergeStep::Done { updated: false, render: self.popup.visible }
                    },
                    MergeFreshness::PoisonedLock => MergeStep::Done {
                        updated: false,
                        render: false,
                    },
                }
            },
        }
    }

    /// Shows the rows that a trigger has waited for, put in order.
    pub fn finish_block_merge(
        &mut self,
        ranked: Vec<Suggestion>,
        disconnected: bool,
        fingerprint: TriggerFingerprint,
    )
        ensures
            ({
                let shown = final(self)@.popup.suggestions;
                &&& is_pinned(ranked@, old(self)@.ask_ai, shown)
                &&& final(self)@ == (HandlerState {
                    work: if disconnected {
                        WorkState { site: None, ..old(self)@.work }
                    } else {
                        old(self)@.work
                    },
                    fingerprint: Some(fingerprint),
                    ..old(self)@.showing(shown)
                })
            }),
            final(self).wf() == old(self).wf(),
    {
        self.replace_suggestions_and_reset_overlay(ranked);
        self.popup.visible = true;
        if disconnected {
            self.work.dynamic_ctx = None;
        }
        self.last_trigger_fingerprint = Some(fingerprint);
    }
}

/// Nothing of the rows is shown: there are no completions among them, and no pinned row
/// comes in front.
pub open spec fn ranked_is_empty(ranked: Seq<Suggestion>, ask_ai: bool) -> bool {
    !ask_ai && crate::handler::merge::completions(ranked).len() == 0
}

// ---- Laws ----

/// Rows that no longer belong to the command line are never shown: the popup keeps the
/// rows it has, and nothing runs any more.
pub proof fn law_stale_rows_are_never_shown(
    before: HandlerState,
    results: Seq<DynamicResult>,
    disconnected: bool,
    term: TerminalSnapshot,
    now: u64,
    after: HandlerState,
    step: MergeStep,
)
    requires
        merge_step(before, results, disconnected, Some(term), now, after, step),
        !before.is_fresh(term),
    ensures
        after.popup == before.popup,
        !(step is Merge),
        before.work.dynamic_rx && loaded_rows(results).len() > 0 ==> after.work
            == WorkState::idle(),
{
    if results.len() == 0 {
        assert(loaded_rows(results).len() == 0);
    }
}

/// The same holds of rows that a trigger has waited for.
pub proof fn law_stale_block_rows_are_never_shown(
    before: HandlerState,
    messages: Vec<DynamicResult>,
    disconnected: bool,
    sync: Seq<Suggestion>,
    term: TerminalSnapshot,
    fingerprint: TriggerFingerprint,
    now: u64,
    after: HandlerState,
    step: MergeStep,
)
    requires
        block_step(
            before,
            BlockWait::Received { messages, disconnected },
            sync,
            Some(term),
            fingerprint,
            now,
            after,
            step,
        ),
        !before.is_fresh(term),
    ensures
        after.popup == before.popup,
        !(step is Merge),
        loaded_rows(messages@).len() > 0 ==> after.fingerprint == before.fingerprint,
{
}

/// Results of providers that were just started belong to the command line as long as its
/// completion site stays the same.
pub proof fn law_started_providers_are_fresh(
    h: HandlerState,
    term: TerminalSnapshot,
    later: TerminalSnapshot,
    now: u64,
)
    requires
        later.context.site() == term.context.site(),
    ensures
        h.spawned(term.context.site(), now).is_fresh(later),
{
}

/// A new trigger makes all results of earlier providers stale.
pub proof fn law_trigger_makes_results_stale(
    h: HandlerState,
    term: TerminalSnapshot,
    later: TerminalSnapshot,
)
    requires
        h.trigger_start(Some(term)) is Compute,
    ensures
        !h.triggered(Some(term)).is_fresh(later),
{
}

/// Merging never takes a row out of the pool: the rows shown so far come first in it.
pub proof fn law_merge_extends_rows(
    before: HandlerState,
    results: Seq<DynamicResult>,
    disconnected: bool,
    term: Option<TerminalSnapshot>,
    now: u64,
    after: HandlerState,
    step: MergeStep,
)
    requires
        merge_step(before, results, disconnected, term, now, after, step),
    ensures
        step matches MergeStep::Merge { pool, word } ==> before.popup.suggestions.is_prefix_of(
            pool@,
        ),
{
}

/// Once the channel is closed nothing is left of the loading indicator, whatever came.
pub proof fn law_closed_channel_ends_loading(
    before: HandlerState,
    results: Seq<DynamicResult>,
    term: Option<TerminalSnapshot>,
    now: u64,
    after: HandlerState,
    step: MergeStep,
)
    requires
        merge_step(before, results, true, term, now, after, step),
        before.work.dynamic_rx,
    ensures
        !(after.work.feedback is Loading),
        !after.work.dynamic_rx,
        !after.work.dynamic_task,
{
}

/// Results that come in two batches, before the channel is closed, are told of like those
/// of one batch. Where only the first brings rows, they are merged before the channel is
/// closed, and the popup decides.
pub proof fn law_batches_are_told_as_one(
    work: WorkState,
    a: Seq<DynamicResult>,
    b: Seq<DynamicResult>,
    has_rows: bool,
    now: u64,
)
    requires
        work.pending_empty_count + empty_results(a) + empty_results(b) <= usize::MAX,
        loaded_rows(a).len() == 0 || loaded_rows(b).len() > 0,
    ensures
        work.absorbed(a, false, has_rows, now).absorbed(b, true, has_rows, now) == work.absorbed(
            a + b,
            true,
            has_rows,
            now,
        ),
{
    crate::feedback::law_batches_accumulate(a, b);
    assert((loaded_rows(a) + loaded_rows(b)).len() > 0 <==> loaded_rows(b).len() > 0);
    assert(work.pending_failed + failed_names(a) + failed_names(b) =~= work.pending_failed + (
    failed_names(a) + failed_names(b)));
}

/// Results are fresh exactly for the site that their providers were started for, and until
/// the next trigger that computes.
pub proof fn law_results_belong_to_one_site(
    h: HandlerState,
    term: TerminalSnapshot,
    later: TerminalSnapshot,
    now: u64,
)
    ensures
        h.spawned(term.context.site(), now).is_fresh(later) <==> later.context.site()
            == term.context.site(),
        h.is_fresh(later) ==> h.spawned_generation == h.buffer_generation,
{
}

/// Rows that still belong to the command line are handed out to be shown, behind those
/// that are shown already: every text of them is in the pool. A popup that was hidden opens
/// with nothing selected; one that was visible keeps its selection.
pub proof fn law_fresh_rows_are_merged(
    before: HandlerState,
    results: Seq<DynamicResult>,
    disconnected: bool,
    term: TerminalSnapshot,
    now: u64,
    after: HandlerState,
    step: MergeStep,
    i: int,
)
    requires
        merge_step(before, results, disconnected, Some(term), now, after, step),
        before.work.dynamic_rx,
        before.is_fresh(term),
        0 <= i < loaded_rows(results).len(),
    ensures
        step is Merge,
        step->word@ == term.context.current_word@,
        before.popup.suggestions.is_prefix_of(step->pool@),
        has_text(step->pool@, loaded_rows(results)[i].text@),
        after.popup.visible,
        before.popup.visible ==> after.popup.overlay == before.popup.overlay,
        !before.popup.visible ==> after.popup.overlay.selected is None
            && after.popup.overlay.scroll_offset == 0,
        after.fingerprint == before.fingerprint,
        after.settings == before.settings,
        after.line == before.line,
{
    if results.len() == 0 {
        assert(loaded_rows(results).len() == 0);
    }
    law_merge_loses_no_text(before.popup.suggestions, loaded_rows(results), i);
}

/// Where nothing came and more may come, or no channel is open, nothing happens.
pub proof fn law_no_results_change_nothing(
    before: HandlerState,
    results: Seq<DynamicResult>,
    disconnected: bool,
    term: Option<TerminalSnapshot>,
    now: u64,
    after: HandlerState,
    step: MergeStep,
)
    requires
        merge_step(before, results, disconnected, term, now, after, step),
        !before.work.dynamic_rx || (results.len() == 0 && !disconnected),
    ensures
        after == before,
        step == (MergeStep::Done { updated: false, render: false }),
{
}

/// As long as more may come, what runs keeps running, and what came is counted on.
pub proof fn law_open_channel_keeps_running(
    work: WorkState,
    results: Seq<DynamicResult>,
    has_rows: bool,
    now: u64,
)
    requires
        work.pending_empty_count + empty_results(results) <= usize::MAX,
    ensures
        ({
            let after = work.absorbed(results, false, has_rows, now);
            &&& after.dynamic_rx == work.dynamic_rx
            &&& after.dynamic_task == work.dynamic_task
            &&& after.site == work.site
            &&& after.feedback == work.feedback
            &&& after.pending_failed == work.pending_failed + failed_names(results)
            &&& after.pending_empty_count == work.pending_empty_count + empty_results(results)
        }),
{
}

/// Once all providers have finished, those that failed are told of, in part where there are
/// rows to show; that nothing was found is told where there are none and none failed; and
/// rows that were brought without any failure need no word.
pub proof fn law_last_result_settles_the_feedback(
    work: WorkState,
    results: Seq<DynamicResult>,
    has_rows: bool,
    now: u64,
)
    ensures
        ({
            let failed = work.pending_failed + failed_names(results);
            let empty = work.pending_empty_count + empty_results(results);
            let loaded = loaded_rows(results).len() > 0;
            let after = work.absorbed(results, true, has_rows, now);
            &&& failed.len() > 0 && (loaded || has_rows) ==> after.feedback
                == Feedback::PartialError(failed, now)
            &&& failed.len() > 0 && !loaded && !has_rows ==> after.feedback == Feedback::Error(
                failed,
                now,
            )
            &&& failed.len() == 0 && (loaded || has_rows || empty == 0) ==> after.feedback
                == Feedback::Idle
            &&& failed.len() == 0 && !loaded && !has_rows && empty > 0 ==> after.feedback
                == Feedback::Empty(now)
            &&& !after.dynamic_rx && !after.dynamic_task
            &&& after.pending_failed.len() == 0 && after.pending_empty_count == 0
            &&& after.site is Some ==> loaded
        }),
{
}

/// Results without rows leave the rows of the popup alone; the popup is painted, so that
/// what there is to tell shows.
pub proof fn law_rowless_results_keep_the_popup(
    before: HandlerState,
    results: Seq<DynamicResult>,
    disconnected: bool,
    term: Option<TerminalSnapshot>,
    now: u64,
    after: HandlerState,
    step: MergeStep,
)
    requires
        merge_step(before, results, disconnected, term, now, after, step),
        before.work.dynamic_rx,
        results.len() > 0,
        loaded_rows(results).len() == 0,
    ensures
        after.popup == before.popup,
        after.fingerprint == before.fingerprint,
        step matches MergeStep::Done { updated, render } && render && (updated
            <==> !(after.work.feedback is Idle)),
{
}

/// A trigger that has waited in vain shows what it has, and leaves the providers to bring
/// the rest later: their channel is open again, and the line is not computed twice.
pub proof fn law_timeout_leaves_providers_running(
    before: HandlerState,
    sync: Seq<Suggestion>,
    term: Option<TerminalSnapshot>,
    fingerprint: TriggerFingerprint,
    now: u64,
    after: HandlerState,
    step: MergeStep,
)
    requires
        block_step(before, BlockWait::TimedOut, sync, term, fingerprint, now, after, step),
    ensures
        after.work.dynamic_rx,
        after.work.dynamic_task == before.work.dynamic_task,
        after.work.site == before.work.site,
        after.work.feedback == before.work.feedback,
        after.popup == before.popup,
        after.fingerprint == Some(fingerprint),
        step == (MergeStep::Done { updated: false, render: false }),
{
}

/// Rows that a trigger has waited for, and that still belong to the line, come behind the
/// rows that it had found, and none of their texts is lost.
pub proof fn law_awaited_rows_are_merged(
    before: HandlerState,
    messages: Vec<DynamicResult>,
    disconnected: bool,
    sync: Seq<Suggestion>,
    term: TerminalSnapshot,
    fingerprint: TriggerFingerprint,
    now: u64,
    after: HandlerState,
    step: MergeStep,
    i: int,
)
    requires
        block_step(
            before,
            BlockWait::Received { messages, disconnected },
            sync,
            Some(term),
            fingerprint,
            now,
            after,
            step,
        ),
        before.is_fresh(term),
        0 <= i < loaded_rows(messages@).len(),
    ensures
        step is Merge,
        step->word@ == term.context.current_word@,
        sync.is_prefix_of(step->pool@),
        has_text(step->pool@, loaded_rows(messages@)[i].text@),
        after.popup == before.popup,
        !disconnected ==> after.work.dynamic_rx,
        disconnected ==> !after.work.dynamic_rx && !after.work.dynamic_task,
{
    law_merge_loses_no_text(sync, loaded_rows(messages@), i);
}

/// Results without rows that a trigger has waited for end the wait: the line counts as
/// computed, and the rows shown stay.
pub proof fn law_awaited_rowless_results_keep_the_popup(
    before: HandlerState,
    messages: Vec<DynamicResult>,
    disconnected: bool,
    sync: Seq<Suggestion>,
    term: Option<TerminalSnapshot>,
    fingerprint: TriggerFingerprint,
    now: u64,
    after: HandlerState,
    step: MergeStep,
)
    requires
        block_step(
            before,
            BlockWait::Received { messages, disconnected },
            sync,
            term,
            fingerprint,
            now,
            after,
            step,
        ),
        loaded_rows(messages@).len() == 0,
    ensures
        after.popup == before.popup,
        after.fingerprint == Some(fingerprint),
        step matches MergeStep::Done { updated, render } && !updated && (render
            <==> before.popup.visible || !(after.work.feedback is Idle)),
{
}

/// Where the line cannot be read, or no longer is the one that the rows were computed for,
/// nothing of them is kept.
pub proof fn law_unreadable_line_drops_rows(
    before: HandlerState,
    results: Seq<DynamicResult>,
    disconnected: bool,
    now: u64,
    after: HandlerState,
    step: MergeStep,
)
    requires
        merge_step(before, results, disconnected, None, now, after, step),
        before.work.dynamic_rx,
        loaded_rows(results).len() > 0,
    ensures
        after.popup == before.popup,
        !after.work.dynamic_rx && !after.work.dynamic_task && after.work.site is None,
        step == (MergeStep::Done { updated: false, render: false }),
{
    if results.len() == 0 {
        assert(loaded_rows(results).len() == 0);
    }
}

/// Merged rows show nothing only where all of them ask the language model, and that is not
/// available.
pub proof fn law_merged_popup_is_empty_without_completions(
    ranked: Seq<Suggestion>,
    ask_ai: bool,
    row: Suggestion,
)
    ensures
        ask_ai ==> !ranked_is_empty(ranked, ask_ai),
        row.kind != SuggestionKind::AskAi ==> !ranked_is_empty(ranked.push(row), ask_ai),
        row.kind == SuggestionKind::AskAi ==> ranked_is_empty(ranked.push(row), ask_ai)
            == ranked_is_empty(ranked, ask_ai),
        !ask_ai ==> ranked_is_empty(Seq::empty(), ask_ai),
{
    law_all_other_rows_are_completions(ranked, row);
}

} // verus!
