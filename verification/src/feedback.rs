//! What the popup tells the user about asynchronous providers. Times are in milliseconds
//! of a monotonic clock.

use vstd::prelude::*;

use crate::dynamic_result::DynamicResult;
use crate::model::copy_strings;
use crate::model::Suggestion;
use crate::dynamic_result::ProviderTag;

verus! {

#[derive(Debug)]
pub enum AsyncFeedback {
    Idle,
    Loading { spawned_at: u64 },
    Empty { since: u64 },
    Error { failed: Vec<String>, since: u64 },
    PartialError { failed: Vec<String>, since: u64 },
}

/// The mathematical value of an [`AsyncFeedback`].
#[verifier::ext_equal]
pub enum Feedback {
    Idle,
    Loading(u64),
    Empty(u64),
    /// The providers that failed, and since when.
    Error(Seq<String>, u64),
    PartialError(Seq<String>, u64),
}

impl View for AsyncFeedback {
    type V = Feedback;

    open spec fn view(&self) -> Feedback {
        match *self {
            AsyncFeedback::Idle => Feedback::Idle,
            AsyncFeedback::Loading { spawned_at } => Feedback::Loading(spawned_at),
            AsyncFeedback::Empty { since } => Feedback::Empty(since),
            AsyncFeedback::Error { failed, since } => Feedback::Error(failed@, since),
            AsyncFeedback::PartialError { failed, since } => Feedback::PartialError(failed@, since),
        }
    }
}

impl Default for AsyncFeedback {
    fn default() -> (feedback: Self)
        ensures
            feedback@ is Idle,
    {
        AsyncFeedback::Idle
    }
}

/// What a batch of provider results amounts to.
#[derive(Debug)]
pub struct DynamicAggregation {
    pub loaded: Vec<Suggestion>,
    pub empty_count: usize,
    pub failed: Vec<String>,
}

impl Default for DynamicAggregation {
    fn default() -> (aggregation: Self)
        ensures
            aggregation.loaded@ == Seq::<Suggestion>::empty(),
            aggregation.empty_count == 0,
            aggregation.failed@ == Seq::<String>::empty(),
    {
        DynamicAggregation { loaded: Vec::new(), empty_count: 0, failed: Vec::new() }
    }
}

/// The rows that a batch loaded, in order.
pub open spec fn loaded_rows(results: Seq<DynamicResult>) -> Seq<Suggestion>
    decreases results.len(),
{
    if results.len() == 0 {
        Seq::empty()
    } else {
        loaded_rows(results.drop_last()) + (match results.last() {
            DynamicResult::Loaded { provider, suggestions } => suggestions@,
            _ => Seq::empty(),
        })
    }
}

/// Whether a result brought nothing and no error.
pub open spec fn is_empty_result(result: DynamicResult) -> bool {
    match result {
        DynamicResult::Loaded { provider, suggestions } => suggestions@.len() == 0,
        DynamicResult::Empty { provider } => true,
        DynamicResult::Error { provider, message } => false,
    }
}

/// How many results of a batch brought nothing.
pub open spec fn empty_results(results: Seq<DynamicResult>) -> nat
    decreases results.len(),
{
    if results.len() == 0 {
        0
    } else {
        empty_results(results.drop_last()) + (if is_empty_result(results.last()) {
            1nat
        } else {
            0nat
        })
    }
}

/// The names of the providers of a batch that failed, in order.
pub open spec fn failed_names(results: Seq<DynamicResult>) -> Seq<String>
    decreases results.len(),
{
    if results.len() == 0 {
        Seq::empty()
    } else {
        failed_names(results.drop_last()) + (match results.last() {
            DynamicResult::Error { provider, message } => seq![provider.name()],
            _ => Seq::empty(),
        })
    }
}

/// The feedback to show once all providers have finished.
pub open spec fn terminal_feedback(
    loaded: bool,
    failed: Seq<String>,
    empty_count: nat,
    now: u64,
) -> Feedback {
    if failed.len() > 0 {
        if loaded {
            Feedback::PartialError(failed, now)
        } else {
            Feedback::Error(failed, now)
        }
    } else if !loaded && empty_count > 0 {
        Feedback::Empty(now)
    } else {
        Feedback::Idle
    }
}

impl AsyncFeedback {
    pub fn aggregate(results: Vec<DynamicResult>) -> (aggregation: DynamicAggregation)
        ensures
            aggregation.loaded@ == loaded_rows(results@),
            aggregation.empty_count == empty_results(results@),
            aggregation.failed@ == failed_names(results@),
            aggregation.empty_count <= results@.len(),
    {
        let mut aggregation = DynamicAggregation::default();
        let ghost all = results@;
        let _len: usize = results.len();
        for result in it: results
            invariant
                it.seq() == all,
                0 <= it.index() <= all.len(),
                aggregation.loaded@ == loaded_rows(all.take(it.index())),
                aggregation.empty_count == empty_results(all.take(it.index())),
                aggregation.empty_count <= it.index(),
                aggregation.failed@ == failed_names(all.take(it.index())),
                all.len() <= usize::MAX,
        {
            proof {
                let done = it.index() + 1;
                assert(result == all[done - 1]);
                assert(all.take(done).drop_last() =~= all.take(done - 1));
                assert(all.take(done).last() == all[done - 1]);
            }
            match result {
                DynamicResult::Loaded { provider: _, suggestions } => {
                    if suggestions.len() == 0 {
                        aggregation.empty_count = aggregation.empty_count + 1;
                        assert(aggregation.loaded@ =~= aggregation.loaded@ + suggestions@);
                    } else {
                        let mut rows = suggestions;
                        aggregation.loaded.append(&mut rows);
                    }
                    assert(aggregation.failed@ + Seq::<String>::empty() =~= aggregation.failed@);
                },
                DynamicResult::Empty { provider: _ } => {
                    aggregation.empty_count = aggregation.empty_count + 1;
                    assert(aggregation.loaded@ + Seq::<Suggestion>::empty() =~= aggregation.loaded@);
                    assert(aggregation.failed@ + Seq::<String>::empty() =~= aggregation.failed@);
                },
                DynamicResult::Error { provider, message: _ } => {
                    let ghost before = aggregation.failed@;
                    aggregation.failed.push(provider.to_string());
                    assert(aggregation.failed@ =~= before + seq![provider.name()]);
                    assert(aggregation.loaded@ + Seq::<Suggestion>::empty() =~= aggregation.loaded@);
                },
            }
        }
        assert(all.take(all.len() as int) =~= all);
        aggregation
    }

    pub fn terminal_from_aggregation(aggregation: &DynamicAggregation, now: u64) -> (feedback: Self)
        ensures
            feedback@ == terminal_feedback(
                aggregation.loaded@.len() > 0,
                aggregation.failed@,
                aggregation.empty_count as nat,
                now,
            ),
    {
        Self::terminal_for_outcome(
            aggregation.loaded.len() > 0,
            &aggregation.failed,
            aggregation.empty_count,
            now,
        )
    }

    /// The same as [`Self::terminal_from_aggregation`], from the parts that matter.
    pub fn terminal_for_outcome(
        loaded_non_empty: bool,
        failed: &Vec<String>,
        empty_count: usize,
        now: u64,
    ) -> (feedback: Self)
        ensures
            feedback@ == terminal_feedback(loaded_non_empty, failed@, empty_count as nat, now),
    {
        if loaded_non_empty && failed.len() > 0 {
            AsyncFeedback::PartialError { failed: copy_strings(failed), since: now }
        } else if failed.len() > 0 {
            AsyncFeedback::Error { failed: copy_strings(failed), since: now }
        } else if !loaded_non_empty && empty_count > 0 {
            AsyncFeedback::Empty { since: now }
        } else {
            AsyncFeedback::Idle
        }
    }

    pub fn is_loading(&self) -> (loading: bool)
        ensures
            loading == self@ is Loading,
    {
        matches!(self, AsyncFeedback::Loading { .. })
    }

    pub fn is_idle(&self) -> (idle: bool)
        ensures
            idle == self@ is Idle,
    {
        matches!(self, AsyncFeedback::Idle)
    }

    /// All providers have finished, and there is something to tell.
    pub fn is_terminal(&self) -> (terminal: bool)
        ensures
            terminal == (self@ is Empty || self@ is Error || self@ is PartialError),
    {
        match self {
            AsyncFeedback::Empty { .. } => true,
            AsyncFeedback::Error { .. } => true,
            AsyncFeedback::PartialError { .. } => true,
            _ => false,
        }
    }

    /// Since when a terminal feedback stands.
    pub fn since(&self) -> (since: Option<u64>)
        ensures
            since == (match self@ {
                Feedback::Empty(t) => Some(t),
                Feedback::Error(_, t) => Some(t),
                Feedback::PartialError(_, t) => Some(t),
                _ => None,
            }),
    {
        match self {
            AsyncFeedback::Empty { since } => Some(*since),
            AsyncFeedback::Error { failed: _, since } => Some(*since),
            AsyncFeedback::PartialError { failed: _, since } => Some(*since),
            _ => None,
        }
    }
}

// ---- Laws ----

/// Two batches amount to what one batch of all their results does.
pub proof fn law_batches_accumulate(a: Seq<DynamicResult>, b: Seq<DynamicResult>)
    ensures
        loaded_rows(a + b) == loaded_rows(a) + loaded_rows(b),
        empty_results(a + b) == empty_results(a) + empty_results(b),
        failed_names(a + b) == failed_names(a) + failed_names(b),
    decreases b.len(),
{
    if b.len() == 0 {
        assert(a + b =~= a);
        assert(loaded_rows(a) + loaded_rows(b) =~= loaded_rows(a));
        assert(failed_names(a) + failed_names(b) =~= failed_names(a));
    } else {
        law_batches_accumulate(a, b.drop_last());
        assert((a + b).drop_last() =~= a + b.drop_last());
        assert((a + b).last() == b.last());
        assert(loaded_rows(a + b) =~= loaded_rows(a) + loaded_rows(b));
        assert(failed_names(a + b) =~= failed_names(a) + failed_names(b));
    }
}

/// The feedback is idle only where no provider failed, and either something was loaded
/// or no provider came back empty.
pub proof fn law_idle_means_nothing_to_tell(
    loaded: bool,
    failed: Seq<String>,
    empty_count: nat,
    now: u64,
)
    ensures
        terminal_feedback(loaded, failed, empty_count, now) is Idle <==> failed.len() == 0 && (loaded
            || empty_count == 0),
{
}

/// What is told once all providers have finished: an error of those that failed, in part
/// where others brought rows; that nothing was found, where none failed and none brought
/// rows; and nothing else.
pub proof fn law_feedback_tells_the_outcome(
    loaded: bool,
    failed: Seq<String>,
    empty_count: nat,
    now: u64,
)
    ensures
        ({
            let told = terminal_feedback(loaded, failed, empty_count, now);
            &&& failed.len() > 0 && loaded ==> told == Feedback::PartialError(failed, now)
            &&& failed.len() > 0 && !loaded ==> told == Feedback::Error(failed, now)
            &&& failed.len() == 0 && !loaded && empty_count > 0 ==> told == Feedback::Empty(now)
            &&& failed.len() == 0 && loaded ==> told == Feedback::Idle
            &&& failed.len() == 0 && empty_count == 0 ==> told == Feedback::Idle
        }),
{
}

/// Each result counts once: rows that were loaded are added behind the others, a result
/// without rows counts as empty, and one that failed adds the name of its provider.
pub proof fn law_each_result_counts_once(results: Seq<DynamicResult>, result: DynamicResult)
    ensures
        ({
            let all = results.push(result);
            match result {
                DynamicResult::Loaded { provider, suggestions } => {
                    &&& loaded_rows(all) == loaded_rows(results) + suggestions@
                    &&& empty_results(all) == empty_results(results) + (if suggestions@.len() == 0 {
                        1nat
                    } else {
                        0
                    })
                    &&& failed_names(all) == failed_names(results)
                },
                DynamicResult::Empty { provider } => {
                    &&& loaded_rows(all) == loaded_rows(results)
                    &&& empty_results(all) == empty_results(results) + 1
                    &&& failed_names(all) == failed_names(results)
                },
                DynamicResult::Error { provider: ProviderTag::Async(name), message } => {
                    &&& loaded_rows(all) == loaded_rows(results)
                    &&& empty_results(all) == empty_results(results)
                    &&& failed_names(all) == failed_names(results).push(name)
                },
            }
        }),
{
    let all = results.push(result);
    assert(all.drop_last() =~= results);
    assert(loaded_rows(results) + Seq::<Suggestion>::empty() =~= loaded_rows(results));
    assert(failed_names(results) + Seq::<String>::empty() =~= failed_names(results));
    if let DynamicResult::Error { provider, message } = result {
        assert(failed_names(results) + seq![provider.name()] =~= failed_names(results).push(
            provider.name(),
        ));
    }
}

} // verus!
