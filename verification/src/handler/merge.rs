//! Merging rows of suggestions, and the pinned "Ask AI" row.

use vstd::prelude::*;
use vstd::string::StringExecFns;

use crate::model::Suggestion;
use crate::model::SuggestionKind;
use crate::model::SuggestionSource;
use crate::text::same_text;

verus! {

/// Some row has the given text.
pub open spec fn has_text(rows: Seq<Suggestion>, text: Seq<char>) -> bool {
    exists|i: int| 0 <= i < rows.len() && (#[trigger] rows[i]).text@ == text
}

/// The incoming rows whose text stands neither in an existing row nor in an earlier
/// incoming one.
pub open spec fn new_rows(existing: Seq<Suggestion>, incoming: Seq<Suggestion>) -> Seq<Suggestion>
    decreases incoming.len(),
{
    if incoming.len() == 0 {
        Seq::empty()
    } else {
        let rest = new_rows(existing, incoming.drop_last());
        let text = incoming.last().text@;
        if has_text(existing, text) || has_text(rest, text) {
            rest
        } else {
            rest.push(incoming.last())
        }
    }
}

fn holds_text(rows: &Vec<Suggestion>, text: &str) -> (holds: bool)
    ensures
        holds == has_text(rows@, text@),
{
    let mut i: usize = 0;
    while i < rows.len()
        invariant
            i <= rows@.len(),
            forall|k: int| 0 <= k < i ==> (#[trigger] rows@[k]).text@ != text@,
        decreases rows.len() - i,
    {
        if same_text(rows[i].text.as_str(), text) {
            assert(rows@[i as int].text@ == text@);
            return true;
        }
        i = i + 1;
    }
    false
}

/// The incoming rows that are new beside the existing ones and among themselves.
pub fn merge_dedup_against(
    existing: &Vec<Suggestion>,
    incoming: Vec<Suggestion>,
) -> (kept: Vec<Suggestion>)
    ensures
        kept@ == new_rows(existing@, incoming@),
{
    let ghost all = incoming@;
    let mut kept: Vec<Suggestion> = Vec::new();
    assert(kept@ =~= new_rows(existing@, all.take(0)));
    for row in it: incoming
        invariant
            it.seq() == all,
            0 <= it.index() <= all.len(),
            kept@ == new_rows(existing@, all.take(it.index())),
    {
        proof {
            let now = all.take(it.index() + 1);
            assert(now.drop_last() =~= all.take(it.index()));
            assert(now.last() == row);
        }
        let known = holds_text(existing, row.text.as_str()) || holds_text(&kept, row.text.as_str());
        if !known {
            kept.push(row);
        }
    }
    assert(all.take(all.len() as int) =~= all);
    kept
}

/// Merges cached completion rows into the synchronous suggestions.
///
/// They come behind the rows of the engine; a row the engine already produced is not shown
/// twice. This does not re-rank.
pub fn merge_cached_suggestions(
    sync: Vec<Suggestion>,
    cached: Vec<Suggestion>,
) -> (out: Vec<Suggestion>)
    ensures
        out@ == sync@ + new_rows(sync@, cached@),
{
    let mut extras = merge_dedup_against(&sync, cached);
    let mut out = sync;
    out.append(&mut extras);
    out
}

// ---- The pinned row ----

/// The pinned row that asks the language model on demand.
pub open spec fn is_sentinel(row: Suggestion) -> bool {
    &&& row.text@ == "Ask AI"@
    &&& row.description matches Some(d) && d@
        == "Ask AI — answer with a command, then press Enter to run"@
    &&& row.kind == SuggestionKind::AskAi
    &&& row.source == SuggestionSource::Llm
    &&& row.id == 0
}

/// Builds the pinned row.
pub fn ask_ai_sentinel() -> (row: Suggestion)
    ensures
        is_sentinel(row),
{
    Suggestion {
        text: String::from_str("Ask AI"),
        description: Some(
            String::from_str("Ask AI — answer with a command, then press Enter to run"),
        ),
        kind: SuggestionKind::AskAi,
        source: SuggestionSource::Llm,
        id: 0,
    }
}

/// The rows without any that asks the language model.
pub open spec fn completions(rows: Seq<Suggestion>) -> Seq<Suggestion>
    decreases rows.len(),
{
    if rows.len() == 0 {
        Seq::empty()
    } else if rows.last().kind == SuggestionKind::AskAi {
        completions(rows.drop_last())
    } else {
        completions(rows.drop_last()).push(rows.last())
    }
}

/// `out` holds the completions of `pool`, behind the pinned row where it is active.
pub open spec fn is_pinned(pool: Seq<Suggestion>, active: bool, out: Seq<Suggestion>) -> bool {
    if active {
        &&& out.len() > 0
        &&& is_sentinel(out[0])
        &&& out.skip(1) == completions(pool)
    } else {
        out == completions(pool)
    }
}

/// Removes any row that asks the language model, and puts the pinned one at the front
/// where it is active.
pub fn pin_ask_ai(active: bool, pool: Vec<Suggestion>) -> (out: Vec<Suggestion>)
    ensures
        is_pinned(pool@, active, out@),
{
    let ghost all = pool@;
    let mut out: Vec<Suggestion> = Vec::new();
    if active {
        out.push(ask_ai_sentinel());
    }
    let ghost head = out@;
    assert(head + completions(all.take(0)) =~= out@);
    for row in it: pool
        invariant
            it.seq() == all,
            0 <= it.index() <= all.len(),
            out@ == head + completions(all.take(it.index())),
    {
        proof {
            let now = all.take(it.index() + 1);
            assert(now.drop_last() =~= all.take(it.index()));
            assert(now.last() == row);
        }
        if row.kind != SuggestionKind::AskAi {
            let ghost before = completions(all.take(it.index()));
            out.push(row);
            assert(out@ =~= head + before.push(row));
        }
    }
    proof {
        assert(all.take(all.len() as int) =~= all);
        if active {
            assert(out@.skip(1) =~= completions(all));
        } else {
            assert(out@ =~= completions(all));
        }
    }
    out
}

/// How many rows in front of `n` are completions.
pub open spec fn completions_before(rows: Seq<Suggestion>, n: int) -> int {
    completions(rows.take(n)).len() as int
}

/// Counts the completions in front of `n`.
pub fn count_completions(rows: &Vec<Suggestion>, n: usize) -> (count: usize)
    requires
        n <= rows@.len(),
    ensures
        count == completions_before(rows@, n as int),
        count <= n,
{
    let mut count: usize = 0;
    let mut i: usize = 0;
    while i < n
        invariant
            i <= n <= rows@.len(),
            count <= i,
            count == completions_before(rows@, i as int),
        decreases n - i,
    {
        proof {
            assert(rows@.take(i + 1).drop_last() =~= rows@.take(i as int));
        }
        if rows[i].kind != SuggestionKind::AskAi {
            count = count + 1;
        }
        i = i + 1;
    }
    count
}

/// The position of the first completion at or after `from`; the number of rows where
/// there is none.
pub open spec fn first_completion(rows: Seq<Suggestion>, from: int) -> int
    decreases rows.len() - from,
{
    if from >= rows.len() || rows[from].kind != SuggestionKind::AskAi {
        from
    } else {
        first_completion(rows, from + 1)
    }
}

/// The position of the first completion.
pub fn find_completion(rows: &Vec<Suggestion>) -> (at: Option<usize>)
    ensures
        match at {
            Some(i) => i < rows@.len() && first_completion(rows@, 0) == i && rows@[i as int].kind
                != SuggestionKind::AskAi,
            None => first_completion(rows@, 0) == rows@.len(),
        },
{
    let mut i: usize = 0;
    while i < rows.len()
        invariant
            i <= rows@.len(),
            first_completion(rows@, i as int) == first_completion(rows@, 0),
        decreases rows.len() - i,
    {
        if rows[i].kind != SuggestionKind::AskAi {
            return Some(i);
        }
        i = i + 1;
    }
    None
}

/// Some row asks the language model.
pub open spec fn has_ask_ai(rows: Seq<Suggestion>) -> bool {
    exists|i: int| 0 <= i < rows.len() && (#[trigger] rows[i]).kind == SuggestionKind::AskAi
}

/// Whether some row asks the language model.
pub fn holds_ask_ai(rows: &Vec<Suggestion>) -> (holds: bool)
    ensures
        holds == has_ask_ai(rows@),
{
    let mut i: usize = 0;
    while i < rows.len()
        invariant
            i <= rows@.len(),
            forall|k: int| 0 <= k < i ==> (#[trigger] rows@[k]).kind != SuggestionKind::AskAi,
        decreases rows.len() - i,
    {
        if rows[i].kind == SuggestionKind::AskAi {
            assert(rows@[i as int].kind == SuggestionKind::AskAi);
            return true;
        }
        i = i + 1;
    }
    false
}

// ---- Laws ----

/// No two of the new rows have the same text, and none has that of an existing one.
pub proof fn law_new_rows_are_new(existing: Seq<Suggestion>, incoming: Seq<Suggestion>, i: int)
    requires
        0 <= i < new_rows(existing, incoming).len(),
    ensures
        !has_text(existing, new_rows(existing, incoming)[i].text@),
        forall|j: int|
            0 <= j < new_rows(existing, incoming).len() && j != i ==> (#[trigger] new_rows(
                existing,
                incoming,
            )[j]).text@ != new_rows(existing, incoming)[i].text@,
    decreases incoming.len(),
{
    let rest = new_rows(existing, incoming.drop_last());
    let out = new_rows(existing, incoming);
    if out.len() == rest.len() {
        law_new_rows_are_new(existing, incoming.drop_last(), i);
    } else {
        assert(out == rest.push(incoming.last()));
        if i < rest.len() {
            law_new_rows_are_new(existing, incoming.drop_last(), i);
            assert(rest[i].text@ != incoming.last().text@);
            assert forall|j: int| 0 <= j < out.len() && j != i implies (#[trigger] out[j]).text@
                != out[i].text@ by {
                if j < rest.len() {
                    assert(out[j] == rest[j]);
                }
            }
        } else {
            assert forall|j: int| 0 <= j < out.len() && j != i implies (#[trigger] out[j]).text@
                != out[i].text@ by {
                assert(out[j] == rest[j]);
            }
        }
    }
}

/// Every incoming text is there after a merge.
pub proof fn law_merge_loses_no_text(existing: Seq<Suggestion>, incoming: Seq<Suggestion>, i: int)
    requires
        0 <= i < incoming.len(),
    ensures
        has_text(existing + new_rows(existing, incoming), incoming[i].text@),
    decreases incoming.len(),
{
    let rest = new_rows(existing, incoming.drop_last());
    let out = new_rows(existing, incoming);
    let text = incoming[i].text@;
    if i < incoming.len() - 1 {
        law_merge_loses_no_text(existing, incoming.drop_last(), i);
        assert(incoming.drop_last()[i] == incoming[i]);
        let k = choose|k: int|
            0 <= k < (existing + rest).len() && (#[trigger] (existing + rest)[k]).text@ == text;
        assert((existing + out)[k] == (existing + rest)[k]);
    } else if has_text(existing, text) {
        let k = choose|k: int| 0 <= k < existing.len() && (#[trigger] existing[k]).text@ == text;
        assert((existing + out)[k] == existing[k]);
    } else if has_text(rest, text) {
        let k = choose|k: int| 0 <= k < rest.len() && (#[trigger] rest[k]).text@ == text;
        assert((existing + out)[existing.len() + k] == rest[k]);
    } else {
        assert((existing + out)[(existing.len() + rest.len()) as int] == incoming.last());
    }
}

proof fn lemma_completions_are_no_ask_ai(rows: Seq<Suggestion>)
    ensures
        forall|i: int|
            0 <= i < completions(rows).len() ==> (#[trigger] completions(rows)[i]).kind
                != SuggestionKind::AskAi,
    decreases rows.len(),
{
    if rows.len() > 0 {
        lemma_completions_are_no_ask_ai(rows.drop_last());
    }
}

proof fn lemma_completions_of_completions(rows: Seq<Suggestion>)
    requires
        forall|i: int| 0 <= i < rows.len() ==> (#[trigger] rows[i]).kind != SuggestionKind::AskAi,
    ensures
        completions(rows) == rows,
    decreases rows.len(),
{
    if rows.len() > 0 {
        let front = rows.drop_last();
        assert forall|i: int| 0 <= i < front.len() implies (#[trigger] front[i]).kind
            != SuggestionKind::AskAi by {
            assert(front[i] == rows[i]);
        }
        lemma_completions_of_completions(front);
        assert(rows.last() == rows[rows.len() - 1]);
        assert(front.push(rows.last()) =~= rows);
    } else {
        assert(completions(rows) =~= rows);
    }
}

proof fn lemma_completions_behind_sentinel(out: Seq<Suggestion>)
    requires
        out.len() > 0,
        out[0].kind == SuggestionKind::AskAi,
    ensures
        completions(out) == completions(out.skip(1)),
    decreases out.len(),
{
    if out.len() == 1 {
        assert(out.skip(1) =~= Seq::<Suggestion>::empty());
        assert(out.drop_last() =~= Seq::<Suggestion>::empty());
    } else {
        lemma_completions_behind_sentinel(out.drop_last());
        assert(out.drop_last().skip(1) =~= out.skip(1).drop_last());
        assert(out.skip(1).last() == out.last());
    }
}

/// After pinning, the pinned row is the first and the only one of its kind where it is
/// active, and there is none where it is not.
pub proof fn law_pinned_row_is_first_and_only(
    pool: Seq<Suggestion>,
    active: bool,
    out: Seq<Suggestion>,
    i: int,
)
    requires
        is_pinned(pool, active, out),
        0 <= i < out.len(),
    ensures
        out[i].kind == SuggestionKind::AskAi <==> active && i == 0,
{
    lemma_completions_are_no_ask_ai(pool);
    if active && i > 0 {
        assert(out.skip(1)[i - 1] == out[i]);
    }
}

/// Pinning keeps every completion, in order: whatever was pinned before, the completions
/// are those of the pool.
pub proof fn law_pinning_keeps_completions(
    pool: Seq<Suggestion>,
    active: bool,
    out: Seq<Suggestion>,
)
    requires
        is_pinned(pool, active, out),
    ensures
        completions(out) == completions(pool),
{
    lemma_completions_are_no_ask_ai(pool);
    lemma_completions_of_completions(completions(pool));
    if active {
        lemma_completions_behind_sentinel(out);
    }
}

proof fn lemma_new_rows_are_incoming(existing: Seq<Suggestion>, incoming: Seq<Suggestion>, k: int)
    requires
        0 <= k < new_rows(existing, incoming).len(),
    ensures
        incoming.contains(new_rows(existing, incoming)[k]),
    decreases incoming.len(),
{
    let front = incoming.drop_last();
    let rest = new_rows(existing, front);
    let out = new_rows(existing, incoming);
    if k < rest.len() {
        lemma_new_rows_are_incoming(existing, front, k);
        assert(out[k] == rest[k]);
        let i = choose|i: int| 0 <= i < front.len() && front[i] == rest[k];
        assert(incoming[i] == out[k]);
    } else {
        assert(incoming[incoming.len() - 1] == out[k]);
    }
}

/// A row that comes in is added behind those before it, unless its text stands in an
/// existing row or came in before: then the earlier row stays, and this one goes.
pub proof fn law_first_row_of_a_text_is_kept(
    existing: Seq<Suggestion>,
    incoming: Seq<Suggestion>,
    row: Suggestion,
)
    ensures
        ({
            let known = has_text(existing, row.text@) || has_text(incoming, row.text@);
            &&& known ==> new_rows(existing, incoming.push(row)) == new_rows(existing, incoming)
            &&& !known ==> new_rows(existing, incoming.push(row)) == new_rows(
                existing,
                incoming,
            ).push(row)
            &&& new_rows(existing, Seq::empty()) == Seq::<Suggestion>::empty()
        }),
{
    assert(incoming.push(row).drop_last() =~= incoming);
    let rest = new_rows(existing, incoming);
    let text = row.text@;
    if has_text(rest, text) {
        let k = choose|k: int| 0 <= k < rest.len() && (#[trigger] rest[k]).text@ == text;
        lemma_new_rows_are_incoming(existing, incoming, k);
        let i = choose|i: int| 0 <= i < incoming.len() && incoming[i] == rest[k];
        assert(incoming[i].text@ == text);
    } else if has_text(incoming, text) {
        let i = choose|i: int| 0 <= i < incoming.len() && (#[trigger] incoming[i]).text@ == text;
        law_merge_loses_no_text(existing, incoming, i);
        let all = existing + rest;
        let k = choose|k: int| 0 <= k < all.len() && (#[trigger] all[k]).text@ == text;
        if k < existing.len() {
            assert(existing[k].text@ == text);
        } else {
            assert(rest[k - existing.len()].text@ == text);
        }
    }
}

/// The completions are all rows but those that ask the language model, in order.
pub proof fn law_all_other_rows_are_completions(rows: Seq<Suggestion>, row: Suggestion)
    ensures
        row.kind != SuggestionKind::AskAi ==> completions(rows.push(row)) == completions(rows).push(
            row,
        ),
        row.kind == SuggestionKind::AskAi ==> completions(rows.push(row)) == completions(rows),
        completions(Seq::empty()) == Seq::<Suggestion>::empty(),
{
    assert(rows.push(row).drop_last() =~= rows);
}

/// A pinned list holds the completions of its pool behind the one row in front, and
/// nothing else.
pub proof fn law_pinned_list_is_one_longer(
    pool: Seq<Suggestion>,
    active: bool,
    out: Seq<Suggestion>,
)
    requires
        is_pinned(pool, active, out),
    ensures
        active ==> out.len() == completions(pool).len() + 1 && out.skip(1) == completions(pool)
            && out[0].kind == SuggestionKind::AskAi && out[0].source == SuggestionSource::Llm
            && out[0].description is Some,
        !active ==> out == completions(pool),
{
}

/// The pinned row is told by its kind from every completion, shows its name, and says what
/// it does.
pub proof fn law_pinned_row_names_itself(row: Suggestion)
    requires
        is_sentinel(row),
    ensures
        row.text@ == seq!['A', 's', 'k', ' ', 'A', 'I'],
        row.kind == SuggestionKind::AskAi,
        row.source == SuggestionSource::Llm,
        row.id == 0,
        row.description matches Some(d) && row.text@.is_prefix_of(d@),
{
    reveal_strlit("Ask AI");
    reveal_strlit("Ask AI — answer with a command, then press Enter to run");
    assert(row.text@ =~= seq!['A', 's', 'k', ' ', 'A', 'I']);
    assert(row.description.unwrap()@.subrange(0, 6) =~= row.text@);
}

} // verus!
