//! The order of suggestions where nothing has been typed yet.

use vstd::prelude::*;

use crate::model::Suggestion;
use crate::order::lemma_text_leq_reflexive;
use crate::order::lemma_text_leq_total;
use crate::order::lemma_text_leq_transitive;
use crate::order::text_before;
use crate::order::text_leq;

verus! {

/// What the position of a suggestion depends on, beside its text.
#[derive(Debug, Clone, Copy, PartialEq, Eq, Structural)]
pub struct RankKey {
    /// Position of its source among the sources; low ones come first.
    pub source: i64,
    /// High ones come first.
    pub priority: i64,
}

/// By source, then by priority, then by text.
pub open spec fn rank_leq(a: RankKey, x: Seq<char>, b: RankKey, y: Seq<char>) -> bool {
    a.source < b.source || (a.source == b.source && (a.priority > b.priority || (a.priority
        == b.priority && text_leq(x, y))))
}

/// Row `i` comes before row `j`. Rows that rank the same keep their order.
pub open spec fn precedes(rows: Seq<Suggestion>, keys: Seq<RankKey>, i: int, j: int) -> bool {
    &&& rank_leq(keys[i], rows[i].text@, keys[j], rows[j].text@)
    &&& i < j || !rank_leq(keys[j], rows[j].text@, keys[i], rows[i].text@)
}

/// `order` holds each of `0..n` once.
pub open spec fn is_permutation(order: Seq<int>, n: int) -> bool {
    &&& order.len() == n
    &&& forall|k: int| 0 <= k < order.len() ==> 0 <= #[trigger] order[k] < n
    &&& order.no_duplicates()
    &&& forall|x: int| 0 <= x < n ==> #[trigger] order.contains(x)
}

/// `order` lists the rows as they rank.
pub open spec fn is_rank_order(
    rows: Seq<Suggestion>,
    keys: Seq<RankKey>,
    order: Seq<int>,
) -> bool {
    &&& is_permutation(order, rows.len() as int)
    &&& forall|j: int, k: int|
        0 <= j < k < order.len() ==> #[trigger] precedes(rows, keys, order[j], order[k])
}

/// `out` holds the rows as they rank.
pub open spec fn is_ranked(
    rows: Seq<Suggestion>,
    keys: Seq<RankKey>,
    out: Seq<Suggestion>,
) -> bool {
    exists|order: Seq<int>| #[trigger]
        is_rank_order(rows, keys, order) && out == Seq::new(
            order.len(),
            |k: int| rows[order[k]],
        )
}

pub open spec fn as_ints(order: Seq<usize>) -> Seq<int> {
    Seq::new(order.len(), |k: int| order[k] as int)
}

proof fn lemma_rank_total(a: RankKey, x: Seq<char>, b: RankKey, y: Seq<char>)
    ensures
        rank_leq(a, x, b, y) || rank_leq(b, y, a, x),
{
    lemma_text_leq_total(x, y);
}

proof fn lemma_rank_transitive(
    a: RankKey,
    x: Seq<char>,
    b: RankKey,
    y: Seq<char>,
    c: RankKey,
    z: Seq<char>,
)
    requires
        rank_leq(a, x, b, y),
        rank_leq(b, y, c, z),
    ensures
        rank_leq(a, x, c, z),
{
    if a == b && b == c {
        lemma_text_leq_transitive(x, y, z);
    }
}

/// What comes before comes before.
proof fn lemma_precedes_transitive(
    rows: Seq<Suggestion>,
    keys: Seq<RankKey>,
    i: int,
    j: int,
    k: int,
)
    requires
        precedes(rows, keys, i, j),
        precedes(rows, keys, j, k),
    ensures
        precedes(rows, keys, i, k),
{
    lemma_rank_transitive(keys[i], rows[i].text@, keys[j], rows[j].text@, keys[k], rows[k].text@);
    if rank_leq(keys[k], rows[k].text@, keys[i], rows[i].text@) {
        lemma_rank_transitive(
            keys[k],
            rows[k].text@,
            keys[i],
            rows[i].text@,
            keys[j],
            rows[j].text@,
        );
        lemma_rank_transitive(
            keys[j],
            rows[j].text@,
            keys[k],
            rows[k].text@,
            keys[i],
            rows[i].text@,
        );
    }
}

fn ranks_before(rows: &Vec<Suggestion>, keys: &Vec<RankKey>, i: usize, j: usize) -> (before: bool)
    requires
        i < rows@.len(),
        j < rows@.len(),
        keys@.len() == rows@.len(),
    ensures
        before == rank_leq(
            keys@[i as int],
            rows@[i as int].text@,
            keys@[j as int],
            rows@[j as int].text@,
        ),
{
    let a = keys[i];
    let b = keys[j];
    if a.source != b.source {
        a.source < b.source
    } else if a.priority != b.priority {
        a.priority > b.priority
    } else {
        text_before(rows[i].text.as_str(), rows[j].text.as_str())
    }
}

proof fn lemma_insert_keeps_permutation(order: Seq<int>, at: int, n: int)
    requires
        0 <= at <= order.len(),
        is_permutation(order, n),
    ensures
        is_permutation(order.insert(at, n), n + 1),
{
    let now = order.insert(at, n);
    assert forall|k: int| 0 <= k < now.len() implies 0 <= #[trigger] now[k] < n + 1 by {
        if k < at {
            assert(now[k] == order[k]);
        } else if k > at {
            assert(now[k] == order[k - 1]);
        }
    }
    assert forall|x: int| 0 <= x < n + 1 implies #[trigger] now.contains(x) by {
        if x == n {
            assert(now[at] == x);
        } else {
            assert(order.contains(x));
            let k = choose|k: int| 0 <= k < order.len() && order[k] == x;
            if k < at {
                assert(now[k] == x);
            } else {
                assert(now[k + 1] == x);
            }
        }
    }
    assert forall|j: int, k: int| 0 <= j < k < now.len() implies now[j] != now[k] by {
        let a = if j < at {
            j
        } else {
            j - 1
        };
        let b = if k < at {
            k
        } else {
            k - 1
        };
        if j != at && k != at {
            assert(order[a] != order[b]);
        } else if j == at {
            assert(order[b] < n);
        } else {
            assert(order[a] < n);
        }
    }
}

/// The positions of the rows as they rank.
fn rank_order(rows: &Vec<Suggestion>, keys: &Vec<RankKey>) -> (order: Vec<usize>)
    requires
        keys@.len() == rows@.len(),
    ensures
        is_rank_order(rows@, keys@, as_ints(order@)),
{
    let mut order: Vec<usize> = Vec::new();
    let mut i: usize = 0;
    while i < rows.len()
        invariant
            i <= rows@.len(),
            keys@.len() == rows@.len(),
            is_permutation(as_ints(order@), i as int),
            forall|j: int, k: int|
                0 <= j < k < order@.len() ==> #[trigger] precedes(
                    rows@,
                    keys@,
                    as_ints(order@)[j],
                    as_ints(order@)[k],
                ),
        decreases rows.len() - i,
    {
        let ghost before = as_ints(order@);
        assert forall|j: int| 0 <= j < order@.len() implies #[trigger] order@[j] < i by {
            assert(before[j] < i);
        }
        let mut at: usize = order.len();
        while at > 0 && !ranks_before(rows, keys, order[at - 1], i)
            invariant
                at <= order@.len(),
                i < rows@.len(),
                keys@.len() == rows@.len(),
                before == as_ints(order@),
                is_permutation(before, i as int),
                forall|j: int| 0 <= j < order@.len() ==> #[trigger] order@[j] < i,
                forall|j: int|
                    at <= j < order@.len() ==> precedes(rows@, keys@, i as int, #[trigger] before[j]),
            decreases at,
        {
            proof {
                let d = before[at - 1];
                assert(d == order@[at - 1]);
                lemma_rank_total(
                    keys@[d],
                    rows@[d].text@,
                    keys@[i as int],
                    rows@[i as int].text@,
                );
            }
            at = at - 1;
        }
        proof {
            if at > 0 {
                assert(before[at - 1] == order@[at - 1]);
            }
        }
        order.insert(at, i);
        proof {
            let now = as_ints(order@);
            assert(now =~= before.insert(at as int, i as int));
            lemma_insert_keeps_permutation(before, at as int, i as int);
            if at > 0 {
                assert(precedes(rows@, keys@, before[at - 1], i as int));
            }
            assert forall|j: int, k: int| 0 <= j < k < now.len() implies #[trigger] precedes(
                rows@,
                keys@,
                now[j],
                now[k],
            ) by {
                if k < at {
                    assert(precedes(rows@, keys@, before[j], before[k]));
                } else if k == at {
                    if j < at - 1 {
                        assert(precedes(rows@, keys@, before[j], before[at - 1]));
                        lemma_precedes_transitive(
                            rows@,
                            keys@,
                            before[j],
                            before[at - 1],
                            i as int,
                        );
                    }
                } else if j < at {
                    assert(precedes(rows@, keys@, before[j], before[k - 1]));
                } else if j == at {
                    assert(precedes(rows@, keys@, i as int, before[k - 1]));
                } else {
                    assert(precedes(rows@, keys@, before[j - 1], before[k - 1]));
                }
            }
        }
        i = i + 1;
    }
    order
}

/// The rows as they rank where nothing has been typed. None is dropped: a later query may
/// still want it.
pub fn rank_rows(rows: &Vec<Suggestion>, keys: &Vec<RankKey>) -> (out: Vec<Suggestion>)
    requires
        keys@.len() == rows@.len(),
    ensures
        is_ranked(rows@, keys@, out@),
        out@.len() == rows@.len(),
{
    let order = rank_order(rows, keys);
    let ghost ints = as_ints(order@);
    let mut out: Vec<Suggestion> = Vec::new();
    let mut k: usize = 0;
    while k < order.len()
        invariant
            k <= order@.len(),
            ints == as_ints(order@),
            is_rank_order(rows@, keys@, ints),
            out@.len() == k,
            forall|j: int| 0 <= j < k ==> #[trigger] out@[j] == rows@[ints[j]],
        decreases order.len() - k,
    {
        assert(ints[k as int] == order@[k as int]);
        out.push(rows[order[k]].clone());
        k = k + 1;
    }
    assert(out@ =~= Seq::new(ints.len(), |j: int| rows@[ints[j]]));
    out
}

// ---- Laws ----

/// Ranking loses no row.
pub proof fn law_ranking_keeps_rows(
    rows: Seq<Suggestion>,
    keys: Seq<RankKey>,
    out: Seq<Suggestion>,
    i: int,
)
    requires
        is_ranked(rows, keys, out),
        0 <= i < rows.len(),
    ensures
        out.len() == rows.len(),
        out.contains(rows[i]),
{
    let order = choose|order: Seq<int>| #[trigger]
        is_rank_order(rows, keys, order) && out == Seq::new(
            order.len(),
            |k: int| rows[order[k]],
        );
    assert(order.contains(i));
    let k = choose|k: int| 0 <= k < order.len() && order[k] == i;
    assert(out[k] == rows[i]);
}

/// Of two rows of a ranked list, the first has a source in front, or the same source and a
/// higher priority, or the same of both and a text in front or the same.
pub proof fn law_ranked_rows_are_in_order(
    rows: Seq<Suggestion>,
    keys: Seq<RankKey>,
    order: Seq<int>,
    j: int,
    k: int,
)
    requires
        is_rank_order(rows, keys, order),
        0 <= j < k < order.len(),
    ensures
        ({
            let a = keys[order[j]];
            let b = keys[order[k]];
            &&& a.source <= b.source
            &&& a.source == b.source ==> a.priority >= b.priority
            &&& a == b ==> text_leq(rows[order[j]].text@, rows[order[k]].text@)
        }),
{
    assert(precedes(rows, keys, order[j], order[k]));
}

/// There is only one order in which rows rank.
pub proof fn law_rank_order_is_unique(
    rows: Seq<Suggestion>,
    keys: Seq<RankKey>,
    a: Seq<int>,
    b: Seq<int>,
)
    requires
        is_rank_order(rows, keys, a),
        is_rank_order(rows, keys, b),
    ensures
        a == b,
{
    lemma_same_front(rows, keys, a, b, a.len() as int);
    assert(a =~= b);
}

proof fn lemma_same_front(
    rows: Seq<Suggestion>,
    keys: Seq<RankKey>,
    a: Seq<int>,
    b: Seq<int>,
    n: int,
)
    requires
        is_rank_order(rows, keys, a),
        is_rank_order(rows, keys, b),
        0 <= n <= a.len(),
    ensures
        forall|k: int| 0 <= k < n ==> a[k] == b[k],
    decreases n,
{
    if n > 0 {
        lemma_same_front(rows, keys, a, b, n - 1);
        let x = a[n - 1];
        let y = b[n - 1];
        if x != y {
            assert(b.contains(x));
            let i = choose|i: int| 0 <= i < b.len() && b[i] == x;
            assert(a.contains(y));
            let j = choose|j: int| 0 <= j < a.len() && a[j] == y;
            if i < n - 1 {
                assert(a[i] == x);
                assert(a[i] != a[n - 1]);
            }
            if j < n - 1 {
                assert(b[j] == y);
                assert(b[j] != b[n - 1]);
            }
            assert(precedes(rows, keys, b[n - 1], b[i]));
            assert(precedes(rows, keys, a[n - 1], a[j]));
        }
    }
}

/// Rows that rank the same stay in the order in which they came.
pub proof fn law_equal_rows_keep_their_order(
    rows: Seq<Suggestion>,
    keys: Seq<RankKey>,
    order: Seq<int>,
    j: int,
    k: int,
)
    requires
        is_rank_order(rows, keys, order),
        0 <= j < k < order.len(),
        keys[order[j]] == keys[order[k]],
        rows[order[j]].text@ == rows[order[k]].text@,
    ensures
        order[j] < order[k],
{
    assert(precedes(rows, keys, order[j], order[k]));
    lemma_text_leq_reflexive(rows[order[j]].text@);
}

} // verus!
