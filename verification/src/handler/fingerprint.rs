//! A fingerprint of what a trigger was computed from.

use std::collections::hash_map::DefaultHasher;
use std::hash::Hasher;

use vstd::prelude::*;
use vstd::relations::sorted_by;
use vstd::relations::total_ordering;
use vstd::seq_lib::lemma_sorted_unique;
use vstd::seq_lib::to_multiset_build;
use vstd::std_specs::hash::DefaultHasherAdditionalSpecFns;
use vstd::string::StringSliceAdditionalSpecFns;
use vstd::utf8::encode_utf8;

use crate::order::lemma_insert_multiset;
use crate::order::lemma_text_leq_antisymmetric;
use crate::order::lemma_text_leq_reflexive;
use crate::order::lemma_text_leq_total;
use crate::order::lemma_text_leq_transitive;
use crate::order::text_before;
use crate::order::text_leq;
use crate::text::same_text;

verus! {

/// Hash of the command line, cursor, hash of the shell environment.
pub type TriggerFingerprint = (u64, usize, u64);

/// The bytes that hashing a string writes: its UTF-8 bytes and a byte that ends them.
pub open spec fn text_writes(s: Seq<char>) -> Seq<Seq<u8>> {
    seq![encode_utf8(s), seq![0xFFu8]]
}

/// The order of environment entries: by name, then by value.
pub open spec fn entry_leq(a: (Seq<char>, Seq<char>), b: (Seq<char>, Seq<char>)) -> bool {
    if a.0 == b.0 {
        text_leq(a.1, b.1)
    } else {
        text_leq(a.0, b.0)
    }
}

pub open spec fn entry_order() -> spec_fn((Seq<char>, Seq<char>), (Seq<char>, Seq<char>)) -> bool {
    |a: (Seq<char>, Seq<char>), b: (Seq<char>, Seq<char>)| entry_leq(a, b)
}

/// The names and values of environment entries.
pub open spec fn entry_views(env: Seq<(String, String)>) -> Seq<(Seq<char>, Seq<char>)> {
    Seq::new(env.len(), |i: int| (env[i].0@, env[i].1@))
}

/// The bytes that hashing a row of entries writes.
pub open spec fn entry_writes(entries: Seq<(Seq<char>, Seq<char>)>) -> Seq<Seq<u8>>
    decreases entries.len(),
{
    if entries.len() == 0 {
        Seq::empty()
    } else {
        entry_writes(entries.drop_last()) + text_writes(entries.last().0) + text_writes(
            entries.last().1,
        )
    }
}

/// The hash of an environment: of its entries in sorted order, so that it does not depend
/// on the order they come in.
pub open spec fn env_hash(entries: Seq<(Seq<char>, Seq<char>)>) -> u64 {
    DefaultHasher::spec_finish(entry_writes(entries.sort_by(entry_order())))
}

pub open spec fn fingerprint_of(
    buffer: Seq<char>,
    cursor: usize,
    env: Option<Seq<(Seq<char>, Seq<char>)>>,
) -> TriggerFingerprint {
    (
        DefaultHasher::spec_finish(text_writes(buffer)),
        cursor,
        match env {
            Some(entries) => env_hash(entries),
            None => u64::MAX,
        },
    )
}

proof fn lemma_entry_order()
    ensures
        total_ordering(entry_order()),
{
    let r = entry_order();
    assert forall|x: (Seq<char>, Seq<char>)| #[trigger] r(x, x) by {
        lemma_text_leq_reflexive(x.1);
    }
    assert forall|x: (Seq<char>, Seq<char>), y: (Seq<char>, Seq<char>)| #[trigger]
        r(x, y) && #[trigger] r(y, x) implies x == y by {
        if x.0 == y.0 {
            lemma_text_leq_antisymmetric(x.1, y.1);
        } else {
            lemma_text_leq_antisymmetric(x.0, y.0);
        }
    }
    assert forall|x: (Seq<char>, Seq<char>), y: (Seq<char>, Seq<char>), z: (Seq<char>, Seq<char>)|
     #[trigger] r(x, y) && #[trigger] r(y, z) implies r(x, z) by {
        if x.0 == y.0 && y.0 == z.0 {
            lemma_text_leq_transitive(x.1, y.1, z.1);
        } else {
            lemma_text_leq_reflexive(x.0);
            lemma_text_leq_reflexive(y.0);
            lemma_text_leq_transitive(x.0, y.0, z.0);
            if x.0 == z.0 {
                lemma_text_leq_antisymmetric(x.0, y.0);
            }
        }
    }
    assert forall|x: (Seq<char>, Seq<char>), y: (Seq<char>, Seq<char>)| #[trigger]
        r(x, y) || #[trigger] r(y, x) by {
        lemma_text_leq_total(x.0, y.0);
        lemma_text_leq_total(x.1, y.1);
    }
}

fn entry_before(a: &(String, String), b: &(String, String)) -> (leq: bool)
    ensures
        leq == entry_leq((a.0@, a.1@), (b.0@, b.1@)),
{
    if same_text(a.0.as_str(), b.0.as_str()) {
        text_before(a.1.as_str(), b.1.as_str())
    } else {
        text_before(a.0.as_str(), b.0.as_str())
    }
}

/// The entries in sorted order.
fn sorted_entries(env: &Vec<(String, String)>) -> (sorted: Vec<(String, String)>)
    ensures
        entry_views(sorted@) == entry_views(env@).sort_by(entry_order()),
{
    let ghost all = entry_views(env@);
    let ghost order = entry_order();
    proof {
        lemma_entry_order();
    }
    let mut sorted: Vec<(String, String)> = Vec::new();
    let mut i: usize = 0;
    assert(entry_views(sorted@) =~= all.take(0));
    while i < env.len()
        invariant
            i <= env@.len(),
            all == entry_views(env@),
            order == entry_order(),
            total_ordering(order),
            sorted_by(entry_views(sorted@), order),
            entry_views(sorted@).to_multiset() == all.take(i as int).to_multiset(),
            sorted@.len() == i,
        decreases env.len() - i,
    {
        let entry = &env[i];
        let ghost e = all[i as int];
        let mut at: usize = sorted.len();
        while at > 0 && !entry_before(&sorted[at - 1], entry)
            invariant
                at <= sorted@.len(),
                order == entry_order(),
                total_ordering(order),
                e == (entry.0@, entry.1@),
                forall|j: int|
                    at <= j < sorted@.len() ==> order(e, #[trigger] entry_views(sorted@)[j]),
            decreases at,
        {
            proof {
                let d = entry_views(sorted@)[at - 1];
                assert(d == (sorted@[at - 1].0@, sorted@[at - 1].1@));
                assert(order(d, e) || order(e, d));
            }
            at = at - 1;
        }
        let ghost before = entry_views(sorted@);
        sorted.insert(at, (entry.0.clone(), entry.1.clone()));
        proof {
            let now = entry_views(sorted@);
            assert(now =~= before.insert(at as int, e));
            if at > 0 {
                assert(order(before[at - 1], e));
            }
            assert forall|j: int, k: int| 0 <= j < k < now.len() implies #[trigger] order(
                now[j],
                now[k],
            ) by {
                if k < at {
                    assert(order(before[j], before[k]));
                } else if k == at {
                    if j < at - 1 {
                        assert(order(before[j], before[at - 1]));
                    }
                } else if j < at {
                    assert(order(before[j], before[k - 1]));
                } else if j == at {
                    assert(order(e, before[k - 1]));
                } else {
                    assert(order(before[j - 1], before[k - 1]));
                }
            }
            lemma_insert_multiset(before, at as int, e);
            assert(all.take(i + 1) =~= all.take(i as int).push(e));
            to_multiset_build(all.take(i as int), e);
        }
        i = i + 1;
    }
    proof {
        assert(all.take(i as int) =~= all);
        all.lemma_sort_by_ensures(order);
        lemma_sorted_unique(entry_views(sorted@), all.sort_by(order), order);
    }
    sorted
}

fn write_text(hasher: &mut DefaultHasher, s: &str)
    ensures
        final(hasher)@ == old(hasher)@ + text_writes(s@),
{
    let ghost before = hasher@;
    hasher.write(s.as_bytes());
    let end: Vec<u8> = vec![0xFF];
    hasher.write(end.as_slice());
    assert(end@ =~= seq![0xFFu8]);
    assert(hasher@ =~= before + text_writes(s@));
}

/// Computes a lightweight fingerprint of the command line for the guard against repeated
/// triggers.
///
/// A false collision would at worst miss one re-render, which the next edit fixes.
pub fn buffer_fingerprint(
    buffer: &str,
    cursor: usize,
    shell_env: Option<&Vec<(String, String)>>,
) -> (fingerprint: TriggerFingerprint)
    ensures
        fingerprint == fingerprint_of(
            buffer@,
            cursor,
            match shell_env {
                Some(env) => Some(entry_views(env@)),
                None => None,
            },
        ),
{
    let mut hasher = DefaultHasher::new();
    write_text(&mut hasher, buffer);
    assert(hasher@ =~= text_writes(buffer@));
    let env_part: u64 = match shell_env {
        Some(env) => {
            let sorted = sorted_entries(env);
            let ghost entries = entry_views(sorted@);
            let mut h = DefaultHasher::new();
            let mut i: usize = 0;
            assert(h@ =~= entry_writes(entries.take(0)));
            while i < sorted.len()
                invariant
                    i <= sorted@.len(),
                    entries == entry_views(sorted@),
                    h@ == entry_writes(entries.take(i as int)),
                decreases sorted.len() - i,
            {
                write_text(&mut h, sorted[i].0.as_str());
                write_text(&mut h, sorted[i].1.as_str());
                i = i + 1;
                assert(entries.take(i as int).drop_last() =~= entries.take(i - 1));
            }
            assert(entries.take(i as int) =~= entries);
            h.finish()
        },
        None => u64::MAX,
    };
    (hasher.finish(), cursor, env_part)
}

// ---- Laws ----

/// The fingerprint does not depend on the order in which the environment is listed.
pub proof fn law_fingerprint_ignores_env_order(
    buffer: Seq<char>,
    cursor: usize,
    a: Seq<(Seq<char>, Seq<char>)>,
    b: Seq<(Seq<char>, Seq<char>)>,
)
    requires
        a.to_multiset() == b.to_multiset(),
    ensures
        fingerprint_of(buffer, cursor, Some(a)) == fingerprint_of(buffer, cursor, Some(b)),
{
    lemma_entry_order();
    a.lemma_sort_by_ensures(entry_order());
    b.lemma_sort_by_ensures(entry_order());
    lemma_sorted_unique(a.sort_by(entry_order()), b.sort_by(entry_order()), entry_order());
}

/// Another cursor position gives another fingerprint.
pub proof fn law_fingerprint_tells_cursors_apart(
    buffer: Seq<char>,
    a: usize,
    b: usize,
    env: Option<Seq<(Seq<char>, Seq<char>)>>,
)
    ensures
        fingerprint_of(buffer, a, env) == fingerprint_of(buffer, b, env) <==> a == b,
{
}

/// The fingerprint is made of the whole line, the cursor, and every name and value of the
/// environment, each text ended so that it cannot be taken for part of another.
pub proof fn law_fingerprint_covers_line_and_env(
    buffer: Seq<char>,
    cursor: usize,
    name: Seq<char>,
    value: Seq<char>,
)
    ensures
        fingerprint_of(buffer, cursor, None).0 == DefaultHasher::spec_finish(
            seq![encode_utf8(buffer), seq![0xFFu8]],
        ),
        fingerprint_of(buffer, cursor, None).1 == cursor,
        fingerprint_of(buffer, cursor, None).2 == u64::MAX,
        fingerprint_of(buffer, cursor, Some(seq![(name, value)])) == (
            fingerprint_of(buffer, cursor, None).0,
            cursor,
            DefaultHasher::spec_finish(
                seq![encode_utf8(name), seq![0xFFu8], encode_utf8(value), seq![0xFFu8]],
            ),
        ),
{
    let env = seq![(name, value)];
    lemma_entry_order();
    env.lemma_sort_by_ensures(entry_order());
    assert(sorted_by(env, entry_order()));
    lemma_sorted_unique(env, env.sort_by(entry_order()), entry_order());
    assert(env.drop_last() =~= Seq::<(Seq<char>, Seq<char>)>::empty());
    assert(entry_writes(env.drop_last()) =~= Seq::<Seq<u8>>::empty());
    assert(entry_writes(env) =~= seq![
        encode_utf8(name),
        seq![0xFFu8],
        encode_utf8(value),
        seq![0xFFu8],
    ]);
}

/// One more entry adds the texts of its name and its value to what is hashed.
pub proof fn law_every_entry_is_hashed(
    entries: Seq<(Seq<char>, Seq<char>)>,
    name: Seq<char>,
    value: Seq<char>,
)
    ensures
        entry_writes(entries.push((name, value))) == entry_writes(entries) + seq![
            encode_utf8(name),
            seq![0xFFu8],
            encode_utf8(value),
            seq![0xFFu8],
        ],
{
    assert(entries.push((name, value)).drop_last() =~= entries);
    assert(entry_writes(entries.push((name, value))) =~= entry_writes(entries) + seq![
        encode_utf8(name),
        seq![0xFFu8],
        encode_utf8(value),
        seq![0xFFu8],
    ]);
}

} // verus!
