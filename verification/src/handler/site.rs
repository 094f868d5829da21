//! The completion site that asynchronous providers were started for.

use vstd::prelude::*;

use crate::model::copy_strings;
use crate::model::CommandContext;
use crate::text::same_text;

verus! {

/// A completion site: which command, which arguments in front of the word, which flag the
/// word belongs to, and the position of the word. The word itself is no part of it:
/// providers treat it as a prefix to filter by.
#[verifier::ext_equal]
pub struct Site {
    pub command: Option<Seq<char>>,
    pub args: Seq<Seq<char>>,
    pub preceding_flag: Option<Seq<char>>,
    pub word_index: usize,
}

pub open spec fn opt_text(s: Option<String>) -> Option<Seq<char>> {
    match s {
        Some(t) => Some(t@),
        None => None,
    }
}

pub open spec fn texts(items: Seq<String>) -> Seq<Seq<char>> {
    Seq::new(items.len(), |i: int| items[i]@)
}

impl CommandContext {
    pub open spec fn site(&self) -> Site {
        Site {
            command: opt_text(self.command),
            args: texts(self.args@),
            preceding_flag: opt_text(self.preceding_flag),
            word_index: self.word_index,
        }
    }
}

/// Snapshot of the command context at provider-spawn time, so that a merge can decide
/// whether in-flight results still match the command line.
#[derive(Debug)]
pub struct DynamicCtxSnapshot {
    pub command: Option<String>,
    pub args: Vec<String>,
    pub preceding_flag: Option<String>,
    pub word_index: usize,
}

fn same_opt_text(a: &Option<String>, b: &Option<String>) -> (same: bool)
    ensures
        same == (opt_text(*a) == opt_text(*b)),
{
    match (a, b) {
        (Some(x), Some(y)) => same_text(x.as_str(), y.as_str()),
        (None, None) => true,
        _ => false,
    }
}

fn same_texts(a: &Vec<String>, b: &Vec<String>) -> (same: bool)
    ensures
        same == (texts(a@) == texts(b@)),
{
    if a.len() != b.len() {
        assert(texts(a@).len() != texts(b@).len());
        return false;
    }
    let mut i: usize = 0;
    while i < a.len()
        invariant
            i <= a@.len(),
            a@.len() == b@.len(),
            forall|j: int| 0 <= j < i ==> a@[j]@ == b@[j]@,
        decreases a.len() - i,
    {
        if !same_text(a[i].as_str(), b[i].as_str()) {
            assert(texts(a@)[i as int] != texts(b@)[i as int]);
            return false;
        }
        i = i + 1;
    }
    assert(texts(a@) =~= texts(b@));
    true
}

fn copy_opt(s: &Option<String>) -> (copy: Option<String>)
    ensures
        copy == *s,
{
    match s {
        Some(t) => Some(t.clone()),
        None => None,
    }
}

impl DynamicCtxSnapshot {
    pub open spec fn site(&self) -> Site {
        Site {
            command: opt_text(self.command),
            args: texts(self.args@),
            preceding_flag: opt_text(self.preceding_flag),
            word_index: self.word_index,
        }
    }

    pub fn capture(ctx: &CommandContext) -> (snapshot: Self)
        ensures
            snapshot.site() == ctx.site(),
    {
        DynamicCtxSnapshot {
            command: copy_opt(&ctx.command),
            args: copy_strings(&ctx.args),
            preceding_flag: copy_opt(&ctx.preceding_flag),
            word_index: ctx.word_index,
        }
    }

    /// Whether `current` is another completion site than the one this snapshot was taken
    /// at, so that in-flight results must not be merged.
    pub fn is_stale_against(&self, current: &CommandContext) -> (stale: bool)
        ensures
            stale == (self.site() != current.site()),
    {
        !(same_opt_text(&self.command, &current.command) && same_texts(&self.args, &current.args)
            && same_opt_text(&self.preceding_flag, &current.preceding_flag) && self.word_index
            == current.word_index)
    }
}

// ---- Laws ----

/// Typing more of the word at the cursor never makes results stale.
pub proof fn law_typing_in_word_stays_fresh(a: CommandContext, b: CommandContext)
    requires
        a.command == b.command,
        a.args == b.args,
        a.preceding_flag == b.preceding_flag,
        a.word_index == b.word_index,
    ensures
        a.site() == b.site(),
{
}

/// Two contexts have the same site exactly where they have the same command, the same
/// arguments in the same order, the same flag in front and the same position.
pub proof fn law_site_tells_contexts_apart(a: CommandContext, b: CommandContext)
    ensures
        a.site() == b.site() <==> {
            &&& a.word_index == b.word_index
            &&& a.command is Some == b.command is Some
            &&& a.command is Some ==> a.command->0@ == b.command->0@
            &&& a.preceding_flag is Some == b.preceding_flag is Some
            &&& a.preceding_flag is Some ==> a.preceding_flag->0@ == b.preceding_flag->0@
            &&& a.args@.len() == b.args@.len()
            &&& forall|i: int| 0 <= i < a.args@.len() ==> (#[trigger] a.args@[i])@ == b.args@[i]@
        },
{
    let x = texts(a.args@);
    let y = texts(b.args@);
    assert(x.len() == a.args@.len());
    assert(y.len() == b.args@.len());
    if x == y {
        assert forall|i: int| 0 <= i < a.args@.len() implies (#[trigger] a.args@[i])@
            == b.args@[i]@ by {
            assert(x[i] == a.args@[i]@);
            assert(y[i] == b.args@[i]@);
        }
    }
    if a.args@.len() == b.args@.len() && forall|i: int|
        0 <= i < a.args@.len() ==> (#[trigger] a.args@[i])@ == b.args@[i]@ {
        assert(x =~= y);
    }
}

} // verus!
