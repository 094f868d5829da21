//! Rules for starting the shell and for reading the terminal it runs in.

use vstd::prelude::*;
use vstd::string::StringExecFns;

use crate::text::chars_of;
use crate::text::same_text;
use crate::text::string_of;

verus! {

/// The position behind the last slash in front of `n`.
pub open spec fn segment_start(path: Seq<char>, n: int) -> int
    decreases n,
{
    if n <= 0 {
        0
    } else if path[n - 1] == '/' {
        n
    } else {
        segment_start(path, n - 1)
    }
}

/// The last segment of a path, without the dash in front that marks a login shell.
pub open spec fn program_name(path: Seq<char>) -> Seq<char> {
    let last = path.skip(segment_start(path, path.len() as int));
    if last.len() > 0 && last[0] == '-' {
        last.skip(1)
    } else {
        last
    }
}

/// The name is "fish", or starts with it and a dash.
pub open spec fn is_fish_name(name: Seq<char>) -> bool {
    name == "fish"@ || (name.len() >= 5 && name.take(5) == "fish-"@)
}

/// Whether a shell is fish, by the path of its program or the name it was called by.
pub fn is_fish(shell: &str) -> (fish: bool)
    ensures
        fish == is_fish_name(program_name(shell@)),
{
    let chars = chars_of(shell);
    let mut start: usize = chars.len();
    while start > 0 && chars[start - 1] != '/'
        invariant
            start <= chars@.len(),
            chars@ == shell@,
            segment_start(shell@, start as int) == segment_start(shell@, shell@.len() as int),
        decreases start,
    {
        start = start - 1;
    }
    let ghost last = shell@.skip(start as int);
    assert(segment_start(shell@, shell@.len() as int) == start);
    if start < chars.len() && chars[start] == '-' {
        assert(last[0] == '-');
        start = start + 1;
        assert(last.skip(1) =~= shell@.skip(start as int));
    } else {
        assert(last.len() > 0 ==> last[0] == shell@[start as int]);
    }
    let name = string_of(&chars, start, chars.len());
    assert(name@ =~= program_name(shell@));
    if same_text(name.as_str(), "fish") {
        return true;
    }
    if chars.len() - start < 5 {
        return false;
    }
    let front = string_of(&chars, start, start + 5);
    assert(front@ =~= name@.take(5));
    same_text(front.as_str(), "fish-")
}

/// A list of libraries, separated by colons, with one more at the end.
pub open spec fn library_list(existing: Seq<char>, library: Seq<char>) -> Seq<char> {
    if existing.len() == 0 {
        library
    } else {
        existing.push(':') + library
    }
}

/// A list of libraries with one more at the end.
pub fn inserted_libraries(existing: &str, library: &str) -> (list: String)
    ensures
        list@ == library_list(existing@, library@),
{
    if existing.is_empty() {
        return String::from_str(library);
    }
    let mut list = String::from_str(existing);
    list.push(':');
    list.append(library);
    list
}

/// How long the reader waits where the terminal's process group is gone.
pub const READER_RETRY_MS: u64 = 10;

/// The reader is not in the foreground process group, and there is one.
pub open spec fn is_in_background(foreground: int, own: int) -> bool {
    foreground != own && foreground > 0
}

/// Whether the reader has to join the foreground process group to be let read.
pub fn reader_joins(foreground: i32, own: i32) -> (joins: bool)
    ensures
        joins == is_in_background(foreground as int, own as int),
{
    foreground != own && foreground > 0
}

/// What reading the terminal has given.
#[derive(Debug, Clone, Copy, PartialEq, Eq, Structural)]
pub enum ReadOutcome {
    Bytes(usize),
    Interrupted,
    /// The process group is orphaned, or the terminal is dead.
    IoError,
    Failed,
}

/// What the reader does next.
#[derive(Debug, Clone, Copy, PartialEq, Eq, Structural)]
pub enum ReaderStep {
    Forward(usize),
    Retry,
    RetryAfter(u64),
    Exit,
}

/// What the reader does with what it has read.
pub open spec fn step_of_read(outcome: ReadOutcome) -> ReaderStep {
    match outcome {
        ReadOutcome::Bytes(n) => if n > 0 {
            ReaderStep::Forward(n)
        } else {
            ReaderStep::Exit
        },
        ReadOutcome::Interrupted => ReaderStep::Retry,
        ReadOutcome::IoError => ReaderStep::RetryAfter(READER_RETRY_MS),
        ReadOutcome::Failed => ReaderStep::Exit,
    }
}

/// What the reader does with what it has read. The end of input ends it.
pub fn reader_step(outcome: ReadOutcome) -> (step: ReaderStep)
    ensures
        step == step_of_read(outcome),
{
    match outcome {
        ReadOutcome::Bytes(n) => if n > 0 {
            ReaderStep::Forward(n)
        } else {
            ReaderStep::Exit
        },
        ReadOutcome::Interrupted => ReaderStep::Retry,
        ReadOutcome::IoError => ReaderStep::RetryAfter(READER_RETRY_MS),
        ReadOutcome::Failed => ReaderStep::Exit,
    }
}

// ---- Laws ----

proof fn lemma_segment_start(path: Seq<char>, from: int, n: int)
    requires
        0 <= from <= n <= path.len(),
        from > 0 ==> path[from - 1] == '/',
        forall|i: int| from <= i < n ==> #[trigger] path[i] != '/',
    ensures
        segment_start(path, n) == from,
    decreases n,
{
    if from < n {
        lemma_segment_start(path, from, n - 1);
    }
}

/// The program is named by the last segment of its path, whatever directory it lies in, and
/// as a login shell by the same name behind a dash.
pub proof fn law_program_is_named_by_last_segment(dir: Seq<char>, name: Seq<char>)
    requires
        !name.contains('/'),
        name.len() == 0 || name[0] != '-',
    ensures
        program_name(name) == name,
        program_name(seq!['-'] + name) == name,
        program_name(dir.push('/') + name) == name,
        program_name(dir.push('/') + (seq!['-'] + name)) == name,
{
    let bare = Seq::<char>::empty();
    lemma_program_name(bare, name, false);
    lemma_program_name(bare, name, true);
    lemma_program_name(dir.push('/'), name, false);
    lemma_program_name(dir.push('/'), name, true);
    assert(bare + name =~= name);
    assert(bare + (seq!['-'] + name) =~= seq!['-'] + name);
}

proof fn lemma_program_name(front: Seq<char>, name: Seq<char>, login: bool)
    requires
        front.len() > 0 ==> front.last() == '/',
        !name.contains('/'),
        name.len() == 0 || name[0] != '-',
    ensures
        program_name(
            front + (if login {
                seq!['-'] + name
            } else {
                name
            }),
        ) == name,
{
    let last = if login {
        seq!['-'] + name
    } else {
        name
    };
    let path = front + last;
    let f = front.len() as int;
    assert forall|i: int| f <= i < path.len() implies #[trigger] path[i] != '/' by {
        assert(path[i] == last[i - f]);
        if login && i > f {
            assert(name.contains(name[i - f - 1]));
        } else if !login {
            assert(name.contains(name[i - f]));
        }
    }
    if f > 0 {
        assert(path[f - 1] == front.last());
    }
    lemma_segment_start(path, f, path.len() as int);
    assert(path.skip(f) =~= last);
    if login {
        assert(last.skip(1) =~= name);
    }
}

/// Fish is known in every directory, as a login shell, and with a version behind a dash;
/// a name that only starts like it is another shell's.
pub proof fn law_fish_is_known_everywhere(dir: Seq<char>, rest: Seq<char>)
    requires
        !rest.contains('/'),
    ensures
        ({
            let fish = seq!['f', 'i', 's', 'h'];
            &&& is_fish_name(program_name(dir.push('/') + fish))
            &&& is_fish_name(program_name(dir.push('/') + (seq!['-'] + fish)))
            &&& is_fish_name(program_name(dir.push('/') + (fish.push('-') + rest)))
            &&& rest.len() > 0 && rest[0] != '-' ==> !is_fish_name(
                program_name(dir.push('/') + (fish + rest)),
            )
        }),
{
    let fish = seq!['f', 'i', 's', 'h'];
    let dashed = fish.push('-') + rest;
    let other = fish + rest;
    reveal_strlit("fish");
    reveal_strlit("fish-");
    assert(fish =~= "fish"@);
    assert forall|i: int| 0 <= i < dashed.len() implies #[trigger] dashed[i] != '/' by {
        if i >= 5 {
            assert(rest.contains(rest[i - 5]));
        }
    }
    assert forall|i: int| 0 <= i < other.len() implies #[trigger] other[i] != '/' by {
        if i >= 4 {
            assert(rest.contains(rest[i - 4]));
        }
    }
    law_program_is_named_by_last_segment(dir, fish);
    law_program_is_named_by_last_segment(dir, dashed);
    law_program_is_named_by_last_segment(dir, other);
    assert(dashed.take(5) =~= "fish-"@);
    if rest.len() > 0 && rest[0] != '-' {
        assert(other[4] == rest[0]);
        assert(other.take(5)[4] == rest[0]);
        assert("fish-"@[4] == '-');
    }
}

/// A list keeps the libraries that it has, in front, and gets the new one behind a colon;
/// an empty list becomes that one.
pub proof fn law_library_is_added_at_the_end(existing: Seq<char>, library: Seq<char>)
    ensures
        existing.is_prefix_of(library_list(existing, library)),
        library.is_suffix_of(library_list(existing, library)),
        existing.len() > 0 ==> library_list(existing, library).len() == existing.len()
            + library.len() + 1 && library_list(existing, library)[existing.len() as int] == ':',
        existing.len() == 0 ==> library_list(existing, library) == library,
{
    let list = library_list(existing, library);
    assert(list.subrange(0, existing.len() as int) =~= existing);
    assert(list.subrange(list.len() - library.len(), list.len() as int) =~= library);
}

/// The reader joins only a process group that exists and is another than its own.
pub proof fn law_reader_joins_other_groups_only(foreground: int, own: int)
    ensures
        foreground == own ==> !is_in_background(foreground, own),
        foreground <= 0 ==> !is_in_background(foreground, own),
        foreground > 0 && foreground != own ==> is_in_background(foreground, own),
{
}

/// All bytes that were read are forwarded; the end of input and a failure end the reader;
/// an interruption is tried again at once, and an error of the terminal a little later.
pub proof fn law_reader_forwards_all_bytes(n: usize)
    ensures
        n > 0 ==> step_of_read(ReadOutcome::Bytes(n)) == ReaderStep::Forward(n),
        step_of_read(ReadOutcome::Bytes(0)) == ReaderStep::Exit,
        step_of_read(ReadOutcome::Interrupted) == ReaderStep::Retry,
        step_of_read(ReadOutcome::IoError) == ReaderStep::RetryAfter(10),
        step_of_read(ReadOutcome::Failed) == ReaderStep::Exit,
{
}

} // verus!
