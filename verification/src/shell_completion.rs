//! Shell-native completion providers (fish, zsh).
//!
//! Each provider runs the shell's own completion engine and parses the output into
//! suggestions. Every query triggers a fresh run.

use vstd::prelude::*;
use vstd::string::StringExecFns;
use vstd::string::StrSliceExecFns;
use vstd::string::StringSliceAdditionalSpecFns;
use vstd::utf8::encode_utf8_valid_utf8;
use vstd::utf8::is_char_boundary_start_end_of_seq;

use crate::text::at_boundary;
use crate::text::byte_len;
use crate::text::chars_between;
use crate::text::chars_of;
use crate::text::common_prefix;
use crate::text::find_char;
use crate::text::is_white_space;
use crate::text::law_common_prefix_ends_at_first_difference;
use crate::text::law_trimming_takes_blanks_at_the_ends;
use crate::text::lemma_position_is;
use crate::text::lemma_skip_white_back_is;
use crate::text::lines_of;
use crate::text::position_from;
use crate::text::same_text;
use crate::text::skip_white;
use crate::text::skip_white_back;
use crate::text::slice_bytes;
use crate::text::split_lines;
use crate::text::string_of;
use crate::text::trim_bounds;
use crate::text::trimmed;
use crate::text::white_space;

verus! {

/// A parsed completion line: the completion text plus an optional description.
#[derive(Debug)]
pub struct CompletionLine {
    pub completion: String,
    pub description: Option<String>,
}

impl View for CompletionLine {
    type V = (Seq<char>, Option<Seq<char>>);

    open spec fn view(&self) -> (Seq<char>, Option<Seq<char>>) {
        (
            self.completion@,
            match self.description {
                Some(d) => Some(d@),
                None => None,
            },
        )
    }
}

/// The values of a row of completion lines.
pub open spec fn line_views(lines: Seq<CompletionLine>) -> Seq<(Seq<char>, Option<Seq<char>>)> {
    Seq::new(lines.len(), |i: int| lines[i]@)
}

/// A suggestion of a shell-native provider: the full command line that accepting it
/// leaves behind, and the positions in it that the user has typed already.
#[derive(Debug)]
pub struct ProviderSuggestion {
    pub text: String,
    pub description: Option<String>,
    pub score: u32,
    pub match_indices: Vec<u32>,
}

/// The mathematical value of a [`ProviderSuggestion`].
pub struct ProviderRow {
    pub text: Seq<char>,
    pub description: Option<Seq<char>>,
    /// How many characters at the front of `text` are typed already.
    pub matched: int,
}

pub const PROVIDER_SCORE: u32 = 80;

impl ProviderSuggestion {
    /// The suggestion stands for `row`.
    pub open spec fn is_row(&self, row: ProviderRow) -> bool {
        &&& self.text@ == row.text
        &&& (match self.description {
            Some(d) => row.description == Some(d@),
            None => row.description is None,
        })
        &&& self.score == PROVIDER_SCORE
        &&& self.match_indices@ == indices_below(row.matched)
    }
}

/// `0, 1, 2, ...` up to and without `n`.
pub open spec fn indices_below(n: int) -> Seq<u32> {
    Seq::new(n as nat, |i: int| i as u32)
}

pub open spec fn ends_with_char(s: Seq<char>, c: char) -> bool {
    s.len() > 0 && s.last() == c
}

pub open spec fn starts_with(s: Seq<char>, prefix: Seq<char>) -> bool {
    s.len() >= prefix.len() && s.take(prefix.len() as int) == prefix
}

/// A path that the built-in filesystem provider offers by itself.
pub open spec fn filesystem_like(text: Seq<char>) -> bool {
    ||| ends_with_char(text, '/')
    ||| starts_with(text, seq!['~', '/'])
    ||| starts_with(text, seq!['.', '/'])
    ||| starts_with(text, seq!['.', '.', '/'])
    ||| starts_with(text, seq!['/'])
}

/// Whether a completion entry is a filesystem path. Shell providers leave these to the
/// built-in filesystem provider.
pub fn is_filesystem_entry(text: &str) -> (path: bool)
    ensures
        path == filesystem_like(text@),
{
    let s = chars_of(text);
    let n: usize = s.len();
    proof {
        if n >= 1 {
            assert(text@.take(1)[0] == text@[0]);
            assert(text@[0] == '/' ==> text@.take(1) =~= seq!['/']);
        }
        if n >= 2 {
            assert(text@.take(2)[0] == text@[0] && text@.take(2)[1] == text@[1]);
            assert(text@[0] == '~' && text@[1] == '/' ==> text@.take(2) =~= seq!['~', '/']);
            assert(text@[0] == '.' && text@[1] == '/' ==> text@.take(2) =~= seq!['.', '/']);
            assert(seq!['~', '/'][0] == '~' && seq!['~', '/'][1] == '/');
            assert(seq!['.', '/'][0] == '.' && seq!['.', '/'][1] == '/');
        }
        if n >= 3 {
            assert(text@.take(3)[0] == text@[0] && text@.take(3)[1] == text@[1] && text@.take(3)[2]
                == text@[2]);
            assert(text@[0] == '.' && text@[1] == '.' && text@[2] == '/' ==> text@.take(3)
                =~= seq!['.', '.', '/']);
            assert(seq!['.', '.', '/'][0] == '.' && seq!['.', '.', '/'][1] == '.'
                && seq!['.', '.', '/'][2] == '/');
        }
    }
    if n == 0 {
        return false;
    }
    s[n - 1] == '/' || s[0] == '/' || (n >= 2 && s[1] == '/' && (s[0] == '~' || s[0] == '.')) || (n
        >= 3 && s[0] == '.' && s[1] == '.' && s[2] == '/')
}

/// The lines that are no filesystem paths, in order.
pub open spec fn without_paths(
    lines: Seq<(Seq<char>, Option<Seq<char>>)>,
) -> Seq<(Seq<char>, Option<Seq<char>>)>
    decreases lines.len(),
{
    if lines.len() == 0 {
        Seq::empty()
    } else {
        let rest = without_paths(lines.drop_last());
        if filesystem_like(lines.last().0) {
            rest
        } else {
            rest.push(lines.last())
        }
    }
}

fn drop_paths(lines: Vec<CompletionLine>) -> (kept: Vec<CompletionLine>)
    ensures
        line_views(kept@) == without_paths(line_views(lines@)),
{
    let ghost all = lines@;
    let mut kept: Vec<CompletionLine> = Vec::new();
    assert(line_views(kept@) =~= without_paths(line_views(all).take(0)));
    for line in it: lines
        invariant
            it.seq() == all,
            0 <= it.index() <= all.len(),
            line_views(kept@) == without_paths(line_views(all).take(it.index())),
    {
        let ghost before = kept@;
        proof {
            let now = line_views(all).take(it.index() + 1);
            assert(now.drop_last() =~= line_views(all).take(it.index()));
            assert(now.last() == line@);
        }
        if !is_filesystem_entry(line.completion.as_str()) {
            kept.push(line);
            assert(line_views(kept@) =~= line_views(before).push(line@));
        }
    }
    assert(line_views(all).take(all.len() as int) =~= line_views(all));
    kept
}

/// The result of a base query says that the word is complete: nothing matched, or one
/// completion did and is the word itself.
pub open spec fn complete_word(lines: Seq<(Seq<char>, Option<Seq<char>>)>, word: Seq<char>) -> bool {
    lines.len() == 0 || (lines.len() == 1 && lines[0].0 == word)
}

/// Whether the base completion result signals that the current word is complete, making
/// an eager trailing-space query worthwhile.
pub fn word_is_complete(base: &[CompletionLine], word: &str) -> (complete: bool)
    ensures
        complete == complete_word(line_views(base@), word@),
{
    if base.len() == 0 {
        true
    } else if base.len() == 1 {
        same_text(base[0].completion.as_str(), word)
    } else {
        false
    }
}

/// Whether to query again with a trailing space for the next level of completions.
///
/// At command position an empty base means that the command is unknown; expanding it
/// would make the shell list files.
pub open spec fn expands(
    word_index: nat,
    base: Seq<(Seq<char>, Option<Seq<char>>)>,
    word: Seq<char>,
) -> bool {
    complete_word(base, word) && (word_index == 0 ==> base.len() > 0)
}

/// The command line to query next, if any: the buffer and a trailing space.
pub fn expanded_query(
    word_index: usize,
    buffer: &str,
    base: &[CompletionLine],
    word: &str,
) -> (query: Option<String>)
    ensures
        match query {
            Some(q) => expands(word_index as nat, line_views(base@), word@) && q@ == buffer@.push(
                ' ',
            ),
            None => !expands(word_index as nat, line_views(base@), word@),
        },
{
    if word_is_complete(base, word) && (word_index > 0 || base.len() > 0) {
        let mut expanded = String::from_str(buffer);
        expanded.push(' ');
        Some(expanded)
    } else {
        None
    }
}

/// The shell would only list files for a command that does not exist.
pub open spec fn is_spared(word_index: nat, command_exists: Option<bool>) -> bool {
    word_index > 0 && command_exists == Some(false)
}

/// Whether a query can be spared: the shell would only list files for a command that
/// does not exist. `command_exists` is `None` where no command is known.
pub fn query_is_spared(word_index: usize, command_exists: Option<bool>) -> (spared: bool)
    ensures
        spared == is_spared(word_index as nat, command_exists),
{
    match command_exists {
        Some(exists) => word_index > 0 && !exists,
        None => false,
    }
}

// ---- Parsing shell output ----

/// A line of fish output: the completion, and behind a tab its description.
pub open spec fn fish_line(line: Seq<char>) -> (Seq<char>, Option<Seq<char>>) {
    let tab = position_from(line, '\t', 0);
    if tab < line.len() {
        let d = trimmed(line.skip(tab + 1));
        (
            line.take(tab),
            if d.len() > 0 {
                Some(d)
            } else {
                None
            },
        )
    } else {
        (line, None)
    }
}

/// A line of zsh output: one match, no description.
pub open spec fn zsh_line(line: Seq<char>) -> (Seq<char>, Option<Seq<char>>) {
    (trimmed(line), None)
}

/// The completions in the lines that are not blank.
pub open spec fn completions_in(lines: Seq<Seq<char>>, fish: bool) -> Seq<
    (Seq<char>, Option<Seq<char>>),
>
    decreases lines.len(),
{
    if lines.len() == 0 {
        Seq::empty()
    } else {
        let rest = completions_in(lines.drop_last(), fish);
        if trimmed(lines.last()).len() == 0 {
            rest
        } else if fish {
            rest.push(fish_line(lines.last()))
        } else {
            rest.push(zsh_line(lines.last()))
        }
    }
}

fn parse_fish_line(line: &Vec<char>) -> (parsed: CompletionLine)
    ensures
        parsed@ == fish_line(line@),
{
    let tab: usize = find_char(line, '\t', 0);
    let completion = string_of(line, 0, tab);
    assert(completion@ =~= line@.take(tab as int));
    if tab < line.len() {
        let mut tail: Vec<char> = Vec::new();
        let mut i: usize = tab + 1;
        while i < line.len()
            invariant
                tab + 1 <= i <= line@.len(),
                tail@ == line@.subrange(tab + 1, i as int),
            decreases line.len() - i,
        {
            tail.push(line[i]);
            i = i + 1;
            assert(line@.subrange(tab + 1, i as int) =~= line@.subrange(tab + 1, i - 1).push(
                line@[i - 1],
            ));
        }
        assert(tail@ =~= line@.skip(tab + 1));
        let (start, end): (usize, usize) = trim_bounds(&tail);
        if start < end {
            CompletionLine { completion, description: Some(string_of(&tail, start, end)) }
        } else {
            CompletionLine { completion, description: None }
        }
    } else {
        assert(completion@ =~= line@);
        CompletionLine { completion, description: None }
    }
}

fn parse_lines(lines: &Vec<Vec<char>>, fish: bool) -> (parsed: Vec<CompletionLine>)
    ensures
        line_views(parsed@) == completions_in(Seq::new(lines@.len(), |i: int| lines@[i]@), fish),
{
    let ghost texts = Seq::new(lines@.len(), |i: int| lines@[i]@);
    let mut parsed: Vec<CompletionLine> = Vec::new();
    let mut i: usize = 0;
    assert(line_views(parsed@) =~= completions_in(texts.take(0), fish));
    while i < lines.len()
        invariant
            i <= lines@.len(),
            texts == Seq::new(lines@.len(), |i: int| lines@[i]@),
            line_views(parsed@) == completions_in(texts.take(i as int), fish),
        decreases lines.len() - i,
    {
        let ghost before = parsed@;
        proof {
            let now = texts.take(i + 1);
            assert(now.drop_last() =~= texts.take(i as int));
            assert(now.last() == lines@[i as int]@);
        }
        let line = &lines[i];
        let (start, end): (usize, usize) = trim_bounds(line);
        if start < end {
            if fish {
                parsed.push(parse_fish_line(line));
            } else {
                parsed.push(
                    CompletionLine { completion: string_of(line, start, end), description: None },
                );
            }
            assert(line_views(parsed@) =~= line_views(before).push(parsed@.last()@));
        }
        i = i + 1;
    }
    assert(texts.take(i as int) =~= texts);
    parsed
}

/// Parses fish `complete -C` output into completion lines.
pub fn parse_fish_stdout(stdout: Option<&str>) -> (lines: Vec<CompletionLine>)
    ensures
        line_views(lines@) == (match stdout {
            Some(out) => completions_in(lines_of(out@), true),
            None => Seq::empty(),
        }),
{
    match stdout {
        Some(out) => {
            let texts = split_lines(out);
            assert(Seq::new(texts@.len(), |i: int| texts@[i]@) =~= lines_of(out@));
            parse_lines(&texts, true)
        },
        None => {
            let none: Vec<CompletionLine> = Vec::new();
            assert(line_views(none@) =~= Seq::empty());
            none
        },
    }
}

/// Parses zsh capture output into completion lines, one match per line.
pub fn parse_zsh_stdout(stdout: Option<&str>) -> (lines: Vec<CompletionLine>)
    ensures
        line_views(lines@) == (match stdout {
            Some(out) => completions_in(lines_of(out@), false),
            None => Seq::empty(),
        }),
{
    match stdout {
        Some(out) => {
            let texts = split_lines(out);
            assert(Seq::new(texts@.len(), |i: int| texts@[i]@) =~= lines_of(out@));
            parse_lines(&texts, false)
        },
        None => {
            let none: Vec<CompletionLine> = Vec::new();
            assert(line_views(none@) =~= Seq::empty());
            none
        },
    }
}

// ---- Building suggestions ----

/// The length of the part of `buffer` up to and with its last space.
pub open spec fn typed_words_len(buffer: Seq<char>) -> int
    decreases buffer.len(),
{
    if buffer.len() == 0 || buffer.last() == ' ' {
        buffer.len() as int
    } else {
        typed_words_len(buffer.drop_last())
    }
}

/// The command line after accepting `completion`: the last word of `buffer` is replaced.
pub open spec fn full_text(buffer: Seq<char>, completion: Seq<char>) -> Seq<char> {
    buffer.take(typed_words_len(buffer)) + completion
}

proof fn lemma_typed_words_len(buffer: Seq<char>, n: int)
    requires
        0 <= n <= buffer.len(),
        n > 0 ==> buffer[n - 1] == ' ',
        forall|j: int| n <= j < buffer.len() ==> #[trigger] buffer[j] != ' ',
    ensures
        typed_words_len(buffer) == n,
    decreases buffer.len(),
{
    if n < buffer.len() {
        assert(buffer.last() == buffer[buffer.len() - 1]);
        let shorter = buffer.drop_last();
        assert forall|j: int| n <= j < shorter.len() implies #[trigger] shorter[j] != ' ' by {
            assert(shorter[j] == buffer[j]);
        }
        lemma_typed_words_len(shorter, n);
    }
}

/// How many characters at the front of a full text are typed already, as far as 32 bits
/// count them.
pub open spec fn typed_count(buffer: Seq<char>, text: Seq<char>) -> int {
    common_prefix(buffer, text, 0) as u32 as int
}

/// Counts the leading characters that are identical in two strings.
pub fn common_prefix_char_count(a: &str, b: &str) -> (count: usize)
    ensures
        count == common_prefix(a@, b@, 0),
        count <= a@.len(),
{
    let x = chars_of(a);
    let y = chars_of(b);
    let mut i: usize = 0;
    while i < x.len() && i < y.len() && x[i] == y[i]
        invariant
            i <= x@.len(),
            x@ == a@,
            y@ == b@,
            common_prefix(a@, b@, i as int) == common_prefix(a@, b@, 0),
        decreases x.len() - i,
    {
        i = i + 1;
    }
    i
}

/// Builds the full replacement text for a provider completion.
///
/// Shell completions return only the replacement of the current word, but accepting a
/// suggestion replaces the whole line. The second result holds the positions in the full
/// text that are typed already.
pub fn build_full_text(buffer: &str, completion: &str) -> (built: (String, Vec<u32>))
    ensures
        built.0@ == full_text(buffer@, completion@),
        built.1@ == indices_below(typed_count(buffer@, full_text(buffer@, completion@))),
{
    let s = chars_of(buffer);
    let mut n: usize = s.len();
    while n > 0 && s[n - 1] != ' '
        invariant
            n <= s@.len(),
            s@ == buffer@,
            forall|j: int| n <= j < s@.len() ==> #[trigger] s@[j] != ' ',
        decreases n,
    {
        n = n - 1;
    }
    proof {
        lemma_typed_words_len(buffer@, n as int);
    }
    let mut full = string_of(&s, 0, n);
    assert(full@ =~= buffer@.take(n as int));
    full.append(completion);
    let matched: u32 = common_prefix_char_count(buffer, full.as_str()) as u32;
    let mut indices: Vec<u32> = Vec::new();
    let mut i: u32 = 0;
    while i < matched
        invariant
            i <= matched,
            indices@ == indices_below(i as int),
        decreases matched - i,
    {
        indices.push(i);
        i = i + 1;
        assert(indices@ =~= indices_below(i as int));
    }
    (full, indices)
}

/// The row of a completion line under a query.
pub open spec fn row_of(buffer: Seq<char>, line: (Seq<char>, Option<Seq<char>>)) -> ProviderRow {
    ProviderRow {
        text: full_text(buffer, line.0),
        description: line.1,
        matched: typed_count(buffer, full_text(buffer, line.0)),
    }
}

pub open spec fn rows_of(buffer: Seq<char>, lines: Seq<(Seq<char>, Option<Seq<char>>)>) -> Seq<
    ProviderRow,
> {
    Seq::new(lines.len(), |i: int| row_of(buffer, lines[i]))
}

pub open spec fn has_text(rows: Seq<ProviderRow>, text: Seq<char>) -> bool {
    exists|i: int| 0 <= i < rows.len() && (#[trigger] rows[i]).text == text
}

/// The rows without those whose text stands in an earlier row.
pub open spec fn first_rows(rows: Seq<ProviderRow>) -> Seq<ProviderRow>
    decreases rows.len(),
{
    if rows.len() == 0 {
        Seq::empty()
    } else {
        let rest = first_rows(rows.drop_last());
        if has_text(rest, rows.last().text) {
            rest
        } else {
            rest.push(rows.last())
        }
    }
}

/// At most the first `max` rows.
pub open spec fn capped(rows: Seq<ProviderRow>, max: nat) -> Seq<ProviderRow> {
    if rows.len() <= max {
        rows
    } else {
        rows.take(max as int)
    }
}

/// `rows` stands for what `out` holds.
pub open spec fn stands_for(out: Seq<ProviderSuggestion>, rows: Seq<ProviderRow>) -> bool {
    &&& out.len() == rows.len()
    &&& forall|i: int| 0 <= i < out.len() ==> (#[trigger] out[i]).is_row(rows[i])
}

/// Builds one provider suggestion from a completion line.
fn build_provider_suggestion(buffer: &str, line: &CompletionLine) -> (s: ProviderSuggestion)
    ensures
        s.is_row(row_of(buffer@, line@)),
{
    let (text, match_indices): (String, Vec<u32>) = build_full_text(
        buffer,
        line.completion.as_str(),
    );
    let description = match &line.description {
        Some(d) => Some(d.clone()),
        None => None,
    };
    ProviderSuggestion { text, description, score: PROVIDER_SCORE, match_indices }
}

/// Adds the rows of `lines` that are new, as long as there are fewer than `max`.
fn add_rows(
    out: &mut Vec<ProviderSuggestion>,
    buffer: &str,
    lines: &[CompletionLine],
    max: usize,
    Ghost(before): Ghost<Seq<ProviderRow>>,
)
    requires
        stands_for(old(out)@, capped(first_rows(before), max as nat)),
    ensures
        stands_for(
            final(out)@,
            capped(first_rows(before + rows_of(buffer@, line_views(lines@))), max as nat),
        ),
{
    let ghost added = rows_of(buffer@, line_views(lines@));
    let mut i: usize = 0;
    assert(before + added.take(0) =~= before);
    while i < lines.len()
        invariant
            i <= lines@.len(),
            added == rows_of(buffer@, line_views(lines@)),
            stands_for(out@, capped(first_rows(before + added.take(i as int)), max as nat)),
        decreases lines.len() - i,
    {
        let ghost seen = before + added.take(i as int);
        let ghost now = before + added.take(i + 1);
        let ghost shown = first_rows(seen);
        let ghost out_before = out@;
        proof {
            assert(now.drop_last() =~= seen);
            assert(now.last() == added[i as int]);
            assert(added[i as int] == row_of(buffer@, lines@[i as int]@));
        }
        if out.len() < max {
            let s = build_provider_suggestion(buffer, &lines[i]);
            let known = holds_text(out, s.text.as_str());
            proof {
                let row = added[i as int];
                assert(capped(shown, max as nat) == shown);
                assert(s.text@ == row.text);
                if known {
                    let k = choose|k: int|
                        0 <= k < out@.len() && (#[trigger] out@[k]).text@ == s.text@;
                    assert(out@[k].is_row(shown[k]));
                    assert(has_text(shown, row.text));
                } else {
                    assert forall|k: int| 0 <= k < shown.len() implies (#[trigger] shown[k]).text
                        != row.text by {
                        assert(out@[k].is_row(shown[k]));
                    }
                }
            }
            if !known {
                out.push(s);
                proof {
                    let row = added[i as int];
                    assert(first_rows(now) == shown.push(row));
                    assert forall|k: int| 0 <= k < out@.len() implies (#[trigger] out@[k]).is_row(
                        shown.push(row)[k],
                    ) by {
                        if k < out_before.len() {
                            assert(out_before[k].is_row(shown[k]));
                        }
                    }
                }
            }
        } else {
            proof {
                assert(capped(first_rows(now), max as nat) =~= capped(shown, max as nat));
            }
        }
        i = i + 1;
    }
    assert(added.take(i as int) =~= added);
}

fn holds_text(rows: &Vec<ProviderSuggestion>, text: &str) -> (holds: bool)
    ensures
        holds == exists|k: int| 0 <= k < rows@.len() && (#[trigger] rows@[k]).text@ == text@,
{
    let mut i: usize = 0;
    while i < rows.len()
        invariant
            i <= rows@.len(),
            forall|k: int| 0 <= k < i ==> (#[trigger] rows@[k]).text@ != text@,
        decreases rows.len() - i,
    {
        if same_text(rows[i].text.as_str(), text) {
            assert(rows@[i as int].text@ == text@);
            return true;
        }
        i = i + 1;
    }
    false
}

/// Merges a base completion query with an eager "next level" query.
///
/// Base rows are built against `buffer`; expanded rows against `expanded_buffer` (the
/// buffer plus the inserted space), so that their text carries the completed command. Rows
/// are deduplicated by their text (base wins) and capped at `max_results`.
pub fn merge_completions(
    buffer: &str,
    expanded_buffer: &str,
    base: &[CompletionLine],
    expanded: &[CompletionLine],
    max_results: usize,
) -> (out: Vec<ProviderSuggestion>)
    ensures
        stands_for(
            out@,
            capped(
                first_rows(
                    rows_of(buffer@, line_views(base@)) + rows_of(
                        expanded_buffer@,
                        line_views(expanded@),
                    ),
                ),
                max_results as nat,
            ),
        ),
{
    let mut out: Vec<ProviderSuggestion> = Vec::new();
    let ghost none = Seq::<ProviderRow>::empty();
    let ghost first = rows_of(buffer@, line_views(base@));
    add_rows(&mut out, buffer, base, max_results, Ghost(none));
    assert(none + first =~= first);
    add_rows(&mut out, expanded_buffer, expanded, max_results, Ghost(first));
    out
}

/// `s` with a backslash in front of every backslash and single quote.
pub open spec fn fish_escaped(s: Seq<char>) -> Seq<char>
    decreases s.len(),
{
    if s.len() == 0 {
        Seq::empty()
    } else if s.last() == '\\' || s.last() == '\'' {
        fish_escaped(s.drop_last()).push('\\').push(s.last())
    } else {
        fish_escaped(s.drop_last()).push(s.last())
    }
}

/// `s` in fish single quotes.
pub open spec fn fish_quoted(s: Seq<char>) -> Seq<char> {
    (seq!['\''] + fish_escaped(s)).push('\'')
}

/// Escapes a string into fish single quotes.
pub fn fish_escape(s: &str) -> (quoted: String)
    ensures
        quoted@ == fish_quoted(s@),
{
    let chars = chars_of(s);
    let mut out = String::new();
    out.push('\'');
    let mut i: usize = 0;
    assert(out@ =~= seq!['\''] + fish_escaped(chars@.take(0)));
    while i < chars.len()
        invariant
            i <= chars@.len(),
            out@ == seq!['\''] + fish_escaped(chars@.take(i as int)),
        decreases chars.len() - i,
    {
        let c = chars[i];
        proof {
            assert(chars@.take(i + 1).drop_last() =~= chars@.take(i as int));
        }
        if c == '\\' || c == '\'' {
            out.push('\\');
        }
        out.push(c);
        i = i + 1;
        assert(out@ =~= seq!['\''] + fish_escaped(chars@.take(i as int)));
    }
    assert(chars@.take(i as int) =~= s@);
    out.push('\'');
    out
}

/// The fish command that prints the completions of `buffer`.
pub fn fish_script(buffer: &str) -> (script: String)
    ensures
        script@ == "complete -C "@ + fish_quoted(buffer@),
{
    let mut script = String::from_str("complete -C ");
    script.append(fish_escape(buffer).as_str());
    script
}

/// The position where the word that ends at `n` starts.
pub open spec fn word_back(s: Seq<char>, n: int) -> int
    decreases n,
{
    if 0 < n <= s.len() && !is_white_space(s[n - 1]) {
        word_back(s, n - 1)
    } else {
        n
    }
}

/// The last word of `s`, where words are separated by white space.
pub open spec fn last_word(s: Seq<char>) -> Seq<char> {
    let end = skip_white_back(s, s.len() as int);
    s.subrange(word_back(s, end), end)
}

/// Extracts the current word (the token being completed) from the buffer. `cursor` is a
/// byte offset between two characters, or lies behind the end.
pub fn current_word(buffer: &str, cursor: usize) -> (word: String)
    requires
        cursor > buffer.spec_bytes().len() || at_boundary(buffer, cursor),
    ensures
        word@ == last_word(
            if cursor > buffer.spec_bytes().len() {
                buffer@
            } else {
                chars_between(buffer, 0, cursor as int)
            },
        ),
{
    let len: usize = byte_len(buffer);
    let before = if cursor <= len {
        proof {
            encode_utf8_valid_utf8(buffer@);
            is_char_boundary_start_end_of_seq(buffer.spec_bytes());
        }
        slice_bytes(buffer, 0, cursor)
    } else {
        buffer
    };
    let s = chars_of(before);
    let mut end: usize = s.len();
    while 0 < end && white_space(s[end - 1])
        invariant
            end <= s@.len(),
            skip_white_back(s@, end as int) == skip_white_back(s@, s@.len() as int),
        decreases end,
    {
        end = end - 1;
    }
    let mut start: usize = end;
    while 0 < start && !white_space(s[start - 1])
        invariant
            start <= end <= s@.len(),
            word_back(s@, start as int) == word_back(s@, end as int),
        decreases start,
    {
        start = start - 1;
    }
    string_of(&s, start, end)
}

/// The suggestions that a provider shows for its two queries: those of the base query and
/// of the expanded one, without filesystem paths.
pub open spec fn shown_rows(
    buffer: Seq<char>,
    base: Seq<(Seq<char>, Option<Seq<char>>)>,
    expanded: Seq<(Seq<char>, Option<Seq<char>>)>,
    max: nat,
) -> Seq<ProviderRow> {
    capped(
        first_rows(
            rows_of(buffer, without_paths(base)) + rows_of(
                buffer.push(' '),
                without_paths(expanded),
            ),
        ),
        max,
    )
}

fn finish_query(
    buffer: &str,
    base: Vec<CompletionLine>,
    expanded: Vec<CompletionLine>,
    max_results: usize,
) -> (out: Vec<ProviderSuggestion>)
    ensures
        stands_for(
            out@,
            shown_rows(
                buffer@,
                line_views(base@),
                line_views(expanded@),
                max_results as nat,
            ),
        ),
{
    let base = drop_paths(base);
    let expanded = drop_paths(expanded);
    let mut expanded_buffer = String::from_str(buffer);
    expanded_buffer.push(' ');
    merge_completions(
        buffer,
        expanded_buffer.as_str(),
        base.as_slice(),
        expanded.as_slice(),
        max_results,
    )
}

/// Asks fish's completion engine (`complete -C`).
#[derive(Debug)]
pub struct FishCompletionProvider {
    pub max_results: usize,
}

impl FishCompletionProvider {
    pub fn new(max_results: usize) -> (provider: Self)
        ensures
            provider.max_results == max_results,
    {
        FishCompletionProvider { max_results }
    }

    /// The suggestions for `buffer`, from what fish printed for it and, where it was
    /// asked, for the expanded query.
    pub fn suggestions(
        &self,
        buffer: &str,
        base: Vec<CompletionLine>,
        expanded_stdout: Option<&str>,
    ) -> (out: Vec<ProviderSuggestion>)
        ensures
            stands_for(
                out@,
                shown_rows(
                    buffer@,
                    line_views(base@),
                    match expanded_stdout {
                        Some(out) => completions_in(lines_of(out@), true),
                        None => Seq::empty(),
                    },
                    self.max_results as nat,
                ),
            ),
    {
        finish_query(buffer, base, parse_fish_stdout(expanded_stdout), self.max_results)
    }
}

/// Asks zsh's completion system by way of a capture widget.
#[derive(Debug)]
pub struct ZshCompletionProvider {
    pub max_results: usize,
}

impl ZshCompletionProvider {
    pub fn new(max_results: usize) -> (provider: Self)
        ensures
            provider.max_results == max_results,
    {
        ZshCompletionProvider { max_results }
    }

    /// The suggestions for `buffer`, from what zsh printed for it and, where it was
    /// asked, for the expanded query.
    pub fn suggestions(
        &self,
        buffer: &str,
        base: Vec<CompletionLine>,
        expanded_stdout: Option<&str>,
    ) -> (out: Vec<ProviderSuggestion>)
        ensures
            stands_for(
                out@,
                shown_rows(
                    buffer@,
                    line_views(base@),
                    match expanded_stdout {
                        Some(out) => completions_in(lines_of(out@), false),
                        None => Seq::empty(),
                    },
                    self.max_results as nat,
                ),
            ),
    {
        finish_query(buffer, base, parse_zsh_stdout(expanded_stdout), self.max_results)
    }
}

// ---- Laws ----

/// No two merged rows have the same text.
pub proof fn law_merged_rows_are_distinct(rows: Seq<ProviderRow>, i: int, j: int)
    requires
        0 <= i < j < first_rows(rows).len(),
    ensures
        first_rows(rows)[i].text != first_rows(rows)[j].text,
    decreases rows.len(),
{
    let rest = first_rows(rows.drop_last());
    if j < rest.len() {
        law_merged_rows_are_distinct(rows.drop_last(), i, j);
    } else {
        assert(!has_text(rest, rows.last().text));
        assert(rest[i].text != rows.last().text);
    }
}

/// Merging drops no text: what a query brought stands in the result, unless the cap cut
/// it off.
pub proof fn law_merge_keeps_every_text(rows: Seq<ProviderRow>, i: int)
    requires
        0 <= i < rows.len(),
    ensures
        has_text(first_rows(rows), rows[i].text),
    decreases rows.len(),
{
    let rest = first_rows(rows.drop_last());
    if i < rows.len() - 1 {
        law_merge_keeps_every_text(rows.drop_last(), i);
        assert(rows.drop_last()[i] == rows[i]);
        let k = choose|k: int| 0 <= k < rest.len() && (#[trigger] rest[k]).text == rows[i].text;
        assert(first_rows(rows)[k] == rest[k]);
    } else if has_text(rest, rows.last().text) {
        let k = choose|k: int| 0 <= k < rest.len() && (#[trigger] rest[k]).text == rows.last().text;
        assert(first_rows(rows)[k] == rest[k]);
    } else {
        assert(first_rows(rows)[rest.len() as int].text == rows[i].text);
    }
}

/// The rows of the base query come first, as merging alone would order them.
pub proof fn law_base_rows_come_first(base: Seq<ProviderRow>, expanded: Seq<ProviderRow>)
    ensures
        first_rows(base).len() <= first_rows(base + expanded).len(),
        first_rows(base + expanded).take(first_rows(base).len() as int) == first_rows(base),
    decreases expanded.len(),
{
    if expanded.len() == 0 {
        assert(base + expanded =~= base);
        assert(first_rows(base).take(first_rows(base).len() as int) =~= first_rows(base));
    } else {
        law_base_rows_come_first(base, expanded.drop_last());
        assert((base + expanded).drop_last() =~= base + expanded.drop_last());
        let n = first_rows(base).len() as int;
        assert(first_rows(base + expanded).take(n) =~= first_rows(
            base + expanded.drop_last(),
        ).take(n));
    }
}

/// What fish reads between single quotes: a backslash in front of a backslash or a single
/// quote is dropped, and everything else stands for itself.
pub open spec fn fish_reads(s: Seq<char>) -> Seq<char>
    decreases s.len(),
{
    if s.len() == 0 {
        Seq::empty()
    } else if s[0] == '\\' && s.len() > 1 && (s[1] == '\\' || s[1] == '\'') {
        seq![s[1]] + fish_reads(s.skip(2))
    } else {
        seq![s[0]] + fish_reads(s.skip(1))
    }
}

proof fn lemma_fish_escaped_first(s: Seq<char>)
    requires
        s.len() > 0,
    ensures
        fish_escaped(s) == (if s[0] == '\\' || s[0] == '\'' {
            seq!['\\', s[0]]
        } else {
            seq![s[0]]
        }) + fish_escaped(s.skip(1)),
    decreases s.len(),
{
    let head = if s[0] == '\\' || s[0] == '\'' {
        seq!['\\', s[0]]
    } else {
        seq![s[0]]
    };
    if s.len() == 1 {
        assert(s.drop_last() =~= Seq::<char>::empty());
        assert(fish_escaped(s.drop_last()) =~= Seq::<char>::empty());
        assert(s.skip(1) =~= Seq::<char>::empty());
        assert(fish_escaped(s) =~= head + fish_escaped(s.skip(1)));
    } else {
        lemma_fish_escaped_first(s.drop_last());
        assert(s.drop_last().skip(1) =~= s.skip(1).drop_last());
        assert(s.skip(1).last() == s.last());
        assert(fish_escaped(s) =~= head + fish_escaped(s.skip(1)));
    }
}

/// Fish reads an escaped string as the string itself: nothing in it ends the quotes.
pub proof fn law_fish_reads_what_was_escaped(s: Seq<char>)
    ensures
        fish_reads(fish_escaped(s)) == s,
    decreases s.len(),
{
    if s.len() > 0 {
        lemma_fish_escaped_first(s);
        law_fish_reads_what_was_escaped(s.skip(1));
        let e = fish_escaped(s);
        if s[0] == '\\' || s[0] == '\'' {
            assert(e[0] == '\\');
            assert(e[1] == s[0]);
            assert(e.skip(2) =~= fish_escaped(s.skip(1)));
        } else {
            assert(e[0] == s[0]);
            assert(e.skip(1) =~= fish_escaped(s.skip(1)));
        }
        assert(seq![s[0]] + s.skip(1) =~= s);
    } else {
        assert(fish_reads(fish_escaped(s)) =~= s);
    }
}

/// A completion is a path where it ends in a slash or starts with one, or with `~`, `.` or
/// `..` in front of one, and nowhere else: a flag, a word with a dot in it or a hidden file
/// is none.
pub proof fn law_paths_are_told_by_their_slashes(text: Seq<char>)
    ensures
        text.len() == 0 ==> !filesystem_like(text),
        text.len() > 0 ==> (filesystem_like(text) <==> {
            ||| text[0] == '/'
            ||| text[text.len() - 1] == '/'
            ||| text.len() > 1 && text[1] == '/' && (text[0] == '~' || text[0] == '.')
            ||| text.len() > 2 && text[2] == '/' && text[0] == '.' && text[1] == '.'
        }),
        text.len() > 0 && text[0] != '/' && text[0] != '~' && text[0] != '.' && text.last() != '/'
            ==> !filesystem_like(text),
{
    if text.len() >= 1 {
        assert(text.take(1)[0] == text[0]);
        assert(text[0] == '/' ==> text.take(1) =~= seq!['/']);
        assert(seq!['/'][0] == '/');
    }
    if text.len() >= 2 {
        assert(text.take(2)[0] == text[0] && text.take(2)[1] == text[1]);
        assert(text[0] == '~' && text[1] == '/' ==> text.take(2) =~= seq!['~', '/']);
        assert(text[0] == '.' && text[1] == '/' ==> text.take(2) =~= seq!['.', '/']);
        assert(seq!['~', '/'][0] == '~' && seq!['~', '/'][1] == '/');
        assert(seq!['.', '/'][0] == '.' && seq!['.', '/'][1] == '/');
    }
    if text.len() >= 3 {
        assert(text.take(3)[0] == text[0] && text.take(3)[1] == text[1] && text.take(3)[2]
            == text[2]);
        assert(text[0] == '.' && text[1] == '.' && text[2] == '/' ==> text.take(3) =~= seq![
            '.',
            '.',
            '/',
        ]);
        assert(seq!['.', '.', '/'][0] == '.' && seq!['.', '.', '/'][1] == '.'
            && seq!['.', '.', '/'][2] == '/');
    }
}

/// A completion replaces the last word of the line: what is typed up to and with the last
/// space stays in front of it.
pub proof fn law_completion_replaces_last_word(
    front: Seq<char>,
    word: Seq<char>,
    completion: Seq<char>,
)
    requires
        front.len() > 0 ==> front.last() == ' ',
        !word.contains(' '),
    ensures
        full_text(front + word, completion) == front + completion,
        full_text(front + word.push(' '), completion) == front + word.push(' ') + completion,
{
    let line = front + word;
    assert forall|j: int| front.len() <= j < line.len() implies #[trigger] line[j] != ' ' by {
        assert(line[j] == word[j - front.len()]);
        assert(word.contains(word[j - front.len()]));
    }
    if front.len() > 0 {
        assert(line[front.len() - 1] == front.last());
    }
    lemma_typed_words_len(line, front.len() as int);
    assert(line.take(front.len() as int) =~= front);
    let spaced = front + word.push(' ');
    lemma_typed_words_len(spaced, spaced.len() as int);
    assert(spaced.take(spaced.len() as int) =~= spaced);
}

proof fn lemma_kept_line(lines: Seq<(Seq<char>, Option<Seq<char>>)>, i: int) -> (k: int)
    requires
        0 <= i < lines.len(),
        !filesystem_like(lines[i].0),
    ensures
        0 <= k < without_paths(lines).len(),
        without_paths(lines)[k] == lines[i],
    decreases lines.len(),
{
    let front = lines.drop_last();
    if i < front.len() {
        assert(front[i] == lines[i]);
        lemma_kept_line(front, i)
    } else {
        without_paths(lines).len() - 1
    }
}

proof fn lemma_kept_lines_are_lines(lines: Seq<(Seq<char>, Option<Seq<char>>)>, k: int) -> (i: int)
    requires
        0 <= k < without_paths(lines).len(),
    ensures
        0 <= i < lines.len(),
        lines[i] == without_paths(lines)[k],
        !filesystem_like(lines[i].0),
    decreases lines.len(),
{
    let front = lines.drop_last();
    if k < without_paths(front).len() {
        let i = lemma_kept_lines_are_lines(front, k);
        assert(front[i] == lines[i]);
        i
    } else {
        lines.len() - 1
    }
}

proof fn lemma_first_rows_len(rows: Seq<ProviderRow>)
    ensures
        first_rows(rows).len() <= rows.len(),
    decreases rows.len(),
{
    if rows.len() > 0 {
        lemma_first_rows_len(rows.drop_last());
    }
}

proof fn lemma_kept_count(lines: Seq<(Seq<char>, Option<Seq<char>>)>)
    ensures
        without_paths(lines).len() <= lines.len(),
    decreases lines.len(),
{
    if lines.len() > 0 {
        lemma_kept_count(lines.drop_last());
    }
}

/// A completion is kept unless it is a path: every line of either query that does not end
/// in a slash, and starts with none of `/`, `~` and `.`, has its full text among the rows
/// shown, where the cap leaves room for all; and a lower cap only cuts rows off the end.
pub proof fn law_completions_are_shown(
    buffer: Seq<char>,
    base: Seq<(Seq<char>, Option<Seq<char>>)>,
    expanded: Seq<(Seq<char>, Option<Seq<char>>)>,
    max: nat,
    less: nat,
    i: int,
)
    requires
        max >= base.len() + expanded.len(),
        less <= max,
    ensures
        0 <= i < base.len() && base[i].0.len() > 0 && base[i].0.last() != '/' && base[i].0[0] != '/'
            && base[i].0[0] != '~' && base[i].0[0] != '.' ==> has_text(
            shown_rows(buffer, base, expanded, max),
            full_text(buffer, base[i].0),
        ),
        0 <= i < expanded.len() && expanded[i].0.len() > 0 && expanded[i].0.last() != '/'
            && expanded[i].0[0] != '/' && expanded[i].0[0] != '~' && expanded[i].0[0] != '.'
            ==> has_text(
            shown_rows(buffer, base, expanded, max),
            buffer.push(' ') + expanded[i].0,
        ),
        shown_rows(buffer, base, expanded, less).len() <= less,
        shown_rows(buffer, base, expanded, less).is_prefix_of(
            shown_rows(buffer, base, expanded, max),
        ),
        shown_rows(buffer, base, expanded, max).len() > less ==> shown_rows(
            buffer,
            base,
            expanded,
            less,
        ).len() == less,
{
    let b = rows_of(buffer, without_paths(base));
    let e = rows_of(buffer.push(' '), without_paths(expanded));
    let all = b + e;
    lemma_kept_count(base);
    lemma_kept_count(expanded);
    lemma_first_rows_len(all);
    assert(shown_rows(buffer, base, expanded, max) == first_rows(all));
    if 0 <= i < base.len() && base[i].0.len() > 0 && base[i].0.last() != '/' && base[i].0[0] != '/'
        && base[i].0[0] != '~' && base[i].0[0] != '.' {
        law_paths_are_told_by_their_slashes(base[i].0);
        let k = lemma_kept_line(base, i);
        assert(all[k] == b[k]);
        law_merge_keeps_every_text(all, k);
    }
    if 0 <= i < expanded.len() && expanded[i].0.len() > 0 && expanded[i].0.last() != '/'
        && expanded[i].0[0] != '/' && expanded[i].0[0] != '~' && expanded[i].0[0] != '.' {
        law_paths_are_told_by_their_slashes(expanded[i].0);
        let k = lemma_kept_line(expanded, i);
        assert(all[b.len() + k] == e[k]);
        law_merge_keeps_every_text(all, b.len() + k);
        let spaced = buffer.push(' ');
        lemma_typed_words_len(spaced, spaced.len() as int);
        assert(spaced.take(spaced.len() as int) =~= spaced);
    }
}

proof fn lemma_first_rows_are_rows(rows: Seq<ProviderRow>, k: int) -> (i: int)
    requires
        0 <= k < first_rows(rows).len(),
    ensures
        0 <= i < rows.len(),
        rows[i] == first_rows(rows)[k],
    decreases rows.len(),
{
    let rest = first_rows(rows.drop_last());
    if k < rest.len() {
        let i = lemma_first_rows_are_rows(rows.drop_last(), k);
        assert(rows.drop_last()[i] == rows[i]);
        i
    } else {
        rows.len() - 1
    }
}

/// Every row shown comes from a line of one of the queries that is no path, with the
/// description of that line.
pub proof fn law_shown_rows_are_completions(
    buffer: Seq<char>,
    base: Seq<(Seq<char>, Option<Seq<char>>)>,
    expanded: Seq<(Seq<char>, Option<Seq<char>>)>,
    max: nat,
    k: int,
) -> (from: (bool, int))
    requires
        0 <= k < shown_rows(buffer, base, expanded, max).len(),
    ensures
        ({
            let row = shown_rows(buffer, base, expanded, max)[k];
            let line = if from.0 {
                base[from.1]
            } else {
                expanded[from.1]
            };
            &&& from.0 ==> 0 <= from.1 < base.len() && row.text == full_text(buffer, line.0)
            &&& !from.0 ==> 0 <= from.1 < expanded.len() && row.text == buffer.push(' ') + line.0
            &&& row.description == line.1
            &&& line.0.len() > 0 ==> line.0.last() != '/' && line.0[0] != '/'
        }),
{
    let b = rows_of(buffer, without_paths(base));
    let e = rows_of(buffer.push(' '), without_paths(expanded));
    let all = b + e;
    let i = lemma_first_rows_are_rows(all, k);
    if i < b.len() {
        let at = lemma_kept_lines_are_lines(base, i);
        assert(all[i] == b[i]);
        law_paths_are_told_by_their_slashes(base[at].0);
        (true, at)
    } else {
        let at = lemma_kept_lines_are_lines(expanded, i - b.len());
        assert(all[i] == e[i - b.len()]);
        law_paths_are_told_by_their_slashes(expanded[at].0);
        let spaced = buffer.push(' ');
        lemma_typed_words_len(spaced, spaced.len() as int);
        assert(spaced.take(spaced.len() as int) =~= spaced);
        (false, at)
    }
}

/// The positions that a row shows as typed are those up to the first character in which
/// its text and the command line differ.
pub proof fn law_typed_positions_agree(
    front: Seq<char>,
    buffer_rest: Seq<char>,
    text_rest: Seq<char>,
)
    requires
        front.len() <= u32::MAX,
        buffer_rest.len() == 0 || text_rest.len() == 0 || buffer_rest[0] != text_rest[0],
    ensures
        typed_count(front + buffer_rest, front + text_rest) == front.len(),
        indices_below(front.len() as int).len() == front.len(),
        forall|i: int|
            0 <= i < front.len() ==> #[trigger] indices_below(front.len() as int)[i] == i,
{
    law_common_prefix_ends_at_first_difference(front, buffer_rest, text_rest);
}

/// The shell is asked for what comes behind the word where it had nothing to add: it knew
/// only the word itself, or nothing at all. A command that it does not know is not asked
/// about again, nor is a word that may still become several.
pub proof fn law_only_complete_words_are_expanded(
    index: nat,
    base: Seq<(Seq<char>, Option<Seq<char>>)>,
    word: Seq<char>,
)
    ensures
        base.len() == 0 ==> (expands(index, base, word) <==> index > 0),
        base.len() == 1 ==> (expands(index, base, word) <==> base[0].0 == word),
        base.len() > 1 ==> !expands(index, base, word),
{
}

/// A line of fish is cut at its first tab: the completion stands in front, and its
/// description behind, without blanks around it. Without a tab, or with nothing behind it,
/// there is no description.
pub proof fn law_fish_line_is_cut_at_tab(
    completion: Seq<char>,
    front: Seq<char>,
    description: Seq<char>,
    back: Seq<char>,
)
    requires
        !completion.contains('\t'),
        forall|i: int| 0 <= i < front.len() ==> #[trigger] front[i] == ' ' || front[i] == '\t',
        forall|i: int| 0 <= i < back.len() ==> #[trigger] back[i] == ' ' || back[i] == '\t',
        description.len() > 0 ==> !is_white_space(description[0]) && !is_white_space(
            description.last(),
        ),
    ensures
        description.len() > 0 ==> fish_line(completion.push('\t') + (front + description + back))
            == (completion, Some(description)),
        fish_line(completion.push('\t') + front) == (completion, None::<Seq<char>>),
        fish_line(completion) == (completion, None::<Seq<char>>),
{
    let n = completion.len() as int;
    assert forall|i: int| 0 <= i < n implies #[trigger] completion[i] != '\t' by {
        assert(completion.contains(completion[i]));
    }
    let none = Seq::<char>::empty();
    let tail = front + description + back;
    let line = completion.push('\t') + tail;
    assert forall|i: int| 0 <= i < n implies #[trigger] line[i] != '\t' by {
        assert(line[i] == completion[i]);
    }
    lemma_position_is(line, '\t', 0, n);
    assert(line.take(n) =~= completion);
    assert(line.skip(n + 1) =~= tail);
    law_trimming_takes_blanks_at_the_ends(front, description, back);
    let blank = completion.push('\t') + front;
    assert forall|i: int| 0 <= i < n implies #[trigger] blank[i] != '\t' by {
        assert(blank[i] == completion[i]);
    }
    lemma_position_is(blank, '\t', 0, n);
    assert(blank.take(n) =~= completion);
    assert(blank.skip(n + 1) =~= front);
    law_trimming_takes_blanks_at_the_ends(front, none, none);
    assert(front + none + none =~= front);
    lemma_position_is(completion, '\t', 0, n);
}

/// Each line of output that is not blank brings one completion, in order: fish's line is
/// cut at its tab, zsh's is taken without blanks around it.
pub proof fn law_every_line_brings_a_completion(lines: Seq<Seq<char>>, line: Seq<char>, fish: bool)
    ensures
        ({
            let blank = forall|i: int| 0 <= i < line.len() ==> is_white_space(#[trigger] line[i]);
            let before = completions_in(lines, fish);
            let after = completions_in(lines.push(line), fish);
            &&& blank ==> after == before
            &&& !blank && fish ==> after == before.push(fish_line(line))
            &&& !blank && !fish ==> after == before.push((trimmed(line), None::<Seq<char>>))
            &&& completions_in(Seq::empty(), fish).len() == 0
        }),
{
    assert(lines.push(line).drop_last() =~= lines);
    lemma_trimmed_blank(line);
}

/// Trimming leaves nothing of blanks, and something of everything else.
proof fn lemma_trimmed_blank(line: Seq<char>)
    ensures
        trimmed(line).len() == 0 <==> forall|i: int|
            0 <= i < line.len() ==> is_white_space(#[trigger] line[i]),
{
    let none = Seq::<char>::empty();
    if forall|i: int| 0 <= i < line.len() ==> is_white_space(#[trigger] line[i]) {
        law_trimming_takes_blanks_at_the_ends(line, none, none);
        assert(line + none + none =~= line);
    } else {
        let i = choose|i: int| 0 <= i < line.len() && !is_white_space(#[trigger] line[i]);
        lemma_skip_white_stops(line, 0, i);
        lemma_skip_white_back_stops(line, line.len() as int, i);
    }
}

proof fn lemma_skip_white_stops(s: Seq<char>, from: int, i: int)
    requires
        0 <= from <= i < s.len(),
        !is_white_space(s[i]),
    ensures
        from <= skip_white(s, from) <= i,
    decreases i - from,
{
    if is_white_space(s[from]) {
        lemma_skip_white_stops(s, from + 1, i);
    }
}

proof fn lemma_skip_white_back_stops(s: Seq<char>, n: int, i: int)
    requires
        0 <= i < n <= s.len(),
        !is_white_space(s[i]),
    ensures
        i < skip_white_back(s, n) <= n,
    decreases n,
{
    if is_white_space(s[n - 1]) {
        lemma_skip_white_back_stops(s, n - 1, i);
    }
}

/// What fish reads from behind an opening single quote up to the closing one, which must be
/// the last character: a backslash takes a backslash or a single quote literally, and a
/// bare single quote closes.
pub open spec fn fish_token(s: Seq<char>) -> Option<Seq<char>>
    decreases s.len(),
{
    if s.len() == 0 {
        None
    } else if s[0] == '\'' {
        if s.len() == 1 {
            Some(Seq::empty())
        } else {
            None
        }
    } else if s[0] == '\\' && s.len() > 1 && (s[1] == '\\' || s[1] == '\'') {
        match fish_token(s.skip(2)) {
            Some(rest) => Some(seq![s[1]] + rest),
            None => None,
        }
    } else {
        match fish_token(s.skip(1)) {
            Some(rest) => Some(seq![s[0]] + rest),
            None => None,
        }
    }
}

/// A quoted string is one token of fish, which reads as the string itself: no quote in it
/// ends the token early, and none is left open.
pub proof fn law_fish_reads_one_token(s: Seq<char>)
    ensures
        fish_quoted(s).len() >= 2,
        fish_quoted(s)[0] == '\'',
        fish_token(fish_quoted(s).skip(1)) == Some(s),
{
    lemma_fish_token(s);
    assert(fish_quoted(s).skip(1) =~= fish_escaped(s).push('\''));
}

proof fn lemma_fish_token(s: Seq<char>)
    ensures
        fish_token(fish_escaped(s).push('\'')) == Some(s),
    decreases s.len(),
{
    let e = fish_escaped(s).push('\'');
    if s.len() > 0 {
        lemma_fish_escaped_first(s);
        lemma_fish_token(s.skip(1));
        let tail = fish_escaped(s.skip(1)).push('\'');
        if s[0] == '\\' || s[0] == '\'' {
            assert(e[0] == '\\');
            assert(e[1] == s[0]);
            assert(e.skip(2) =~= tail);
        } else {
            assert(e[0] == s[0]);
            assert(e.skip(1) =~= tail);
        }
        assert(seq![s[0]] + s.skip(1) =~= s);
    } else {
        assert(e =~= seq!['\'']);
        assert(s =~= Seq::<char>::empty());
    }
}

/// The current word is what stands between the blanks behind it and those in front of it.
pub proof fn law_current_word_is_the_last(front: Seq<char>, word: Seq<char>, back: Seq<char>)
    requires
        front.len() > 0 ==> is_white_space(front.last()),
        word.len() == 0 ==> front.len() == 0,
        forall|i: int| 0 <= i < word.len() ==> !is_white_space(#[trigger] word[i]),
        forall|i: int| 0 <= i < back.len() ==> is_white_space(#[trigger] back[i]),
    ensures
        last_word(front + word + back) == word,
{
    let s = front + word + back;
    let f = front.len() as int;
    let e = (front + word).len() as int;
    assert forall|i: int| e <= i < s.len() implies is_white_space(#[trigger] s[i]) by {
        assert(s[i] == back[i - e]);
    }
    if e > 0 {
        assert(s[e - 1] == word[e - 1 - f]);
    }
    lemma_skip_white_back_is(s, e, s.len() as int);
    assert forall|i: int| f <= i < e implies !is_white_space(#[trigger] s[i]) by {
        assert(s[i] == word[i - f]);
    }
    if f > 0 {
        assert(s[f - 1] == front.last());
    }
    lemma_word_back_is(s, f, e);
    assert(s.subrange(f, e) =~= word);
}

proof fn lemma_word_back_is(s: Seq<char>, from: int, n: int)
    requires
        0 <= from <= n <= s.len(),
        forall|i: int| from <= i < n ==> !is_white_space(#[trigger] s[i]),
        from > 0 ==> is_white_space(s[from - 1]),
    ensures
        word_back(s, n) == from,
    decreases n,
{
    if from < n {
        assert(!is_white_space(s[n - 1]));
        lemma_word_back_is(s, from, n - 1);
    }
}

/// A query is spared for the arguments of a command that is known not to exist, and for
/// nothing else: not for the command itself, nor where nothing is known.
pub proof fn law_only_unknown_commands_are_spared(word_index: nat, exists_then: Option<bool>)
    ensures
        word_index > 0 ==> is_spared(word_index, Some(false)),
        !is_spared(0, exists_then),
        !is_spared(word_index, Some(true)),
        !is_spared(word_index, None),
{
}

/// A suggestion carries text and description of its row, the score that all of them have,
/// and the positions that are typed already, counted from zero.
pub proof fn law_suggestion_carries_its_row(s: ProviderSuggestion, row: ProviderRow, i: int)
    requires
        s.is_row(row),
        0 <= i < row.matched <= u32::MAX,
    ensures
        s.text@ == row.text,
        s.description is Some <==> row.description is Some,
        s.description matches Some(d) ==> row.description == Some(d@),
        s.score == 80,
        s.match_indices@.len() == row.matched,
        s.match_indices@[i] == i,
{
}

/// Each row has its suggestion, at its position.
pub proof fn law_rows_keep_their_positions(
    out: Seq<ProviderSuggestion>,
    rows: Seq<ProviderRow>,
    i: int,
)
    requires
        stands_for(out, rows),
    ensures
        out.len() == rows.len(),
        0 <= i < rows.len() ==> out[i].text@ == rows[i].text && out[i].score == 80,
{
    if 0 <= i < rows.len() {
        assert(out[i].is_row(rows[i]));
    }
}

} // verus!
