//! Words and quotes on the command line, and text that goes into them.

use vstd::prelude::*;
use vstd::string::StringSliceAdditionalSpecFns;
use vstd::utf8::encode_utf8_valid_utf8;
use vstd::utf8::is_char_boundary_start_end_of_seq;

use crate::model::QuoteState;
use crate::text::ascii_space;
use crate::text::at_boundary;
use crate::text::byte_len;
use crate::text::chars_between;
use crate::text::chars_of;
use crate::text::is_ascii_space;
use crate::text::prefix_bytes;
use crate::text::slice_bytes;
use crate::text::utf8_len;

verus! {

// ---- Escaping ----

/// Characters that split words or trigger expansion outside of quotes. A tilde does so at
/// the start of a word only.
pub open spec fn is_meta(c: char) -> bool {
    c == ' ' || c == '\t' || c == '\n' || c == ';' || c == '&' || c == '|' || c == '<' || c == '>'
        || c == '(' || c == ')' || c == '$' || c == '`' || c == '\\' || c == '"' || c == '\'' || c
        == '*' || c == '?' || c == '[' || c == ']' || c == '{' || c == '}' || c == '#'
}

/// Characters that double quotes leave special.
pub open spec fn is_double_special(c: char) -> bool {
    c == '"' || c == '\\' || c == '$' || c == '`'
}

/// Whether a backslash goes in front of the character at `i`. A leading tilde stays bare,
/// so that the shell still expands it.
pub open spec fn takes_backslash(s: Seq<char>, i: int, quote: QuoteState) -> bool {
    match quote {
        QuoteState::Unquoted => is_meta(s[i]) || (s[i] == '~' && i != 0),
        QuoteState::DoubleQuoted => is_double_special(s[i]),
        QuoteState::SingleQuoted => false,
    }
}

/// `s` as it is typed into a word in the given quotes. In single quotes an apostrophe
/// closes them, stands escaped, and opens them again.
pub open spec fn escaped(s: Seq<char>, quote: QuoteState) -> Seq<char>
    decreases s.len(),
{
    if s.len() == 0 {
        Seq::empty()
    } else {
        let front = escaped(s.drop_last(), quote);
        if quote is SingleQuoted && s.last() == '\'' {
            front + seq!['\'', '\\', '\'', '\'']
        } else if takes_backslash(s, s.len() - 1, quote) {
            front.push('\\').push(s.last())
        } else {
            front.push(s.last())
        }
    }
}

fn meta(c: char) -> (special: bool)
    ensures
        special == is_meta(c),
{
    c == ' ' || c == '\t' || c == '\n' || c == ';' || c == '&' || c == '|' || c == '<' || c == '>'
        || c == '(' || c == ')' || c == '$' || c == '`' || c == '\\' || c == '"' || c == '\'' || c
        == '*' || c == '?' || c == '[' || c == ']' || c == '{' || c == '}' || c == '#'
}

/// Quote-context-aware shell escape for filesystem path insertions.
///
/// The shell parses words differently depending on quote state. Without matching the
/// user's current quote state, accepting a path with spaces would corrupt the command
/// line.
pub fn shell_escape_for_context(text: &str, quote: QuoteState) -> (out: String)
    ensures
        out@ == escaped(text@, quote),
{
    let s = chars_of(text);
    let mut out = String::new();
    let mut i: usize = 0;
    assert(out@ =~= escaped(s@.take(0), quote));
    while i < s.len()
        invariant
            i <= s@.len(),
            out@ == escaped(s@.take(i as int), quote),
        decreases s.len() - i,
    {
        let c = s[i];
        let ghost front = out@;
        proof {
            let now = s@.take(i + 1);
            assert(now.drop_last() =~= s@.take(i as int));
            assert(now.last() == c);
            assert(now[i as int] == c);
        }
        match quote {
            QuoteState::Unquoted => {
                if meta(c) || (c == '~' && i != 0) {
                    out.push('\\');
                }
                out.push(c);
            },
            QuoteState::SingleQuoted => {
                if c == '\'' {
                    out.push('\'');
                    out.push('\\');
                    out.push('\'');
                    out.push('\'');
                    assert(out@ =~= front + seq!['\'', '\\', '\'', '\'']);
                } else {
                    out.push(c);
                }
            },
            QuoteState::DoubleQuoted => {
                if c == '"' || c == '\\' || c == '$' || c == '`' {
                    out.push('\\');
                }
                out.push(c);
            },
        }
        i = i + 1;
    }
    assert(s@.take(i as int) =~= text@);
    out
}

// ---- The word at the cursor ----

/// Where a walk over the command line stands.
pub struct WordScan {
    pub quote: QuoteState,
    /// A backslash takes the next character literally.
    pub escaped: bool,
    /// Where the word in progress started; `None` between words.
    pub start: Option<int>,
}

/// White space and control operators end a word. Parentheses do not.
pub open spec fn is_boundary(c: char) -> bool {
    is_ascii_space(c) || c == '|' || c == '&' || c == ';' || c == '<' || c == '>'
}

/// The start of the word that position `i` belongs to.
pub open spec fn started(start: Option<int>, i: int) -> Option<int> {
    if start is Some {
        start
    } else {
        Some(i)
    }
}

pub open spec fn scan_step(scan: WordScan, i: int, c: char) -> WordScan {
    if scan.escaped {
        WordScan { escaped: false, ..scan }
    } else {
        match scan.quote {
            QuoteState::SingleQuoted => if c == '\'' {
                WordScan { quote: QuoteState::Unquoted, ..scan }
            } else {
                scan
            },
            QuoteState::DoubleQuoted => if c == '"' {
                WordScan { quote: QuoteState::Unquoted, ..scan }
            } else if c == '\\' {
                WordScan { escaped: true, ..scan }
            } else {
                scan
            },
            QuoteState::Unquoted => if c == '\\' {
                WordScan { escaped: true, start: started(scan.start, i), ..scan }
            } else if c == '\'' {
                WordScan {
                    quote: QuoteState::SingleQuoted,
                    start: started(scan.start, i),
                    ..scan
                }
            } else if c == '"' {
                WordScan {
                    quote: QuoteState::DoubleQuoted,
                    start: started(scan.start, i),
                    ..scan
                }
            } else if is_boundary(c) {
                WordScan { start: None, ..scan }
            } else {
                WordScan { start: started(scan.start, i), ..scan }
            },
        }
    }
}

/// The walk over all of `line`.
pub open spec fn word_scan(line: Seq<char>) -> WordScan
    decreases line.len(),
{
    if line.len() == 0 {
        WordScan { quote: QuoteState::Unquoted, escaped: false, start: None }
    } else {
        scan_step(word_scan(line.drop_last()), line.len() - 1, line.last())
    }
}

/// Where the word at the end of `line` starts on the screen, with its opening quote and
/// its backslashes; the length of `line` where it ends between words.
pub open spec fn raw_word_start(line: Seq<char>) -> int {
    match word_scan(line).start {
        Some(start) => start,
        None => line.len() as int,
    }
}

/// Where a walk over one word stands.
pub struct QuoteScan {
    pub quote: QuoteState,
    pub escaped: bool,
    /// Where the quote that is still open stands.
    pub open: Option<int>,
}

pub open spec fn quote_step(scan: QuoteScan, i: int, c: char) -> QuoteScan {
    if scan.escaped {
        QuoteScan { escaped: false, ..scan }
    } else {
        match scan.quote {
            QuoteState::SingleQuoted => if c == '\'' {
                QuoteScan { quote: QuoteState::Unquoted, open: None, ..scan }
            } else {
                scan
            },
            QuoteState::DoubleQuoted => if c == '"' {
                QuoteScan { quote: QuoteState::Unquoted, open: None, ..scan }
            } else if c == '\\' {
                QuoteScan { escaped: true, ..scan }
            } else {
                scan
            },
            QuoteState::Unquoted => if c == '\\' {
                QuoteScan { escaped: true, ..scan }
            } else if c == '\'' {
                QuoteScan { quote: QuoteState::SingleQuoted, open: Some(i), ..scan }
            } else if c == '"' {
                QuoteScan { quote: QuoteState::DoubleQuoted, open: Some(i), ..scan }
            } else {
                scan
            },
        }
    }
}

/// The walk over all of `word`.
pub open spec fn quote_scan(word: Seq<char>) -> QuoteScan
    decreases word.len(),
{
    if word.len() == 0 {
        QuoteScan { quote: QuoteState::Unquoted, escaped: false, open: None }
    } else {
        quote_step(quote_scan(word.drop_last()), word.len() - 1, word.last())
    }
}

/// How many characters at the front of `word` accepting a suggestion keeps: inside of
/// quotes all up to and with the quote that is still open, else none.
pub open spec fn kept_of_word(word: Seq<char>, quote: QuoteState) -> int {
    if quote is Unquoted {
        0
    } else {
        match quote_scan(word).open {
            Some(q) => q + 1,
            None => 0,
        }
    }
}

/// Where accepting a suggestion starts to delete on a command line that ends at the
/// cursor.
pub open spec fn delete_start(line: Seq<char>, quote: QuoteState) -> int {
    let start = raw_word_start(line);
    start + kept_of_word(line.skip(start), quote)
}

proof fn lemma_word_scan(line: Seq<char>)
    ensures
        match word_scan(line).start {
            Some(start) => 0 <= start < line.len(),
            None => true,
        },
    decreases line.len(),
{
    if line.len() > 0 {
        lemma_word_scan(line.drop_last());
    }
}

proof fn lemma_quote_scan(word: Seq<char>)
    ensures
        match quote_scan(word).open {
            Some(q) => 0 <= q < word.len() && (if quote_scan(word).quote is SingleQuoted {
                word[q] == '\''
            } else {
                quote_scan(word).quote is DoubleQuoted && word[q] == '"'
            }),
            None => quote_scan(word).quote is Unquoted,
        },
    decreases word.len(),
{
    if word.len() > 0 {
        lemma_quote_scan(word.drop_last());
        let before = quote_scan(word.drop_last());
        if let Some(q) = before.open {
            assert(word.drop_last()[q] == word[q]);
        }
        assert(word.last() == word[word.len() - 1]);
    }
}

fn boundary(c: char) -> (b: bool)
    ensures
        b == is_boundary(c),
{
    ascii_space(c) || c == '|' || c == '&' || c == ';' || c == '<' || c == '>'
}

/// Where the word that ends at `end` starts; `None` between words.
fn find_word_start(line: &Vec<char>, end: usize) -> (start: Option<usize>)
    requires
        end <= line@.len(),
    ensures
        match start {
            Some(at) => word_scan(line@.take(end as int)).start == Some(at as int) && at < end,
            None => word_scan(line@.take(end as int)).start is None,
        },
{
    let mut start: Option<usize> = None;
    let mut quote = QuoteState::Unquoted;
    let mut skip = false;
    let mut i: usize = 0;
    while i < end
        invariant
            i <= end <= line@.len(),
            word_scan(line@.take(i as int)).quote == quote,
            word_scan(line@.take(i as int)).escaped == skip,
            match start {
                Some(at) => word_scan(line@.take(i as int)).start == Some(at as int) && at < i,
                None => word_scan(line@.take(i as int)).start is None,
            },
        decreases end - i,
    {
        let c = line[i];
        proof {
            let now = line@.take(i + 1);
            assert(now.drop_last() =~= line@.take(i as int));
            assert(now.last() == c);
        }
        if skip {
            skip = false;
        } else {
            match quote {
                QuoteState::SingleQuoted => {
                    if c == '\'' {
                        quote = QuoteState::Unquoted;
                    }
                },
                QuoteState::DoubleQuoted => {
                    if c == '"' {
                        quote = QuoteState::Unquoted;
                    } else if c == '\\' {
                        skip = true;
                    }
                },
                QuoteState::Unquoted => {
                    if c != '\\' && c != '\'' && c != '"' && boundary(c) {
                        start = None;
                    } else {
                        if start.is_none() {
                            start = Some(i);
                        }
                        if c == '\\' {
                            skip = true;
                        } else if c == '\'' {
                            quote = QuoteState::SingleQuoted;
                        } else if c == '"' {
                            quote = QuoteState::DoubleQuoted;
                        }
                    }
                },
            }
        }
        i = i + 1;
    }
    start
}

/// Where the quote that is still open at the end of a word stands in it.
fn find_open_quote(line: &Vec<char>, from: usize, end: usize) -> (open: Option<usize>)
    requires
        from <= end <= line@.len(),
    ensures
        match open {
            Some(at) => quote_scan(line@.subrange(from as int, end as int)).open == Some(
                at as int,
            ) && at < end - from,
            None => quote_scan(line@.subrange(from as int, end as int)).open is None,
        },
{
    let mut open: Option<usize> = None;
    let mut quote = QuoteState::Unquoted;
    let mut skip = false;
    let mut i: usize = from;
    while i < end
        invariant
            from <= i <= end <= line@.len(),
            quote_scan(line@.subrange(from as int, i as int)).quote == quote,
            quote_scan(line@.subrange(from as int, i as int)).escaped == skip,
            match open {
                Some(at) => quote_scan(line@.subrange(from as int, i as int)).open == Some(
                    at as int,
                ) && at < i - from,
                None => quote_scan(line@.subrange(from as int, i as int)).open is None,
            },
        decreases end - i,
    {
        let c = line[i];
        proof {
            let now = line@.subrange(from as int, i + 1);
            assert(now.drop_last() =~= line@.subrange(from as int, i as int));
            assert(now.last() == c);
        }
        if skip {
            skip = false;
        } else {
            match quote {
                QuoteState::SingleQuoted => {
                    if c == '\'' {
                        quote = QuoteState::Unquoted;
                        open = None;
                    }
                },
                QuoteState::DoubleQuoted => {
                    if c == '"' {
                        quote = QuoteState::Unquoted;
                        open = None;
                    } else if c == '\\' {
                        skip = true;
                    }
                },
                QuoteState::Unquoted => {
                    if c == '\\' {
                        skip = true;
                    } else if c == '\'' {
                        quote = QuoteState::SingleQuoted;
                        open = Some(i - from);
                    } else if c == '"' {
                        quote = QuoteState::DoubleQuoted;
                        open = Some(i - from);
                    }
                },
            }
        }
        i = i + 1;
    }
    open
}

/// Where accepting a suggestion starts to delete, as a character offset. `cursor` is a
/// character offset into `line`.
pub fn accept_delete_start(line: &Vec<char>, cursor: usize, quote: QuoteState) -> (start: usize)
    requires
        cursor <= line@.len(),
    ensures
        start == delete_start(line@.take(cursor as int), quote),
        start <= cursor,
{
    let word: usize = match find_word_start(line, cursor) {
        Some(at) => at,
        None => cursor,
    };
    match quote {
        QuoteState::Unquoted => word,
        _ => {
            assert(line@.take(cursor as int).skip(word as int) =~= line@.subrange(
                word as int,
                cursor as int,
            ));
            match find_open_quote(line, word, cursor) {
                Some(q) => word + q + 1,
                None => word,
            }
        },
    }
}

/// Byte offset where the word the cursor sits in begins in the raw buffer, with any
/// opening quote and backslash escapes.
///
/// The accept path needs the on-screen span of the word, not the length of the decoded
/// word. At a word boundary the result is `byte_cursor`.
pub fn current_word_raw_start(buffer: &str, byte_cursor: usize) -> (start: usize)
    requires
        byte_cursor > buffer.spec_bytes().len() || at_boundary(buffer, byte_cursor),
    ensures
        ({
            let line = if byte_cursor > buffer.spec_bytes().len() {
                buffer@
            } else {
                chars_between(buffer, 0, byte_cursor as int)
            };
            match word_scan(line).start {
                Some(at) => start == utf8_len(line.take(at)),
                None => start == byte_cursor,
            }
        }),
{
    let len: usize = byte_len(buffer);
    let prefix = if byte_cursor <= len {
        proof {
            encode_utf8_valid_utf8(buffer@);
            is_char_boundary_start_end_of_seq(buffer.spec_bytes());
        }
        slice_bytes(buffer, 0, byte_cursor)
    } else {
        buffer
    };
    let line = chars_of(prefix);
    assert(line@.take(line@.len() as int) =~= prefix@);
    match find_word_start(&line, line.len()) {
        Some(at) => prefix_bytes(prefix, at),
        None => byte_cursor,
    }
}

/// Byte offset where the accept path begins deleting, given the raw word start and the
/// cursor's quote context.
///
/// Inside of an open quote the opening quote is structural: the escaped text relies on it.
/// So the deleted span starts behind the quote that is still open at the cursor.
pub fn current_word_delete_start(
    buffer: &str,
    raw_word_start: usize,
    byte_cursor: usize,
    quote: QuoteState,
) -> (start: usize)
    requires
        quote is Unquoted || ({
            &&& raw_word_start <= byte_cursor
            &&& at_boundary(buffer, raw_word_start)
            &&& byte_cursor > buffer.spec_bytes().len() || at_boundary(buffer, byte_cursor)
        }),
    ensures
        quote is Unquoted ==> start == raw_word_start,
        !(quote is Unquoted) ==> ({
            let end = if byte_cursor > buffer.spec_bytes().len() {
                buffer.spec_bytes().len() as int
            } else {
                byte_cursor as int
            };
            let word = chars_between(buffer, raw_word_start as int, end);
            start == raw_word_start + utf8_len(word.take(kept_of_word(word, quote)))
        }),
{
    match quote {
        QuoteState::Unquoted => {
            return raw_word_start;
        },
        _ => {},
    }
    let len: usize = byte_len(buffer);
    let end: usize = if byte_cursor <= len {
        byte_cursor
    } else {
        len
    };
    proof {
        encode_utf8_valid_utf8(buffer@);
        is_char_boundary_start_end_of_seq(buffer.spec_bytes());
    }
    let word = slice_bytes(buffer, raw_word_start, end);
    let chars = chars_of(word);
    assert(chars@.subrange(0, chars@.len() as int) =~= word@);
    match find_open_quote(&chars, 0, chars.len()) {
        Some(q) => raw_word_start + prefix_bytes(word, q + 1),
        None => {
            assert(word@.take(0) =~= Seq::<char>::empty());
            raw_word_start
        },
    }
}

// ---- Laws ----

/// What is deleted ends at the cursor and lies within the word there.
pub proof fn law_deletion_stays_in_word(line: Seq<char>, quote: QuoteState)
    ensures
        0 <= raw_word_start(line) <= delete_start(line, quote) <= line.len(),
{
    lemma_word_scan(line);
    lemma_quote_scan(line.skip(raw_word_start(line)));
}

proof fn lemma_scans_agree(line: Seq<char>, n: int)
    requires
        0 <= n <= line.len(),
        word_scan(line).start matches Some(start) && start <= n,
    ensures
        ({
            let start = word_scan(line).start->0;
            &&& word_scan(line.take(n)).quote == quote_scan(line.subrange(start, n)).quote
            &&& word_scan(line.take(n)).escaped == quote_scan(line.subrange(start, n)).escaped
            &&& n == start ==> word_scan(line.take(n)).quote is Unquoted && !word_scan(
                line.take(n),
            ).escaped
            &&& n > start ==> word_scan(line.take(n)).start == Some(start)
        }),
    decreases n,
{
    let start = word_scan(line).start->0;
    lemma_start_is_fresh(line, start);
    if n > start {
        lemma_scans_agree(line, n - 1);
        assert(line.take(n).drop_last() =~= line.take(n - 1));
        assert(line.subrange(start, n).drop_last() =~= line.subrange(start, n - 1));
        assert(line.take(n).last() == line.subrange(start, n).last());
    } else {
        assert(line.subrange(start, n) =~= Seq::<char>::empty());
    }
}

/// A word starts outside of quotes, and its start stays until it ends.
proof fn lemma_start_is_fresh(line: Seq<char>, start: int)
    requires
        word_scan(line).start == Some(start),
    ensures
        0 <= start < line.len(),
        word_scan(line.take(start)).quote is Unquoted,
        !word_scan(line.take(start)).escaped,
        forall|n: int|
            start < n <= line.len() ==> (#[trigger] word_scan(line.take(n))).start == Some(start),
    decreases line.len(),
{
    lemma_word_scan(line);
    lemma_quoted_in_word(line.drop_last());
    let front = line.drop_last();
    assert(line.take(line.len() as int) =~= line);
    if word_scan(front).start == Some(start) {
        lemma_start_is_fresh(front, start);
        assert(line.take(start) =~= front.take(start));
        assert forall|n: int| start < n <= line.len() implies (#[trigger] word_scan(
            line.take(n),
        )).start == Some(start) by {
            if n < line.len() {
                assert(line.take(n) =~= front.take(n));
            }
        }
    } else {
        assert(line.take(start) =~= front);
    }
}

/// Quotes and escapes occur inside of words only.
proof fn lemma_quoted_in_word(line: Seq<char>)
    ensures
        word_scan(line).start is None ==> word_scan(line).quote is Unquoted && !word_scan(
            line,
        ).escaped,
    decreases line.len(),
{
    if line.len() > 0 {
        lemma_quoted_in_word(line.drop_last());
    }
}

/// Where the cursor stands inside of quotes, accepting a suggestion leaves the quote that
/// opened them: it is the last character in front of what is deleted.
pub proof fn law_open_quote_survives(line: Seq<char>, quote: QuoteState)
    requires
        word_scan(line).quote == quote,
        !(quote is Unquoted),
    ensures
        delete_start(line, quote) > raw_word_start(line),
        line[delete_start(line, quote) - 1] == (if quote is SingleQuoted {
            '\''
        } else {
            '"'
        }),
{
    lemma_quoted_in_word(line);
    lemma_word_scan(line);
    let start = raw_word_start(line);
    lemma_scans_agree(line, line.len() as int);
    assert(line.take(line.len() as int) =~= line);
    assert(line.subrange(start, line.len() as int) =~= line.skip(start));
    let word = line.skip(start);
    lemma_quote_scan(word);
    let q = quote_scan(word).open->0;
    assert(word[q] == line[start + q]);
}

/// Characters on which a shell acts outside of quotes: white space, operators, expansions,
/// patterns, quotes and comments.
pub open spec fn is_shell_special(c: char) -> bool {
    c == ' ' || c == '\t' || c == '\n' || c == ';' || c == '&' || c == '|' || c == '<' || c == '>'
        || c == '(' || c == ')' || c == '$' || c == '`' || c == '\\' || c == '"' || c == '\'' || c
        == '*' || c == '?' || c == '[' || c == ']' || c == '{' || c == '}' || c == '#'
}

/// What a shell takes of text behind a command line: the characters it reads literally,
/// and whether it met one that it acts on.
pub struct ShellRead {
    pub quote: QuoteState,
    pub escaped: bool,
    pub text: Seq<char>,
    pub acted: bool,
}

/// One character, as a shell reads it. Inside of double quotes a backslash stands for
/// itself, except in front of a special character. A backslash in front of a line feed
/// joins two lines, which counts as acting.
pub open spec fn shell_step(read: ShellRead, c: char) -> ShellRead {
    if read.escaped {
        if c == '\n' {
            ShellRead { escaped: false, acted: true, ..read }
        } else if read.quote is DoubleQuoted && c != '"' && c != '\\' && c != '$' && c != '`' {
            ShellRead { escaped: false, text: read.text.push('\\').push(c), ..read }
        } else {
            ShellRead { escaped: false, text: read.text.push(c), ..read }
        }
    } else {
        match read.quote {
            QuoteState::SingleQuoted => if c == '\'' {
                ShellRead { quote: QuoteState::Unquoted, ..read }
            } else {
                ShellRead { text: read.text.push(c), ..read }
            },
            QuoteState::DoubleQuoted => if c == '"' {
                ShellRead { quote: QuoteState::Unquoted, ..read }
            } else if c == '\\' {
                ShellRead { escaped: true, ..read }
            } else {
                ShellRead { text: read.text.push(c), acted: read.acted || c == '$' || c == '`', ..read }
            },
            QuoteState::Unquoted => if c == '\\' {
                ShellRead { escaped: true, ..read }
            } else if c == '\'' {
                ShellRead { quote: QuoteState::SingleQuoted, ..read }
            } else if c == '"' {
                ShellRead { quote: QuoteState::DoubleQuoted, ..read }
            } else {
                ShellRead { text: read.text.push(c), acted: read.acted || is_shell_special(c), ..read }
            },
        }
    }
}

/// Text typed inside of the given quotes, as a shell reads it.
pub open spec fn shell_reads(s: Seq<char>, quote: QuoteState) -> ShellRead
    decreases s.len(),
{
    if s.len() == 0 {
        ShellRead { quote, escaped: false, text: Seq::empty(), acted: false }
    } else {
        shell_step(shell_reads(s.drop_last(), quote), s.last())
    }
}

proof fn lemma_reads_push(s: Seq<char>, c: char, quote: QuoteState)
    ensures
        shell_reads(s.push(c), quote) == shell_step(shell_reads(s, quote), c),
{
    assert(s.push(c).drop_last() =~= s);
}

/// The shell reads escaped text as the text itself, acts on none of it, and is left in the
/// quotes it was in. A line feed cannot be escaped by a backslash; a tilde at the front is
/// not looked at, because the shell is meant to expand it.
pub proof fn law_shell_reads_what_was_escaped(s: Seq<char>, quote: QuoteState)
    requires
        quote is Unquoted ==> !s.contains('\n'),
    ensures
        shell_reads(escaped(s, quote), quote) == (ShellRead {
            quote,
            escaped: false,
            text: s,
            acted: false,
        }),
    decreases s.len(),
{
    if s.len() > 0 {
        let front = s.drop_last();
        let c = s.last();
        assert(c == s[s.len() - 1]);
        if quote is Unquoted {
            assert(c != '\n') by {
                if c == '\n' {
                    assert(s.contains('\n'));
                }
            }
            assert(!front.contains('\n')) by {
                if front.contains('\n') {
                    let i = choose|i: int| 0 <= i < front.len() && front[i] == '\n';
                    assert(s[i] == '\n');
                }
            }
        }
        law_shell_reads_what_was_escaped(front, quote);
        let e = escaped(front, quote);
        assert(front.push(c) =~= s);
        if quote is SingleQuoted && c == '\'' {
            lemma_reads_push(e, '\'', quote);
            lemma_reads_push(e.push('\''), '\\', quote);
            lemma_reads_push(e.push('\'').push('\\'), '\'', quote);
            lemma_reads_push(e.push('\'').push('\\').push('\''), '\'', quote);
            assert(e + seq!['\'', '\\', '\'', '\''] =~= e.push('\'').push('\\').push('\'').push(
                '\'',
            ));
        } else if takes_backslash(s, s.len() - 1, quote) {
            lemma_reads_push(e, '\\', quote);
            lemma_reads_push(e.push('\\'), c, quote);
        } else {
            lemma_reads_push(e, c, quote);
        }
    } else {
        assert(s =~= Seq::<char>::empty());
    }
}

/// Outside of quotes exactly the characters on which a shell acts get a backslash, and a
/// tilde behind the first character. In double quotes those do that are special there, in
/// single quotes none; there an apostrophe ends the quotes, stands escaped, and starts them
/// again.
pub proof fn law_special_characters_get_a_backslash(s: Seq<char>, c: char)
    ensures
        escaped(s.push(c), QuoteState::Unquoted) == escaped(s, QuoteState::Unquoted) + (
        if is_shell_special(c) || (c == '~' && s.len() > 0) {
            seq!['\\', c]
        } else {
            seq![c]
        }),
        escaped(s.push(c), QuoteState::DoubleQuoted) == escaped(s, QuoteState::DoubleQuoted) + (
        if c == '"' || c == '\\' || c == '$' || c == '`' {
            seq!['\\', c]
        } else {
            seq![c]
        }),
        escaped(s.push(c), QuoteState::SingleQuoted) == escaped(s, QuoteState::SingleQuoted) + (
        if c == '\'' {
            seq!['\'', '\\', '\'', '\'']
        } else {
            seq![c]
        }),
        forall|quote: QuoteState| #[trigger] escaped(Seq::empty(), quote) == Seq::<char>::empty(),
{
    assert(s.push(c).drop_last() =~= s);
    let u = escaped(s, QuoteState::Unquoted);
    assert(u.push('\\').push(c) =~= u + seq!['\\', c]);
    assert(u.push(c) =~= u + seq![c]);
    let d = escaped(s, QuoteState::DoubleQuoted);
    assert(d.push('\\').push(c) =~= d + seq!['\\', c]);
    assert(d.push(c) =~= d + seq![c]);
    let q = escaped(s, QuoteState::SingleQuoted);
    assert(q.push(c) =~= q + seq![c]);
}

/// Blanks and control operators, which stand between words.
pub open spec fn is_separator(c: char) -> bool {
    c == ' ' || c == '\t' || c == '\n' || c == '\r' || c == '\u{C}' || c == '|' || c == '&' || c
        == ';' || c == '<' || c == '>'
}

/// Neither a quote nor a backslash occurs.
pub open spec fn is_unquoted_text(s: Seq<char>) -> bool {
    forall|i: int|
        0 <= i < s.len() ==> #[trigger] s[i] != '\'' && s[i] != '"' && s[i] != '\\'
}

/// A command line that ends between two words, and in which nothing is quoted.
pub open spec fn is_plain_front(s: Seq<char>) -> bool {
    is_unquoted_text(s) && (s.len() > 0 ==> is_separator(s.last()))
}

/// One word in which nothing is quoted.
pub open spec fn is_plain_word(s: Seq<char>) -> bool {
    is_unquoted_text(s) && forall|i: int| 0 <= i < s.len() ==> !is_separator(#[trigger] s[i])
}

proof fn lemma_scan_unquoted(s: Seq<char>)
    requires
        is_unquoted_text(s),
    ensures
        word_scan(s).quote is Unquoted,
        !word_scan(s).escaped,
        s.len() == 0 || is_separator(s.last()) ==> word_scan(s).start is None,
    decreases s.len(),
{
    if s.len() > 0 {
        let t = s.drop_last();
        assert forall|i: int| 0 <= i < t.len() implies #[trigger] t[i] != '\'' && t[i] != '"'
            && t[i] != '\\' by {
            assert(t[i] == s[i]);
        }
        lemma_scan_unquoted(t);
        assert(s.last() == s[s.len() - 1]);
    }
}

proof fn lemma_scan_word(front: Seq<char>, word: Seq<char>)
    requires
        word_scan(front).start is None,
        is_plain_word(word),
    ensures
        word_scan(front + word).quote is Unquoted,
        !word_scan(front + word).escaped,
        word.len() > 0 ==> word_scan(front + word).start == Some(front.len() as int),
        word.len() == 0 ==> word_scan(front + word).start is None,
    decreases word.len(),
{
    lemma_quoted_in_word(front);
    if word.len() == 0 {
        assert(front + word =~= front);
    } else {
        let w = word.drop_last();
        assert forall|i: int| 0 <= i < w.len() implies #[trigger] w[i] != '\'' && w[i] != '"'
            && w[i] != '\\' by {
            assert(w[i] == word[i]);
        }
        assert forall|i: int| 0 <= i < w.len() implies !is_separator(#[trigger] w[i]) by {
            assert(w[i] == word[i]);
        }
        lemma_scan_word(front, w);
        assert((front + word).drop_last() =~= front + w);
        assert((front + word).last() == word[word.len() - 1]);
    }
}

/// The replaced word reaches back to where the walk over the line was last between words:
/// an accepted row replaces all of the word in front of the cursor, and nothing where there
/// is none.
pub proof fn law_whole_word_is_replaced(front: Seq<char>, word: Seq<char>)
    requires
        word_scan(front).start is None,
        is_plain_word(word),
    ensures
        delete_start(front + word, QuoteState::Unquoted) == front.len(),
{
    lemma_scan_word(front, word);
}

/// Every blank and every control operator ends a word, and nothing else does outside of
/// quotes: what stands in front of the last of them stays.
pub proof fn law_word_starts_behind_separator(front: Seq<char>, word: Seq<char>)
    requires
        is_plain_front(front),
        is_plain_word(word),
    ensures
        word_scan(front).start is None,
        delete_start(front + word, QuoteState::Unquoted) == front.len(),
{
    lemma_scan_unquoted(front);
    law_whole_word_is_replaced(front, word);
}

proof fn lemma_scan_escaped(front: Seq<char>, s: Seq<char>)
    requires
        word_scan(front).start is None,
        forall|i: int| 0 <= i < s.len() ==> #[trigger] s[i] != '\r' && s[i] != '\u{C}',
    ensures
        ({
            let scan = word_scan(front + escaped(s, QuoteState::Unquoted));
            &&& scan.quote is Unquoted
            &&& !scan.escaped
            &&& s.len() > 0 ==> scan.start == Some(front.len() as int)
            &&& s.len() == 0 ==> scan.start is None
        }),
        s.len() > 0 ==> escaped(s, QuoteState::Unquoted).len() > 0,
    decreases s.len(),
{
    let e = escaped(s, QuoteState::Unquoted);
    lemma_quoted_in_word(front);
    if s.len() == 0 {
        assert(front + e =~= front);
    } else {
        let t = s.drop_last();
        let c = s.last();
        assert forall|i: int| 0 <= i < t.len() implies #[trigger] t[i] != '\r' && t[i]
            != '\u{C}' by {
            assert(t[i] == s[i]);
        }
        assert(c == s[s.len() - 1]);
        lemma_scan_escaped(front, t);
        let f = escaped(t, QuoteState::Unquoted);
        if t.len() == 0 {
            assert(f =~= Seq::<char>::empty());
        }
        if takes_backslash(s, s.len() - 1, QuoteState::Unquoted) {
            let mid = front + f.push('\\');
            assert((front + e).drop_last() =~= mid);
            assert((front + e).last() == c);
            assert(mid.drop_last() =~= front + f);
            assert(mid.last() == '\\');
            assert(word_scan(mid) == scan_step(word_scan(front + f), mid.len() - 1, '\\'));
        } else {
            assert((front + e).drop_last() =~= front + f);
            assert((front + e).last() == c);
        }
    }
}

/// Text that was typed escaped is one word again: accepting another row replaces all of it,
/// however many blanks, operators and quotes are in it. (A carriage return or a form feed
/// gets no backslash.)
pub proof fn law_escaped_text_is_one_word(front: Seq<char>, s: Seq<char>)
    requires
        word_scan(front).start is None,
        forall|i: int| 0 <= i < s.len() ==> #[trigger] s[i] != '\r' && s[i] != '\u{C}',
    ensures
        delete_start(front + escaped(s, QuoteState::Unquoted), QuoteState::Unquoted) == front.len(),
{
    lemma_scan_escaped(front, s);
    let e = escaped(s, QuoteState::Unquoted);
    if s.len() == 0 {
        assert(front + e =~= front);
    }
}

proof fn lemma_scan_in_quotes(front: Seq<char>, s: Seq<char>, quote: QuoteState)
    requires
        word_scan(front).start is None,
        quote is SingleQuoted ==> !s.contains('\''),
        !(quote is Unquoted),
    ensures
        ({
            let q = if quote is SingleQuoted {
                '\''
            } else {
                '"'
            };
            let tail = seq![q] + escaped(s, quote);
            &&& word_scan(front + tail).start == Some(front.len() as int)
            &&& word_scan(front + tail).quote == quote
            &&& !word_scan(front + tail).escaped
            &&& quote_scan(tail).open == Some(0int)
            &&& quote_scan(tail).quote == quote
            &&& !quote_scan(tail).escaped
        }),
    decreases s.len(),
{
    let q = if quote is SingleQuoted {
        '\''
    } else {
        '"'
    };
    let tail = seq![q] + escaped(s, quote);
    lemma_quoted_in_word(front);
    if s.len() == 0 {
        assert(tail =~= seq![q]);
        assert((front + tail).drop_last() =~= front);
        assert((front + tail).last() == q);
        assert(tail.drop_last() =~= Seq::<char>::empty());
        assert(tail.last() == q);
        assert(quote_scan(tail.drop_last()) == (QuoteScan {
            quote: QuoteState::Unquoted,
            escaped: false,
            open: None,
        }));
    } else {
        let t = s.drop_last();
        let c = s.last();
        assert(s.contains(s[s.len() - 1]));
        if t.contains('\'') {
            let i = choose|i: int| 0 <= i < t.len() && t[i] == '\'';
            assert(s[i] == '\'');
        }
        lemma_scan_in_quotes(front, t, quote);
        let shorter = seq![q] + escaped(t, quote);
        if takes_backslash(s, s.len() - 1, quote) {
            assert(tail =~= shorter.push('\\').push(c));
            let mid = shorter.push('\\');
            assert((front + tail).drop_last() =~= front + mid);
            assert((front + tail).last() == c);
            assert((front + mid).drop_last() =~= front + shorter);
            assert((front + mid).last() == '\\');
            assert(word_scan(front + mid) == scan_step(
                word_scan(front + shorter),
                (front + mid).len() - 1,
                '\\',
            ));
            assert(tail.drop_last() =~= mid);
            assert(tail.last() == c);
            assert(mid.drop_last() =~= shorter);
            assert(quote_scan(mid) == quote_step(quote_scan(shorter), mid.len() - 1, '\\'));
        } else {
            assert(tail =~= shorter.push(c));
            assert((front + tail).drop_last() =~= front + shorter);
            assert((front + tail).last() == c);
            assert(tail.drop_last() =~= shorter);
            assert(tail.last() == c);
        }
    }
}

/// Inside of quotes an accepted row replaces all behind the quote that opened them, blanks
/// and operators included. (An apostrophe in single quotes ends them, and starts others.)
pub proof fn law_all_behind_open_quote_is_replaced(
    front: Seq<char>,
    s: Seq<char>,
    quote: QuoteState,
)
    requires
        word_scan(front).start is None,
        quote is SingleQuoted ==> !s.contains('\''),
    ensures
        quote is SingleQuoted ==> delete_start(front + seq!['\''] + s, quote) == front.len() + 1,
        quote is SingleQuoted ==> delete_start(front + seq!['\''] + escaped(s, quote), quote)
            == front.len() + 1,
        quote is DoubleQuoted ==> delete_start(front + seq!['"'] + escaped(s, quote), quote)
            == front.len() + 1,
{
    if !(quote is Unquoted) {
        lemma_scan_in_quotes(front, s, quote);
        let q = if quote is SingleQuoted {
            '\''
        } else {
            '"'
        };
        let tail = seq![q] + escaped(s, quote);
        assert(front + seq![q] + escaped(s, quote) =~= front + tail);
        assert((front + tail).skip(front.len() as int) =~= tail);
        if quote is SingleQuoted {
            lemma_single_quoted_is_verbatim(s);
        }
    }
}

proof fn lemma_single_quoted_is_verbatim(s: Seq<char>)
    requires
        !s.contains('\''),
    ensures
        escaped(s, QuoteState::SingleQuoted) == s,
    decreases s.len(),
{
    if s.len() > 0 {
        let t = s.drop_last();
        assert(s.contains(s[s.len() - 1]));
        if t.contains('\'') {
            let i = choose|i: int| 0 <= i < t.len() && t[i] == '\'';
            assert(s[i] == '\'');
        }
        lemma_single_quoted_is_verbatim(t);
        assert(t.push(s.last()) =~= s);
    } else {
        assert(escaped(s, QuoteState::SingleQuoted) =~= s);
    }
}

/// Quotes inside of a word do not end it, and blanks between them do not either: the word
/// starts at its first character, quoted or not.
pub proof fn law_quoted_blanks_stay_in_word(
    front: Seq<char>,
    head: Seq<char>,
    quoted: Seq<char>,
    rest: Seq<char>,
)
    requires
        is_plain_front(front),
        is_plain_word(head),
        is_plain_word(rest),
        forall|i: int| 0 <= i < quoted.len() ==> #[trigger] quoted[i] != '\'',
    ensures
        delete_start(
            front + head + seq!['\''] + quoted + seq!['\''] + rest,
            QuoteState::Unquoted,
        ) == front.len(),
{
    lemma_scan_unquoted(front);
    lemma_scan_word(front, head);
    lemma_scan_between_quotes(front, head, quoted);
    let line = front + head + seq!['\''] + quoted + seq!['\''];
    assert(line.drop_last() =~= front + head + seq!['\''] + quoted);
    lemma_scan_continues(line, rest);
}

proof fn lemma_scan_between_quotes(front: Seq<char>, head: Seq<char>, quoted: Seq<char>)
    requires
        word_scan(front).start is None,
        is_plain_word(head),
        forall|i: int| 0 <= i < quoted.len() ==> #[trigger] quoted[i] != '\'',
    ensures
        word_scan(front + head + seq!['\''] + quoted) == (WordScan {
            quote: QuoteState::SingleQuoted,
            escaped: false,
            start: Some(front.len() as int),
        }),
    decreases quoted.len(),
{
    lemma_scan_word(front, head);
    let line = front + head + seq!['\''] + quoted;
    if quoted.len() == 0 {
        assert(line.drop_last() =~= front + head);
    } else {
        let q = quoted.drop_last();
        assert forall|i: int| 0 <= i < q.len() implies #[trigger] q[i] != '\'' by {
            assert(q[i] == quoted[i]);
        }
        lemma_scan_between_quotes(front, head, q);
        assert(line.drop_last() =~= front + head + seq!['\''] + q);
        assert(line.last() == quoted[quoted.len() - 1]);
    }
}

proof fn lemma_scan_continues(line: Seq<char>, rest: Seq<char>)
    requires
        word_scan(line).quote is Unquoted,
        !word_scan(line).escaped,
        word_scan(line).start is Some,
        is_plain_word(rest),
    ensures
        word_scan(line + rest) == word_scan(line),
    decreases rest.len(),
{
    if rest.len() == 0 {
        assert(line + rest =~= line);
    } else {
        let r = rest.drop_last();
        assert forall|i: int| 0 <= i < r.len() implies #[trigger] r[i] != '\'' && r[i] != '"'
            && r[i] != '\\' by {
            assert(r[i] == rest[i]);
        }
        assert forall|i: int| 0 <= i < r.len() implies !is_separator(#[trigger] r[i]) by {
            assert(r[i] == rest[i]);
        }
        lemma_scan_continues(line, r);
        assert((line + rest).drop_last() =~= line + r);
        assert((line + rest).last() == rest[rest.len() - 1]);
    }
}

} // verus!
