//! Accepting a suggestion.

use vstd::prelude::*;
use vstd::string::StrSliceExecFns;
use vstd::string::StringExecFns;
use vstd::utf8::encode_utf8;

use crate::handler::keys::utf8_bytes;
use crate::handler::lifecycle::cursor_in_line;
use crate::handler::merge::find_completion;
use crate::handler::merge::first_completion;
use crate::handler::merge::is_pinned;
use crate::handler::overlay::push_repeated;
use crate::handler::overlay::repeated;
use crate::handler::quoting::accept_delete_start;
use crate::handler::quoting::delete_start;
use crate::handler::quoting::escaped;
use crate::handler::quoting::is_plain_front;
use crate::handler::quoting::is_plain_word;
use crate::handler::quoting::law_deletion_stays_in_word;
use crate::handler::quoting::law_shell_reads_what_was_escaped;
use crate::handler::quoting::law_word_starts_behind_separator;
use crate::handler::quoting::shell_escape_for_context;
use crate::handler::quoting::shell_reads;
use crate::handler::quoting::ShellRead;
use crate::handler::state::HandlerState;
use crate::handler::state::InputHandler;
use crate::handler::state::ShellKind;
use crate::handler::state::Teardown;
use crate::input::Key;
use crate::model::QuoteState;
use crate::model::Suggestion;
use crate::model::SuggestionKind;
use crate::model::TerminalSnapshot;
use crate::predict::edit;
use crate::predict::law_backspace_takes_one_character;
use crate::predict::law_typing_inserts_at_cursor;
use crate::text::chars_of;
use crate::text::string_of;

verus! {

/// The suggestion is a full command line, which replaces all of the line in front of the
/// cursor.
pub open spec fn is_full_line(kind: SuggestionKind) -> bool {
    kind == SuggestionKind::History || kind == SuggestionKind::ProviderValue || kind
        == SuggestionKind::Llm
}

pub open spec fn is_path(kind: SuggestionKind) -> bool {
    kind == SuggestionKind::FilePath || kind == SuggestionKind::Directory
}

impl TerminalSnapshot {
    /// The cursor, as far as it lies within the line.
    pub open spec fn cursor(self) -> int {
        if self.buffer_cursor < self.line().len() {
            self.buffer_cursor as int
        } else {
            self.line().len() as int
        }
    }

    /// Where the word in front of the cursor starts that an accepted suggestion replaces.
    pub open spec fn word_start(self) -> int {
        delete_start(self.line().take(self.cursor()), self.context.quote_state)
    }

    /// The text that accepting a suggestion types.
    pub open spec fn replacement(self, row: Suggestion) -> Seq<char> {
        if is_path(row.kind) {
            escaped(row.text@, self.context.quote_state)
        } else {
            row.text@
        }
    }

    /// How many characters in front of the cursor accepting a suggestion deletes.
    pub open spec fn deleted_by(self, row: Suggestion) -> int {
        if is_full_line(row.kind) {
            self.cursor()
        } else {
            self.cursor() - self.word_start()
        }
    }

    /// The bytes that accepting a suggestion sends: one deletion per character, then the
    /// replacement.
    pub open spec fn accept_bytes(self, row: Suggestion) -> Seq<u8> {
        repeated(0x7F, self.deleted_by(row)) + encode_utf8(self.replacement(row))
    }

    /// The line up to the end of the replacement.
    pub open spec fn predicted_head(self, row: Suggestion) -> Seq<char> {
        self.line().take(self.cursor() - self.deleted_by(row)) + self.replacement(row)
    }

    /// The line in which the replacement stands for the deleted characters.
    pub open spec fn predicted_line(self, row: Suggestion) -> Seq<char> {
        self.predicted_head(row) + self.line().skip(self.cursor())
    }
}

impl HandlerState {
    /// The row that the accept key acts on: the selected one, or the first completion
    /// where that is configured. The latter is never the pinned "Ask AI" row.
    pub open spec fn effective(self) -> Option<usize> {
        match self.popup.overlay.selected {
            Some(i) => Some(i),
            None => if self.settings.tab_accepts_top && first_completion(self.popup.suggestions, 0)
                < self.popup.suggestions.len() {
                Some(first_completion(self.popup.suggestions, 0) as usize)
            } else {
                None
            },
        }
    }

    /// The row that accepting takes, if there is one.
    pub open spec fn accepted_row(self) -> Option<Suggestion> {
        match self.effective() {
            Some(i) => if i < self.popup.suggestions.len() {
                Some(self.popup.suggestions[i as int])
            } else {
                None
            },
            None => None,
        }
    }

    pub open spec fn asks_ai(self) -> bool {
        self.accepted_row() matches Some(row) && row.kind == SuggestionKind::AskAi
    }

    /// The tracked line after a row was accepted that is followed by a space.
    pub open spec fn line_after_accept(self, term: TerminalSnapshot, row: Suggestion) -> (
        Seq<char>,
        int,
    ) {
        if self.settings.shell_kind == ShellKind::Zsh {
            self.line
        } else if is_full_line(row.kind) {
            (spaced(row.text@), spaced(row.text@).len() as int)
        } else if term.command_buffer is Some {
            (term.line(), term.buffer_cursor as int)
        } else {
            self.line
        }
    }
}

/// The text ends with the character.
pub open spec fn ends_in(text: Seq<char>, c: char) -> bool {
    text.len() > 0 && text.last() == c
}

/// The text with a space behind it, unless a value is to follow.
pub open spec fn spaced(text: Seq<char>) -> Seq<char> {
    if ends_in(text, '=') {
        text
    } else {
        text.push(' ')
    }
}

fn ends_with_char(text: &str, c: char) -> (ends: bool)
    ensures
        ends == ends_in(text@, c),
{
    let len: usize = text.unicode_len();
    len > 0 && text.get_char(len - 1) == c
}

fn full_line(kind: SuggestionKind) -> (full: bool)
    ensures
        full == is_full_line(kind),
{
    kind == SuggestionKind::History || kind == SuggestionKind::ProviderValue || kind
        == SuggestionKind::Llm
}

/// What accepting a row sends, and the text of it.
#[derive(Debug)]
pub struct Accepted {
    /// The bytes to forward to the shell.
    pub forward: Vec<u8>,
    /// The text that the bytes type.
    pub replacement: String,
}

/// What follows on accepting a row.
#[derive(Debug)]
pub enum AfterAccept {
    /// The popup goes.
    Clear(Teardown),
    /// A directory was accepted: suggestions for this line, with the cursor there, are
    /// shown next.
    Chain { predicted: String, cursor: usize },
}

impl InputHandler {
    /// The row that the accept key acts on.
    pub fn effective_selected(&self) -> (at: Option<usize>)
        ensures
            at == self@.effective(),
    {
        match self.popup.overlay.selected {
            Some(i) => Some(i),
            None => if self.settings.tab_accepts_top {
                find_completion(&self.popup.suggestions)
            } else {
                None
            },
        }
    }

    /// Whether the accept key acts on the pinned "Ask AI" row.
    pub fn effective_selection_is_ask_ai(&self) -> (asks: bool)
        ensures
            asks == self@.asks_ai(),
    {
        match self.effective_selected() {
            Some(i) => i < self.popup.suggestions.len() && self.popup.suggestions[i].kind
                == SuggestionKind::AskAi,
            None => false,
        }
    }

    /// What accepting the effective row sends; nothing where there is no such row.
    pub fn accept_suggestion_locked(&self, term: &TerminalSnapshot) -> (accepted: Option<Accepted>)
        ensures
            accepted is Some == self@.accepted_row() is Some,
            accepted matches Some(a) ==> a.forward@ == term.accept_bytes(self@.accepted_row()->0)
                && a.replacement@ == term.replacement(self@.accepted_row()->0),
    {
        let at: usize = match self.effective_selected() {
            Some(i) => i,
            None => {
                return None;
            },
        };
        if at >= self.popup.suggestions.len() {
            return None;
        }
        let row = &self.popup.suggestions[at];
        let line = term.buffer_text();
        let cursor: usize = cursor_in_line(term.buffer_cursor, line.as_str());
        let deleted: usize = if full_line(row.kind) {
            cursor
        } else {
            let chars = chars_of(line.as_str());
            cursor - accept_delete_start(&chars, cursor, term.context.quote_state)
        };
        let replacement = if row.kind == SuggestionKind::FilePath || row.kind
            == SuggestionKind::Directory {
            shell_escape_for_context(row.text.as_str(), term.context.quote_state)
        } else {
            row.text.clone()
        };
        let mut forward: Vec<u8> = Vec::new();
        push_repeated(&mut forward, 0x7F, deleted);
        let mut typed = utf8_bytes(replacement.as_str());
        forward.append(&mut typed);
        assert(forward@ =~= term.accept_bytes(*row));
        Some(Accepted { forward, replacement })
    }

    /// The bytes that accepting the effective row sends. Nothing where the terminal's
    /// state cannot be read.
    pub fn accept_suggestion(&self, term: Option<&TerminalSnapshot>) -> (forward: Vec<u8>)
        ensures
            forward@ == (match (term, self@.accepted_row()) {
                (Some(t), Some(row)) => t.accept_bytes(row),
                _ => Seq::empty(),
            }),
    {
        match term {
            Some(t) => match self.accept_suggestion_locked(t) {
                Some(accepted) => accepted.forward,
                None => Vec::new(),
            },
            None => Vec::new(),
        }
    }

    /// Accepts the effective row. A directory is followed by suggestions inside of it.
    pub fn accept_with_chaining(&mut self, term: Option<&TerminalSnapshot>) -> (accepted: (
        Vec<u8>,
        AfterAccept,
    ))
        ensures
            match (term, old(self)@.accepted_row()) {
                (Some(t), Some(row)) => if row.kind == SuggestionKind::History {
                    &&& accepted.0@ == t.accept_bytes(row)
                    &&& accepted.1 == AfterAccept::Clear(old(self)@.teardown())
                    &&& final(self)@ == old(self)@.dismissed()
                } else if !ends_in(row.text@, '/') {
                    &&& accepted.0@ == (if ends_in(row.text@, '=') {
                        t.accept_bytes(row)
                    } else {
                        t.accept_bytes(row).push(0x20)
                    })
                    &&& accepted.1 == AfterAccept::Clear(old(self)@.teardown())
                    &&& final(self)@ == (HandlerState {
                        line: old(self)@.line_after_accept(*t, row),
                        ..old(self)@.dismissed()
                    })
                } else {
                    &&& accepted.0@ == t.accept_bytes(row)
                    &&& accepted.1 matches AfterAccept::Chain { predicted, cursor }
                    &&& predicted@ == t.predicted_line(row)
                    &&& cursor == t.predicted_head(row).len()
                    &&& final(self)@ == (HandlerState {
                        line: if old(self)@.settings.shell_kind == ShellKind::Zsh {
                            old(self)@.line
                        } else {
                            (t.predicted_line(row), t.predicted_head(row).len() as int)
                        },
                        ..old(self)@
                    })
                },
                _ => {
                    &&& accepted.0@ == Seq::<u8>::empty()
                    &&& accepted.1 == AfterAccept::Clear(old(self)@.teardown())
                    &&& final(self)@ == old(self)@.dismissed()
                },
            },
            old(self).wf() && (term matches Some(t) ==> t.buffer_cursor <= t.line().len())
                ==> final(self).wf(),
    {
        let ghost before = self@;
        let (t, chosen) = match (term, self.effective_selected()) {
            (Some(t), Some(i)) => {
                if i >= self.popup.suggestions.len() {
                    return (Vec::new(), AfterAccept::Clear(self.dismiss()));
                }
                (t, self.popup.suggestions[i].clone())
            },
            _ => {
                return (Vec::new(), AfterAccept::Clear(self.dismiss()));
            },
        };
        let accepted = match self.accept_suggestion_locked(t) {
            Some(accepted) => accepted,
            None => {
                return (Vec::new(), AfterAccept::Clear(self.dismiss()));
            },
        };
        let mut forward = accepted.forward;
        if chosen.kind == SuggestionKind::History {
            return (forward, AfterAccept::Clear(self.dismiss()));
        }
        if !ends_with_char(chosen.text.as_str(), '/') {
            let value_follows = ends_with_char(chosen.text.as_str(), '=');
            if self.settings.shell_kind != ShellKind::Zsh {
                if full_line(chosen.kind) {
                    let mut line = chosen.text.clone();
                    if !value_follows {
                        line.push(' ');
                    }
                    self.input_model.cursor = line.as_str().unicode_len();
                    self.input_model.buffer = line;
                } else if let Some(line) = &t.command_buffer {
                    self.input_model.buffer = line.clone();
                    self.input_model.cursor = t.buffer_cursor;
                }
            }
            let teardown = self.dismiss();
            if !value_follows {
                forward.push(0x20);
            }
            return (forward, AfterAccept::Clear(teardown));
        }
        let text = t.buffer_text();
        let line = chars_of(text.as_str());
        let at: usize = cursor_in_line(t.buffer_cursor, text.as_str());
        let start: usize = if full_line(chosen.kind) {
            0
        } else {
            accept_delete_start(&line, at, t.context.quote_state)
        };
        let mut predicted = string_of(&line, 0, start);
        predicted.append(accepted.replacement.as_str());
        assert(predicted@ =~= t.predicted_head(chosen));
        let cursor: usize = predicted.as_str().unicode_len();
        let rest = string_of(&line, at, line.len());
        predicted.append(rest.as_str());
        assert(predicted@ =~= t.predicted_line(chosen));
        if self.settings.shell_kind != ShellKind::Zsh {
            self.input_model.buffer = predicted.clone();
            self.input_model.cursor = cursor;
        }
        (forward, AfterAccept::Chain { predicted, cursor })
    }

    /// The suggestions for the line that an accepted directory leads to are here. Where
    /// there are none the popup goes, and what is to be cleared is returned; else it is to
    /// be painted.
    pub fn finish_chain(&mut self, found: Option<Vec<Suggestion>>) -> (teardown: Option<Teardown>)
        ensures
            match found {
                Some(rows) if rows@.len() > 0 => {
                    &&& teardown is None
                    &&& final(self)@ == old(self)@.showing(final(self)@.popup.suggestions)
                    &&& is_pinned(
                        rows@,
                        old(self)@.ask_ai,
                        final(self)@.popup.suggestions,
                    )
                },
                _ => {
                    &&& teardown == Some(old(self)@.teardown())
                    &&& final(self)@ == old(self)@.dismissed()
                },
            },
            final(self).wf() == old(self).wf(),
    {
        match found {
            Some(rows) => {
                if rows.len() > 0 {
                    self.replace_suggestions_and_reset_overlay(rows);
                    self.popup.visible = true;
                    None
                } else {
                    Some(self.dismiss())
                }
            },
            None => Some(self.dismiss()),
        }
    }
}

// ---- Laws ----

/// Where nothing is selected, the accept key never asks the language model.
pub proof fn law_ask_ai_needs_selection(h: HandlerState)
    requires
        h.popup.overlay.selected is None,
        h.popup.suggestions.len() <= usize::MAX,
    ensures
        !h.asks_ai(),
{
    lemma_first_completion(h.popup.suggestions, 0);
}

proof fn lemma_first_completion(rows: Seq<Suggestion>, from: int)
    requires
        0 <= from <= rows.len(),
    ensures
        from <= first_completion(rows, from) <= rows.len(),
        first_completion(rows, from) < rows.len() ==> rows[first_completion(rows, from)].kind
            != SuggestionKind::AskAi,
    decreases rows.len() - from,
{
    if from < rows.len() && rows[from].kind == SuggestionKind::AskAi {
        lemma_first_completion(rows, from + 1);
    }
}

/// Accepting never deletes behind the cursor nor more than what stands in front of it.
pub proof fn law_accept_deletes_in_front_of_cursor(term: TerminalSnapshot, row: Suggestion)
    ensures
        0 <= term.deleted_by(row) <= term.cursor() <= term.line().len(),
{
    law_deletion_stays_in_word(term.line().take(term.cursor()), term.context.quote_state);
}

/// The predicted line is what the shell has after the accepted bytes: the deleted
/// characters in front of the cursor give way to the replacement, and what stands behind
/// the cursor stays.
pub proof fn law_prediction_matches_accept(term: TerminalSnapshot, row: Suggestion)
    ensures
        term.predicted_line(row) == term.line().take(term.cursor() - term.deleted_by(row))
            + term.replacement(row) + term.line().skip(term.cursor()),
        term.predicted_head(row).len() == term.cursor() - term.deleted_by(row)
            + term.replacement(row).len(),
{
    law_deletion_stays_in_word(term.line().take(term.cursor()), term.context.quote_state);
}

/// The command line after a number of backspaces at the cursor.
pub open spec fn backspaced(state: (Seq<char>, int), n: nat) -> (Seq<char>, int)
    decreases n,
{
    if n == 0 {
        state
    } else {
        edit(backspaced(state, (n - 1) as nat), Key::Backspace)
    }
}

/// The command line after text was typed at the cursor.
pub open spec fn typed_at(state: (Seq<char>, int), text: Seq<char>) -> (Seq<char>, int)
    decreases text.len(),
{
    if text.len() == 0 {
        state
    } else {
        edit(typed_at(state, text.drop_last()), Key::Printable(text.last()))
    }
}

pub proof fn lemma_backspaced(front: Seq<char>, word: Seq<char>, back: Seq<char>, n: nat)
    requires
        n <= word.len(),
    ensures
        backspaced((front + word + back, (front + word).len() as int), n) == (
            front + word.take(word.len() - n) + back,
            front.len() + word.len() - n,
        ),
    decreases n,
{
    if n == 0 {
        assert(word.take(word.len() as int) =~= word);
    } else {
        lemma_backspaced(front, word, back, (n - 1) as nat);
        let keep = front + word.take(word.len() - n);
        let c = word[word.len() - n];
        assert(front + word.take(word.len() - (n - 1)) =~= keep.push(c));
        law_backspace_takes_one_character(keep, back, c);
    }
}

pub proof fn lemma_typed_at(front: Seq<char>, text: Seq<char>, back: Seq<char>)
    ensures
        typed_at((front + back, front.len() as int), text) == (
            front + text + back,
            (front + text).len() as int,
        ),
    decreases text.len(),
{
    if text.len() == 0 {
        assert(front + text =~= front);
    } else {
        let t = text.drop_last();
        lemma_typed_at(front, t, back);
        law_typing_inserts_at_cursor(front + t, back, text.last());
        assert((front + t).push(text.last()) =~= front + text);
    }
}

/// The prediction is what the keystrokes do: backspacing as often as accepting deletes, and
/// then typing the replacement, leads to the predicted line, with the cursor behind the
/// replacement.
pub proof fn law_prediction_is_what_the_keys_do(term: TerminalSnapshot, row: Suggestion)
    ensures
        typed_at(
            backspaced((term.line(), term.cursor()), term.deleted_by(row) as nat),
            term.replacement(row),
        ) == (term.predicted_line(row), term.predicted_head(row).len() as int),
{
    law_accept_deletes_in_front_of_cursor(term, row);
    let start = term.cursor() - term.deleted_by(row);
    let front = term.line().take(start);
    let word = term.line().subrange(start, term.cursor());
    let back = term.line().skip(term.cursor());
    assert(front + word + back =~= term.line());
    lemma_backspaced(front, word, back, word.len());
    assert(front + word.take(0) =~= front);
    lemma_typed_at(front, term.replacement(row), back);
}

/// What accepting sends starts with one deletion for each character that it takes back,
/// and goes on with the replacement in UTF-8; there is nothing else in it.
pub proof fn law_accept_sends_deletions_and_text(term: TerminalSnapshot, row: Suggestion)
    ensures
        ({
            let n = term.deleted_by(row);
            let bytes = term.accept_bytes(row);
            &&& 0 <= n <= bytes.len()
            &&& forall|i: int| 0 <= i < n ==> #[trigger] bytes[i] == 0x7F
            &&& bytes.skip(n) == encode_utf8(term.replacement(row))
        }),
{
    law_accept_deletes_in_front_of_cursor(term, row);
    let n = term.deleted_by(row);
    assert(term.accept_bytes(row).skip(n) =~= encode_utf8(term.replacement(row)));
}

/// A command, a subcommand, a flag or another word replaces the word in front of the
/// cursor as it is, and nothing around it.
pub proof fn law_accepted_word_is_replaced(
    term: TerminalSnapshot,
    row: Suggestion,
    front: Seq<char>,
    word: Seq<char>,
    back: Seq<char>,
)
    requires
        term.line() == front + word + back,
        term.buffer_cursor == (front + word).len(),
        term.context.quote_state == QuoteState::Unquoted,
        is_plain_front(front),
        is_plain_word(word),
        row.kind == SuggestionKind::Command || row.kind == SuggestionKind::Subcommand || row.kind
            == SuggestionKind::Flag || row.kind == SuggestionKind::Other,
    ensures
        term.accept_bytes(row) == Seq::new(word.len(), |i: int| 0x7Fu8) + encode_utf8(row.text@),
        term.predicted_line(row) == front + row.text@ + back,
        term.predicted_head(row) == front + row.text@,
{
    lemma_word_in_front(term, front, word, back);
    assert(term.line().take(front.len() as int) =~= front);
    assert(term.line().skip((front + word).len() as int) =~= back);
    assert(term.accept_bytes(row) =~= Seq::new(word.len(), |i: int| 0x7Fu8) + encode_utf8(
        row.text@,
    ));
}

proof fn lemma_word_in_front(
    term: TerminalSnapshot,
    front: Seq<char>,
    word: Seq<char>,
    back: Seq<char>,
)
    requires
        term.line() == front + word + back,
        term.buffer_cursor == (front + word).len(),
        term.context.quote_state == QuoteState::Unquoted,
        is_plain_front(front),
        is_plain_word(word),
    ensures
        term.cursor() == (front + word).len(),
        term.word_start() == front.len(),
{
    assert(term.line().take(term.cursor()) =~= front + word);
    law_word_starts_behind_separator(front, word);
}

/// A file or a directory replaces the word in front of the cursor too, so escaped that the
/// shell reads its very text.
pub proof fn law_accepted_path_is_read_back(
    term: TerminalSnapshot,
    row: Suggestion,
    front: Seq<char>,
    word: Seq<char>,
    back: Seq<char>,
)
    requires
        term.line() == front + word + back,
        term.buffer_cursor == (front + word).len(),
        term.context.quote_state == QuoteState::Unquoted,
        is_plain_front(front),
        is_plain_word(word),
        row.kind == SuggestionKind::FilePath || row.kind == SuggestionKind::Directory,
        !row.text@.contains('\n'),
    ensures
        term.accept_bytes(row).len() >= word.len(),
        term.accept_bytes(row).take(word.len() as int) == Seq::new(word.len(), |i: int| 0x7Fu8),
        term.predicted_line(row) == front + term.replacement(row) + back,
        shell_reads(term.replacement(row), QuoteState::Unquoted) == (ShellRead {
            quote: QuoteState::Unquoted,
            escaped: false,
            text: row.text@,
            acted: false,
        }),
{
    lemma_word_in_front(term, front, word, back);
    law_shell_reads_what_was_escaped(row.text@, QuoteState::Unquoted);
    assert(term.line().take(front.len() as int) =~= front);
    assert(term.line().skip((front + word).len() as int) =~= back);
    assert(term.accept_bytes(row).take(word.len() as int) =~= Seq::new(
        word.len(),
        |i: int| 0x7Fu8,
    ));
}

/// In quotes a path is escaped as those need it, and read back as well.
pub proof fn law_accepted_path_is_read_back_in_quotes(term: TerminalSnapshot, row: Suggestion)
    requires
        row.kind == SuggestionKind::FilePath || row.kind == SuggestionKind::Directory,
        term.context.quote_state is Unquoted ==> !row.text@.contains('\n'),
    ensures
        shell_reads(term.replacement(row), term.context.quote_state).text == row.text@,
        !shell_reads(term.replacement(row), term.context.quote_state).acted,
        shell_reads(term.replacement(row), term.context.quote_state).quote
            == term.context.quote_state,
{
    law_shell_reads_what_was_escaped(row.text@, term.context.quote_state);
}

/// A line of the history, of the shell or of the language model replaces all in front of
/// the cursor as it is, and keeps what stands behind.
pub proof fn law_accepted_line_replaces_the_line(term: TerminalSnapshot, row: Suggestion)
    requires
        row.kind == SuggestionKind::History || row.kind == SuggestionKind::ProviderValue || row.kind
            == SuggestionKind::Llm,
        term.buffer_cursor <= term.line().len(),
    ensures
        term.accept_bytes(row) == Seq::new(term.buffer_cursor as nat, |i: int| 0x7Fu8)
            + encode_utf8(row.text@),
        term.predicted_line(row) == row.text@ + term.line().skip(term.buffer_cursor as int),
        term.predicted_head(row) == row.text@,
{
    assert(term.accept_bytes(row) =~= Seq::new(term.buffer_cursor as nat, |i: int| 0x7Fu8)
        + encode_utf8(row.text@));
    assert(term.line().take(0) + row.text@ =~= row.text@);
}

/// The accept key acts on the selected row; where none is selected, on the first row that
/// is not "Ask AI", if the top row is to be accepted, and else on none.
pub proof fn law_accept_acts_on_selected_or_top(h: HandlerState, i: int)
    requires
        h.popup.suggestions.len() <= usize::MAX,
        0 <= i < h.popup.suggestions.len(),
    ensures
        h.popup.overlay.selected == Some(i as usize) ==> h.accepted_row() == Some(
            h.popup.suggestions[i],
        ),
        h.popup.overlay.selected is None && !h.settings.tab_accepts_top ==> h.accepted_row() is None,
        h.popup.overlay.selected is None && h.settings.tab_accepts_top && h.popup.suggestions[i].kind
            != SuggestionKind::AskAi && (forall|j: int|
            0 <= j < i ==> (#[trigger] h.popup.suggestions[j]).kind == SuggestionKind::AskAi)
            ==> h.accepted_row() == Some(h.popup.suggestions[i]),
        h.popup.overlay.selected is None && (forall|j: int|
            0 <= j < h.popup.suggestions.len() ==> (#[trigger] h.popup.suggestions[j]).kind
                == SuggestionKind::AskAi) ==> h.accepted_row() is None,
{
    let rows = h.popup.suggestions;
    if h.popup.overlay.selected is None {
        if rows[i].kind != SuggestionKind::AskAi && (forall|j: int|
            0 <= j < i ==> (#[trigger] rows[j]).kind == SuggestionKind::AskAi) {
            lemma_first_completion_is(rows, 0, i);
        }
        if forall|j: int|
            0 <= j < rows.len() ==> (#[trigger] rows[j]).kind == SuggestionKind::AskAi {
            lemma_first_completion_is(rows, 0, rows.len() as int);
        }
    }
}

proof fn lemma_first_completion_is(rows: Seq<Suggestion>, from: int, at: int)
    requires
        0 <= from <= at <= rows.len(),
        at < rows.len() ==> rows[at].kind != SuggestionKind::AskAi,
        forall|j: int| from <= j < at ==> (#[trigger] rows[j]).kind == SuggestionKind::AskAi,
    ensures
        first_completion(rows, from) == at,
    decreases at - from,
{
    if from < at {
        lemma_first_completion_is(rows, from + 1, at);
    }
}

/// Accepting the last word of a line for a shell that does not report it leaves the
/// tracked line as the shell has it then: a full line in front of nothing, with the space
/// behind it that was typed, unless a value is to follow.
pub proof fn law_tracked_line_follows_accepted_line(
    h: HandlerState,
    term: TerminalSnapshot,
    row: Suggestion,
)
    requires
        h.settings.shell_kind != ShellKind::Zsh,
        row.kind == SuggestionKind::ProviderValue || row.kind == SuggestionKind::Llm,
        term.buffer_cursor >= term.line().len(),
    ensures
        ({
            let typed = if row.text@.len() > 0 && row.text@.last() == '=' {
                Seq::<char>::empty()
            } else {
                seq![' ']
            };
            h.line_after_accept(term, row) == typed_at(
                (term.predicted_line(row), term.predicted_line(row).len() as int),
                typed,
            )
        }),
{
    let line = term.predicted_line(row);
    assert(term.line().take(0) + row.text@ =~= row.text@);
    assert(line =~= row.text@);
    let none = Seq::<char>::empty();
    assert(line + none =~= line);
    lemma_typed_at(line, seq![' '], none);
    assert(line + seq![' '] + none =~= line.push(' '));
}

} // verus!
