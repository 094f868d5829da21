//! The plain values that the handler decides on: suggestions, the command context at the
//! cursor, and the state of the terminal.

use vstd::prelude::*;

verus! {

/// What a suggestion stands for.
#[derive(Debug, Clone, Copy, PartialEq, Eq, Structural)]
pub enum SuggestionKind {
    Command,
    Subcommand,
    Flag,
    FilePath,
    Directory,
    History,
    /// A full command line from a shell-native provider.
    ProviderValue,
    /// A full command line from the language model.
    Llm,
    /// The pinned row that asks the language model on demand.
    AskAi,
    Other,
}

/// Where a suggestion comes from.
#[derive(Debug, Clone, Copy, PartialEq, Eq, Structural)]
pub enum SuggestionSource {
    Commands,
    Filesystem,
    History,
    Provider,
    Llm,
    Other,
}

/// One row of the popup.
#[derive(Debug, PartialEq, Eq)]
pub struct Suggestion {
    pub text: String,
    pub description: Option<String>,
    pub kind: SuggestionKind,
    pub source: SuggestionSource,
    /// By which the caller finds its own record of the row again.
    pub id: u64,
}

impl Clone for Suggestion {
    fn clone(&self) -> (copy: Self)
        ensures
            copy == *self,
    {
        Suggestion {
            text: self.text.clone(),
            description: match &self.description {
                Some(d) => Some(d.clone()),
                None => None,
            },
            kind: self.kind,
            source: self.source,
            id: self.id,
        }
    }
}

impl Default for Suggestion {
    fn default() -> (suggestion: Self)
        ensures
            suggestion.text@ == Seq::<char>::empty(),
            suggestion.description is None,
            suggestion.kind == SuggestionKind::Command,
            suggestion.source == SuggestionSource::Commands,
            suggestion.id == 0,
    {
        Suggestion {
            text: String::new(),
            description: None,
            kind: SuggestionKind::Command,
            source: SuggestionSource::Commands,
            id: 0,
        }
    }
}

/// A copy of a row of suggestions.
pub fn copy_suggestions(rows: &Vec<Suggestion>) -> (copy: Vec<Suggestion>)
    ensures
        copy@ == rows@,
{
    let mut copy: Vec<Suggestion> = Vec::new();
    let mut i: usize = 0;
    while i < rows.len()
        invariant
            i <= rows.len(),
            copy@ == rows@.take(i as int),
        decreases rows.len() - i,
    {
        copy.push(rows[i].clone());
        i = i + 1;
        assert(rows@.take(i as int) =~= rows@.take(i - 1).push(rows@[i - 1]));
    }
    assert(rows@.take(i as int) =~= rows@);
    copy
}

/// A copy of a row of strings.
pub fn copy_strings(items: &Vec<String>) -> (copy: Vec<String>)
    ensures
        copy@ == items@,
{
    let mut copy: Vec<String> = Vec::new();
    let mut i: usize = 0;
    while i < items.len()
        invariant
            i <= items.len(),
            copy@ == items@.take(i as int),
        decreases items.len() - i,
    {
        copy.push(items[i].clone());
        i = i + 1;
        assert(items@.take(i as int) =~= items@.take(i - 1).push(items@[i - 1]));
    }
    assert(items@.take(i as int) =~= items@);
    copy
}

/// The quoting that the shell is in at the cursor.
#[derive(Debug, Clone, Copy, PartialEq, Eq, Structural)]
pub enum QuoteState {
    Unquoted,
    SingleQuoted,
    DoubleQuoted,
}

/// The completion site at the cursor, as the command-line tokenizer sees it.
#[derive(Debug)]
pub struct CommandContext {
    pub command: Option<String>,
    pub args: Vec<String>,
    pub preceding_flag: Option<String>,
    pub word_index: usize,
    /// The decoded word in front of the cursor.
    pub current_word: String,
    pub quote_state: QuoteState,
}

/// Cursor position and screen size, in cells.
#[derive(Debug, Clone, Copy, PartialEq, Eq, Structural)]
pub struct Geometry {
    pub cursor_row: u16,
    pub cursor_col: u16,
    pub screen_rows: u16,
    pub screen_cols: u16,
}

/// What the handler reads of the terminal.
#[derive(Debug)]
pub struct TerminalSnapshot {
    /// A full-screen program owns the alternate screen.
    pub in_alt_screen: bool,
    /// A cursor position report was applied since the last trigger.
    pub cpr_synced: bool,
    /// The command line was reported, and the shell has not echoed it yet.
    pub buffer_pending_display: bool,
    pub command_buffer: Option<String>,
    /// Character offset into the command line.
    pub buffer_cursor: usize,
    /// The shell's environment, as far as it was reported.
    pub shell_env: Option<Vec<(String, String)>>,
    pub geometry: Geometry,
    /// The completion site at the cursor of the command line.
    pub context: CommandContext,
}

impl TerminalSnapshot {
    /// The command line, empty where none was reported.
    pub open spec fn line(&self) -> Seq<char> {
        match self.command_buffer {
            Some(line) => line@,
            None => Seq::empty(),
        }
    }

    pub fn buffer_text(&self) -> (line: String)
        ensures
            line@ == self.line(),
    {
        match &self.command_buffer {
            Some(line) => line.clone(),
            None => String::new(),
        }
    }
}

} // verus!
