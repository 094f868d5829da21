//! Pure keystroke-driven buffer model for shells that do not report their command line.
//!
//! The model reconstructs the command line by tracking keystrokes locally. Events that
//! it does not model (paste, history recall, shell completion) reset it to empty; it
//! resyncs on the next typed character or prompt boundary.

use vstd::prelude::*;
use vstd::string::StrSliceExecFns;
use vstd::string::StringExecFns;

use crate::input::Key;
use crate::input::KeyEvent;
use crate::text::ascii_space;
use crate::text::is_ascii_space;

verus! {

/// Local keystroke model of the shell's command line.
#[derive(Debug, Clone, PartialEq, Eq)]
pub struct BufferModel {
    pub buffer: String,
    /// Character offset into `buffer`.
    pub cursor: usize,
}

impl View for BufferModel {
    type V = (Seq<char>, int);

    open spec fn view(&self) -> (Seq<char>, int) {
        (self.buffer@, self.cursor as int)
    }
}

/// The position reached by walking back from `n` over whitespace.
pub open spec fn before_spaces(line: Seq<char>, n: int) -> int
    decreases n,
{
    if 0 < n <= line.len() && is_ascii_space(line[n - 1]) {
        before_spaces(line, n - 1)
    } else {
        n
    }
}

/// The position reached by walking back from `n` over everything but whitespace.
pub open spec fn before_word(line: Seq<char>, n: int) -> int
    decreases n,
{
    if 0 < n <= line.len() && !is_ascii_space(line[n - 1]) {
        before_word(line, n - 1)
    } else {
        n
    }
}

/// Where the word that Ctrl+W deletes starts: before the whitespace in front of the
/// cursor and the word in front of that.
pub open spec fn word_delete_start(line: Seq<char>, cursor: int) -> int {
    before_word(line, before_spaces(line, cursor))
}

/// Command line and cursor after a keystroke.
pub open spec fn edit(state: (Seq<char>, int), key: Key) -> (Seq<char>, int) {
    let (line, cursor) = state;
    match key {
        Key::Printable(c) => (line.insert(cursor, c), cursor + 1),
        Key::Backspace => if cursor > 0 {
            (line.remove(cursor - 1), cursor - 1)
        } else {
            (line, cursor)
        },
        Key::ArrowLeft => (line, if cursor > 0 { cursor - 1 } else { 0 }),
        Key::ArrowRight => (line, if cursor < line.len() { cursor + 1 } else { line.len() as int }),
        Key::Home | Key::HomeCsiTilde | Key::HomeCsi7Tilde | Key::HomeSs3 => (line, 0),
        Key::End | Key::EndCsiTilde | Key::EndCsi8Tilde | Key::EndSs3 => (line, line.len() as int),
        Key::Ctrl(c) => if c == 'a' {
            (line, 0)
        } else if c == 'e' {
            (line, line.len() as int)
        } else if c == 'u' {
            (line.skip(cursor), 0)
        } else if c == 'w' {
            let start = word_delete_start(line, cursor);
            (line.take(start) + line.skip(cursor), start)
        } else {
            (Seq::empty(), 0)
        },
        Key::CtrlSlash => (line, cursor),
        _ => (Seq::empty(), 0),
    }
}

proof fn lemma_before_spaces(line: Seq<char>, n: int)
    requires
        0 <= n <= line.len(),
    ensures
        0 <= before_spaces(line, n) <= n,
    decreases n,
{
    if n > 0 && is_ascii_space(line[n - 1]) {
        lemma_before_spaces(line, n - 1);
    }
}

proof fn lemma_before_word(line: Seq<char>, n: int)
    requires
        0 <= n <= line.len(),
    ensures
        0 <= before_word(line, n) <= n,
    decreases n,
{
    if n > 0 && !is_ascii_space(line[n - 1]) {
        lemma_before_word(line, n - 1);
    }
}

impl Default for BufferModel {
    fn default() -> (model: Self)
        ensures
            model@ == (Seq::<char>::empty(), 0int),
    {
        BufferModel { buffer: String::new(), cursor: 0 }
    }
}

impl BufferModel {
    /// The cursor lies within the buffer.
    pub open spec fn wf(&self) -> bool {
        self.cursor <= self.buffer@.len()
    }

    /// Resets to empty on a detected drift boundary; the same as `clear`.
    pub fn reset(&mut self)
        ensures
            final(self)@ == (Seq::<char>::empty(), 0int),
    {
        self.clear();
    }

    /// Clears the model to empty on Enter or a prompt boundary.
    pub fn clear(&mut self)
        ensures
            final(self)@ == (Seq::<char>::empty(), 0int),
    {
        self.buffer = String::new();
        self.cursor = 0;
    }

    /// Clears the model; `true` if it was not empty.
    fn drop_line(&mut self) -> (changed: bool)
        ensures
            final(self)@ == (Seq::<char>::empty(), 0int),
            changed == (old(self)@ != (Seq::<char>::empty(), 0int)),
    {
        let was_empty = self.buffer.as_str().is_empty() && self.cursor == 0;
        proof {
            if self.buffer@.len() == 0 {
                assert(self.buffer@ =~= Seq::<char>::empty());
            }
        }
        self.clear();
        !was_empty
    }

    /// Deletes the characters from `start` up to the cursor, which moves to `start`.
    fn delete_back_to(&mut self, start: usize)
        requires
            old(self).wf(),
            start <= old(self).cursor,
        ensures
            final(self)@ == (
                old(self)@.0.take(start as int) + old(self)@.0.skip(old(self)@.1),
                start as int,
            ),
    {
        let len: usize = self.buffer.as_str().unicode_len();
        let mut line = String::from_str(self.buffer.as_str().substring_char(0, start));
        line.append(self.buffer.as_str().substring_char(self.cursor, len));
        assert(line@ =~= self.buffer@.take(start as int) + self.buffer@.skip(self.cursor as int));
        self.buffer = line;
        self.cursor = start;
    }

    fn word_start(&self) -> (start: usize)
        requires
            self.wf(),
        ensures
            start == word_delete_start(self@.0, self@.1),
            start <= self.cursor,
    {
        let mut end: usize = self.cursor;
        while end > 0 && ascii_space(self.buffer.as_str().get_char(end - 1))
            invariant
                end <= self.cursor <= self.buffer@.len(),
                before_spaces(self.buffer@, end as int) == before_spaces(
                    self.buffer@,
                    self.cursor as int,
                ),
            decreases end,
        {
            end = end - 1;
        }
        while end > 0 && !ascii_space(self.buffer.as_str().get_char(end - 1))
            invariant
                end <= self.cursor <= self.buffer@.len(),
                before_word(self.buffer@, end as int) == word_delete_start(
                    self.buffer@,
                    self.cursor as int,
                ),
            decreases end,
        {
            end = end - 1;
        }
        end
    }

    /// Applies one keystroke to the model.
    ///
    /// Returns `true` if the model changed (buffer content or cursor position), and
    /// on Enter in any case.
    pub fn apply_key(&mut self, key: &KeyEvent) -> (changed: bool)
        requires
            old(self).wf(),
            old(self).buffer@.len() < usize::MAX,
        ensures
            final(self)@ == edit(old(self)@, key@),
            final(self).wf(),
            changed == (key@ is Enter || final(self)@ != old(self)@),
    {
        let ghost before = self@;
        let len: usize = self.buffer.as_str().unicode_len();
        match key {
            KeyEvent::Printable(c) => {
                let mut line = String::from_str(self.buffer.as_str().substring_char(0, self.cursor));
                line.push(*c);
                line.append(self.buffer.as_str().substring_char(self.cursor, len));
                assert(line@ =~= before.0.insert(before.1, *c));
                self.buffer = line;
                self.cursor = self.cursor + 1;
                true
            },
            KeyEvent::Backspace => {
                if self.cursor > 0 {
                    self.delete_back_to(self.cursor - 1);
                    assert(self.buffer@ =~= before.0.remove(before.1 - 1));
                    true
                } else {
                    false
                }
            },
            KeyEvent::ArrowLeft => {
                let at: usize = self.cursor;
                self.cursor = self.cursor.saturating_sub(1);
                at != self.cursor
            },
            KeyEvent::ArrowRight => {
                let at: usize = self.cursor;
                if at < len {
                    self.cursor = at + 1;
                }
                at != self.cursor
            },
            KeyEvent::Home
            | KeyEvent::HomeCsiTilde
            | KeyEvent::HomeCsi7Tilde
            | KeyEvent::HomeSs3 => self.move_to(0),
            KeyEvent::End
            | KeyEvent::EndCsiTilde
            | KeyEvent::EndCsi8Tilde
            | KeyEvent::EndSs3 => self.move_to(len),
            KeyEvent::Ctrl(c) => {
                if *c == 'a' {
                    self.move_to(0)
                } else if *c == 'e' {
                    self.move_to(len)
                } else if *c == 'u' {
                    if self.cursor == 0 {
                        assert(before.0.skip(0) =~= before.0);
                        return false;
                    }
                    self.delete_back_to(0);
                    assert(self.buffer@ =~= before.0.skip(before.1));
                    true
                } else if *c == 'w' {
                    let start: usize = self.word_start();
                    if start < self.cursor {
                        self.delete_back_to(start);
                        true
                    } else {
                        assert(before.0.take(before.1) + before.0.skip(before.1) =~= before.0);
                        false
                    }
                } else {
                    // An unmodeled control character.
                    self.drop_line()
                }
            },
            KeyEvent::Enter => {
                self.clear();
                true
            },
            // The manual trigger does not modify the shell line.
            KeyEvent::CtrlSlash => false,
            // History recall, shell completion, paste and the like rewrite the line.
            _ => self.drop_line(),
        }
    }

    fn move_to(&mut self, at: usize) -> (changed: bool)
        requires
            at <= old(self).buffer@.len(),
        ensures
            final(self)@ == (old(self)@.0, at as int),
            changed == (old(self).cursor != at),
    {
        let changed = self.cursor != at;
        self.cursor = at;
        changed
    }
}

// ---- Laws ----

/// Backspace takes back a typed character.
pub proof fn law_backspace_undoes_printable(state: (Seq<char>, int), c: char)
    requires
        0 <= state.1 <= state.0.len(),
    ensures
        edit(edit(state, Key::Printable(c)), Key::Backspace) == state,
{
    let (line, cursor) = state;
    assert(line.insert(cursor, c).remove(cursor) =~= line);
}

/// Cursor keys, the manual trigger and their variants never change the command line.
pub proof fn law_cursor_keys_keep_line(state: (Seq<char>, int), key: Key)
    requires
        matches!(
            key,
            Key::ArrowLeft
            | Key::ArrowRight
            | Key::Home
            | Key::HomeCsiTilde
            | Key::HomeCsi7Tilde
            | Key::HomeSs3
            | Key::End
            | Key::EndCsiTilde
            | Key::EndCsi8Tilde
            | Key::EndSs3
            | Key::CtrlSlash
        ) || key == Key::Ctrl('a') || key == Key::Ctrl('e'),
    ensures
        edit(state, key).0 == state.0,
{
}

/// Deleting keys only remove characters in front of the cursor: what stands behind it
/// stays, and what is left in front is a prefix of what was there.
pub proof fn law_deletion_stays_in_front_of_cursor(state: (Seq<char>, int), key: Key)
    requires
        0 <= state.1 <= state.0.len(),
        key is Backspace || key == Key::Ctrl('u') || key == Key::Ctrl('w'),
    ensures
        ({
            let (line, cursor) = edit(state, key);
            &&& 0 <= cursor <= state.1
            &&& line == state.0.take(cursor) + state.0.skip(state.1)
        }),
{
    let (line, cursor) = state;
    lemma_before_spaces(line, cursor);
    lemma_before_word(line, before_spaces(line, cursor));
    assert(line.take(0) + line.skip(cursor) =~= line.skip(cursor));
    if cursor > 0 {
        assert(line.remove(cursor - 1) =~= line.take(cursor - 1) + line.skip(cursor));
    } else {
        assert(line =~= line.take(0) + line.skip(0));
    }
}

/// A key that the model does not know leaves it empty, whatever it held.
pub proof fn law_unmodeled_keys_reset(state: (Seq<char>, int), key: Key)
    requires
        matches!(
            key,
            Key::Enter
            | Key::Escape
            | Key::Tab
            | Key::ArrowUp
            | Key::ArrowDown
            | Key::PageUp
            | Key::PageDown
            | Key::CtrlSpace
            | Key::CursorPositionReport(_, _)
            | Key::Raw(_)
        ) || (key matches Key::Ctrl(c) && c != 'a' && c != 'e' && c != 'u' && c != 'w'),
    ensures
        edit(state, key) == (Seq::<char>::empty(), 0int),
{
}

/// The characters that Ctrl+W takes for space.
pub open spec fn is_blank(c: char) -> bool {
    c == ' ' || c == '\t' || c == '\n' || c == '\r' || c == '\u{C}'
}

/// A typed character goes in at the cursor, which moves behind it.
pub proof fn law_typing_inserts_at_cursor(front: Seq<char>, back: Seq<char>, c: char)
    ensures
        edit((front + back, front.len() as int), Key::Printable(c)) == (
            front.push(c) + back,
            front.len() as int + 1,
        ),
{
    assert((front + back).insert(front.len() as int, c) =~= front.push(c) + back);
}

/// Backspace takes the character in front of the cursor; at the front of the line there
/// is none.
pub proof fn law_backspace_takes_one_character(front: Seq<char>, back: Seq<char>, c: char)
    ensures
        edit((front.push(c) + back, front.len() as int + 1), Key::Backspace) == (
            front + back,
            front.len() as int,
        ),
        edit((back, 0), Key::Backspace) == (back, 0int),
{
    assert((front.push(c) + back).remove(front.len() as int) =~= front + back);
}

/// Ctrl+U deletes everything in front of the cursor, and nothing behind it.
pub proof fn law_ctrl_u_deletes_all_in_front(front: Seq<char>, back: Seq<char>)
    ensures
        edit((front + back, front.len() as int), Key::Ctrl('u')) == (back, 0int),
        forall|line: Seq<char>, cursor: int|
            0 <= cursor <= line.len() ==> #[trigger] edit((line, cursor), Key::Ctrl('u')) == (
                line.skip(cursor),
                0int,
            ),
{
    assert((front + back).skip(front.len() as int) =~= back);
}

proof fn lemma_before_spaces_is(line: Seq<char>, from: int, n: int)
    requires
        0 <= from <= n <= line.len(),
        forall|j: int| from <= j < n ==> is_blank(#[trigger] line[j]),
        from > 0 ==> !is_blank(line[from - 1]),
    ensures
        before_spaces(line, n) == from,
    decreases n,
{
    if from < n {
        assert(is_blank(line[n - 1]));
        lemma_before_spaces_is(line, from, n - 1);
    }
}

proof fn lemma_before_word_is(line: Seq<char>, from: int, n: int)
    requires
        0 <= from <= n <= line.len(),
        forall|j: int| from <= j < n ==> !is_blank(#[trigger] line[j]),
        from > 0 ==> is_blank(line[from - 1]),
    ensures
        before_word(line, n) == from,
    decreases n,
{
    if from < n {
        assert(!is_blank(line[n - 1]));
        lemma_before_word_is(line, from, n - 1);
    }
}

/// Ctrl+W deletes the blanks in front of the cursor and the word in front of them: what
/// stands in front of the word stays, with the blank that ends it, and so does all behind
/// the cursor. Where there is no word, only the blanks go.
pub proof fn law_ctrl_w_deletes_one_word(
    front: Seq<char>,
    word: Seq<char>,
    blanks: Seq<char>,
    back: Seq<char>,
)
    requires
        front.len() > 0 ==> is_blank(front.last()),
        word.len() == 0 ==> front.len() == 0,
        forall|j: int| 0 <= j < word.len() ==> !is_blank(#[trigger] word[j]),
        forall|j: int| 0 <= j < blanks.len() ==> is_blank(#[trigger] blanks[j]),
    ensures
        edit(
            (front + word + blanks + back, (front + word + blanks).len() as int),
            Key::Ctrl('w'),
        ) == (front + back, front.len() as int),
{
    let line = front + word + blanks + back;
    let f = front.len() as int;
    let w = (front + word).len() as int;
    let n = (front + word + blanks).len() as int;
    assert forall|j: int| w <= j < n implies is_blank(#[trigger] line[j]) by {
        assert(line[j] == blanks[j - w]);
    }
    if w > 0 {
        assert(line[w - 1] == word[w - 1 - f]);
    }
    lemma_before_spaces_is(line, w, n);
    assert forall|j: int| f <= j < w implies !is_blank(#[trigger] line[j]) by {
        assert(line[j] == word[j - f]);
    }
    if f > 0 {
        assert(line[f - 1] == front[f - 1]);
    }
    lemma_before_word_is(line, f, w);
    assert(line.take(f) + line.skip(n) =~= front + back);
}

/// The arrows move the cursor by one, as far as the line reaches.
pub proof fn law_arrows_move_by_one(line: Seq<char>, cursor: int)
    requires
        0 <= cursor <= line.len(),
    ensures
        cursor < line.len() ==> edit((line, cursor), Key::ArrowRight) == (line, cursor + 1),
        cursor == line.len() ==> edit((line, cursor), Key::ArrowRight) == (line, cursor),
        cursor > 0 ==> edit((line, cursor), Key::ArrowLeft) == (line, cursor - 1),
        cursor == 0 ==> edit((line, cursor), Key::ArrowLeft) == (line, cursor),
{
}

/// Home and Ctrl+A move to the front of the line, End and Ctrl+E behind it, in whatever
/// encoding the keys come. The manual trigger moves nothing.
pub proof fn law_home_and_end_reach_the_ends(line: Seq<char>, cursor: int)
    requires
        0 <= cursor <= line.len(),
    ensures
        edit((line, cursor), Key::Home) == (line, 0int),
        edit((line, cursor), Key::HomeCsiTilde) == (line, 0int),
        edit((line, cursor), Key::HomeCsi7Tilde) == (line, 0int),
        edit((line, cursor), Key::HomeSs3) == (line, 0int),
        edit((line, cursor), Key::Ctrl('a')) == (line, 0int),
        edit((line, cursor), Key::End) == (line, line.len() as int),
        edit((line, cursor), Key::EndCsiTilde) == (line, line.len() as int),
        edit((line, cursor), Key::EndCsi8Tilde) == (line, line.len() as int),
        edit((line, cursor), Key::EndSs3) == (line, line.len() as int),
        edit((line, cursor), Key::Ctrl('e')) == (line, line.len() as int),
        edit((line, cursor), Key::CtrlSlash) == (line, cursor),
{
}

} // verus!
