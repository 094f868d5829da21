//! Keys, their names and their bindings.

use vstd::prelude::*;
use vstd::string::StrSliceExecFns;
use vstd::string::StringExecFns;
use vstd::string::StringSliceAdditionalSpecFns;
use vstd::utf8::encode_utf8;
use vstd::utf8::is_ascii_chars;
use vstd::utf8::is_ascii_chars_encode_utf8;

use crate::decimal::decimal_text;
use crate::decimal::push_decimal_text;
use crate::input::cpr_value;
use crate::input::csi_u_value;
use crate::input::first_key;
use crate::input::keys_of;
use crate::input::law_every_key_takes_bytes;
use crate::input::params_end;
use crate::input::Key;
use crate::input::KeyEvent;
use crate::text::char_range;
use crate::text::chars_of;
use crate::text::is_white_space;
use crate::text::law_trimming_takes_blanks_at_the_ends;
use crate::text::same_text;
use crate::text::string_of;
use crate::text::trim_bounds;
use crate::text::trimmed;

verus! {

// ---- Encoding ----

/// A lower-case ASCII letter.
pub open spec fn is_lower(c: char) -> bool {
    'a' <= c && c <= 'z'
}

/// The bytes by which a key reaches the shell. A cursor position report never does.
pub open spec fn key_bytes(key: Key) -> Seq<u8> {
    match key {
        Key::Tab => seq![0x09],
        Key::Enter => seq![0x0D],
        Key::Escape => seq![0x1B],
        Key::ArrowUp => seq![0x1B, 0x5B, 0x41],
        Key::ArrowDown => seq![0x1B, 0x5B, 0x42],
        Key::ArrowRight => seq![0x1B, 0x5B, 0x43],
        Key::ArrowLeft => seq![0x1B, 0x5B, 0x44],
        Key::PageUp => seq![0x1B, 0x5B, 0x35, 0x7E],
        Key::PageDown => seq![0x1B, 0x5B, 0x36, 0x7E],
        Key::Home => seq![0x1B, 0x5B, 0x48],
        Key::HomeCsiTilde => seq![0x1B, 0x5B, 0x31, 0x7E],
        Key::HomeCsi7Tilde => seq![0x1B, 0x5B, 0x37, 0x7E],
        Key::HomeSs3 => seq![0x1B, 0x4F, 0x48],
        Key::End => seq![0x1B, 0x5B, 0x46],
        Key::EndCsiTilde => seq![0x1B, 0x5B, 0x34, 0x7E],
        Key::EndCsi8Tilde => seq![0x1B, 0x5B, 0x38, 0x7E],
        Key::EndSs3 => seq![0x1B, 0x4F, 0x46],
        Key::CtrlSpace => seq![0x00],
        Key::CtrlSlash => seq![0x1F],
        Key::Backspace => seq![0x7F],
        Key::Ctrl(c) => if is_lower(c) {
            seq![(c as u32 - 0x60) as u8]
        } else {
            Seq::empty()
        },
        Key::Printable(c) => encode_utf8(seq![c]),
        Key::CursorPositionReport(_, _) => Seq::empty(),
        Key::Raw(bytes) => bytes,
    }
}

/// The UTF-8 bytes of a string.
pub fn utf8_bytes(s: &str) -> (bytes: Vec<u8>)
    ensures
        bytes@ == encode_utf8(s@),
{
    s.as_bytes_vec()
}

/// Converts a [`KeyEvent`] back to raw bytes for forwarding to the PTY.
pub fn key_to_bytes(key: &KeyEvent) -> (bytes: Vec<u8>)
    ensures
        bytes@ == key_bytes(key@),
{
    match key {
        KeyEvent::Tab => vec![0x09],
        KeyEvent::Enter => vec![0x0D],
        KeyEvent::Escape => vec![0x1B],
        KeyEvent::ArrowUp => vec![0x1B, 0x5B, 0x41],
        KeyEvent::ArrowDown => vec![0x1B, 0x5B, 0x42],
        KeyEvent::ArrowRight => vec![0x1B, 0x5B, 0x43],
        KeyEvent::ArrowLeft => vec![0x1B, 0x5B, 0x44],
        KeyEvent::PageUp => vec![0x1B, 0x5B, 0x35, 0x7E],
        KeyEvent::PageDown => vec![0x1B, 0x5B, 0x36, 0x7E],
        KeyEvent::Home => vec![0x1B, 0x5B, 0x48],
        KeyEvent::HomeCsiTilde => vec![0x1B, 0x5B, 0x31, 0x7E],
        KeyEvent::HomeCsi7Tilde => vec![0x1B, 0x5B, 0x37, 0x7E],
        KeyEvent::HomeSs3 => vec![0x1B, 0x4F, 0x48],
        KeyEvent::End => vec![0x1B, 0x5B, 0x46],
        KeyEvent::EndCsiTilde => vec![0x1B, 0x5B, 0x34, 0x7E],
        KeyEvent::EndCsi8Tilde => vec![0x1B, 0x5B, 0x38, 0x7E],
        KeyEvent::EndSs3 => vec![0x1B, 0x4F, 0x46],
        KeyEvent::CtrlSpace => vec![0x00],
        KeyEvent::CtrlSlash => vec![0x1F],
        KeyEvent::Backspace => vec![0x7F],
        KeyEvent::Ctrl(c) => {
            if 'a' <= *c && *c <= 'z' {
                vec![(*c as u32 - 0x60) as u8]
            } else {
                Vec::new()
            }
        },
        KeyEvent::Printable(c) => {
            let mut s = String::new();
            s.push(*c);
            assert(s@ =~= seq![*c]);
            utf8_bytes(s.as_str())
        },
        KeyEvent::CursorPositionReport(_, _) => Vec::new(),
        KeyEvent::Raw(bytes) => {
            let mut copy: Vec<u8> = Vec::new();
            copy.extend_from_slice(bytes.as_slice());
            assert(copy@ =~= bytes@);
            copy
        },
    }
}

// ---- Comparing keys ----

/// The position of a key's variant in the declaration of [`Key`].
pub open spec fn variant_of(key: Key) -> u8 {
    match key {
        Key::Tab => 0,
        Key::Enter => 1,
        Key::Escape => 2,
        Key::ArrowUp => 3,
        Key::ArrowDown => 4,
        Key::ArrowLeft => 5,
        Key::ArrowRight => 6,
        Key::PageUp => 7,
        Key::PageDown => 8,
        Key::Home => 9,
        Key::HomeCsiTilde => 10,
        Key::HomeCsi7Tilde => 11,
        Key::HomeSs3 => 12,
        Key::End => 13,
        Key::EndCsiTilde => 14,
        Key::EndCsi8Tilde => 15,
        Key::EndSs3 => 16,
        Key::CtrlSpace => 17,
        Key::CtrlSlash => 18,
        Key::Ctrl(_) => 19,
        Key::Backspace => 20,
        Key::Printable(_) => 21,
        Key::CursorPositionReport(_, _) => 22,
        Key::Raw(_) => 23,
    }
}

fn variant(key: &KeyEvent) -> (n: u8)
    ensures
        n == variant_of(key@),
{
    match key {
        KeyEvent::Tab => 0,
        KeyEvent::Enter => 1,
        KeyEvent::Escape => 2,
        KeyEvent::ArrowUp => 3,
        KeyEvent::ArrowDown => 4,
        KeyEvent::ArrowLeft => 5,
        KeyEvent::ArrowRight => 6,
        KeyEvent::PageUp => 7,
        KeyEvent::PageDown => 8,
        KeyEvent::Home => 9,
        KeyEvent::HomeCsiTilde => 10,
        KeyEvent::HomeCsi7Tilde => 11,
        KeyEvent::HomeSs3 => 12,
        KeyEvent::End => 13,
        KeyEvent::EndCsiTilde => 14,
        KeyEvent::EndCsi8Tilde => 15,
        KeyEvent::EndSs3 => 16,
        KeyEvent::CtrlSpace => 17,
        KeyEvent::CtrlSlash => 18,
        KeyEvent::Ctrl(_) => 19,
        KeyEvent::Backspace => 20,
        KeyEvent::Printable(_) => 21,
        KeyEvent::CursorPositionReport(_, _) => 22,
        KeyEvent::Raw(_) => 23,
    }
}

fn same_bytes(a: &Vec<u8>, b: &Vec<u8>) -> (same: bool)
    ensures
        same == (a@ == b@),
{
    if a.len() != b.len() {
        return false;
    }
    let mut i: usize = 0;
    while i < a.len()
        invariant
            i <= a@.len(),
            a@.len() == b@.len(),
            forall|j: int| 0 <= j < i ==> a@[j] == b@[j],
        decreases a.len() - i,
    {
        if a[i] != b[i] {
            return false;
        }
        i = i + 1;
    }
    assert(a@ =~= b@);
    true
}

/// Whether two events stand for the same key.
pub fn same_key(a: &KeyEvent, b: &KeyEvent) -> (same: bool)
    ensures
        same == (a@ == b@),
{
    match (a, b) {
        (KeyEvent::Ctrl(x), KeyEvent::Ctrl(y)) => *x == *y,
        (KeyEvent::Printable(x), KeyEvent::Printable(y)) => *x == *y,
        (
            KeyEvent::CursorPositionReport(r, c),
            KeyEvent::CursorPositionReport(s, d),
        ) => *r == *s && *c == *d,
        (KeyEvent::Raw(x), KeyEvent::Raw(y)) => same_bytes(x, y),
        _ => variant(a) == variant(b),
    }
}

// ---- Outcome of a key ----

/// Result of routing a key event through the popup.
#[derive(Debug, PartialEq, Eq)]
pub enum KeyOutcome {
    /// Raw bytes to forward to the PTY (none if the key was swallowed).
    Forward(Vec<u8>),
    /// The user accepted the pinned "Ask AI" row; the proxy must ask the language model
    /// and inject the response. No bytes are forwarded yet.
    AskAiAccept,
}

impl KeyOutcome {
    /// The bytes to forward; none for `AskAiAccept`.
    pub open spec fn bytes(&self) -> Seq<u8> {
        match *self {
            KeyOutcome::Forward(b) => b@,
            KeyOutcome::AskAiAccept => Seq::empty(),
        }
    }

    pub fn forward_bytes(&self) -> (bytes: &[u8])
        ensures
            bytes@ == self.bytes(),
    {
        match self {
            KeyOutcome::Forward(b) => b.as_slice(),
            KeyOutcome::AskAiAccept => {
                let none: &[u8] = &[];
                assert(none@ =~= Seq::<u8>::empty());
                none
            },
        }
    }
}

// ---- Key names ----

/// Why a key name is no keybinding.
#[derive(Debug, PartialEq, Eq)]
pub enum KeyNameError {
    /// Ctrl with a letter that the terminal needs, or that sends the byte of another key.
    Reserved(char),
    /// Ctrl with anything but a single letter; what follows `ctrl+`.
    NotALetter(String),
    /// No known name.
    Unknown(String),
}

/// The mathematical value of a [`KeyNameError`].
pub enum NameError {
    Reserved(char),
    NotALetter(Seq<char>),
    Unknown(Seq<char>),
}

impl View for KeyNameError {
    type V = NameError;

    open spec fn view(&self) -> NameError {
        match *self {
            KeyNameError::Reserved(c) => NameError::Reserved(c),
            KeyNameError::NotALetter(s) => NameError::NotALetter(s@),
            KeyNameError::Unknown(s) => NameError::Unknown(s@),
        }
    }
}

/// Letters that Ctrl cannot be bound with: c, d, z, s and q drive signals and flow
/// control; i and m send the bytes of Tab and Enter.
pub open spec fn is_reserved(c: char) -> bool {
    c == 'c' || c == 'd' || c == 'z' || c == 's' || c == 'q' || c == 'i' || c == 'm'
}

/// The key of a trimmed lower-case name.
pub open spec fn key_of_name(name: Seq<char>) -> Result<Key, NameError> {
    if name == "tab"@ {
        Ok(Key::Tab)
    } else if name == "enter"@ {
        Ok(Key::Enter)
    } else if name == "escape"@ {
        Ok(Key::Escape)
    } else if name == "backspace"@ {
        Ok(Key::Backspace)
    } else if name == "ctrl+space"@ {
        Ok(Key::CtrlSpace)
    } else if name == "ctrl+/"@ {
        Ok(Key::CtrlSlash)
    } else if name == "arrow_up"@ {
        Ok(Key::ArrowUp)
    } else if name == "arrow_down"@ {
        Ok(Key::ArrowDown)
    } else if name == "arrow_left"@ {
        Ok(Key::ArrowLeft)
    } else if name == "arrow_right"@ {
        Ok(Key::ArrowRight)
    } else if name.len() >= 5 && name.take(5) == "ctrl+"@ {
        let rest = name.skip(5);
        if rest.len() == 1 && is_lower(rest[0]) {
            if is_reserved(rest[0]) {
                Err(NameError::Reserved(rest[0]))
            } else {
                Ok(Key::Ctrl(rest[0]))
            }
        } else {
            Err(NameError::NotALetter(rest))
        }
    } else {
        Err(NameError::Unknown(name))
    }
}

/// `parsed` is the outcome `expected`.
pub open spec fn is_parse(
    parsed: Result<KeyEvent, KeyNameError>,
    expected: Result<Key, NameError>,
) -> bool {
    match (parsed, expected) {
        (Ok(key), Ok(k)) => key@ == k,
        (Err(error), Err(e)) => error@ == e,
        _ => false,
    }
}

/// Parses a key name that is trimmed and in lower case.
pub fn parse_normalized_key_name(name: &str) -> (parsed: Result<KeyEvent, KeyNameError>)
    ensures
        is_parse(parsed, key_of_name(name@)),
{
    if same_text(name, "tab") {
        return Ok(KeyEvent::Tab);
    }
    if same_text(name, "enter") {
        return Ok(KeyEvent::Enter);
    }
    if same_text(name, "escape") {
        return Ok(KeyEvent::Escape);
    }
    if same_text(name, "backspace") {
        return Ok(KeyEvent::Backspace);
    }
    if same_text(name, "ctrl+space") {
        return Ok(KeyEvent::CtrlSpace);
    }
    if same_text(name, "ctrl+/") {
        return Ok(KeyEvent::CtrlSlash);
    }
    if same_text(name, "arrow_up") {
        return Ok(KeyEvent::ArrowUp);
    }
    if same_text(name, "arrow_down") {
        return Ok(KeyEvent::ArrowDown);
    }
    if same_text(name, "arrow_left") {
        return Ok(KeyEvent::ArrowLeft);
    }
    if same_text(name, "arrow_right") {
        return Ok(KeyEvent::ArrowRight);
    }
    let len: usize = name.unicode_len();
    if len >= 5 && same_text(name.substring_char(0, 5), "ctrl+") {
        assert(name@.subrange(0, 5) =~= name@.take(5));
        let rest = char_range(name, 5, len);
        assert(rest@ =~= name@.skip(5));
        if len == 6 {
            let c = name.get_char(5);
            assert(rest@[0] == c);
            if 'a' <= c && c <= 'z' {
                if c == 'c' || c == 'd' || c == 'z' || c == 's' || c == 'q' || c == 'i' || c == 'm' {
                    return Err(KeyNameError::Reserved(c));
                }
                return Ok(KeyEvent::Ctrl(c));
            }
        }
        return Err(KeyNameError::NotALetter(rest));
    }
    proof {
        if len >= 5 {
            assert(name@.subrange(0, 5) =~= name@.take(5));
        }
    }
    Err(KeyNameError::Unknown(String::from_str(name)))
}

/// The lower-case equivalent of a string, by the mapping of the Unicode standard.
pub uninterp spec fn lowercase_of(s: Seq<char>) -> Seq<char>;

/// A string with its ASCII letters in lower case.
pub open spec fn ascii_lowercase(s: Seq<char>) -> Seq<char> {
    Seq::new(
        s.len(),
        |i: int|
            if 'A' <= s[i] && s[i] <= 'Z' {
                (s[i] as u32 + 32) as char
            } else {
                s[i]
            },
    )
}

/// `str::to_lowercase`: the lower-case equivalent of a string. Of an ASCII string only
/// the letters change.
pub assume_specification[ str::to_lowercase ](s: &str) -> (lower: String)
    ensures
        lower@ == lowercase_of(s@),
        is_ascii_chars(s@) ==> lower@ == ascii_lowercase(s@),
;

/// A name without the white space around it, in lower case.
pub open spec fn normalized(name: Seq<char>) -> Seq<char> {
    let t = trimmed(name);
    if is_ascii_chars(t) {
        ascii_lowercase(t)
    } else {
        lowercase_of(t)
    }
}

/// The key that a name stands for, whatever its case and the white space around it.
pub open spec fn named_key(name: Seq<char>) -> Result<Key, NameError> {
    key_of_name(normalized(name))
}

/// Parses a human-readable key name.
///
/// Supported names (case-insensitive): `tab`, `enter`, `escape`, `backspace`,
/// `ctrl+space`, `ctrl+/`, `arrow_up`, `arrow_down`, `arrow_left`, `arrow_right`,
/// `ctrl+a`-`ctrl+z`.
pub fn parse_key_name(name: &str) -> (parsed: Result<KeyEvent, KeyNameError>)
    ensures
        is_parse(parsed, named_key(name@)),
{
    let chars = chars_of(name);
    let (start, end): (usize, usize) = trim_bounds(&chars);
    let trimmed_name = string_of(&chars, start, end);
    let lower = trimmed_name.as_str().to_lowercase();
    parse_normalized_key_name(lower.as_str())
}

/// A string as Rust's debug format quotes and escapes it.
pub uninterp spec fn debug_text(s: Seq<char>) -> Seq<char>;

/// Printable ASCII without quotes and backslashes: nothing in it is to be escaped.
pub open spec fn is_plain_text(s: Seq<char>) -> bool {
    forall|i: int|
        0 <= i < s.len() ==> ' ' <= #[trigger] s[i] && s[i] <= '~' && s[i] != '"' && s[i] != '\''
            && s[i] != '\\'
}

/// `<str as Debug>::fmt`, by way of `format!`: the string in double quotes, escaped.
#[verifier::external_body]
fn debug_quoted(s: &str) -> (quoted: String)
    ensures
        quoted@ == debug_text(s@),
        is_plain_text(s@) ==> quoted@ == seq!['"'] + s@ + seq!['"'],
{
    format!("{:?}", s)
}

/// A string in double quotes, escaped where it needs to be.
pub open spec fn quoted_text(s: Seq<char>) -> Seq<char> {
    if is_plain_text(s) {
        seq!['"'] + s + seq!['"']
    } else {
        debug_text(s)
    }
}

/// What Ctrl with a reserved letter is reserved for.
pub open spec fn reserved_message(c: char) -> Seq<char> {
    if c == 'c' {
        "ctrl+c is reserved for SIGINT — cannot be used as a keybinding"@
    } else if c == 'd' {
        "ctrl+d is reserved for EOF — cannot be used as a keybinding"@
    } else if c == 'z' {
        "ctrl+z is reserved for SIGTSTP — cannot be used as a keybinding"@
    } else if c == 's' {
        "ctrl+s is reserved for flow control (XOFF) — cannot be used as a keybinding"@
    } else if c == 'q' {
        "ctrl+q is reserved for flow control (XON) — cannot be used as a keybinding"@
    } else if c == 'i' {
        "ctrl+i produces the same byte as Tab (0x09) — use 'tab' instead"@
    } else {
        "ctrl+m produces the same byte as Enter (0x0D) — use 'enter' instead"@
    }
}

/// The message of an error.
pub open spec fn error_message(error: NameError) -> Seq<char> {
    match error {
        NameError::Reserved(c) => reserved_message(c),
        NameError::NotALetter(rest) => "ctrl+ must be followed by a single letter (a-z), got: "@
            + quoted_text(rest),
        NameError::Unknown(name) => "unknown key name: "@ + quoted_text(name),
    }
}

impl KeyNameError {
    /// The message to show to the user.
    pub fn to_string(&self) -> (message: String)
        ensures
            message@ == error_message(self@),
    {
        match self {
            KeyNameError::Reserved(c) => {
                let text = if *c == 'c' {
                    "ctrl+c is reserved for SIGINT — cannot be used as a keybinding"
                } else if *c == 'd' {
                    "ctrl+d is reserved for EOF — cannot be used as a keybinding"
                } else if *c == 'z' {
                    "ctrl+z is reserved for SIGTSTP — cannot be used as a keybinding"
                } else if *c == 's' {
                    "ctrl+s is reserved for flow control (XOFF) — cannot be used as a keybinding"
                } else if *c == 'q' {
                    "ctrl+q is reserved for flow control (XON) — cannot be used as a keybinding"
                } else if *c == 'i' {
                    "ctrl+i produces the same byte as Tab (0x09) — use 'tab' instead"
                } else {
                    "ctrl+m produces the same byte as Enter (0x0D) — use 'enter' instead"
                };
                String::from_str(text)
            },
            KeyNameError::NotALetter(rest) => {
                let mut message = String::from_str(
                    "ctrl+ must be followed by a single letter (a-z), got: ",
                );
                message.append(debug_quoted(rest.as_str()).as_str());
                message
            },
            KeyNameError::Unknown(name) => {
                let mut message = String::from_str("unknown key name: ");
                message.append(debug_quoted(name.as_str()).as_str());
                message
            },
        }
    }
}

// ---- Labels ----

/// The numbers of `bytes`, separated by commas.
pub open spec fn listed(bytes: Seq<u8>) -> Seq<char>
    decreases bytes.len(),
{
    if bytes.len() == 0 {
        Seq::empty()
    } else if bytes.len() == 1 {
        decimal_text(bytes[0] as nat)
    } else {
        listed(bytes.drop_last()) + ", "@ + decimal_text(bytes.last() as nat)
    }
}

/// The ASCII upper-case equivalent of `c`.
pub open spec fn upper(c: char) -> char {
    if is_lower(c) {
        (c as u32 - 32) as char
    } else {
        c
    }
}

/// The label of a key in the key hints of the popup.
pub open spec fn key_label(key: Key) -> Seq<char> {
    match key {
        Key::Tab => "Tab"@,
        Key::Enter => "Enter"@,
        Key::Escape => "Esc"@,
        Key::ArrowUp => "Up"@,
        Key::ArrowDown => "Down"@,
        Key::ArrowLeft => "Left"@,
        Key::ArrowRight => "Right"@,
        Key::CtrlSpace => "Ctrl+Space"@,
        Key::CtrlSlash => "Ctrl+/"@,
        Key::Ctrl(c) => "Ctrl+"@.push(upper(c)),
        Key::Printable(c) => seq![c],
        Key::PageUp => "PageUp"@,
        Key::PageDown => "PageDown"@,
        Key::Home => "Home"@,
        Key::HomeCsiTilde => "HomeCsiTilde"@,
        Key::HomeCsi7Tilde => "HomeCsi7Tilde"@,
        Key::HomeSs3 => "HomeSs3"@,
        Key::End => "End"@,
        Key::EndCsiTilde => "EndCsiTilde"@,
        Key::EndCsi8Tilde => "EndCsi8Tilde"@,
        Key::EndSs3 => "EndSs3"@,
        Key::Backspace => "Backspace"@,
        Key::CursorPositionReport(row, col) => "CursorPositionReport("@ + decimal_text(row as nat)
            + ", "@ + decimal_text(col as nat) + ")"@,
        Key::Raw(bytes) => "Raw(["@ + listed(bytes) + "])"@,
    }
}

fn push_listed(out: &mut String, bytes: &Vec<u8>)
    ensures
        final(out)@ == old(out)@ + listed(bytes@),
{
    let ghost before = out@;
    let mut i: usize = 0;
    assert(before + listed(bytes@.take(0)) =~= before);
    while i < bytes.len()
        invariant
            i <= bytes@.len(),
            out@ == before + listed(bytes@.take(i as int)),
        decreases bytes.len() - i,
    {
        let ghost front = listed(bytes@.take(i as int));
        let ghost digits = decimal_text(bytes@[i as int] as nat);
        proof {
            let now = bytes@.take(i + 1);
            assert(now.drop_last() =~= bytes@.take(i as int));
            assert(now.last() == bytes@[i as int]);
            assert(now[0] == bytes@[0]);
        }
        if i > 0 {
            out.append(", ");
        }
        push_decimal_text(out, bytes[i] as u32);
        proof {
            if i > 0 {
                assert(before + front + ", "@ + digits =~= before + (front + ", "@ + digits));
            } else {
                assert(before + front + digits =~= before + digits);
            }
        }
        i = i + 1;
    }
    assert(bytes@.take(i as int) =~= bytes@);
}

/// Formats a key as a human-readable label for key hints.
pub fn format_key_event(key: &KeyEvent) -> (label: String)
    ensures
        label@ == key_label(key@),
{
    let name = match key {
        KeyEvent::Tab => "Tab",
        KeyEvent::Enter => "Enter",
        KeyEvent::Escape => "Esc",
        KeyEvent::ArrowUp => "Up",
        KeyEvent::ArrowDown => "Down",
        KeyEvent::ArrowLeft => "Left",
        KeyEvent::ArrowRight => "Right",
        KeyEvent::CtrlSpace => "Ctrl+Space",
        KeyEvent::CtrlSlash => "Ctrl+/",
        KeyEvent::Ctrl(c) => {
            let mut label = String::from_str("Ctrl+");
            if 'a' <= *c && *c <= 'z' {
                label.push((*c as u32 - 32) as u8 as char);
            } else {
                label.push(*c);
            }
            return label;
        },
        KeyEvent::Printable(c) => {
            let mut label = String::new();
            label.push(*c);
            assert(label@ =~= seq![*c]);
            return label;
        },
        KeyEvent::PageUp => "PageUp",
        KeyEvent::PageDown => "PageDown",
        KeyEvent::Home => "Home",
        KeyEvent::HomeCsiTilde => "HomeCsiTilde",
        KeyEvent::HomeCsi7Tilde => "HomeCsi7Tilde",
        KeyEvent::HomeSs3 => "HomeSs3",
        KeyEvent::End => "End",
        KeyEvent::EndCsiTilde => "EndCsiTilde",
        KeyEvent::EndCsi8Tilde => "EndCsi8Tilde",
        KeyEvent::EndSs3 => "EndSs3",
        KeyEvent::Backspace => "Backspace",
        KeyEvent::CursorPositionReport(row, col) => {
            let mut label = String::from_str("CursorPositionReport(");
            push_decimal_text(&mut label, *row as u32);
            label.append(", ");
            push_decimal_text(&mut label, *col as u32);
            label.append(")");
            return label;
        },
        KeyEvent::Raw(bytes) => {
            let mut label = String::from_str("Raw([");
            push_listed(&mut label, bytes);
            label.append("])");
            return label;
        },
    };
    String::from_str(name)
}

// ---- Bindings ----

/// Resolved keybindings: each action maps to a concrete key.
#[derive(Debug, PartialEq, Eq)]
pub struct Keybindings {
    pub accept: KeyEvent,
    pub accept_and_enter: KeyEvent,
    pub dismiss: KeyEvent,
    pub navigate_up: KeyEvent,
    pub navigate_down: KeyEvent,
    pub trigger: KeyEvent,
    pub toggle_match_mode: KeyEvent,
}

impl Keybindings {
    /// Each action is bound to the key it has by default.
    pub open spec fn is_default(&self) -> bool {
        &&& self.accept@ == Key::Tab
        &&& self.accept_and_enter@ == Key::Enter
        &&& self.dismiss@ == Key::Escape
        &&& self.navigate_up@ == Key::ArrowUp
        &&& self.navigate_down@ == Key::ArrowDown
        &&& self.trigger@ == Key::CtrlSlash
        &&& self.toggle_match_mode@ == Key::Ctrl('r')
    }
}

impl Default for Keybindings {
    fn default() -> (bindings: Self)
        ensures
            bindings.is_default(),
    {
        Keybindings {
            accept: KeyEvent::Tab,
            accept_and_enter: KeyEvent::Enter,
            dismiss: KeyEvent::Escape,
            navigate_up: KeyEvent::ArrowUp,
            navigate_down: KeyEvent::ArrowDown,
            trigger: KeyEvent::CtrlSlash,
            toggle_match_mode: KeyEvent::Ctrl('r'),
        }
    }
}

/// The names of the keys bound to each action, as configured.
#[derive(Debug)]
pub struct KeybindingsConfig {
    pub accept: String,
    pub accept_and_enter: String,
    pub dismiss: String,
    pub navigate_up: String,
    pub navigate_down: String,
    pub trigger: String,
    pub toggle_match_mode: String,
}

impl Default for KeybindingsConfig {
    fn default() -> (config: Self)
        ensures
            config.accept@ == "tab"@,
            config.accept_and_enter@ == "enter"@,
            config.dismiss@ == "escape"@,
            config.navigate_up@ == "arrow_up"@,
            config.navigate_down@ == "arrow_down"@,
            config.trigger@ == "ctrl+/"@,
            config.toggle_match_mode@ == "ctrl+r"@,
    {
        KeybindingsConfig {
            accept: String::from_str("tab"),
            accept_and_enter: String::from_str("enter"),
            dismiss: String::from_str("escape"),
            navigate_up: String::from_str("arrow_up"),
            navigate_down: String::from_str("arrow_down"),
            trigger: String::from_str("ctrl+/"),
            toggle_match_mode: String::from_str("ctrl+r"),
        }
    }
}

/// The first of two outcomes that is an error, if either is.
pub open spec fn first_error(
    first: Result<Key, NameError>,
    later: Option<NameError>,
) -> Option<NameError> {
    match first {
        Ok(_) => later,
        Err(e) => Some(e),
    }
}

impl KeybindingsConfig {
    /// The error of the first name that is no key, in the order of the fields.
    pub open spec fn error(&self) -> Option<NameError> {
        first_error(
            named_key(self.accept@),
            first_error(
                named_key(self.accept_and_enter@),
                first_error(
                    named_key(self.dismiss@),
                    first_error(
                        named_key(self.navigate_up@),
                        first_error(
                            named_key(self.navigate_down@),
                            first_error(
                                named_key(self.trigger@),
                                first_error(named_key(self.toggle_match_mode@), None),
                            ),
                        ),
                    ),
                ),
            ),
        )
    }
}

impl Keybindings {
    /// Resolves the configured names.
    pub fn from_config(config: &KeybindingsConfig) -> (resolved: Result<Self, KeyNameError>)
        ensures
            match resolved {
                Ok(bindings) => {
                    &&& config.error() is None
                    &&& named_key(config.accept@) == Ok::<Key, NameError>(bindings.accept@)
                    &&& named_key(config.accept_and_enter@) == Ok::<Key, NameError>(
                        bindings.accept_and_enter@,
                    )
                    &&& named_key(config.dismiss@) == Ok::<Key, NameError>(bindings.dismiss@)
                    &&& named_key(config.navigate_up@) == Ok::<Key, NameError>(bindings.navigate_up@)
                    &&& named_key(config.navigate_down@) == Ok::<Key, NameError>(
                        bindings.navigate_down@,
                    )
                    &&& named_key(config.trigger@) == Ok::<Key, NameError>(bindings.trigger@)
                    &&& named_key(config.toggle_match_mode@) == Ok::<Key, NameError>(
                        bindings.toggle_match_mode@,
                    )
                },
                Err(e) => config.error() == Some(e@),
            },
    {
        let accept = match parse_key_name(config.accept.as_str()) {
            Ok(key) => key,
            Err(e) => {
                return Err(e);
            },
        };
        let accept_and_enter = match parse_key_name(config.accept_and_enter.as_str()) {
            Ok(key) => key,
            Err(e) => {
                return Err(e);
            },
        };
        let dismiss = match parse_key_name(config.dismiss.as_str()) {
            Ok(key) => key,
            Err(e) => {
                return Err(e);
            },
        };
        let navigate_up = match parse_key_name(config.navigate_up.as_str()) {
            Ok(key) => key,
            Err(e) => {
                return Err(e);
            },
        };
        let navigate_down = match parse_key_name(config.navigate_down.as_str()) {
            Ok(key) => key,
            Err(e) => {
                return Err(e);
            },
        };
        let trigger = match parse_key_name(config.trigger.as_str()) {
            Ok(key) => key,
            Err(e) => {
                return Err(e);
            },
        };
        let toggle_match_mode = match parse_key_name(config.toggle_match_mode.as_str()) {
            Ok(key) => key,
            Err(e) => {
                return Err(e);
            },
        };
        Ok(
            Keybindings {
                accept,
                accept_and_enter,
                dismiss,
                navigate_up,
                navigate_down,
                trigger,
                toggle_match_mode,
            },
        )
    }
}

// ---- Laws ----

/// A key with an encoding of its own: neither raw bytes nor a report, no letter whose
/// control byte is Tab or Enter, and no character outside of printable ASCII.
pub open spec fn has_own_encoding(key: Key) -> bool {
    match key {
        Key::Ctrl(c) => is_lower(c) && c != 'i' && c != 'm',
        Key::Printable(c) => ' ' <= c && c <= '~',
        Key::CursorPositionReport(_, _) => false,
        Key::Raw(_) => false,
        _ => true,
    }
}

/// The bytes forwarded for a key are read as that key again.
pub proof fn law_forwarded_key_reads_back(key: Key)
    requires
        has_own_encoding(key),
    ensures
        keys_of(key_bytes(key)) == seq![key],
{
    let s = key_bytes(key);
    if let Key::Printable(c) = key {
        is_ascii_chars_encode_utf8(seq![c]);
        assert(s =~= seq![c as u8]);
    }
    let n = first_key(s).1;
    assert(first_key(s).0 == key);
    assert(n == s.len());
    assert(s.skip(n) =~= Seq::<u8>::empty());
    assert(keys_of(s.skip(n)) =~= Seq::<Key>::empty());
    assert(keys_of(s) =~= seq![key]);
}

/// The key at the front of `s` comes in an encoding that the shell is not sent: an arrow in
/// its application form, a key of the kitty keyboard protocol, or a cursor position report.
pub open spec fn is_reencoded(s: Seq<u8>) -> bool {
    let end = params_end(s, 2);
    &&& s.len() > 2
    &&& s[0] == 0x1B
    &&& ({
        ||| s[1] == 0x4F && 0x41 <= s[2] <= 0x44
        ||| s[1] == 0x5B && end < s.len() && s[end] == 0x52 && cpr_value(s.subrange(2, end)) is Some
        ||| s[1] == 0x5B && end < s.len() && s[end] == 0x75 && csi_u_value(s.subrange(2, end)) is Some
    })
}

/// What is typed reaches the shell as it came, unless it comes in another encoding: the
/// bytes of the key at the front are those that it was read from.
pub proof fn law_typed_bytes_are_forwarded_verbatim(s: Seq<u8>)
    requires
        s.len() > 0,
        !is_reencoded(s),
    ensures
        key_bytes(first_key(s).0) == s.take(first_key(s).1),
{
    let (key, n) = first_key(s);
    if let Key::Printable(c) = key {
        is_ascii_chars_encode_utf8(seq![c]);
        assert(encode_utf8(seq![c]) =~= seq![c as u8]);
    }
    law_every_key_takes_bytes(s);
    assert(key_bytes(key) =~= s.take(n));
}

/// The case of a name does not matter.
pub proof fn law_key_names_ignore_case(name: Seq<char>, other: Seq<char>)
    requires
        is_ascii_chars(trimmed(name)),
        is_ascii_chars(trimmed(other)),
        ascii_lowercase(trimmed(name)) == ascii_lowercase(trimmed(other)),
    ensures
        named_key(name) == named_key(other),
{
}

/// No binding takes a key that the terminal needs for signals, end of input or flow
/// control, nor one that cannot be told from Tab or Enter.
pub proof fn law_reserved_keys_are_never_bound(name: Seq<char>, c: char)
    requires
        named_key(name) == Ok::<Key, NameError>(Key::Ctrl(c)),
    ensures
        is_lower(c),
        !is_reserved(c),
{
}

/// An arrow reaches the shell in its usual form, `ESC [` and its letter, in whichever form
/// the terminal has sent it.
pub proof fn law_arrows_are_forwarded_in_usual_form(b: u8, rest: Seq<u8>)
    requires
        'A' as u8 <= b <= 'D' as u8,
    ensures
        ({
            let usual = first_key(seq![0x1Bu8, 0x5Bu8, b] + rest).0;
            let application = first_key(seq![0x1Bu8, 0x4Fu8, b] + rest).0;
            &&& key_bytes(usual) == seq![0x1Bu8, 0x5Bu8, b]
            &&& key_bytes(application) == seq![0x1Bu8, 0x5Bu8, b]
        }),
{
}

/// A character outside of ASCII reaches the shell in UTF-8, and a letter with Ctrl as the
/// control byte of its place in the alphabet. A cursor position report reaches it never,
/// and raw bytes as they are.
pub proof fn law_forwarded_bytes_of_a_key(c: char, bytes: Seq<u8>, row: u16, col: u16)
    ensures
        key_bytes(Key::Printable(c)) == encode_utf8(seq![c]),
        'a' <= c && c <= 'z' ==> key_bytes(Key::Ctrl(c)) == seq![
            (c as u32 - 'a' as u32 + 1) as u8,
        ],
        key_bytes(Key::CursorPositionReport(row, col)).len() == 0,
        key_bytes(Key::Raw(bytes)) == bytes,
{
}

/// Ctrl with each letter is a key by its name, in either case and with blanks around it,
/// unless the terminal needs it (c, d, z, s, q) or it sends the byte of another key (i, m).
pub proof fn law_ctrl_names_are_keys(c: char, front: Seq<char>, back: Seq<char>)
    requires
        'a' <= c && c <= 'z',
        forall|i: int| 0 <= i < front.len() ==> #[trigger] front[i] == ' ' || front[i] == '\t',
        forall|i: int| 0 <= i < back.len() ==> #[trigger] back[i] == ' ' || back[i] == '\t',
    ensures
        ({
            let reserved = c == 'c' || c == 'd' || c == 'z' || c == 's' || c == 'q' || c == 'i'
                || c == 'm';
            let lower = seq!['c', 't', 'r', 'l', '+', c];
            let upper = seq!['C', 'T', 'R', 'L', '+', (c as u32 - 32) as char];
            let expected = if reserved {
                Err::<Key, NameError>(NameError::Reserved(c))
            } else {
                Ok(Key::Ctrl(c))
            };
            &&& named_key(front + lower + back) == expected
            &&& named_key(front + upper + back) == expected
        }),
{
    let lower = seq!['c', 't', 'r', 'l', '+', c];
    let upper = seq!['C', 'T', 'R', 'L', '+', (c as u32 - 32) as char];
    assert forall|i: int| 0 <= i < front.len() implies is_white_space(#[trigger] front[i]) by {}
    assert forall|i: int| 0 <= i < back.len() implies is_white_space(#[trigger] back[i]) by {}
    law_trimming_takes_blanks_at_the_ends(front, lower, back);
    law_trimming_takes_blanks_at_the_ends(front, upper, back);
    assert(is_ascii_chars(lower));
    assert(is_ascii_chars(upper));
    assert(ascii_lowercase(lower) =~= lower);
    assert(ascii_lowercase(upper) =~= lower);
    lemma_fixed_names(lower);
    reveal_strlit("ctrl+");
    assert(lower.take(5) =~= "ctrl+"@);
    assert(lower.skip(5) =~= seq![c]);
}

/// The fixed names all have other lengths than a letter with Ctrl, or other letters.
proof fn lemma_fixed_names(name: Seq<char>)
    requires
        name.len() == 6,
        name[0] == 'c',
        'a' <= name[5] && name[5] <= 'z',
    ensures
        name != "tab"@,
        name != "enter"@,
        name != "escape"@,
        name != "backspace"@,
        name != "ctrl+space"@,
        name != "ctrl+/"@,
        name != "arrow_up"@,
        name != "arrow_down"@,
        name != "arrow_left"@,
        name != "arrow_right"@,
{
    reveal_strlit("tab");
    reveal_strlit("enter");
    reveal_strlit("escape");
    reveal_strlit("backspace");
    reveal_strlit("ctrl+space");
    reveal_strlit("ctrl+/");
    reveal_strlit("arrow_up");
    reveal_strlit("arrow_down");
    reveal_strlit("arrow_left");
    reveal_strlit("arrow_right");
}

/// Blanks around a name do not matter.
pub proof fn law_key_names_ignore_blanks(front: Seq<char>, name: Seq<char>, back: Seq<char>)
    requires
        name.len() > 0,
        !is_white_space(name[0]),
        !is_white_space(name.last()),
        forall|i: int| 0 <= i < front.len() ==> is_white_space(#[trigger] front[i]),
        forall|i: int| 0 <= i < back.len() ==> is_white_space(#[trigger] back[i]),
    ensures
        named_key(front + name + back) == named_key(name),
{
    law_trimming_takes_blanks_at_the_ends(front, name, back);
    law_trimming_takes_blanks_at_the_ends(Seq::empty(), name, Seq::empty());
    assert(Seq::<char>::empty() + name + Seq::<char>::empty() =~= name);
}

/// The label of Ctrl with a letter names the key again.
pub proof fn law_ctrl_label_names_the_key(c: char)
    requires
        named_key(seq!['c', 't', 'r', 'l', '+', c]) == Ok::<Key, NameError>(Key::Ctrl(c)),
        'a' <= c && c <= 'z',
    ensures
        named_key(key_label(Key::Ctrl(c))) == Ok::<Key, NameError>(Key::Ctrl(c)),
        key_label(Key::Ctrl(c)) == seq!['C', 't', 'r', 'l', '+', (c as u32 - 32) as char],
{
    let none = Seq::<char>::empty();
    let label = key_label(Key::Ctrl(c));
    let lower = seq!['c', 't', 'r', 'l', '+', c];
    reveal_strlit("Ctrl+");
    assert(label =~= seq!['C', 't', 'r', 'l', '+', (c as u32 - 32) as char]);
    law_trimming_takes_blanks_at_the_ends(none, label, none);
    law_trimming_takes_blanks_at_the_ends(none, lower, none);
    assert(none + label + none =~= label);
    assert(none + lower + none =~= lower);
    assert(is_ascii_chars(label));
    assert(is_ascii_chars(lower));
    assert(ascii_lowercase(label) =~= lower);
    assert(ascii_lowercase(lower) =~= lower);
}

/// A configuration is taken over where every name in it is a key, and each action gets the
/// key of its own name; the first name that is none is told.
pub proof fn law_config_needs_every_name(config: KeybindingsConfig)
    ensures
        config.error() is None <==> named_key(config.accept@) is Ok && named_key(
            config.accept_and_enter@,
        ) is Ok && named_key(config.dismiss@) is Ok && named_key(config.navigate_up@) is Ok
            && named_key(config.navigate_down@) is Ok && named_key(config.trigger@) is Ok
            && named_key(config.toggle_match_mode@) is Ok,
        named_key(config.accept@) matches Err(e) ==> config.error() == Some(e),
{
}

/// The keys that have names, by their names, with any blanks around them.
#[verifier::spinoff_prover]
pub proof fn law_names_stand_for_their_keys(front: Seq<char>, back: Seq<char>)
    requires
        forall|i: int| 0 <= i < front.len() ==> is_white_space(#[trigger] front[i]),
        forall|i: int| 0 <= i < back.len() ==> is_white_space(#[trigger] back[i]),
    ensures
        named_key(front + "tab"@ + back) == Ok::<Key, NameError>(Key::Tab),
        named_key(front + "enter"@ + back) == Ok::<Key, NameError>(Key::Enter),
        named_key(front + "escape"@ + back) == Ok::<Key, NameError>(Key::Escape),
        named_key(front + "backspace"@ + back) == Ok::<Key, NameError>(Key::Backspace),
        named_key(front + "ctrl+space"@ + back) == Ok::<Key, NameError>(Key::CtrlSpace),
        named_key(front + "ctrl+/"@ + back) == Ok::<Key, NameError>(Key::CtrlSlash),
        named_key(front + "arrow_up"@ + back) == Ok::<Key, NameError>(Key::ArrowUp),
        named_key(front + "arrow_down"@ + back) == Ok::<Key, NameError>(Key::ArrowDown),
        named_key(front + "arrow_left"@ + back) == Ok::<Key, NameError>(Key::ArrowLeft),
        named_key(front + "arrow_right"@ + back) == Ok::<Key, NameError>(Key::ArrowRight),
{
    reveal_strlit("tab");
    reveal_strlit("enter");
    reveal_strlit("escape");
    reveal_strlit("backspace");
    reveal_strlit("ctrl+space");
    reveal_strlit("ctrl+/");
    reveal_strlit("arrow_up");
    reveal_strlit("arrow_down");
    reveal_strlit("arrow_left");
    reveal_strlit("arrow_right");
    assert("tab"@.len() == 3 && "enter"@.len() == 5 && "escape"@.len() == 6);
    assert("backspace"@.len() == 9 && "ctrl+space"@.len() == 10 && "ctrl+/"@.len() == 6);
    assert("arrow_up"@.len() == 8 && "arrow_down"@.len() == 10);
    assert("arrow_left"@.len() == 10 && "arrow_right"@.len() == 11);
    assert("escape"@[0] == 'e' && "ctrl+/"@[0] == 'c');
    assert("ctrl+space"@[0] == 'c' && "arrow_down"@[0] == 'a' && "arrow_left"@[0] == 'a');
    assert("arrow_down"@[6] == 'd' && "arrow_left"@[6] == 'l');
    lemma_lower_name(front, "tab"@, back);
    lemma_lower_name(front, "enter"@, back);
    lemma_lower_name(front, "escape"@, back);
    lemma_lower_name(front, "backspace"@, back);
    lemma_lower_name(front, "ctrl+space"@, back);
    lemma_lower_name(front, "ctrl+/"@, back);
    lemma_lower_name(front, "arrow_up"@, back);
    lemma_lower_name(front, "arrow_down"@, back);
    lemma_lower_name(front, "arrow_left"@, back);
    lemma_lower_name(front, "arrow_right"@, back);
}

proof fn lemma_lower_name(front: Seq<char>, name: Seq<char>, back: Seq<char>)
    requires
        name.len() > 0,
        forall|i: int|
            0 <= i < name.len() ==> '+' <= #[trigger] name[i] && name[i] <= 'z' && !('A' <= name[i]
                && name[i] <= 'Z'),
        forall|i: int| 0 <= i < front.len() ==> is_white_space(#[trigger] front[i]),
        forall|i: int| 0 <= i < back.len() ==> is_white_space(#[trigger] back[i]),
    ensures
        named_key(front + name + back) == key_of_name(name),
{
    assert(name[0] >= '+' && name.last() >= '+');
    law_trimming_takes_blanks_at_the_ends(front, name, back);
    assert(is_ascii_chars(name));
    assert(ascii_lowercase(name) =~= name);
}

/// The names that are configured by default stand for the keys that are bound by default.
pub proof fn law_default_names_are_default_keys(b: Keybindings)
    requires
        b.is_default(),
    ensures
        named_key("tab"@) == Ok::<Key, NameError>(b.accept@),
        named_key("enter"@) == Ok::<Key, NameError>(b.accept_and_enter@),
        named_key("escape"@) == Ok::<Key, NameError>(b.dismiss@),
        named_key("arrow_up"@) == Ok::<Key, NameError>(b.navigate_up@),
        named_key("arrow_down"@) == Ok::<Key, NameError>(b.navigate_down@),
        named_key("ctrl+/"@) == Ok::<Key, NameError>(b.trigger@),
        named_key(seq!['c', 't', 'r', 'l', '+', 'r']) == Ok::<Key, NameError>(b.toggle_match_mode@),
{
    let none = Seq::<char>::empty();
    let r = seq!['c', 't', 'r', 'l', '+', 'r'];
    law_names_stand_for_their_keys(none, none);
    law_ctrl_names_are_keys('r', none, none);
    assert(none + "tab"@ + none =~= "tab"@);
    assert(none + "enter"@ + none =~= "enter"@);
    assert(none + "escape"@ + none =~= "escape"@);
    assert(none + "arrow_up"@ + none =~= "arrow_up"@);
    assert(none + "arrow_down"@ + none =~= "arrow_down"@);
    assert(none + "ctrl+/"@ + none =~= "ctrl+/"@);
    assert(none + r + none =~= r);
}

/// A message about a name repeats it in double quotes; one about a reserved letter names
/// the key.
pub proof fn law_messages_show_the_name(name: Seq<char>, c: char)
    requires
        forall|i: int|
            0 <= i < name.len() ==> ' ' <= #[trigger] name[i] && name[i] <= '~' && name[i] != '"'
                && name[i] != '\'' && name[i] != '\\',
        c == 'c' || c == 'd' || c == 'z' || c == 's' || c == 'q' || c == 'i' || c == 'm',
    ensures
        error_message(NameError::Unknown(name)) == "unknown key name: "@ + (seq!['"'] + name
            + seq!['"']),
        error_message(NameError::NotALetter(name))
            == "ctrl+ must be followed by a single letter (a-z), got: "@ + (seq!['"'] + name + seq![
            '"',
        ]),
        error_message(NameError::Reserved(c)).take(6) == seq!['c', 't', 'r', 'l', '+', c],
{
    assert(is_plain_text(name));
    reveal_strlit("ctrl+c is reserved for SIGINT — cannot be used as a keybinding");
    reveal_strlit("ctrl+d is reserved for EOF — cannot be used as a keybinding");
    reveal_strlit("ctrl+z is reserved for SIGTSTP — cannot be used as a keybinding");
    reveal_strlit("ctrl+s is reserved for flow control (XOFF) — cannot be used as a keybinding");
    reveal_strlit("ctrl+q is reserved for flow control (XON) — cannot be used as a keybinding");
    reveal_strlit("ctrl+i produces the same byte as Tab (0x09) — use 'tab' instead");
    reveal_strlit("ctrl+m produces the same byte as Enter (0x0D) — use 'enter' instead");
    assert(error_message(NameError::Reserved(c)).take(6) =~= seq!['c', 't', 'r', 'l', '+', c]);
}

/// A character is its own label; raw bytes are listed one by one as decimal numbers, with a
/// comma and a space between them.
pub proof fn law_labels_show_characters_and_bytes(c: char, bytes: Seq<u8>, b: u8)
    ensures
        key_label(Key::Printable(c)) == seq![c],
        key_label(Key::Raw(seq![b])) == "Raw(["@ + decimal_text(b as nat) + "])"@,
        bytes.len() > 0 ==> listed(bytes.push(b)) == listed(bytes) + seq![',', ' '] + decimal_text(
            b as nat,
        ),
{
    reveal_strlit(", ");
    assert(", "@ =~= seq![',', ' ']);
    assert(bytes.push(b).drop_last() =~= bytes);
}

/// The keys with names of their own have them as their labels.
pub proof fn law_labels_name_the_keys(key: Key)
    ensures
        key == Key::Tab ==> key_label(key) == "Tab"@,
        key == Key::Enter ==> key_label(key) == "Enter"@,
        key == Key::Escape ==> key_label(key) == "Esc"@,
        key == Key::ArrowUp ==> key_label(key) == "Up"@,
        key == Key::ArrowDown ==> key_label(key) == "Down"@,
        key == Key::ArrowLeft ==> key_label(key) == "Left"@,
        key == Key::ArrowRight ==> key_label(key) == "Right"@,
        key == Key::CtrlSpace ==> key_label(key) == "Ctrl+Space"@,
        key == Key::CtrlSlash ==> key_label(key) == "Ctrl+/"@,
        key == Key::PageUp ==> key_label(key) == "PageUp"@,
        key == Key::PageDown ==> key_label(key) == "PageDown"@,
        key == Key::Home ==> key_label(key) == "Home"@,
        key == Key::End ==> key_label(key) == "End"@,
        key == Key::Backspace ==> key_label(key) == "Backspace"@,
{
}

} // verus!
