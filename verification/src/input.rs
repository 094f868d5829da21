//! Minimal key event parser for raw terminal stdin bytes.
//!
//! Parses known sequences (arrows, PageUp/PageDown, Home/End, Tab, Enter, Escape,
//! Ctrl+Space, Ctrl+/, Ctrl+A through Ctrl+Z) and passes through everything else
//! as raw bytes.

use vstd::prelude::*;
use vstd::slice::slice_subrange;
use vstd::slice::slice_to_vec;
use vstd::utf8::encode_utf8;
use vstd::utf8::encode_utf8_valid_utf8;
use vstd::utf8::is_ascii_chars_encode_utf8;
use vstd::utf8::valid_utf8;

use crate::decimal::parse_unsigned;
use crate::decimal::unsigned_value;
use crate::decimal::decimal;
use crate::decimal::is_digit;
use crate::decimal::law_written_number_reads_back;
use crate::decimal::lemma_decimal_digits;

verus! {

#[derive(Debug, Clone, PartialEq, Eq)]
pub enum KeyEvent {
    Tab,
    Enter,
    Escape,
    ArrowUp,
    ArrowDown,
    ArrowLeft,
    ArrowRight,
    PageUp,
    PageDown,
    Home,
    HomeCsiTilde,
    HomeCsi7Tilde,
    HomeSs3,
    End,
    EndCsiTilde,
    EndCsi8Tilde,
    EndSs3,
    CtrlSpace,
    CtrlSlash,
    Ctrl(char),
    Backspace,
    Printable(char),
    /// Cursor Position Report response (CSI row;col R), 1-indexed.
    CursorPositionReport(u16, u16),
    /// Unknown bytes, forwarded verbatim to the PTY.
    Raw(Vec<u8>),
}

/// The mathematical value of a [`KeyEvent`].
pub enum Key {
    Tab,
    Enter,
    Escape,
    ArrowUp,
    ArrowDown,
    ArrowLeft,
    ArrowRight,
    PageUp,
    PageDown,
    Home,
    HomeCsiTilde,
    HomeCsi7Tilde,
    HomeSs3,
    End,
    EndCsiTilde,
    EndCsi8Tilde,
    EndSs3,
    CtrlSpace,
    CtrlSlash,
    Ctrl(char),
    Backspace,
    Printable(char),
    CursorPositionReport(u16, u16),
    Raw(Seq<u8>),
}

impl View for KeyEvent {
    type V = Key;

    open spec fn view(&self) -> Key {
        match *self {
            KeyEvent::Tab => Key::Tab,
            KeyEvent::Enter => Key::Enter,
            KeyEvent::Escape => Key::Escape,
            KeyEvent::ArrowUp => Key::ArrowUp,
            KeyEvent::ArrowDown => Key::ArrowDown,
            KeyEvent::ArrowLeft => Key::ArrowLeft,
            KeyEvent::ArrowRight => Key::ArrowRight,
            KeyEvent::PageUp => Key::PageUp,
            KeyEvent::PageDown => Key::PageDown,
            KeyEvent::Home => Key::Home,
            KeyEvent::HomeCsiTilde => Key::HomeCsiTilde,
            KeyEvent::HomeCsi7Tilde => Key::HomeCsi7Tilde,
            KeyEvent::HomeSs3 => Key::HomeSs3,
            KeyEvent::End => Key::End,
            KeyEvent::EndCsiTilde => Key::EndCsiTilde,
            KeyEvent::EndCsi8Tilde => Key::EndCsi8Tilde,
            KeyEvent::EndSs3 => Key::EndSs3,
            KeyEvent::CtrlSpace => Key::CtrlSpace,
            KeyEvent::CtrlSlash => Key::CtrlSlash,
            KeyEvent::Ctrl(c) => Key::Ctrl(c),
            KeyEvent::Backspace => Key::Backspace,
            KeyEvent::Printable(c) => Key::Printable(c),
            KeyEvent::CursorPositionReport(row, col) => Key::CursorPositionReport(row, col),
            KeyEvent::Raw(bytes) => Key::Raw(bytes@),
        }
    }
}

/// The values of a row of events.
pub open spec fn key_views(events: Seq<KeyEvent>) -> Seq<Key> {
    Seq::new(events.len(), |i: int| events[i]@)
}

// ---- Grammar of the key encoding ----

/// A byte outside of any escape sequence.
pub open spec fn plain_key(b: u8) -> Key {
    if b == 0x00 {
        Key::CtrlSpace
    } else if b == 0x1F {
        Key::CtrlSlash
    } else if b == 0x09 {
        Key::Tab
    } else if b == 0x0D {
        Key::Enter
    } else if b == 0x7F {
        Key::Backspace
    } else if 0x01 <= b <= 0x1A {
        Key::Ctrl((b + 0x60) as char)
    } else if 0x20 <= b <= 0x7E {
        Key::Printable(b as char)
    } else {
        Key::Raw(seq![b])
    }
}

/// `ESC [ b` for the keys that end right after `b`.
pub open spec fn csi_letter_key(b: u8) -> Option<Key> {
    if b == 0x41 {
        Some(Key::ArrowUp)
    } else if b == 0x42 {
        Some(Key::ArrowDown)
    } else if b == 0x43 {
        Some(Key::ArrowRight)
    } else if b == 0x44 {
        Some(Key::ArrowLeft)
    } else if b == 0x48 {
        Some(Key::Home)
    } else if b == 0x46 {
        Some(Key::End)
    } else {
        None
    }
}

/// `ESC [ b ~`.
pub open spec fn csi_tilde_key(b: u8) -> Option<Key> {
    if b == 0x31 {
        Some(Key::HomeCsiTilde)
    } else if b == 0x34 {
        Some(Key::EndCsiTilde)
    } else if b == 0x35 {
        Some(Key::PageUp)
    } else if b == 0x36 {
        Some(Key::PageDown)
    } else if b == 0x37 {
        Some(Key::HomeCsi7Tilde)
    } else if b == 0x38 {
        Some(Key::EndCsi8Tilde)
    } else {
        None
    }
}

/// `ESC O b`.
pub open spec fn ss3_key(b: u8) -> Option<Key> {
    if b == 0x41 {
        Some(Key::ArrowUp)
    } else if b == 0x42 {
        Some(Key::ArrowDown)
    } else if b == 0x43 {
        Some(Key::ArrowRight)
    } else if b == 0x44 {
        Some(Key::ArrowLeft)
    } else if b == 0x48 {
        Some(Key::HomeSs3)
    } else if b == 0x46 {
        Some(Key::EndSs3)
    } else {
        None
    }
}

/// The first position at or after `from` that holds a byte of at least 0x40, or the
/// length of `s` where there is none.
pub open spec fn params_end(s: Seq<u8>, from: int) -> int
    decreases s.len() - from,
{
    if from >= s.len() || s[from] >= 0x40 {
        from
    } else {
        params_end(s, from + 1)
    }
}

/// The first position of `b` in `s`, or the length of `s` where it does not occur.
pub open spec fn position_of(s: Seq<u8>, b: u8, from: int) -> int
    decreases s.len() - from,
{
    if from >= s.len() || s[from] == b {
        from
    } else {
        position_of(s, b, from + 1)
    }
}

/// `row;col`, both decimal numbers of at most 16 bits.
pub open spec fn cpr_value(params: Seq<u8>) -> Option<(u16, u16)> {
    let semi = position_of(params, 0x3B, 0);
    if semi < params.len() {
        match (
            unsigned_value(params.take(semi), u16::MAX as nat),
            unsigned_value(params.skip(semi + 1), u16::MAX as nat),
        ) {
            (Some(row), Some(col)) => Some((row as u16, col as u16)),
            _ => None,
        }
    } else {
        None
    }
}

/// Characters of the Unicode category Cc.
pub open spec fn is_control_char(c: char) -> bool {
    c < 0x20 as char || (0x7F as char <= c && c <= 0x9F as char)
}

pub open spec fn is_scalar(code: nat) -> bool {
    code <= 0xD7FF || 0xE000 <= code <= 0x10FFFF
}

/// The key of a kitty keyboard protocol code point under decoded modifier bits.
pub open spec fn csi_u_key(code: nat, ctrl: bool, alt: bool) -> Option<Key> {
    if alt {
        None
    } else if ctrl {
        if code == 32 {
            Some(Key::CtrlSpace)
        } else if code == 47 {
            Some(Key::CtrlSlash)
        } else if 97 <= code <= 122 {
            Some(Key::Ctrl(code as char))
        } else if 65 <= code <= 90 {
            Some(Key::Ctrl((code + 32) as char))
        } else {
            None
        }
    } else if code == 27 {
        Some(Key::Escape)
    } else if code == 9 {
        Some(Key::Tab)
    } else if code == 13 {
        Some(Key::Enter)
    } else if code == 127 {
        Some(Key::Backspace)
    } else if is_scalar(code) && !is_control_char(code as char) {
        Some(Key::Printable(code as char))
    } else {
        None
    }
}

/// The modifier field of a CSI u sequence: `1` where it is absent or no number.
pub open spec fn csi_u_modifiers(params: Seq<u8>) -> nat {
    let semi = position_of(params, 0x3B, 0);
    if semi < params.len() {
        match unsigned_value(params.skip(semi + 1), u32::MAX as nat) {
            Some(m) => m,
            None => 1,
        }
    } else {
        1
    }
}

/// `codepoint` or `codepoint;modifiers`, where the modifier field is one more than
/// the sum of shift (1), alt (2), ctrl (4) and super (8). Bytes that are no text give no
/// key.
pub open spec fn csi_u_value(params: Seq<u8>) -> Option<Key> {
    let semi = position_of(params, 0x3B, 0);
    let field = csi_u_modifiers(params);
    let bits: nat = if field == 0 { 0 } else { (field - 1) as nat };
    if !valid_utf8(params) {
        None
    } else {
        match unsigned_value(params.take(semi), u32::MAX as nat) {
            Some(code) => csi_u_key(code, (bits / 4) % 2 == 1, (bits / 2) % 2 == 1),
            None => None,
        }
    }
}

/// The key at the front of `s`, which starts with `ESC [` and a third byte, and the
/// number of bytes it takes.
pub open spec fn csi_key(s: Seq<u8>) -> (Key, int) {
    if csi_letter_key(s[2]) is Some {
        (csi_letter_key(s[2])->0, 3)
    } else if csi_tilde_key(s[2]) is Some && s.len() > 3 && s[3] == 0x7E {
        (csi_tilde_key(s[2])->0, 4)
    } else {
        let end = params_end(s, 2);
        let params = s.subrange(2, end);
        if end >= s.len() {
            (Key::Raw(s), s.len() as int)
        } else if s[end] == 0x52 && cpr_value(params) is Some {
            let (row, col) = cpr_value(params)->0;
            (Key::CursorPositionReport(row, col), end + 1)
        } else if s[end] == 0x75 && csi_u_value(params) is Some {
            (csi_u_value(params)->0, end + 1)
        } else {
            (Key::Raw(s.take(end + 1)), end + 1)
        }
    }
}

/// The key at the front of a non-empty `s` and the number of bytes it takes.
pub open spec fn first_key(s: Seq<u8>) -> (Key, int) {
    if s[0] != 0x1B {
        (plain_key(s[0]), 1)
    } else if s.len() > 2 && s[1] == 0x5B {
        csi_key(s)
    } else if s.len() > 2 && s[1] == 0x4F {
        match ss3_key(s[2]) {
            Some(key) => (key, 3),
            None => (Key::Raw(s.take(3)), 3),
        }
    } else if s.len() == 1 {
        (Key::Escape, 1)
    } else if s[1] != 0x5B && s[1] != 0x4F {
        (Key::Raw(s.take(2)), 2)
    } else {
        (Key::Raw(s), s.len() as int)
    }
}

/// The keys that a run of stdin bytes denotes, in order.
pub open spec fn keys_of(s: Seq<u8>) -> Seq<Key>
    decreases s.len(),
{
    if s.len() == 0 {
        Seq::empty()
    } else {
        let (key, n) = first_key(s);
        if 1 <= n <= s.len() {
            seq![key] + keys_of(s.skip(n))
        } else {
            Seq::empty()
        }
    }
}

proof fn lemma_params_end(s: Seq<u8>, from: int)
    requires
        0 <= from <= s.len(),
    ensures
        from <= params_end(s, from) <= s.len(),
        forall|j: int| from <= j < params_end(s, from) ==> #[trigger] s[j] < 0x40,
        params_end(s, from) < s.len() ==> s[params_end(s, from)] >= 0x40,
    decreases s.len() - from,
{
    if from < s.len() && s[from] < 0x40 {
        lemma_params_end(s, from + 1);
    }
}

proof fn lemma_params_end_is(s: Seq<u8>, from: int, end: int)
    requires
        0 <= from <= end <= s.len(),
        forall|j: int| from <= j < end ==> #[trigger] s[j] < 0x40,
        end < s.len() ==> s[end] >= 0x40,
    ensures
        params_end(s, from) == end,
    decreases end - from,
{
    if from < end {
        lemma_params_end_is(s, from + 1, end);
    }
}

proof fn lemma_position_of(s: Seq<u8>, b: u8, from: int, at: int)
    requires
        0 <= from <= at <= s.len(),
        forall|j: int| from <= j < at ==> #[trigger] s[j] != b,
        at < s.len() ==> s[at] == b,
    ensures
        position_of(s, b, from) == at,
    decreases at - from,
{
    if from < at {
        lemma_position_of(s, b, from + 1, at);
    }
}

// ---- Parsing ----

/// `char::from_u32`: the character with the given code point, where there is one.
pub assume_specification[ char::from_u32 ](i: u32) -> (c: Option<char>)
    ensures
        c == (if is_scalar(i as nat) {
            Some(i as char)
        } else {
            None::<char>
        }),
;

/// `std::str::Utf8Error`: says that bytes are no text, and is only told from success.
#[verifier::external_type_specification]
#[verifier::external_body]
pub struct ExUtf8Error(std::str::Utf8Error);

/// `std::str::from_utf8`: succeeds exactly on valid UTF-8, and hands the bytes back as
/// text.
pub assume_specification[ std::str::from_utf8 ](v: &[u8]) -> (text: Result<
    &str,
    std::str::Utf8Error,
>)
    ensures
        text is Ok == valid_utf8(v@),
        text matches Ok(t) ==> encode_utf8(t@) == v@,
;

fn find_byte(s: &[u8], b: u8) -> (at: usize)
    ensures
        at == position_of(s@, b, 0),
        at <= s.len(),
{
    let mut i: usize = 0;
    while i < s.len() && s[i] != b
        invariant
            i <= s.len(),
            forall|j: int| 0 <= j < i ==> #[trigger] s@[j] != b,
        decreases s.len() - i,
    {
        i = i + 1;
    }
    proof {
        lemma_position_of(s@, b, 0, i as int);
    }
    i
}

/// Parses a kitty keyboard protocol CSI u parameter string. `None` falls through to
/// raw passthrough.
fn parse_csi_u(params: &[u8]) -> (key: Option<KeyEvent>)
    ensures
        match key {
            Some(k) => csi_u_value(params@) == Some(k@),
            None => csi_u_value(params@) is None,
        },
{
    if std::str::from_utf8(params).is_err() {
        return None;
    }
    let semi: usize = find_byte(params, 0x3B);
    let code_bytes = slice_subrange(params, 0, semi);
    assert(code_bytes@ =~= params@.take(semi as int));
    let code: u32 = match parse_unsigned(code_bytes, u32::MAX) {
        Some(code) => code,
        None => {
            return None;
        },
    };
    let mut modifiers: u32 = 1;
    if semi < params.len() {
        let mod_bytes = slice_subrange(params, semi + 1, params.len());
        assert(mod_bytes@ =~= params@.skip(semi + 1));
        if let Some(m) = parse_unsigned(mod_bytes, u32::MAX) {
            modifiers = m;
        }
    }
    assert(modifiers == csi_u_modifiers(params@));
    let mods: u32 = modifiers.saturating_sub(1);
    let ctrl = mods & 4 != 0;
    let alt = mods & 2 != 0;
    assert(ctrl == ((mods / 4) % 2 == 1)) by (bit_vector)
        requires
            ctrl == (mods & 4 != 0),
    ;
    assert(alt == ((mods / 2) % 2 == 1)) by (bit_vector)
        requires
            alt == (mods & 2 != 0),
    ;
    // Alt combinations have no legacy encoding.
    if alt {
        return None;
    }
    if ctrl {
        if code == 32 {
            return Some(KeyEvent::CtrlSpace);
        }
        if code == 47 {
            return Some(KeyEvent::CtrlSlash);
        }
        if 97 <= code && code <= 122 {
            return Some(KeyEvent::Ctrl(code as u8 as char));
        }
        if 65 <= code && code <= 90 {
            return Some(KeyEvent::Ctrl((code as u8 + 32) as char));
        }
        return None;
    }
    // Plain (possibly shifted) keys: the code point already reflects shift.
    if code == 27 {
        return Some(KeyEvent::Escape);
    }
    if code == 9 {
        return Some(KeyEvent::Tab);
    }
    if code == 13 {
        return Some(KeyEvent::Enter);
    }
    if code == 127 {
        return Some(KeyEvent::Backspace);
    }
    match char::from_u32(code) {
        Some(c) => if code < 0x20 || (0x7F <= code && code <= 0x9F) {
            None
        } else {
            Some(KeyEvent::Printable(c))
        },
        None => None,
    }
}

/// Parses a CPR parameter slice like `15;1` into (row, col).
fn parse_cpr(params: &[u8]) -> (value: Option<(u16, u16)>)
    ensures
        value == cpr_value(params@),
{
    let semi: usize = find_byte(params, 0x3B);
    if semi >= params.len() {
        return None;
    }
    let row_bytes = slice_subrange(params, 0, semi);
    let col_bytes = slice_subrange(params, semi + 1, params.len());
    assert(row_bytes@ =~= params@.take(semi as int));
    assert(col_bytes@ =~= params@.skip(semi + 1));
    match (parse_unsigned(row_bytes, u16::MAX as u32), parse_unsigned(col_bytes, u16::MAX as u32)) {
        (Some(row), Some(col)) => Some((row as u16, col as u16)),
        _ => None,
    }
}

fn copy_range(buf: &[u8], from: usize, to: usize) -> (bytes: Vec<u8>)
    requires
        from <= to <= buf.len(),
    ensures
        bytes@ == buf@.subrange(from as int, to as int),
{
    slice_to_vec(slice_subrange(buf, from, to))
}

fn csi_letter(b: u8) -> (key: Option<KeyEvent>)
    ensures
        match key {
            Some(k) => csi_letter_key(b) == Some(k@),
            None => csi_letter_key(b) is None,
        },
{
    match b {
        0x41 => Some(KeyEvent::ArrowUp),
        0x42 => Some(KeyEvent::ArrowDown),
        0x43 => Some(KeyEvent::ArrowRight),
        0x44 => Some(KeyEvent::ArrowLeft),
        0x48 => Some(KeyEvent::Home),
        0x46 => Some(KeyEvent::End),
        _ => None,
    }
}

fn csi_tilde(b: u8) -> (key: Option<KeyEvent>)
    ensures
        match key {
            Some(k) => csi_tilde_key(b) == Some(k@),
            None => csi_tilde_key(b) is None,
        },
{
    match b {
        0x31 => Some(KeyEvent::HomeCsiTilde),
        0x34 => Some(KeyEvent::EndCsiTilde),
        0x35 => Some(KeyEvent::PageUp),
        0x36 => Some(KeyEvent::PageDown),
        0x37 => Some(KeyEvent::HomeCsi7Tilde),
        0x38 => Some(KeyEvent::EndCsi8Tilde),
        _ => None,
    }
}

fn ss3_letter(b: u8) -> (key: Option<KeyEvent>)
    ensures
        match key {
            Some(k) => ss3_key(b) == Some(k@),
            None => ss3_key(b) is None,
        },
{
    match b {
        0x41 => Some(KeyEvent::ArrowUp),
        0x42 => Some(KeyEvent::ArrowDown),
        0x43 => Some(KeyEvent::ArrowRight),
        0x44 => Some(KeyEvent::ArrowLeft),
        0x48 => Some(KeyEvent::HomeSs3),
        0x46 => Some(KeyEvent::EndSs3),
        _ => None,
    }
}

fn plain_event(b: u8) -> (key: KeyEvent)
    requires
        b != 0x1B,
    ensures
        key@ == plain_key(b),
{
    match b {
        0x00 => KeyEvent::CtrlSpace,
        0x1F => KeyEvent::CtrlSlash,
        0x09 => KeyEvent::Tab,
        0x0D => KeyEvent::Enter,
        0x7F => KeyEvent::Backspace,
        _ => {
            if 0x01 <= b && b <= 0x1A {
                KeyEvent::Ctrl((b + 0x60) as char)
            } else if 0x20 <= b && b <= 0x7E {
                KeyEvent::Printable(b as char)
            } else {
                // A control character or a high byte passes through.
                let raw: Vec<u8> = vec![b];
                assert(raw@ =~= seq![b]);
                KeyEvent::Raw(raw)
            }
        },
    }
}

/// Parses the CSI sequence at `at`; the second result is where the next key starts.
fn parse_csi_at(buf: &[u8], at: usize) -> (parsed: (KeyEvent, usize))
    requires
        at + 2 < buf.len(),
        buf@[at as int] == 0x1B,
        buf@[at + 1] == 0x5B,
    ensures
        at < parsed.1 <= buf.len(),
        first_key(buf@.skip(at as int)) == (parsed.0@, parsed.1 - at),
{
    let ghost s = buf@.skip(at as int);
    let third: u8 = buf[at + 2];
    assert(s[2] == third);
    if let Some(key) = csi_letter(third) {
        return (key, at + 3);
    }
    if at + 3 < buf.len() && buf[at + 3] == 0x7E {
        assert(s[3] == 0x7E);
        if let Some(key) = csi_tilde(third) {
            return (key, at + 4);
        }
    }
    // Parameters and intermediates lie below 0x40, the final byte does not.
    let mut i: usize = at + 2;
    while i < buf.len() && buf[i] < 0x40
        invariant
            at + 2 <= i <= buf.len(),
            s == buf@.skip(at as int),
            forall|j: int| 2 <= j < i - at ==> #[trigger] s[j] < 0x40,
        decreases buf.len() - i,
    {
        assert(s[i - at] == buf@[i as int]);
        i = i + 1;
    }
    proof {
        if i < buf.len() {
            assert(s[i - at] == buf@[i as int]);
        }
        lemma_params_end_is(s, 2, i - at);
    }
    if i < buf.len() {
        let final_byte: u8 = buf[i];
        let params = slice_subrange(buf, at + 2, i);
        assert(params@ =~= s.subrange(2, i - at));
        if final_byte == 0x52 {
            if let Some((row, col)) = parse_cpr(params) {
                return (KeyEvent::CursorPositionReport(row, col), i + 1);
            }
        }
        if final_byte == 0x75 {
            if let Some(key) = parse_csi_u(params) {
                return (key, i + 1);
            }
        }
        let raw = copy_range(buf, at, i + 1);
        assert(raw@ =~= s.take(i + 1 - at));
        (KeyEvent::Raw(raw), i + 1)
    } else {
        let raw = copy_range(buf, at, i);
        assert(raw@ =~= s);
        (KeyEvent::Raw(raw), i)
    }
}

/// Parses the escape sequence at `at`; the second result is where the next key starts.
fn parse_escape_at(buf: &[u8], at: usize) -> (parsed: (KeyEvent, usize))
    requires
        at < buf.len(),
        buf@[at as int] == 0x1B,
    ensures
        at < parsed.1 <= buf.len(),
        first_key(buf@.skip(at as int)) == (parsed.0@, parsed.1 - at),
{
    let ghost s = buf@.skip(at as int);
    let left: usize = buf.len() - at;
    assert(s.len() == left);
    assert(s[0] == 0x1B);
    if left > 1 {
        assert(s[1] == buf@[at + 1]);
    }
    if left > 2 && buf[at + 1] == 0x5B {
        parse_csi_at(buf, at)
    } else if left > 2 && buf[at + 1] == 0x4F {
        assert(s[2] == buf@[at + 2]);
        match ss3_letter(buf[at + 2]) {
            Some(key) => (key, at + 3),
            None => {
                let raw = copy_range(buf, at, at + 3);
                assert(raw@ =~= s.take(3));
                (KeyEvent::Raw(raw), at + 3)
            },
        }
    } else if left == 1 {
        // A standalone ESC at the end of the buffer.
        (KeyEvent::Escape, at + 1)
    } else if buf[at + 1] != 0x5B && buf[at + 1] != 0x4F {
        // ESC followed by something that is not [ or O (Alt+key).
        let raw = copy_range(buf, at, at + 2);
        assert(raw@ =~= s.take(2));
        (KeyEvent::Raw(raw), at + 2)
    } else {
        // ESC [ or ESC O, and the buffer ends there.
        let raw = copy_range(buf, at, buf.len());
        assert(raw@ =~= s);
        (KeyEvent::Raw(raw), buf.len())
    }
}

/// Parses a buffer of raw stdin bytes into key events.
///
/// One read can contain multiple keystrokes (fast typing or a paste). This returns
/// them all in order.
pub fn parse_keys(buf: &[u8]) -> (events: Vec<KeyEvent>)
    ensures
        key_views(events@) == keys_of(buf@),
{
    let mut events: Vec<KeyEvent> = Vec::new();
    let mut i: usize = 0;
    assert(buf@.skip(0) =~= buf@);
    assert(key_views(events@) + keys_of(buf@.skip(0)) =~= keys_of(buf@));
    while i < buf.len()
        invariant
            i <= buf.len(),
            key_views(events@) + keys_of(buf@.skip(i as int)) == keys_of(buf@),
        decreases buf.len() - i,
    {
        let ghost s = buf@.skip(i as int);
        let ghost before = events@;
        assert(s[0] == buf@[i as int]);
        let (key, next): (KeyEvent, usize) = if buf[i] == 0x1B {
            parse_escape_at(buf, i)
        } else {
            (plain_event(buf[i]), i + 1)
        };
        events.push(key);
        proof {
            let (k, n) = first_key(s);
            assert(s.skip(n) =~= buf@.skip(next as int));
            assert(keys_of(s) == seq![k] + keys_of(s.skip(n)));
            assert(key_views(events@) =~= key_views(before) + seq![k]);
            assert(key_views(events@) + keys_of(buf@.skip(next as int)) =~= key_views(before)
                + keys_of(s));
        }
        i = next;
    }
    assert(buf@.skip(i as int).len() == 0);
    assert(key_views(events@) + keys_of(buf@.skip(i as int)) =~= key_views(events@));
    events
}

// ---- Sequences split over several reads ----

/// The position of the last ESC in `s`, or -1 where there is none.
pub open spec fn last_escape(s: Seq<u8>) -> int
    decreases s.len(),
{
    if s.len() == 0 {
        -1
    } else if s.last() == 0x1B {
        s.len() - 1
    } else {
        last_escape(s.drop_last())
    }
}

/// `ESC O`, or `ESC [` with parameters and no final byte.
pub open spec fn unfinished_escape(s: Seq<u8>) -> bool {
    &&& s.len() >= 2
    &&& s[0] == 0x1B
    &&& ({
        ||| s[1] == 0x5B && forall|j: int| 2 <= j < s.len() ==> #[trigger] s[j] < 0x40
        ||| s[1] == 0x4F && s.len() == 2
    })
}

/// Where the unfinished escape sequence at the end of `s` starts, or the length of `s`
/// where it ends in none.
pub open spec fn pending_start(s: Seq<u8>) -> int {
    let esc = last_escape(s);
    if esc >= 0 && unfinished_escape(s.skip(esc)) {
        esc
    } else {
        s.len() as int
    }
}

proof fn lemma_last_escape_is(s: Seq<u8>, at: int)
    requires
        -1 <= at < s.len(),
        at >= 0 ==> s[at] == 0x1B,
        forall|j: int| at < j < s.len() ==> #[trigger] s[j] != 0x1B,
    ensures
        last_escape(s) == at,
    decreases s.len(),
{
    if s.len() > 0 && at < s.len() - 1 {
        assert(s.last() == s[s.len() - 1]);
        assert forall|j: int| at < j < s.drop_last().len() implies #[trigger] s.drop_last()[j]
            != 0x1B by {
            assert(s.drop_last()[j] == s[j]);
        }
        lemma_last_escape_is(s.drop_last(), at);
    }
}

proof fn lemma_last_escape(s: Seq<u8>)
    ensures
        -1 <= last_escape(s) < s.len(),
        last_escape(s) >= 0 ==> s[last_escape(s)] == 0x1B,
        forall|j: int| last_escape(s) < j < s.len() ==> #[trigger] s[j] != 0x1B,
    decreases s.len(),
{
    if s.len() > 0 && s.last() != 0x1B {
        let t = s.drop_last();
        lemma_last_escape(t);
        assert forall|j: int| last_escape(s) < j < s.len() implies #[trigger] s[j] != 0x1B by {
            if j < t.len() {
                assert(s[j] == t[j]);
            }
        }
    }
}

pub proof fn lemma_pending_start_bounds(s: Seq<u8>)
    ensures
        0 <= pending_start(s) <= s.len(),
{
    lemma_last_escape(s);
}

fn incomplete_escape_suffix_start(buf: &[u8]) -> (start: Option<usize>)
    ensures
        match start {
            Some(at) => at < buf.len() && pending_start(buf@) == at,
            None => pending_start(buf@) == buf.len(),
        },
{
    let mut end: usize = buf.len();
    while end > 0 && buf[end - 1] != 0x1B
        invariant
            end <= buf.len(),
            forall|j: int| end <= j < buf.len() ==> #[trigger] buf@[j] != 0x1B,
        decreases end,
    {
        end = end - 1;
    }
    proof {
        lemma_last_escape_is(buf@, end - 1);
    }
    if end == 0 {
        return None;
    }
    let esc: usize = end - 1;
    let ghost suffix = buf@.skip(esc as int);
    if buf.len() - esc < 2 {
        return None;
    }
    assert(suffix[0] == 0x1B);
    assert(suffix[1] == buf@[esc + 1]);
    if buf[esc + 1] == 0x4F {
        if buf.len() - esc == 2 {
            Some(esc)
        } else {
            None
        }
    } else if buf[esc + 1] == 0x5B {
        let mut i: usize = esc + 2;
        while i < buf.len()
            invariant
                esc + 2 <= i <= buf.len(),
                suffix == buf@.skip(esc as int),
                pending_start(buf@) == (if unfinished_escape(suffix) {
                    esc as int
                } else {
                    buf.len() as int
                }),
                forall|j: int| 2 <= j < i - esc ==> #[trigger] suffix[j] < 0x40,
            decreases buf.len() - i,
        {
            assert(suffix[i - esc] == buf@[i as int]);
            if buf[i] >= 0x40 {
                assert(!unfinished_escape(suffix));
                return None;
            }
            i = i + 1;
        }
        Some(esc)
    } else {
        None
    }
}

/// A key parser that holds back an escape sequence which a read cuts off, so that the
/// next read completes it.
#[derive(Debug)]
pub struct KeyParser {
    pending: Vec<u8>,
}

impl View for KeyParser {
    type V = Seq<u8>;

    /// The bytes held back.
    closed spec fn view(&self) -> Seq<u8> {
        self.pending@
    }
}

impl Default for KeyParser {
    fn default() -> (parser: Self)
        ensures
            parser@ == Seq::<u8>::empty(),
    {
        KeyParser { pending: Vec::new() }
    }
}

impl KeyParser {
    pub fn new() -> (parser: Self)
        ensures
            parser@ == Seq::<u8>::empty(),
    {
        Self::default()
    }

    /// Parses the bytes held back followed by `buf`, and holds back the unfinished
    /// escape sequence that these end in.
    pub fn parse(&mut self, buf: &[u8]) -> (events: Vec<KeyEvent>)
        ensures
            ({
                let all = old(self)@ + buf@;
                &&& key_views(events@) == keys_of(all.take(pending_start(all)))
                &&& final(self)@ == all.skip(pending_start(all))
            }),
    {
        let mut combined: Vec<u8> = Vec::new();
        combined.append(&mut self.pending);
        let mut tail: Vec<u8> = slice_to_vec(buf);
        combined.append(&mut tail);
        let ghost all = old(self)@ + buf@;
        assert(combined@ =~= all);
        match incomplete_escape_suffix_start(combined.as_slice()) {
            Some(start) => {
                self.pending = copy_range(combined.as_slice(), start, combined.len());
                assert(self.pending@ =~= all.skip(start as int));
                let complete = slice_subrange(combined.as_slice(), 0, start);
                assert(complete@ =~= all.take(start as int));
                parse_keys(complete)
            },
            None => {
                self.pending = Vec::new();
                assert(all.skip(all.len() as int) =~= Seq::<u8>::empty());
                assert(all.take(all.len() as int) =~= all);
                parse_keys(combined.as_slice())
            },
        }
    }

    /// Drains any buffered incomplete escape bytes without parsing.
    ///
    /// Used when switching to raw forwarding (alt screen) so stale partial sequences
    /// don't prepend the next parsed read.
    pub fn drain_pending(&mut self) -> (bytes: Vec<u8>)
        ensures
            bytes@ == old(self)@,
            final(self)@ == Seq::<u8>::empty(),
    {
        let mut bytes: Vec<u8> = Vec::new();
        bytes.append(&mut self.pending);
        assert(bytes@ =~= old(self)@);
        bytes
    }
}

// ---- Laws ----

/// Every key takes at least one byte and no more than there are.
pub proof fn law_every_key_takes_bytes(s: Seq<u8>)
    requires
        s.len() > 0,
    ensures
        1 <= first_key(s).1 <= s.len(),
{
    if s[0] == 0x1B && s.len() > 2 && s[1] == 0x5B {
        lemma_params_end(s, 2);
    }
}

/// What a parser holds back is nothing, or one unfinished escape sequence.
pub proof fn law_pending_is_unfinished_escape(all: Seq<u8>)
    ensures
        0 <= pending_start(all) <= all.len(),
        pending_start(all) < all.len() ==> unfinished_escape(all.skip(pending_start(all))),
{
    lemma_last_escape(all);
}

/// The key at the front of `s` is complete: no byte that follows can change it.
pub open spec fn complete_key(s: Seq<u8>) -> bool {
    ||| s[0] != 0x1B
    ||| s.len() > 2 && s[1] == 0x5B && csi_letter_key(s[2]) is Some
    ||| s.len() > 2 && s[1] == 0x5B && params_end(s, 2) < s.len()
    ||| s.len() > 2 && s[1] == 0x4F
    ||| s.len() > 1 && s[1] != 0x5B && s[1] != 0x4F
}

/// Every key in `s` is complete.
pub open spec fn settled(s: Seq<u8>) -> bool
    decreases s.len(),
{
    s.len() == 0 || {
        let n = first_key(s).1;
        &&& 1 <= n <= s.len()
        &&& complete_key(s)
        &&& settled(s.skip(n))
    }
}

proof fn lemma_complete_key_keeps(s: Seq<u8>, t: Seq<u8>)
    requires
        s.len() > 0,
        complete_key(s),
    ensures
        first_key(s + t) == first_key(s),
{
    let w = s + t;
    assert(w[0] == s[0]);
    if s[0] == 0x1B {
        assert(w[1] == s[1]);
        if s.len() > 2 {
            assert(w[2] == s[2]);
            assert(w.take(3) =~= s.take(3));
        }
        assert(w.take(2) =~= s.take(2));
        if s.len() > 2 && s[1] == 0x5B && csi_letter_key(s[2]) is None {
            lemma_params_end(s, 2);
            let end = params_end(s, 2);
            assert(w[end] == s[end]);
            assert forall|j: int| 2 <= j < end implies #[trigger] w[j] < 0x40 by {
                assert(w[j] == s[j]);
            }
            lemma_params_end_is(w, 2, end);
            assert(w.subrange(2, end) =~= s.subrange(2, end));
            assert(w.take(end + 1) =~= s.take(end + 1));
            if s.len() > 3 {
                assert(w[3] == s[3]);
            }
        }
    }
}

/// Bytes that follow complete keys leave these as they are: what is parsed does not
/// depend on where the bytes are cut.
pub proof fn law_settled_bytes_parse_alone(a: Seq<u8>, b: Seq<u8>)
    requires
        settled(a),
    ensures
        keys_of(a + b) == keys_of(a) + keys_of(b),
    decreases a.len(),
{
    if a.len() == 0 {
        assert(a + b =~= b);
        assert(keys_of(a) + keys_of(b) =~= keys_of(b));
    } else {
        let (k, n) = first_key(a);
        lemma_complete_key_keeps(a, b);
        law_settled_bytes_parse_alone(a.skip(n), b);
        assert((a + b).skip(n) =~= a.skip(n) + b);
        assert(seq![k] + (keys_of(a.skip(n)) + keys_of(b)) =~= seq![k] + keys_of(a.skip(n))
            + keys_of(b));
    }
}

/// Two reads yield the keys, and hold back the bytes, that one read of the same bytes
/// does, where the first read ends neither in ESC nor inside a key that it does not
/// hold back. `held` is what was held back before the first read.
pub proof fn law_split_reads_parse_as_one(held: Seq<u8>, first: Seq<u8>, second: Seq<u8>)
    requires
        ({
            let x = held + first;
            &&& x.len() > 0 ==> x.last() != 0x1B
            &&& settled(x.take(pending_start(x)))
        }),
    ensures
        ({
            let x = held + first;
            let rest = x.skip(pending_start(x)) + second;
            let whole = held + (first + second);
            &&& keys_of(x.take(pending_start(x))) + keys_of(rest.take(pending_start(rest)))
                == keys_of(whole.take(pending_start(whole)))
            &&& rest.skip(pending_start(rest)) == whole.skip(pending_start(whole))
        }),
{
    let x = held + first;
    let st = pending_start(x);
    let rest = x.skip(st) + second;
    let whole = held + (first + second);
    lemma_last_escape(x);
    assert(whole =~= x.take(st) + rest);
    lemma_last_escape(rest);
    let e = last_escape(rest);
    if e >= 0 {
        assert forall|j: int| st + e < j < whole.len() implies #[trigger] whole[j] != 0x1B by {
            assert(whole[j] == rest[j - st]);
        }
        assert(whole[st + e] == rest[e]);
        lemma_last_escape_is(whole, st + e);
        assert(whole.skip(st + e) =~= rest.skip(e));
    } else {
        // The bytes read second hold no ESC, and none was held back.
        if st < x.len() {
            assert(rest[0] == x[st]);
        }
        assert(st == x.len());
        assert(rest =~= second);
        let f = last_escape(x);
        assert forall|j: int| f < j < whole.len() implies #[trigger] whole[j] != 0x1B by {
            if j < x.len() {
                assert(whole[j] == x[j]);
            } else {
                assert(whole[j] == rest[j - x.len()]);
            }
        }
        if f >= 0 {
            assert(whole[f] == x[f]);
        }
        lemma_last_escape_is(whole, f);
        if f >= 0 {
            let old_suffix = x.skip(f);
            let new_suffix = whole.skip(f);
            assert(old_suffix.len() >= 2) by {
                if f == x.len() - 1 {
                    assert(x.last() == x[f]);
                }
            }
            assert(new_suffix[0] == old_suffix[0]);
            assert(new_suffix[1] == old_suffix[1]);
            assert(!unfinished_escape(new_suffix)) by {
                if unfinished_escape(new_suffix) {
                    assert forall|j: int| 2 <= j < old_suffix.len() implies #[trigger] old_suffix[j]
                        < 0x40 by {
                        assert(new_suffix[j] == old_suffix[j]);
                    }
                }
            }
        }
    }
    assert(pending_start(whole) == st + pending_start(rest));
    law_settled_bytes_parse_alone(x.take(st), rest.take(pending_start(rest)));
    assert(whole.take(pending_start(whole)) =~= x.take(st) + rest.take(pending_start(rest)));
    assert(rest.skip(pending_start(rest)) =~= whole.skip(pending_start(whole)));
}

/// A control byte is the Ctrl key with the letter of the alphabet that it counts to, but
/// for those of Tab and Enter; every other ASCII character is typed as itself.
pub proof fn law_single_bytes_are_their_keys(b: u8)
    ensures
        1 <= b <= 26 && b != 9 && b != 13 ==> keys_of(seq![b]) == seq![
            Key::Ctrl((('a' as u8) + b - 1) as char),
        ],
        b == 9 ==> keys_of(seq![b]) == seq![Key::Tab],
        b == 13 ==> keys_of(seq![b]) == seq![Key::Enter],
        b == 0x7F ==> keys_of(seq![b]) == seq![Key::Backspace],
        b == 0x1B ==> keys_of(seq![b]) == seq![Key::Escape],
        b == 0 ==> keys_of(seq![b]) == seq![Key::CtrlSpace],
        b == 0x1F ==> keys_of(seq![b]) == seq![Key::CtrlSlash],
        ' ' as u8 <= b <= '~' as u8 ==> keys_of(seq![b]) == seq![Key::Printable(b as char)],
        b >= 0x80 || b == 0x1C || b == 0x1D || b == 0x1E ==> keys_of(seq![b]) == seq![
            Key::Raw(seq![b]),
        ],
{
    lemma_one_key(seq![b]);
}

proof fn lemma_one_key(s: Seq<u8>)
    requires
        s.len() > 0,
        first_key(s).1 == s.len(),
    ensures
        keys_of(s) == seq![first_key(s).0],
{
    let n = s.len() as int;
    assert(s.skip(n) =~= Seq::<u8>::empty());
    assert(keys_of(s.skip(n)) =~= Seq::<Key>::empty());
    assert(keys_of(s) =~= seq![first_key(s).0]);
}

proof fn lemma_two_keys(s: Seq<u8>, rest: Seq<u8>, key: Key)
    requires
        s.len() > 0,
        first_key(s + rest) == (key, s.len() as int),
    ensures
        keys_of(s + rest) == seq![key] + keys_of(rest),
{
    assert((s + rest).skip(s.len() as int) =~= rest);
}

/// An arrow in its application form is the key of its usual form, whatever follows, and
/// it is the arrow that its letter stands for.
pub proof fn law_application_arrows_are_arrows(b: u8, rest: Seq<u8>)
    requires
        'A' as u8 <= b <= 'D' as u8,
    ensures
        keys_of(seq![0x1Bu8, 0x4Fu8, b] + rest) == keys_of(seq![0x1Bu8, 0x5Bu8, b] + rest),
        keys_of(seq![0x1Bu8, 0x4Fu8, b]) == keys_of(seq![0x1Bu8, 0x5Bu8, b]),
        keys_of(seq![0x1Bu8, 0x5Bu8, b] + rest) == seq![
            if b == 'A' as u8 {
                Key::ArrowUp
            } else if b == 'B' as u8 {
                Key::ArrowDown
            } else if b == 'C' as u8 {
                Key::ArrowRight
            } else {
                Key::ArrowLeft
            },
        ] + keys_of(rest),
{
    let usual = seq![0x1Bu8, 0x5Bu8, b];
    let other = seq![0x1Bu8, 0x4Fu8, b];
    let key = first_key(usual).0;
    lemma_two_keys(usual, rest, key);
    lemma_two_keys(other, rest, key);
    lemma_one_key(usual);
    lemma_one_key(other);
}

/// Home, End and the page keys are read in each form in which terminals send them.
pub proof fn law_moving_keys_are_read(rest: Seq<u8>)
    ensures
        keys_of(seq![0x1Bu8, 0x5Bu8, 'H' as u8] + rest) == seq![Key::Home] + keys_of(rest),
        keys_of(seq![0x1Bu8, 0x4Fu8, 'H' as u8] + rest) == seq![Key::HomeSs3] + keys_of(rest),
        keys_of(seq![0x1Bu8, 0x5Bu8, '1' as u8, '~' as u8] + rest) == seq![Key::HomeCsiTilde]
            + keys_of(rest),
        keys_of(seq![0x1Bu8, 0x5Bu8, '7' as u8, '~' as u8] + rest) == seq![Key::HomeCsi7Tilde]
            + keys_of(rest),
        keys_of(seq![0x1Bu8, 0x5Bu8, 'F' as u8] + rest) == seq![Key::End] + keys_of(rest),
        keys_of(seq![0x1Bu8, 0x4Fu8, 'F' as u8] + rest) == seq![Key::EndSs3] + keys_of(rest),
        keys_of(seq![0x1Bu8, 0x5Bu8, '4' as u8, '~' as u8] + rest) == seq![Key::EndCsiTilde]
            + keys_of(rest),
        keys_of(seq![0x1Bu8, 0x5Bu8, '8' as u8, '~' as u8] + rest) == seq![Key::EndCsi8Tilde]
            + keys_of(rest),
        keys_of(seq![0x1Bu8, 0x5Bu8, '5' as u8, '~' as u8] + rest) == seq![Key::PageUp] + keys_of(
            rest,
        ),
        keys_of(seq![0x1Bu8, 0x5Bu8, '6' as u8, '~' as u8] + rest) == seq![Key::PageDown] + keys_of(
            rest,
        ),
{
    lemma_two_keys(seq![0x1Bu8, 0x5Bu8, 'H' as u8], rest, Key::Home);
    lemma_two_keys(seq![0x1Bu8, 0x4Fu8, 'H' as u8], rest, Key::HomeSs3);
    lemma_two_keys(seq![0x1Bu8, 0x5Bu8, '1' as u8, '~' as u8], rest, Key::HomeCsiTilde);
    lemma_two_keys(seq![0x1Bu8, 0x5Bu8, '7' as u8, '~' as u8], rest, Key::HomeCsi7Tilde);
    lemma_two_keys(seq![0x1Bu8, 0x5Bu8, 'F' as u8], rest, Key::End);
    lemma_two_keys(seq![0x1Bu8, 0x4Fu8, 'F' as u8], rest, Key::EndSs3);
    lemma_two_keys(seq![0x1Bu8, 0x5Bu8, '4' as u8, '~' as u8], rest, Key::EndCsiTilde);
    lemma_two_keys(seq![0x1Bu8, 0x5Bu8, '8' as u8, '~' as u8], rest, Key::EndCsi8Tilde);
    lemma_two_keys(seq![0x1Bu8, 0x5Bu8, '5' as u8, '~' as u8], rest, Key::PageUp);
    lemma_two_keys(seq![0x1Bu8, 0x5Bu8, '6' as u8, '~' as u8], rest, Key::PageDown);
}

/// A sequence behind `ESC [` ends at its final byte, the first one from 0x40 on, whatever
/// its parameters are and whatever follows.
pub proof fn law_sequence_ends_at_final_byte(params: Seq<u8>, last: u8, rest: Seq<u8>)
    requires
        forall|i: int| 0 <= i < params.len() ==> #[trigger] params[i] < 0x40,
        last >= 0x40,
    ensures
        first_key(seq![0x1Bu8, 0x5Bu8] + params + seq![last] + rest).1 == params.len() + 3,
{
    let s = seq![0x1Bu8, 0x5Bu8] + params + seq![last] + rest;
    let end = 2 + params.len() as int;
    assert forall|j: int| 2 <= j < end implies #[trigger] s[j] < 0x40 by {
        assert(s[j] == params[j - 2]);
    }
    assert(s[end] == last);
    lemma_params_end_is(s, 2, end);
    if params.len() > 0 {
        assert(s[2] == params[0]);
        if params.len() > 1 {
            assert(s[3] == params[1]);
        }
    }
}

/// An Alt key or an unknown three-byte sequence is one key, which passes through as it
/// came. So a lone ESC is the Escape key only where nothing follows it.
pub proof fn law_escape_prefix_is_one_key(b: u8, rest: Seq<u8>)
    ensures
        b != 0x5B && b != 0x4F ==> keys_of(seq![0x1Bu8, b] + rest) == seq![
            Key::Raw(seq![0x1Bu8, b]),
        ] + keys_of(rest),
        !('A' as u8 <= b <= 'D' as u8) && b != 'H' as u8 && b != 'F' as u8 ==> keys_of(
            seq![0x1Bu8, 0x4Fu8, b] + rest,
        ) == seq![Key::Raw(seq![0x1Bu8, 0x4Fu8, b])] + keys_of(rest),
{
    let two = seq![0x1Bu8, b];
    let three = seq![0x1Bu8, 0x4Fu8, b];
    assert((two + rest).take(2) =~= two);
    assert((three + rest).take(3) =~= three);
    if b != 0x5B && b != 0x4F {
        lemma_two_keys(two, rest, Key::Raw(two));
    }
    if !('A' as u8 <= b <= 'D' as u8) && b != 'H' as u8 && b != 'F' as u8 {
        lemma_two_keys(three, rest, Key::Raw(three));
    }
}

/// A sequence that a read cuts off is held back from its ESC on: behind `ESC O`, and behind
/// `ESC [` and any parameters. A lone ESC at the end is not, nor is anything behind a final
/// byte, nor text without any ESC.
pub proof fn law_cut_sequence_is_held_back(front: Seq<u8>, params: Seq<u8>, last: u8)
    requires
        forall|i: int| 0 <= i < params.len() ==> #[trigger] params[i] < 0x40 && params[i] != 0x1B,
    ensures
        pending_start(front + seq![0x1Bu8, 0x5Bu8] + params) == front.len(),
        pending_start(front + seq![0x1Bu8, 0x4Fu8]) == front.len(),
        pending_start(front.push(0x1B)) == front.len() + 1,
        last >= 0x40 ==> pending_start(front + seq![0x1Bu8, 0x5Bu8] + params + seq![last])
            == front.len() + params.len() + 3,
        last >= 0x40 ==> pending_start(front + seq![0x1Bu8, 0x4Fu8, last]) == front.len() + 3,
        pending_start(params) == params.len(),
{
    let f = front.len() as int;
    let a = front + seq![0x1Bu8, 0x5Bu8] + params;
    assert forall|j: int| f < j < a.len() implies #[trigger] a[j] != 0x1B by {
        if j >= f + 2 {
            assert(a[j] == params[j - f - 2]);
        }
    }
    lemma_last_escape_is(a, f);
    let tail = a.skip(f);
    assert forall|j: int| 2 <= j < tail.len() implies #[trigger] tail[j] < 0x40 by {
        assert(tail[j] == params[j - 2]);
    }
    let o = front + seq![0x1Bu8, 0x4Fu8];
    lemma_last_escape_is(o, f);
    let e = front.push(0x1B);
    lemma_last_escape_is(e, f);
    if last >= 0x40 {
        let b = front + seq![0x1Bu8, 0x5Bu8] + params + seq![last];
        assert forall|j: int| f < j < b.len() implies #[trigger] b[j] != 0x1B by {
            if f + 2 <= j < b.len() - 1 {
                assert(b[j] == params[j - f - 2]);
            }
        }
        lemma_last_escape_is(b, f);
        let bt = b.skip(f);
        assert(bt[bt.len() - 1] == last);
        let t = front + seq![0x1Bu8, 0x4Fu8, last];
        lemma_last_escape_is(t, f);
    }
    assert forall|j: int| -1 < j < params.len() implies #[trigger] params[j] != 0x1B by {}
    lemma_last_escape_is(params, -1);
}

/// A key as the kitty keyboard protocol sends it: its code point, and one more than the
/// sum of its modifiers: 1 for shift, 2 for alt, 4 for ctrl, 8 for super.
pub open spec fn kitty_bytes(code: nat, modifiers: nat) -> Seq<u8> {
    seq![0x1Bu8, 0x5Bu8] + decimal(code) + seq![0x3Bu8] + decimal(modifiers + 1) + seq![0x75u8]
}

proof fn lemma_ascii_is_utf8(bytes: Seq<u8>)
    requires
        forall|i: int| 0 <= i < bytes.len() ==> #[trigger] bytes[i] < 0x80,
    ensures
        valid_utf8(bytes),
{
    let chars = Seq::new(bytes.len(), |i: int| bytes[i] as char);
    is_ascii_chars_encode_utf8(chars);
    encode_utf8_valid_utf8(chars);
    assert(encode_utf8(chars) =~= bytes);
}

/// `ESC [`, digits and semicolons, and `u`: the key that the parameters give, or raw bytes.
proof fn lemma_kitty_sequence(params: Seq<u8>, rest: Seq<u8>)
    requires
        params.len() > 0,
        forall|i: int| 0 <= i < params.len() ==> 0x30 <= #[trigger] params[i] <= 0x3B,
    ensures
        ({
            let s = seq![0x1Bu8, 0x5Bu8] + params + seq![0x75u8];
            keys_of(s + rest) == seq![
                match csi_u_value(params) {
                    Some(key) => key,
                    None => Key::Raw(s),
                },
            ] + keys_of(rest)
        }),
        valid_utf8(params),
{
    let s = seq![0x1Bu8, 0x5Bu8] + params + seq![0x75u8];
    let w = s + rest;
    let end = 2 + params.len() as int;
    assert forall|j: int| 2 <= j < end implies 0x30 <= #[trigger] w[j] <= 0x3B by {
        assert(w[j] == params[j - 2]);
    }
    assert(w[end] == 0x75);
    lemma_params_end_is(w, 2, end);
    assert(w.subrange(2, end) =~= params);
    assert(w.take(end + 1) =~= s);
    assert(w[2] == params[0]);
    assert(w[3] != 0x7E) by {
        if params.len() == 1 {
            assert(w[3] == 0x75);
        }
    }
    lemma_ascii_is_utf8(params);
    lemma_two_keys(s, rest, first_key(w).0);
}

proof fn lemma_kitty_value(code: nat, modifiers: nat, rest: Seq<u8>)
    requires
        code <= u32::MAX,
        modifiers < u32::MAX,
    ensures
        keys_of(kitty_bytes(code, modifiers) + rest) == seq![
            match csi_u_key(code, (modifiers / 4) % 2 == 1, (modifiers / 2) % 2 == 1) {
                Some(key) => key,
                None => Key::Raw(kitty_bytes(code, modifiers)),
            },
        ] + keys_of(rest),
        keys_of(seq![0x1Bu8, 0x5Bu8] + decimal(code) + seq![0x75u8] + rest) == seq![
            match csi_u_key(code, false, false) {
                Some(key) => key,
                None => Key::Raw(seq![0x1Bu8, 0x5Bu8] + decimal(code) + seq![0x75u8]),
            },
        ] + keys_of(rest),
{
    let c = decimal(code);
    let m = decimal(modifiers + 1);
    let params = c + seq![0x3Bu8] + m;
    let n = c.len() as int;
    lemma_decimal_digits(code);
    lemma_decimal_digits(modifiers + 1);
    assert forall|i: int| 0 <= i < c.len() implies 0x30 <= #[trigger] c[i] <= 0x39 by {
        assert(is_digit(c[i]));
    }
    assert forall|i: int| 0 <= i < params.len() implies 0x30 <= #[trigger] params[i] <= 0x3B by {
        if i < n {
            assert(params[i] == c[i]);
        } else if i > n {
            assert(is_digit(m[i - n - 1]));
        }
    }
    assert(kitty_bytes(code, modifiers) =~= seq![0x1Bu8, 0x5Bu8] + params + seq![0x75u8]);
    lemma_kitty_sequence(params, rest);
    lemma_kitty_sequence(c, rest);
    assert forall|j: int| 0 <= j < n implies #[trigger] params[j] != 0x3B by {
        assert(params[j] == c[j]);
    }
    lemma_position_of(params, 0x3B, 0, n);
    lemma_position_of(c, 0x3B, 0, n);
    assert(params.take(n) =~= c);
    assert(params.skip(n + 1) =~= m);
    assert(c.take(n) =~= c);
    law_written_number_reads_back(code, u32::MAX as nat);
    law_written_number_reads_back(modifiers + 1, u32::MAX as nat);
}

/// A key of the kitty keyboard protocol without ctrl and alt is the key of its code point:
/// shift and super make no other key of it, because the code point tells. Left out
/// modifiers are none.
pub proof fn law_kitty_key_is_its_code_point(code: nat, modifiers: nat, rest: Seq<u8>)
    requires
        code <= u32::MAX,
        modifiers < u32::MAX,
        (modifiers / 2) % 2 == 0,
        (modifiers / 4) % 2 == 0,
    ensures
        ({
            let bare = seq![0x1Bu8, 0x5Bu8] + decimal(code) + seq![0x75u8];
            let full = kitty_bytes(code, modifiers);
            let reads = |key: Key|
                keys_of(full + rest) == seq![key] + keys_of(rest) && keys_of(bare + rest)
                    == seq![key] + keys_of(rest);
            &&& code == 27 ==> reads(Key::Escape)
            &&& code == 9 ==> reads(Key::Tab)
            &&& code == 13 ==> reads(Key::Enter)
            &&& code == 127 ==> reads(Key::Backspace)
            &&& 0x20 <= code < 0x7F || 0xA0 <= code < 0xD800 || 0xE000 <= code <= 0x10FFFF
                ==> reads(Key::Printable(code as char))
        }),
{
    lemma_kitty_value(code, modifiers, rest);
}

/// With ctrl and without alt a letter of either case is the Ctrl key of that letter, the
/// same as its control byte sends; space and slash have Ctrl keys of their own; all else
/// passes through as it came.
pub proof fn law_kitty_ctrl_is_the_control_byte(code: nat, modifiers: nat, rest: Seq<u8>)
    requires
        code <= u32::MAX,
        modifiers < u32::MAX,
        (modifiers / 2) % 2 == 0,
        (modifiers / 4) % 2 == 1,
    ensures
        ({
            let s = kitty_bytes(code, modifiers);
            let lower = 'a' as nat <= code <= 'z' as nat;
            let upper = 'A' as nat <= code <= 'Z' as nat;
            &&& lower ==> keys_of(s + rest) == seq![Key::Ctrl(code as char)] + keys_of(rest)
            &&& upper ==> keys_of(s + rest) == seq![
                Key::Ctrl((code - 'A' as nat + 'a' as nat) as char),
            ] + keys_of(rest)
            &&& lower && code != 'i' as nat && code != 'm' as nat ==> keys_of(s) == keys_of(
                seq![(code - 'a' as nat + 1) as u8],
            )
            &&& code == ' ' as nat ==> keys_of(s + rest) == seq![Key::CtrlSpace] + keys_of(rest)
            &&& code == '/' as nat ==> keys_of(s + rest) == seq![Key::CtrlSlash] + keys_of(rest)
            &&& !lower && !upper && code != ' ' as nat && code != '/' as nat ==> keys_of(s + rest)
                == seq![Key::Raw(s)] + keys_of(rest)
        }),
{
    lemma_kitty_value(code, modifiers, rest);
    lemma_kitty_value(code, modifiers, Seq::empty());
    let s = kitty_bytes(code, modifiers);
    assert(s + Seq::<u8>::empty() =~= s);
    assert(keys_of(Seq::<u8>::empty()) =~= Seq::<Key>::empty());
    if 'a' as nat <= code <= 'z' as nat {
        let b = (code - 'a' as nat + 1) as u8;
        law_single_bytes_are_their_keys(b);
        assert(keys_of(s) =~= seq![Key::Ctrl(code as char)]);
    }
}

/// With alt a key has no other encoding: it passes through as it came.
pub proof fn law_kitty_alt_passes_through(code: nat, modifiers: nat, rest: Seq<u8>)
    requires
        code <= u32::MAX,
        modifiers < u32::MAX,
        (modifiers / 2) % 2 == 1,
    ensures
        keys_of(kitty_bytes(code, modifiers) + rest) == seq![
            Key::Raw(kitty_bytes(code, modifiers)),
        ] + keys_of(rest),
{
    lemma_kitty_value(code, modifiers, rest);
}

} // verus!
