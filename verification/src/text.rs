//! Strings as rows of characters.

use vstd::prelude::*;
use vstd::string::StrSliceExecFns;
use vstd::string::StringExecFns;
use vstd::string::StringSliceAdditionalSpecFns;
use vstd::utf8::char_u32_cast;
use vstd::utf8::decode_utf8;
use vstd::utf8::encode_scalar;
use vstd::utf8::encode_utf8;
use vstd::utf8::encode_utf8_decode_utf8;
use vstd::utf8::encode_utf8_valid_utf8;
use vstd::utf8::is_char_boundary;
use vstd::utf8::is_char_boundary_iff_not_is_continuation_byte;
use vstd::utf8::is_char_boundary_start_end_of_seq;
use vstd::utf8::last_continuation_byte;
use vstd::utf8::leading_byte_width_1;
use vstd::utf8::leading_byte_width_2;
use vstd::utf8::leading_byte_width_3;
use vstd::utf8::leading_byte_width_4;
use vstd::utf8::second_last_continuation_byte;
use vstd::utf8::third_last_continuation_byte;

verus! {

/// `String::push`: appends one character.
pub assume_specification[ String::push ](s: &mut String, c: char)
    ensures
        final(s)@ == old(s)@.push(c),
;

/// Space, tab, line feed, form feed or carriage return.
pub open spec fn is_ascii_space(c: char) -> bool {
    c == ' ' || c == '\t' || c == '\n' || c == '\u{C}' || c == '\r'
}

pub fn ascii_space(c: char) -> (space: bool)
    ensures
        space == is_ascii_space(c),
{
    c == ' ' || c == '\t' || c == '\n' || c == '\u{C}' || c == '\r'
}

/// Characters with the Unicode property White_Space.
pub open spec fn is_white_space(c: char) -> bool {
    ||| '\u{9}' <= c && c <= '\u{D}'
    ||| c == ' '
    ||| c == '\u{85}'
    ||| c == '\u{A0}'
    ||| c == '\u{1680}'
    ||| '\u{2000}' <= c && c <= '\u{200A}'
    ||| c == '\u{2028}'
    ||| c == '\u{2029}'
    ||| c == '\u{202F}'
    ||| c == '\u{205F}'
    ||| c == '\u{3000}'
}

pub fn white_space(c: char) -> (space: bool)
    ensures
        space == is_white_space(c),
{
    ('\u{9}' <= c && c <= '\u{D}') || c == ' ' || c == '\u{85}' || c == '\u{A0}' || c == '\u{1680}'
        || ('\u{2000}' <= c && c <= '\u{200A}') || c == '\u{2028}' || c == '\u{2029}' || c
        == '\u{202F}' || c == '\u{205F}' || c == '\u{3000}'
}

/// The characters of `s` from position `from` up to position `to`.
pub fn char_range(s: &str, from: usize, to: usize) -> (part: String)
    requires
        from <= to <= s@.len(),
    ensures
        part@ == s@.subrange(from as int, to as int),
{
    String::from_str(s.substring_char(from, to))
}

/// The characters of `s`.
pub fn chars_of(s: &str) -> (chars: Vec<char>)
    ensures
        chars@ == s@,
{
    let mut chars: Vec<char> = Vec::new();
    for c in it: s.chars()
        invariant
            it.seq() == s@,
            0 <= it.index() <= s@.len(),
            chars@ == s@.take(it.index()),
    {
        chars.push(c);
        assert(s@.take(it.index() + 1) =~= s@.take(it.index()).push(s@[it.index()]));
    }
    assert(s@.take(s@.len() as int) =~= s@);
    chars
}

/// The string of the characters from position `from` up to position `to`.
pub fn string_of(chars: &Vec<char>, from: usize, to: usize) -> (s: String)
    requires
        from <= to <= chars@.len(),
    ensures
        s@ == chars@.subrange(from as int, to as int),
{
    let mut s = String::new();
    let mut i: usize = from;
    while i < to
        invariant
            from <= i <= to <= chars@.len(),
            s@ == chars@.subrange(from as int, i as int),
        decreases to - i,
    {
        s.push(chars[i]);
        i = i + 1;
        assert(chars@.subrange(from as int, i as int) =~= chars@.subrange(
            from as int,
            i - 1,
        ).push(chars@[i - 1]));
    }
    s
}

/// Whether two strings hold the same characters.
pub fn same_text(a: &str, b: &str) -> (same: bool)
    ensures
        same == (a@ == b@),
{
    let x = chars_of(a);
    let y = chars_of(b);
    if x.len() != y.len() {
        return false;
    }
    let mut i: usize = 0;
    while i < x.len()
        invariant
            i <= x@.len(),
            x@.len() == y@.len(),
            x@ == a@,
            y@ == b@,
            forall|j: int| 0 <= j < i ==> x@[j] == y@[j],
        decreases x.len() - i,
    {
        if x[i] != y[i] {
            return false;
        }
        i = i + 1;
    }
    assert(a@ =~= b@);
    true
}

/// The position of the first `c` at or after `from`, or the length of `s`.
pub open spec fn position_from(s: Seq<char>, c: char, from: int) -> int
    decreases s.len() - from,
{
    if from >= s.len() || s[from] == c {
        from
    } else {
        position_from(s, c, from + 1)
    }
}

pub proof fn lemma_position_from(s: Seq<char>, c: char, from: int)
    requires
        0 <= from <= s.len(),
    ensures
        from <= position_from(s, c, from) <= s.len(),
        position_from(s, c, from) < s.len() ==> s[position_from(s, c, from)] == c,
    decreases s.len() - from,
{
    if from < s.len() && s[from] != c {
        lemma_position_from(s, c, from + 1);
    }
}

pub fn find_char(s: &Vec<char>, c: char, from: usize) -> (at: usize)
    requires
        from <= s@.len(),
    ensures
        at == position_from(s@, c, from as int),
        from <= at <= s@.len(),
{
    let mut i: usize = from;
    while i < s.len() && s[i] != c
        invariant
            from <= i <= s@.len(),
            position_from(s@, c, i as int) == position_from(s@, c, from as int),
        decreases s.len() - i,
    {
        i = i + 1;
    }
    i
}

/// The first position at or after `from` that holds no white space, or the length of `s`.
pub open spec fn skip_white(s: Seq<char>, from: int) -> int
    decreases s.len() - from,
{
    if from < s.len() && is_white_space(s[from]) {
        skip_white(s, from + 1)
    } else {
        from
    }
}

/// The position behind the last character in front of `n` that is no white space.
pub open spec fn skip_white_back(s: Seq<char>, n: int) -> int
    decreases n,
{
    if 0 < n && is_white_space(s[n - 1]) {
        skip_white_back(s, n - 1)
    } else {
        n
    }
}

/// `s` without white space at either end.
pub open spec fn trimmed(s: Seq<char>) -> Seq<char> {
    let end = skip_white_back(s, s.len() as int);
    let start = skip_white(s, 0);
    if start < end {
        s.subrange(start, end)
    } else {
        Seq::empty()
    }
}

/// The bounds of the part of `s` that trimming keeps; equal where it keeps nothing.
pub fn trim_bounds(s: &Vec<char>) -> (bounds: (usize, usize))
    ensures
        bounds.0 <= bounds.1 <= s@.len(),
        s@.subrange(bounds.0 as int, bounds.1 as int) == trimmed(s@),
{
    let mut start: usize = 0;
    while start < s.len() && white_space(s[start])
        invariant
            start <= s@.len(),
            skip_white(s@, start as int) == skip_white(s@, 0),
        decreases s.len() - start,
    {
        start = start + 1;
    }
    let mut end: usize = s.len();
    while 0 < end && white_space(s[end - 1])
        invariant
            end <= s@.len(),
            skip_white_back(s@, end as int) == skip_white_back(s@, s@.len() as int),
        decreases end,
    {
        end = end - 1;
    }
    if start < end {
        (start, end)
    } else {
        assert(s@.subrange(0, 0) =~= Seq::<char>::empty());
        (0, 0)
    }
}

/// The lines of a text: they end in a line feed or in a carriage return and a line feed,
/// which are no part of them; the last one may end without.
pub open spec fn lines_of(s: Seq<char>) -> Seq<Seq<char>>
    decreases s.len(),
{
    if s.len() == 0 {
        Seq::empty()
    } else {
        let end = position_from(s, '\n', 0);
        if 0 <= end < s.len() {
            seq![without_return(s.take(end))] + lines_of(s.skip(end + 1))
        } else {
            seq![s]
        }
    }
}

/// `s` without a carriage return at its end.
pub open spec fn without_return(s: Seq<char>) -> Seq<char> {
    if s.len() > 0 && s.last() == '\r' {
        s.drop_last()
    } else {
        s
    }
}

/// The lines of `text`.
pub fn split_lines(text: &str) -> (lines: Vec<Vec<char>>)
    ensures
        lines@.len() == lines_of(text@).len(),
        forall|i: int| 0 <= i < lines@.len() ==> (#[trigger] lines@[i])@ == lines_of(text@)[i],
{
    let s = chars_of(text);
    let mut lines: Vec<Vec<char>> = Vec::new();
    let mut at: usize = 0;
    assert(s@.skip(0) =~= s@);
    while at < s.len()
        invariant
            at <= s@.len(),
            s@ == text@,
            lines_of(text@).len() == lines@.len() + lines_of(s@.skip(at as int)).len(),
            forall|i: int|
                0 <= i < lines@.len() ==> (#[trigger] lines@[i])@ == lines_of(text@)[i],
            forall|i: int|
                0 <= i < lines_of(s@.skip(at as int)).len() ==> lines_of(text@)[lines@.len() + i]
                    == #[trigger] lines_of(s@.skip(at as int))[i],
        decreases s.len() - at,
    {
        let end: usize = find_char(&s, '\n', at);
        let ghost rest = s@.skip(at as int);
        let ghost lines_before = lines@;
        proof {
            lemma_position_shift(s@, '\n', at as int, at as int);
            lemma_position_from(s@, '\n', at as int);
        }
        let mut stop: usize = end;
        if end < s.len() && end > at && s[end - 1] == '\r' {
            stop = end - 1;
        }
        let mut line: Vec<char> = Vec::new();
        let mut i: usize = at;
        while i < stop
            invariant
                at <= i <= stop <= s@.len(),
                line@ == s@.subrange(at as int, i as int),
            decreases stop - i,
        {
            line.push(s[i]);
            i = i + 1;
            assert(s@.subrange(at as int, i as int) =~= s@.subrange(at as int, i - 1).push(
                s@[i - 1],
            ));
        }
        lines.push(line);
        proof {
            assert(position_from(rest, '\n', 0) == end - at);
            if end < s.len() {
                let first = rest.take(end - at);
                assert(first =~= s@.subrange(at as int, end as int));
                assert(line@ =~= without_return(first));
                assert(rest.skip(end - at + 1) =~= s@.skip(end + 1));
                assert(lines_of(rest) =~= seq![line@] + lines_of(s@.skip(end + 1)));
                assert(lines_of(rest)[0] == line@);
                assert forall|i: int| 0 <= i < lines_of(s@.skip(end + 1)).len() implies lines_of(
                    text@,
                )[lines@.len() + i] == #[trigger] lines_of(s@.skip(end + 1))[i] by {
                    assert(lines_of(rest)[i + 1] == lines_of(s@.skip(end + 1))[i]);
                    assert(lines_of(text@)[lines_before.len() + (i + 1)] == lines_of(rest)[i + 1]);
                }
            } else {
                assert(line@ =~= rest);
                assert(lines_of(rest) =~= seq![rest]);
                assert(lines_of(rest)[0] == rest);
                assert(s@.skip(s@.len() as int).len() == 0);
            }
            assert(lines_of(text@)[lines_before.len() + 0int] == lines_of(rest)[0]);
        }
        if end < s.len() {
            at = end + 1;
        } else {
            at = end;
        }
    }
    lines
}

proof fn lemma_position_shift(s: Seq<char>, c: char, start: int, from: int)
    requires
        0 <= start <= from <= s.len(),
    ensures
        position_from(s.skip(start), c, from - start) == position_from(s, c, from) - start,
    decreases s.len() - from,
{
    if from < s.len() && s[from] != c {
        lemma_position_shift(s, c, start, from + 1);
    }
}

/// How many characters two strings share at their front.
pub open spec fn common_prefix(a: Seq<char>, b: Seq<char>, from: int) -> int
    decreases a.len() - from,
{
    if from < a.len() && from < b.len() && a[from] == b[from] {
        common_prefix(a, b, from + 1)
    } else {
        from
    }
}

// ---- Byte offsets ----

/// How many bytes a row of characters takes.
pub open spec fn utf8_len(s: Seq<char>) -> nat {
    encode_utf8(s).len()
}

/// A byte offset between two characters of `s`, or at either end.
pub open spec fn at_boundary(s: &str, offset: usize) -> bool {
    offset <= s.spec_bytes().len() && is_char_boundary(s.spec_bytes(), offset as int)
}

/// The characters between two byte offsets.
pub open spec fn chars_between(s: &str, from: int, to: int) -> Seq<char> {
    decode_utf8(s.spec_bytes().subrange(from, to))
}

pub proof fn lemma_utf8_concat(a: Seq<char>, b: Seq<char>)
    ensures
        encode_utf8(a + b) == encode_utf8(a) + encode_utf8(b),
    decreases a.len(),
{
    if a.len() == 0 {
        assert(a + b =~= b);
        assert(encode_utf8(a) + encode_utf8(b) =~= encode_utf8(b));
    } else {
        assert((a + b).drop_first() =~= a.drop_first() + b);
        lemma_utf8_concat(a.drop_first(), b);
        assert(encode_utf8(a + b) =~= encode_utf8(a) + encode_utf8(b));
    }
}

pub proof fn lemma_utf8_nonempty(s: Seq<char>)
    requires
        s.len() > 0,
    ensures
        encode_utf8(s).len() > 0,
{
}

/// The bytes of one character are the character itself, or none of them is ASCII.
proof fn lemma_scalar_bytes(scalar: u32, i: int)
    requires
        0 <= i < encode_scalar(scalar).len(),
    ensures
        encode_scalar(scalar)[i] == scalar || encode_scalar(scalar)[i] >= 0x80,
{
    assert(scalar <= 0x7F ==> leading_byte_width_1(scalar) == scalar) by (bit_vector);
    assert(leading_byte_width_2(scalar) >= 0x80) by (bit_vector);
    assert(leading_byte_width_3(scalar) >= 0x80) by (bit_vector);
    assert(leading_byte_width_4(scalar) >= 0x80) by (bit_vector);
    assert(last_continuation_byte(scalar) >= 0x80) by (bit_vector);
    assert(second_last_continuation_byte(scalar) >= 0x80) by (bit_vector);
    assert(third_last_continuation_byte(scalar) >= 0x80) by (bit_vector);
}

/// An ASCII byte stands in the bytes of a text only where its character stands in the text.
pub proof fn lemma_utf8_lacks_ascii(s: Seq<char>, c: char)
    requires
        c as u32 <= 0x7F,
        !s.contains(c),
    ensures
        !encode_utf8(s).contains(c as u8),
    decreases s.len(),
{
    if s.len() > 0 {
        let rest = s.drop_first();
        let first = encode_scalar(s[0] as u32);
        assert forall|i: int| 0 <= i < rest.len() implies rest[i] != c by {
            assert(rest[i] == s[i + 1]);
        }
        lemma_utf8_lacks_ascii(rest, c);
        assert forall|i: int| 0 <= i < encode_utf8(s).len() implies encode_utf8(s)[i] != c as u8 by {
            if i < first.len() {
                lemma_scalar_bytes(s[0] as u32, i);
                assert(encode_utf8(s)[i] == first[i]);
                char_u32_cast(s[0], s[0] as u32);
                char_u32_cast(c, c as u32);
                assert(s[0] != c);
            } else {
                assert(encode_utf8(s)[i] == encode_utf8(rest)[i - first.len()]);
            }
        }
    }
}

/// How many bytes a string takes.
pub fn byte_len(s: &str) -> (len: usize)
    ensures
        len == s.spec_bytes().len(),
{
    s.as_bytes().len()
}

/// How many bytes the first `n` characters take.
pub fn prefix_bytes(s: &str, n: usize) -> (len: usize)
    requires
        n <= s@.len(),
    ensures
        len == utf8_len(s@.take(n as int)),
        len <= s.spec_bytes().len(),
{
    let front = s.substring_char(0, n);
    assert(front@ =~= s@.take(n as int));
    proof {
        lemma_utf8_concat(s@.take(n as int), s@.skip(n as int));
        assert(s@ =~= s@.take(n as int) + s@.skip(n as int));
    }
    byte_len(front)
}

/// The part of a string between two byte offsets.
pub fn slice_bytes<'a>(s: &'a str, from: usize, to: usize) -> (part: &'a str)
    requires
        from <= to,
        at_boundary(s, from),
        at_boundary(s, to),
    ensures
        part@ == chars_between(s, from as int, to as int),
        part.spec_bytes() == s.spec_bytes().subrange(from as int, to as int),
{
    let (_, tail): (&str, &str) = s.split_at(from);
    let ghost bytes = s.spec_bytes();
    proof {
        encode_utf8_valid_utf8(s@);
        encode_utf8_valid_utf8(tail@);
        let n = (to - from) as int;
        assert(tail.spec_bytes() =~= bytes.subrange(from as int, bytes.len() as int));
        is_char_boundary_start_end_of_seq(tail.spec_bytes());
        if n < tail.spec_bytes().len() {
            assert(tail.spec_bytes()[n] == bytes[to as int]);
            is_char_boundary_iff_not_is_continuation_byte(tail.spec_bytes(), n);
            is_char_boundary_iff_not_is_continuation_byte(bytes, to as int);
        }
    }
    let (part, _): (&str, &str) = tail.split_at(to - from);
    proof {
        assert(part.spec_bytes() =~= bytes.subrange(from as int, to as int));
        encode_utf8_decode_utf8(part@);
    }
    part
}

// ---- Laws ----

/// Within ASCII the blanks are the space and the five characters from tab to carriage
/// return; beyond it they are those that Unicode calls white space.
pub proof fn law_white_space_is_unicodes(c: char)
    ensures
        c as u32 <= 0x7F ==> (is_white_space(c) <==> c as u32 == 32 || 9 <= c as u32 <= 13),
        c as u32 > 0x7F ==> (is_white_space(c) <==> c as u32 == 0x85 || c as u32 == 0xA0 || c as u32
            == 0x1680 || 0x2000 <= c as u32 <= 0x200A || c as u32 == 0x2028 || c as u32 == 0x2029
            || c as u32 == 0x202F || c as u32 == 0x205F || c as u32 == 0x3000),
        is_ascii_space(c) <==> is_white_space(c) && c as u32 <= 0x7F && c as u32 != 11,
{
}

proof fn lemma_skip_white_is(s: Seq<char>, from: int, to: int)
    requires
        0 <= from <= to <= s.len(),
        forall|i: int| from <= i < to ==> is_white_space(#[trigger] s[i]),
        to < s.len() ==> !is_white_space(s[to]),
    ensures
        skip_white(s, from) == to,
    decreases to - from,
{
    if from < to {
        lemma_skip_white_is(s, from + 1, to);
    }
}

pub proof fn lemma_skip_white_back_is(s: Seq<char>, to: int, n: int)
    requires
        0 <= to <= n <= s.len(),
        forall|i: int| to <= i < n ==> is_white_space(#[trigger] s[i]),
        to > 0 ==> !is_white_space(s[to - 1]),
    ensures
        skip_white_back(s, n) == to,
    decreases n - to,
{
    if to < n {
        assert(is_white_space(s[n - 1]));
        lemma_skip_white_back_is(s, to, n - 1);
    }
}

/// Trimming takes the blanks at both ends, all of them and nothing else: what is left
/// starts and ends in something else, and blanks alone leave nothing.
pub proof fn law_trimming_takes_blanks_at_the_ends(front: Seq<char>, s: Seq<char>, back: Seq<char>)
    requires
        forall|i: int| 0 <= i < front.len() ==> is_white_space(#[trigger] front[i]),
        forall|i: int| 0 <= i < back.len() ==> is_white_space(#[trigger] back[i]),
        s.len() > 0 ==> !is_white_space(s[0]) && !is_white_space(s.last()),
    ensures
        trimmed(front + s + back) == s,
{
    let t = front + s + back;
    let f = front.len() as int;
    let e = (front + s).len() as int;
    if s.len() == 0 {
        assert forall|i: int| 0 <= i < t.len() implies is_white_space(#[trigger] t[i]) by {
            if i < f {
                assert(t[i] == front[i]);
            } else {
                assert(t[i] == back[i - f]);
            }
        }
        lemma_skip_white_is(t, 0, t.len() as int);
        lemma_skip_white_back_is(t, 0, t.len() as int);
        assert(s =~= Seq::<char>::empty());
    } else {
        assert forall|i: int| 0 <= i < f implies is_white_space(#[trigger] t[i]) by {
            assert(t[i] == front[i]);
        }
        assert(t[f] == s[0]);
        lemma_skip_white_is(t, 0, f);
        assert forall|i: int| e <= i < t.len() implies is_white_space(#[trigger] t[i]) by {
            assert(t[i] == back[i - e]);
        }
        assert(t[e - 1] == s.last());
        lemma_skip_white_back_is(t, e, t.len() as int);
        assert(t.subrange(f, e) =~= s);
    }
}

pub proof fn lemma_position_is(s: Seq<char>, c: char, from: int, at: int)
    requires
        0 <= from <= at <= s.len(),
        forall|i: int| from <= i < at ==> #[trigger] s[i] != c,
        at < s.len() ==> s[at] == c,
    ensures
        position_from(s, c, from) == at,
    decreases at - from,
{
    if from < at {
        lemma_position_is(s, c, from + 1, at);
    }
}

/// A line ends at its line feed, or at a carriage return in front of that; the text behind
/// goes on with the next line. The last line needs no end, and an empty text has no line.
pub proof fn law_lines_end_at_line_feeds(line: Seq<char>, rest: Seq<char>)
    requires
        !line.contains('\n'),
    ensures
        line.len() == 0 || line.last() != '\r' ==> lines_of(line.push('\n') + rest) == seq![line]
            + lines_of(rest),
        lines_of(line.push('\r').push('\n') + rest) == seq![line] + lines_of(rest),
        line.len() > 0 ==> lines_of(line) == seq![line],
        lines_of(Seq::empty()) == Seq::<Seq<char>>::empty(),
{
    let n = line.len() as int;
    assert forall|i: int| 0 <= i < n implies #[trigger] line[i] != '\n' by {
        assert(line.contains(line[i]));
    }
    let a = line.push('\n') + rest;
    assert forall|i: int| 0 <= i < n implies #[trigger] a[i] != '\n' by {
        assert(a[i] == line[i]);
    }
    lemma_position_is(a, '\n', 0, n);
    assert(a.take(n) =~= line);
    assert(a.skip(n + 1) =~= rest);
    let b = line.push('\r').push('\n') + rest;
    assert forall|i: int| 0 <= i < n + 1 implies #[trigger] b[i] != '\n' by {
        if i < n {
            assert(b[i] == line[i]);
        }
    }
    lemma_position_is(b, '\n', 0, n + 1);
    assert(b.take(n + 1) =~= line.push('\r'));
    assert(without_return(line.push('\r')) =~= line);
    assert(b.skip(n + 2) =~= rest);
    lemma_position_is(line, '\n', 0, n);
}

/// Two texts share their front up to the first character that differs.
pub proof fn law_common_prefix_ends_at_first_difference(
    front: Seq<char>,
    a: Seq<char>,
    b: Seq<char>,
)
    requires
        a.len() == 0 || b.len() == 0 || a[0] != b[0],
    ensures
        common_prefix(front + a, front + b, 0) == front.len(),
{
    lemma_common_prefix_from(front, a, b, 0);
}

proof fn lemma_common_prefix_from(front: Seq<char>, a: Seq<char>, b: Seq<char>, from: int)
    requires
        a.len() == 0 || b.len() == 0 || a[0] != b[0],
        0 <= from <= front.len(),
    ensures
        common_prefix(front + a, front + b, from) == front.len(),
    decreases front.len() - from,
{
    let x = front + a;
    let y = front + b;
    if from < front.len() {
        assert(x[from] == front[from] && y[from] == front[from]);
        lemma_common_prefix_from(front, a, b, from + 1);
    } else {
        if a.len() > 0 && b.len() > 0 {
            assert(x[from] == a[0] && y[from] == b[0]);
        }
    }
}

} // verus!
