//! Decimal numbers written in ASCII.

use vstd::prelude::*;

verus! {

pub open spec fn is_digit(b: u8) -> bool {
    0x30 <= b <= 0x39
}

pub open spec fn all_digits(s: Seq<u8>) -> bool {
    forall|i: int| 0 <= i < s.len() ==> is_digit(#[trigger] s[i])
}

/// The number that a row of decimal digits denotes, most significant digit first.
pub open spec fn digits_value(s: Seq<u8>) -> nat
    decreases s.len(),
{
    if s.len() == 0 {
        0
    } else {
        digits_value(s.drop_last()) * 10 + (s.last() - 0x30) as nat
    }
}

/// The digits of a numeral without its optional leading plus sign.
pub open spec fn unsigned_digits(s: Seq<u8>) -> Seq<u8> {
    if s.len() > 0 && s[0] == 0x2B {
        s.skip(1)
    } else {
        s
    }
}

/// The value of an unsigned numeral that is at most `max`: an optional plus sign and
/// at least one digit, and nothing else.
pub open spec fn unsigned_value(s: Seq<u8>, max: nat) -> Option<nat> {
    let digits = unsigned_digits(s);
    if digits.len() > 0 && all_digits(digits) && digits_value(digits) <= max {
        Some(digits_value(digits))
    } else {
        None
    }
}

/// Appending bytes to a row of digits never makes its value smaller.
proof fn lemma_prefix_value(s: Seq<u8>, k: int)
    requires
        0 <= k <= s.len(),
        all_digits(s),
    ensures
        digits_value(s.take(k)) <= digits_value(s),
    decreases s.len() - k,
{
    if k == s.len() {
        assert(s.take(k) =~= s);
    } else {
        lemma_prefix_value(s, k + 1);
        assert(s.take(k + 1).drop_last() =~= s.take(k));
    }
}

/// Reads an unsigned numeral no greater than `max`.
pub fn parse_unsigned(s: &[u8], max: u32) -> (value: Option<u32>)
    ensures
        match value {
            Some(v) => unsigned_value(s@, max as nat) == Some(v as nat),
            None => unsigned_value(s@, max as nat) is None,
        },
{
    let mut i: usize = 0;
    if s.len() > 0 && s[0] == 0x2B {
        i = 1;
    }
    let ghost digits = unsigned_digits(s@);
    let ghost start = i as int;
    assert(digits =~= s@.skip(start));
    if i == s.len() {
        return None;
    }
    let mut acc: u64 = 0;
    while i < s.len()
        invariant
            start <= i <= s.len(),
            0 <= start <= 1,
            digits == s@.skip(start),
            digits == unsigned_digits(s@),
            digits.len() > 0,
            acc <= max,
            all_digits(digits.take(i - start)),
            acc == digits_value(digits.take(i - start)),
        decreases s.len() - i,
    {
        let b: u8 = s[i];
        assert(digits[i - start] == b);
        if b < 0x30 || b > 0x39 {
            assert(!is_digit(digits[i - start]));
            return None;
        }
        acc = acc * 10 + (b - 0x30) as u64;
        i = i + 1;
        proof {
            let now = digits.take(i - start);
            assert(now.drop_last() =~= digits.take(i - start - 1));
            assert(now.last() == b);
            assert forall|j: int| 0 <= j < now.len() implies is_digit(#[trigger] now[j]) by {
                if j < now.len() - 1 {
                    assert(now[j] == digits.take(i - start - 1)[j]);
                }
            }
            if acc > max && all_digits(digits) {
                lemma_prefix_value(digits, i - start);
            }
        }
        if acc > max as u64 {
            return None;
        }
    }
    assert(digits.take(i - start) =~= digits);
    Some(acc as u32)
}

/// The decimal digits of `n`, without leading zeros.
pub open spec fn decimal(n: nat) -> Seq<u8>
    decreases n,
{
    if n < 10 {
        seq![(0x30 + n) as u8]
    } else {
        decimal(n / 10).push((0x30 + n % 10) as u8)
    }
}

/// The decimal digits of `n` as characters.
pub open spec fn decimal_text(n: nat) -> Seq<char> {
    Seq::new(decimal(n).len(), |i: int| decimal(n)[i] as char)
}

fn decimal_digits(n: u32) -> (digits: Vec<u8>)
    ensures
        digits@ == decimal(n as nat),
    decreases n,
{
    if n < 10 {
        let digits: Vec<u8> = vec![0x30 + n as u8];
        assert(digits@ =~= decimal(n as nat));
        digits
    } else {
        let mut digits = decimal_digits(n / 10);
        digits.push(0x30 + (n % 10) as u8);
        digits
    }
}

/// Appends the decimal digits of `n` to a row of bytes.
pub fn push_decimal(out: &mut Vec<u8>, n: u32)
    ensures
        final(out)@ == old(out)@ + decimal(n as nat),
{
    let mut digits = decimal_digits(n);
    out.append(&mut digits);
}

/// Appends the decimal digits of `n` to a string.
pub fn push_decimal_text(out: &mut String, n: u32)
    ensures
        final(out)@ == old(out)@ + decimal_text(n as nat),
{
    let digits = decimal_digits(n);
    let ghost before = out@;
    let mut i: usize = 0;
    assert(before + decimal_text(n as nat).take(0) =~= before);
    while i < digits.len()
        invariant
            i <= digits@.len(),
            digits@ == decimal(n as nat),
            out@ == before + decimal_text(n as nat).take(i as int),
        decreases digits.len() - i,
    {
        out.push(digits[i] as char);
        i = i + 1;
        assert(out@ =~= before + decimal_text(n as nat).take(i as int));
    }
    assert(decimal_text(n as nat).take(i as int) =~= decimal_text(n as nat));
}

pub proof fn lemma_decimal_digits(n: nat)
    ensures
        decimal(n).len() > 0,
        all_digits(decimal(n)),
        digits_value(decimal(n)) == n,
    decreases n,
{
    if n < 10 {
        let d = decimal(n);
        assert(d.drop_last() =~= Seq::<u8>::empty());
        assert(digits_value(d.drop_last()) == 0);
    } else {
        lemma_decimal_digits(n / 10);
        let d = decimal(n);
        let front = decimal(n / 10);
        assert(d.drop_last() =~= front);
        assert forall|i: int| 0 <= i < d.len() implies is_digit(#[trigger] d[i]) by {
            if i < front.len() {
                assert(d[i] == front[i]);
            }
        }
    }
}

/// A number is read back as it was written.
pub proof fn law_written_number_reads_back(n: nat, max: nat)
    requires
        n <= max,
    ensures
        unsigned_value(decimal(n), max) == Some(n),
{
    lemma_decimal_digits(n);
    assert(is_digit(decimal(n)[0]));
}

/// A digit counts ten times as much as the one behind it.
pub proof fn law_digits_are_positional(front: Seq<u8>, d: u8)
    requires
        '0' as u8 <= d <= '9' as u8,
    ensures
        digits_value(front.push(d)) == 10 * digits_value(front) + (d - '0' as u8),
        digits_value(Seq::empty()) == 0,
{
    assert(front.push(d).drop_last() =~= front);
}

/// The digits of a number are those of a tenth of it, with the last digit behind them: the
/// most significant one comes first, and there are no leading zeros.
pub proof fn law_last_digit_comes_last(n: nat, d: nat)
    requires
        d < 10,
    ensures
        decimal(d) == seq![('0' as u8 + d) as u8],
        n > 0 ==> decimal(10 * n + d) == decimal(n).push(('0' as u8 + d) as u8),
        n > 0 ==> decimal(n)[0] != '0' as u8,
    decreases n,
{
    assert((10 * n + d) / 10 == n && (10 * n + d) % 10 == d);
    if n >= 10 {
        law_last_digit_comes_last(n / 10, n % 10);
    }
}

/// A numeral holds nothing but digits behind its plus sign, which changes nothing, and at
/// least one; where there is no other byte and the value is not too large, it is a number.
pub proof fn law_numerals_hold_digits(s: Seq<u8>, max: nat)
    requires
        s.len() == 0 || s[0] != '+' as u8,
    ensures
        unsigned_value(s, max) is Some ==> s.len() > 0 && forall|i: int|
            0 <= i < s.len() ==> '0' as u8 <= #[trigger] s[i] <= '9' as u8,
        s.len() > 0 && (forall|i: int|
            0 <= i < s.len() ==> '0' as u8 <= #[trigger] s[i] <= '9' as u8) && digits_value(s)
            <= max ==> unsigned_value(s, max) == Some(digits_value(s)),
        unsigned_value(s, max) matches Some(v) ==> v <= max,
        unsigned_value(seq!['+' as u8] + s, max) == unsigned_value(s, max),
{
    assert((seq!['+' as u8] + s).skip(1) =~= s);
    if all_digits(s) {
        assert forall|i: int| 0 <= i < s.len() implies '0' as u8 <= #[trigger] s[i] <= '9' as u8 by {
            assert(is_digit(s[i]));
        }
    }
}

} // verus!
