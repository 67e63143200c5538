//! Decimal text for integers and fixed-point numbers.

use vstd::prelude::*;
use vstd::string::StrSliceExecFns;
use crate::fixed::{abs, SCALE};

verus! {

/// `String::push` appends one character to the end of the string.
pub assume_specification[ String::push ](s: &mut String, ch: char)
    ensures
        final(s)@ == old(s)@.push(ch),
;

/// The character for a single decimal digit.
pub open spec fn digit_char(d: int) -> char {
    if d == 0 {
        '0'
    } else if d == 1 {
        '1'
    } else if d == 2 {
        '2'
    } else if d == 3 {
        '3'
    } else if d == 4 {
        '4'
    } else if d == 5 {
        '5'
    } else if d == 6 {
        '6'
    } else if d == 7 {
        '7'
    } else if d == 8 {
        '8'
    } else {
        '9'
    }
}

/// Decimal digits of a natural number, most significant first, without leading zeros.
pub open spec fn decimal_digits(n: nat) -> Seq<char>
    decreases n,
{
    if n < 10 {
        seq![digit_char(n as int)]
    } else {
        decimal_digits(n / 10).push(digit_char((n % 10) as int))
    }
}

/// `n` is a power of ten.
pub open spec fn is_power_of_ten(n: nat) -> bool
    decreases n,
{
    n == 1 || (n >= 10 && n % 10 == 0 && is_power_of_ten(n / 10))
}

/// Digits after the decimal point for the fraction `f / scale`, where `scale` is a
/// power of ten and `f < scale`: as many digits as are needed, none when `f` is zero.
pub open spec fn fraction_digits(f: nat, scale: nat) -> Seq<char>
    decreases scale,
{
    if f == 0 || scale < 10 {
        Seq::<char>::empty()
    } else {
        seq![digit_char((f / (scale / 10)) as int)] + fraction_digits(
            f % (scale / 10),
            scale / 10,
        )
    }
}

/// Decimal text of a fixed-point number: a minus sign if negative, the whole part, and
/// the fractional part without trailing zeros (omitted, with the point, when zero).
pub open spec fn fixed_text(v: int) -> Seq<char> {
    let sign = if v < 0 { seq!['-'] } else { Seq::<char>::empty() };
    let whole = decimal_digits((abs(v) / (SCALE as int)) as nat);
    let part = (abs(v) % (SCALE as int)) as nat;
    if part == 0 {
        sign + whole
    } else {
        sign + whole + seq!['.'] + fraction_digits(part, SCALE as nat)
    }
}

fn digit_to_char(d: u64) -> (c: char)
    requires
        d < 10,
    ensures
        c == digit_char(d as int),
{
    if d == 0 {
        '0'
    } else if d == 1 {
        '1'
    } else if d == 2 {
        '2'
    } else if d == 3 {
        '3'
    } else if d == 4 {
        '4'
    } else if d == 5 {
        '5'
    } else if d == 6 {
        '6'
    } else if d == 7 {
        '7'
    } else if d == 8 {
        '8'
    } else {
        '9'
    }
}

/// Appends the decimal digits of `n` to `out`.
pub fn push_decimal(out: &mut String, n: u64)
    ensures
        final(out)@ == old(out)@ + decimal_digits(n as nat),
    decreases n,
{
    if n < 10 {
        out.push(digit_to_char(n));
        assert(old(out)@.push(digit_char(n as int)) =~= old(out)@ + decimal_digits(n as nat));
    } else {
        push_decimal(out, n / 10);
        out.push(digit_to_char(n % 10));
        assert(out@ =~= old(out)@ + decimal_digits(n as nat));
    }
}

/// Appends the digits of the fraction `f / scale` to `out`.
fn push_fraction(out: &mut String, f: u64, scale: u64)
    requires
        f < scale,
        is_power_of_ten(scale as nat),
    ensures
        final(out)@ == old(out)@ + fraction_digits(f as nat, scale as nat),
    decreases scale,
{
    if f == 0 || scale < 10 {
        assert(out@ =~= old(out)@ + fraction_digits(f as nat, scale as nat));
    } else {
        let step: u64 = scale / 10;
        assert(f / step < 10) by (nonlinear_arith)
            requires
                f < scale,
                scale == 10 * step,
                step > 0,
        ;
        out.push(digit_to_char(f / step));
        push_fraction(out, f % step, step);
        assert(out@ =~= old(out)@ + fraction_digits(f as nat, scale as nat));
    }
}

/// Appends the decimal text of the fixed-point number `v` to `out`.
pub fn push_fixed(out: &mut String, v: i64)
    ensures
        final(out)@ == old(out)@ + fixed_text(v as int),
{
    let magnitude: u64 = if v < 0 { (-(v as i128)) as u64 } else { v as u64 };
    if v < 0 {
        out.push('-');
    }
    let scale: u64 = 1_000_000;
    push_decimal(out, magnitude / scale);
    let part: u64 = magnitude % scale;
    assert(is_power_of_ten(1_000_000)) by {
        reveal_with_fuel(is_power_of_ten, 8);
    }
    if part != 0 {
        out.push('.');
        push_fraction(out, part, scale);
    }
    assert(out@ =~= old(out)@ + fixed_text(v as int));
}

/// Decimal text of a fixed-point number.
pub fn fixed_to_string(v: i64) -> (s: String)
    ensures
        s@ == fixed_text(v as int),
{
    let mut out = String::new();
    push_fixed(&mut out, v);
    assert(out@ =~= fixed_text(v as int));
    out
}

/// White space: the characters with the Unicode property White_Space.
pub open spec fn is_white_space(c: char) -> bool {
    ||| ('\u{9}' <= c && c <= '\u{d}')
    ||| c == ' '
    ||| c == '\u{85}'
    ||| c == '\u{a0}'
    ||| c == '\u{1680}'
    ||| ('\u{2000}' <= c && c <= '\u{200a}')
    ||| c == '\u{2028}'
    ||| c == '\u{2029}'
    ||| c == '\u{202f}'
    ||| c == '\u{205f}'
    ||| c == '\u{3000}'
}

/// The text without leading white space.
pub open spec fn trim_start_text(s: Seq<char>) -> Seq<char>
    decreases s.len(),
{
    if s.len() > 0 && is_white_space(s[0]) {
        trim_start_text(s.drop_first())
    } else {
        s
    }
}

/// The text without trailing white space.
pub open spec fn trim_end_text(s: Seq<char>) -> Seq<char>
    decreases s.len(),
{
    if s.len() > 0 && is_white_space(s.last()) {
        trim_end_text(s.drop_last())
    } else {
        s
    }
}

/// The text without leading and trailing white space.
pub open spec fn trimmed(s: Seq<char>) -> Seq<char> {
    trim_end_text(trim_start_text(s))
}

/// The lower-case form of an ASCII capital letter; any other character as it is.
pub open spec fn ascii_lower(c: char) -> char {
    if 'A' <= c && c <= 'Z' {
        ((c as u32) + 32) as char
    } else {
        c
    }
}

/// The text with every ASCII capital letter in lower case.
pub open spec fn lowered(s: Seq<char>) -> Seq<char> {
    Seq::new(s.len(), |i: int| ascii_lower(s[i]))
}

/// Whether a character is white space.
pub fn is_whitespace_char(c: char) -> (r: bool)
    ensures
        r == is_white_space(c),
{
    ('\u{9}' <= c && c <= '\u{d}') || c == ' ' || c == '\u{85}' || c == '\u{a0}' || c
        == '\u{1680}' || ('\u{2000}' <= c && c <= '\u{200a}') || c == '\u{2028}' || c
        == '\u{2029}' || c == '\u{202f}' || c == '\u{205f}' || c == '\u{3000}'
}

/// The lower-case form of an ASCII capital letter; any other character as it is.
pub fn to_ascii_lower(c: char) -> (r: char)
    ensures
        r == ascii_lower(c),
{
    if 'A' <= c && c <= 'Z' {
        let code: u32 = c as u32;
        ((code + 32) as u8) as char
    } else {
        c
    }
}

/// The characters of a string.
pub fn to_chars(s: &str) -> (v: Vec<char>)
    ensures
        v@ == s@,
{
    let n: usize = s.unicode_len();
    let mut v: Vec<char> = Vec::new();
    let mut i: usize = 0;
    while i < n
        invariant
            i <= n,
            n == s@.len(),
            v@ == s@.take(i as int),
        decreases n - i,
    {
        v.push(s.get_char(i));
        assert(v@ =~= s@.take(i as int + 1));
        i = i + 1;
    }
    assert(s@.take(n as int) =~= s@);
    v
}

/// The string of the characters from index `from` up to index `to`.
pub fn from_chars(v: &Vec<char>, from: usize, to: usize) -> (s: String)
    requires
        from <= to <= v@.len(),
    ensures
        s@ == v@.subrange(from as int, to as int),
{
    let mut s = String::new();
    let mut i: usize = from;
    while i < to
        invariant
            from <= i <= to <= v@.len(),
            s@ == v@.subrange(from as int, i as int),
        decreases to - i,
    {
        s.push(v[i]);
        assert(s@ =~= v@.subrange(from as int, i as int + 1));
        i = i + 1;
    }
    s
}

/// Trimming from the start, seen from a range of a longer text.
proof fn lemma_trim_start_range(v: Seq<char>, from: int, to: int, at: int)
    requires
        0 <= from <= at <= to <= v.len(),
        forall|k: int| from <= k < at ==> is_white_space(v[k]),
        at < to ==> !is_white_space(v[at]),
    ensures
        trim_start_text(v.subrange(from, to)) == v.subrange(at, to),
    decreases at - from,
{
    let s = v.subrange(from, to);
    if from < at {
        assert(s[0] == v[from]);
        assert(s.drop_first() =~= v.subrange(from + 1, to));
        lemma_trim_start_range(v, from + 1, to, at);
    } else if at < to {
        assert(s[0] == v[at]);
    }
}

/// Trimming from the end, seen from a range of a longer text.
proof fn lemma_trim_end_range(v: Seq<char>, from: int, to: int, at: int)
    requires
        0 <= from <= at <= to <= v.len(),
        forall|k: int| at <= k < to ==> is_white_space(v[k]),
        from < at ==> !is_white_space(v[at - 1]),
    ensures
        trim_end_text(v.subrange(from, to)) == v.subrange(from, at),
    decreases to - at,
{
    let s = v.subrange(from, to);
    if at < to {
        assert(s.last() == v[to - 1]);
        assert(s.drop_last() =~= v.subrange(from, to - 1));
        lemma_trim_end_range(v, from, to - 1, at);
    } else if from < at {
        assert(s.last() == v[at - 1]);
    }
}

/// The range that is left of the range from `from` to `to` when leading and trailing
/// white space is taken off.
pub fn trim_range(v: &Vec<char>, from: usize, to: usize) -> (r: (usize, usize))
    requires
        from <= to <= v@.len(),
    ensures
        from <= r.0 <= r.1 <= to,
        v@.subrange(r.0 as int, r.1 as int) == trimmed(v@.subrange(from as int, to as int)),
{
    let mut a: usize = from;
    while a < to && is_whitespace_char(v[a])
        invariant
            from <= a <= to <= v@.len(),
            forall|k: int| from <= k < a ==> is_white_space(v@[k]),
        decreases to - a,
    {
        a = a + 1;
    }
    let mut b: usize = to;
    while b > a && is_whitespace_char(v[b - 1])
        invariant
            a <= b <= to <= v@.len(),
            forall|k: int| b <= k < to ==> is_white_space(v@[k]),
        decreases b,
    {
        b = b - 1;
    }
    proof {
        lemma_trim_start_range(v@, from as int, to as int, a as int);
        lemma_trim_end_range(v@, a as int, to as int, b as int);
    }
    (a, b)
}

/// Whether the characters from `from` up to `to`, in lower case, spell `word`.
pub fn spells(v: &Vec<char>, from: usize, to: usize, word: &str) -> (r: bool)
    requires
        from <= to <= v@.len(),
    ensures
        r == (lowered(v@.subrange(from as int, to as int)) == word@),
{
    let w = to_chars(word);
    let ghost text = lowered(v@.subrange(from as int, to as int));
    if w.len() != to - from {
        return false;
    }
    let mut i: usize = 0;
    while i < w.len()
        invariant
            i <= w@.len(),
            from <= to <= v@.len(),
            w@.len() == to - from,
            w@ == word@,
            text == lowered(v@.subrange(from as int, to as int)),
            forall|k: int| 0 <= k < i ==> text[k] == w@[k],
        decreases w@.len() - i,
    {
        if to_ascii_lower(v[from + i]) != w[i] {
            assert(text[i as int] != w@[i as int]);
            return false;
        }
        i = i + 1;
    }
    assert(text =~= w@);
    true
}

/// The value of a decimal digit; ten for any other character.
pub open spec fn digit_value(c: char) -> int {
    if '0' <= c && c <= '9' {
        c as int - '0' as int
    } else {
        10
    }
}

/// The number that a sequence of decimal digits spells.
pub open spec fn decimal_value(s: Seq<char>) -> int
    decreases s.len(),
{
    if s.len() == 0 {
        0
    } else {
        decimal_value(s.drop_last()) * 10 + digit_value(s.last())
    }
}

/// Every character is a decimal digit.
pub open spec fn all_digits(s: Seq<char>) -> bool {
    forall|i: int| 0 <= i < s.len() ==> digit_value(#[trigger] s[i]) < 10
}

/// The unsigned 64-bit number that a text spells: an optional plus sign and then one
/// or more decimal digits, with a value in range; none for anything else.
pub open spec fn unsigned_of_text(s: Seq<char>) -> Option<u64> {
    let digits = if s.len() > 0 && s[0] == '+' { s.drop_first() } else { s };
    if digits.len() > 0 && all_digits(digits) && decimal_value(digits) <= u64::MAX {
        Some(decimal_value(digits) as u64)
    } else {
        None
    }
}

/// The value of a decimal digit; ten for any other character.
pub fn digit_of(c: char) -> (r: u64)
    ensures
        r == digit_value(c),
        r <= 10,
{
    if '0' <= c && c <= '9' {
        (c as u32 - '0' as u32) as u64
    } else {
        10
    }
}

/// The value of digits only grows with more digits.
proof fn lemma_decimal_value_grows(s: Seq<char>, n: int)
    requires
        0 <= n <= s.len(),
        all_digits(s),
    ensures
        0 <= decimal_value(s.take(n)) <= decimal_value(s),
    decreases s.len() - n,
{
    if n == s.len() {
        assert(s.take(n) =~= s);
        lemma_decimal_value_nonnegative(s);
    } else {
        let rest = s.drop_last();
        assert(all_digits(rest)) by {
            assert forall|i: int| 0 <= i < rest.len() implies digit_value(#[trigger] rest[i])
                < 10 by {
                assert(rest[i] == s[i]);
            }
        }
        assert(rest.take(n) =~= s.take(n));
        lemma_decimal_value_grows(rest, n);
        lemma_decimal_value_nonnegative(rest);
        assert(digit_value(s[s.len() - 1]) < 10);
    }
}

/// The value of digits is not negative.
proof fn lemma_decimal_value_nonnegative(s: Seq<char>)
    requires
        all_digits(s),
    ensures
        0 <= decimal_value(s),
    decreases s.len(),
{
    if s.len() > 0 {
        let rest = s.drop_last();
        assert(all_digits(rest)) by {
            assert forall|i: int| 0 <= i < rest.len() implies digit_value(#[trigger] rest[i])
                < 10 by {
                assert(rest[i] == s[i]);
            }
        }
        lemma_decimal_value_nonnegative(rest);
        assert(digit_value(s[s.len() - 1]) < 10);
    }
}

/// Reads an unsigned 64-bit number from the characters from `from` up to `to`.
pub fn parse_unsigned(v: &Vec<char>, from: usize, to: usize) -> (r: Option<u64>)
    requires
        from <= to <= v@.len(),
    ensures
        r == unsigned_of_text(v@.subrange(from as int, to as int)),
{
    let ghost text = v@.subrange(from as int, to as int);
    let start: usize = if from < to && v[from] == '+' { from + 1 } else { from };
    let ghost digits = v@.subrange(start as int, to as int);
    proof {
        if start > from {
            assert(text[0] == '+');
            assert(text.drop_first() =~= digits);
        } else {
            if text.len() > 0 {
                assert(text[0] == v@[from as int]);
            }
            assert(text =~= digits);
        }
    }
    assert(digits == (if text.len() > 0 && text[0] == '+' {
        text.drop_first()
    } else {
        text
    }));
    if start == to {
        return None;
    }
    let mut value: u64 = 0;
    let mut i: usize = start;
    while i < to
        invariant
            start <= i <= to <= v@.len(),
            from <= start,
            text == v@.subrange(from as int, to as int),
            digits == (if text.len() > 0 && text[0] == '+' {
                text.drop_first()
            } else {
                text
            }),
            digits == v@.subrange(start as int, to as int),
            all_digits(digits.take(i - start)),
            value == decimal_value(digits.take(i - start)),
        decreases to - i,
    {
        let d: u64 = digit_of(v[i]);
        let ghost next = digits.take(i - start + 1);
        proof {
            assert(next.drop_last() =~= digits.take(i - start));
            assert(next.last() == v@[i as int]);
        }
        if d >= 10 {
            assert(!all_digits(digits)) by {
                assert(digit_value(digits[i - start]) >= 10);
            }
            return None;
        }
        proof {
            assert(all_digits(next)) by {
                assert forall|k: int| 0 <= k < next.len() implies digit_value(#[trigger] next[k])
                    < 10 by {
                    if k < i - start {
                        assert(digits.take(i - start)[k] == next[k]);
                    }
                }
            }
        }
        if value > (u64::MAX - d) / 10 {
            proof {
                assert(decimal_value(next) > u64::MAX);
                if all_digits(digits) {
                    lemma_decimal_value_grows(digits, i - start + 1);
                }
            }
            return None;
        }
        value = value * 10 + d;
        i = i + 1;
    }
    assert(digits.take(to - start) =~= digits);
    Some(value)
}

/// Reads an unsigned 64-bit number from a text.
pub fn parse_u64(text: &str) -> (r: Option<u64>)
    ensures
        r == unsigned_of_text(text@),
{
    let chars = to_chars(text);
    assert(chars@.subrange(0, chars@.len() as int) =~= chars@);
    parse_unsigned(&chars, 0, chars.len())
}

/// The text without the leading characters equal to `c`.
pub open spec fn strip_leading(s: Seq<char>, c: char) -> Seq<char>
    decreases s.len(),
{
    if s.len() > 0 && s[0] == c {
        strip_leading(s.drop_first(), c)
    } else {
        s
    }
}

/// Stripping, seen from a range of a longer text.
proof fn lemma_strip_leading_range(v: Seq<char>, c: char, at: int)
    requires
        0 <= at <= v.len(),
        forall|k: int| 0 <= k < at ==> v[k] == c,
        at < v.len() ==> v[at] != c,
    ensures
        strip_leading(v, c) == v.subrange(at, v.len() as int),
    decreases at,
{
    if at > 0 {
        let rest = v.drop_first();
        assert forall|k: int| 0 <= k < at - 1 implies rest[k] == c by {
            assert(rest[k] == v[k + 1]);
        }
        if at - 1 < rest.len() {
            assert(rest[at - 1] == v[at]);
        }
        lemma_strip_leading_range(rest, c, at - 1);
        assert(rest.subrange(at - 1, rest.len() as int) =~= v.subrange(at, v.len() as int));
    } else {
        assert(v.subrange(0, v.len() as int) =~= v);
    }
}

/// The number of leading characters of `v` equal to `c`.
pub fn count_leading(v: &Vec<char>, c: char) -> (at: usize)
    ensures
        at <= v@.len(),
        strip_leading(v@, c) == v@.subrange(at as int, v@.len() as int),
{
    let mut at: usize = 0;
    while at < v.len() && v[at] == c
        invariant
            at <= v@.len(),
            forall|k: int| 0 <= k < at ==> v@[k] == c,
        decreases v@.len() - at,
    {
        at = at + 1;
    }
    proof {
        lemma_strip_leading_range(v@, c, at as int);
    }
    at
}

/// The character for a single hexadecimal digit, in lower case.
pub open spec fn hex_digit_char(d: int) -> char {
    if d < 10 {
        digit_char(d)
    } else if d == 10 {
        'a'
    } else if d == 11 {
        'b'
    } else if d == 12 {
        'c'
    } else if d == 13 {
        'd'
    } else if d == 14 {
        'e'
    } else {
        'f'
    }
}

/// The bytes in hexadecimal, two lower-case digits for each byte.
pub open spec fn hex_text(bytes: Seq<u8>) -> Seq<char>
    decreases bytes.len(),
{
    if bytes.len() == 0 {
        Seq::<char>::empty()
    } else {
        hex_text(bytes.drop_last()).push(hex_digit_char(bytes.last() as int / 16)).push(
            hex_digit_char(bytes.last() as int % 16),
        )
    }
}

fn hex_digit_to_char(d: u8) -> (c: char)
    requires
        d < 16,
    ensures
        c == hex_digit_char(d as int),
{
    if d < 10 {
        digit_to_char(d as u64)
    } else if d == 10 {
        'a'
    } else if d == 11 {
        'b'
    } else if d == 12 {
        'c'
    } else if d == 13 {
        'd'
    } else if d == 14 {
        'e'
    } else {
        'f'
    }
}

/// The bytes in hexadecimal, two lower-case digits for each byte.
pub fn to_hex(bytes: &Vec<u8>) -> (r: String)
    ensures
        r@ == hex_text(bytes@),
{
    let mut out = String::new();
    let mut i: usize = 0;
    while i < bytes.len()
        invariant
            i <= bytes@.len(),
            out@ == hex_text(bytes@.take(i as int)),
        decreases bytes@.len() - i,
    {
        let b: u8 = bytes[i];
        proof {
            assert(bytes@.take(i as int + 1).drop_last() =~= bytes@.take(i as int));
        }
        out.push(hex_digit_to_char(b / 16));
        out.push(hex_digit_to_char(b % 16));
        i = i + 1;
    }
    assert(bytes@.take(i as int) =~= bytes@);
    out
}

} // verus!
