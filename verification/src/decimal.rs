//! Integers as decimal text, in both directions.

use vstd::prelude::*;
use crate::text::{chars_of, push_char};

verus! {

/// Whether `c` is one of the ten decimal digits.
pub open spec fn is_digit(c: char) -> bool {
    '0' <= c <= '9'
}

/// The value of a decimal digit.
pub open spec fn digit_value(c: char) -> int {
    c as int - '0' as int
}

/// The decimal digit whose value is `d`.
pub open spec fn digit_char(d: int) -> char {
    ('0' as int + d) as char
}

/// Whether `s` holds digits only.
pub open spec fn all_digits(s: Seq<char>) -> bool {
    forall|i: int| 0 <= i < s.len() ==> is_digit(#[trigger] s[i])
}

/// The number that a run of digits denotes, most significant digit first.
pub open spec fn digits_value(s: Seq<char>) -> int
    decreases s.len(),
{
    if s.len() == 0 {
        0
    } else {
        10 * digits_value(s.drop_last()) + digit_value(s.last())
    }
}

/// The integer that a text denotes: an optional sign, `+` or `-`, followed
/// by one or more digits. Any other text denotes none.
pub open spec fn integer_of_text(s: Seq<char>) -> Option<int> {
    if s.len() > 0 && (s[0] == '-' || s[0] == '+') {
        let digits = s.drop_first();
        if digits.len() > 0 && all_digits(digits) {
            Some(
                if s[0] == '-' {
                    -digits_value(digits)
                } else {
                    digits_value(digits)
                },
            )
        } else {
            None
        }
    } else if s.len() > 0 && all_digits(s) {
        Some(digits_value(s))
    } else {
        None
    }
}

/// The digits of a natural number, without leading zeros.
pub open spec fn decimal_digits(n: nat) -> Seq<char>
    decreases n,
{
    if n < 10 {
        seq![digit_char(n as int)]
    } else {
        decimal_digits(n / 10).push(digit_char((n % 10) as int))
    }
}

/// The decimal text of an integer: a `-` for a negative one, then its digits.
pub open spec fn decimal(i: int) -> Seq<char> {
    if i < 0 {
        seq!['-'] + decimal_digits((-i) as nat)
    } else {
        decimal_digits(i as nat)
    }
}

/// The digits of a number are digits, and denote that number.
pub proof fn lemma_decimal_digits_value(n: nat)
    ensures
        decimal_digits(n).len() > 0,
        all_digits(decimal_digits(n)),
        digits_value(decimal_digits(n)) == n,
    decreases n,
{
    if n < 10 {
        let s = decimal_digits(n);
        assert(s.drop_last() == Seq::<char>::empty());
        assert(digits_value(s) == 10 * digits_value(s.drop_last()) + digit_value(s.last()));
    } else {
        lemma_decimal_digits_value(n / 10);
        let head = decimal_digits(n / 10);
        let s = decimal_digits(n);
        assert(s.drop_last() == head);
        assert(digits_value(s) == 10 * digits_value(s.drop_last()) + digit_value(s.last()));
    }
}

/// Reading the decimal text of an integer gives the integer back.
pub proof fn lemma_decimal_round_trip(i: int)
    ensures
        integer_of_text(decimal(i)) == Some(i),
        i64::MIN <= i <= i64::MAX ==> i64_of_text(decimal(i)) == Some(i as i64),
{
    if i < 0 {
        let digits = decimal_digits((-i) as nat);
        lemma_decimal_digits_value((-i) as nat);
        assert(decimal(i).drop_first() == digits);
    } else {
        lemma_decimal_digits_value(i as nat);
    }
}

/// A run of digits denotes at least what any of its prefixes denotes.
proof fn lemma_digits_value_grows(s: Seq<char>, k: int)
    requires
        all_digits(s),
        0 <= k <= s.len(),
    ensures
        0 <= digits_value(s.take(k)) <= digits_value(s),
    decreases s.len(),
{
    if k == s.len() {
        assert(s.take(k) == s);
        if s.len() > 0 {
            lemma_digits_value_grows(s.drop_last(), k - 1);
            assert(s.drop_last().take(k - 1) == s.drop_last());
        }
    } else {
        lemma_digits_value_grows(s.drop_last(), k);
        assert(s.drop_last().take(k) == s.take(k));
    }
}

fn digit_of(c: char) -> (d: Option<u64>)
    ensures
        d is Some <==> is_digit(c),
        d matches Some(v) ==> v == digit_value(c),
{
    match c {
        '0' => Some(0),
        '1' => Some(1),
        '2' => Some(2),
        '3' => Some(3),
        '4' => Some(4),
        '5' => Some(5),
        '6' => Some(6),
        '7' => Some(7),
        '8' => Some(8),
        '9' => Some(9),
        _ => None,
    }
}

fn char_of_digit(d: u64) -> (c: char)
    requires
        d < 10,
    ensures
        c == digit_char(d as int),
{
    match d {
        0 => '0',
        1 => '1',
        2 => '2',
        3 => '3',
        4 => '4',
        5 => '5',
        6 => '6',
        7 => '7',
        8 => '8',
        _ => '9',
    }
}

/// The `i64` that a text denotes: the integer that it denotes, when that fits.
pub open spec fn i64_of_text(s: Seq<char>) -> Option<i64> {
    match integer_of_text(s) {
        Some(v) => if i64::MIN <= v <= i64::MAX {
            Some(v as i64)
        } else {
            None
        },
        None => None,
    }
}

/// Reads a decimal integer. The result is the integer that the text
/// denotes, when it denotes one that fits in an `i64`.
#[verifier::loop_isolation(false)]
pub fn parse_i64(text: &str) -> (r: Option<i64>)
    ensures
        r == i64_of_text(text@),
{
    let chars = chars_of(text);
    let n = chars.len();
    if n == 0 {
        return None;
    }
    let negative = chars[0] == '-';
    let start: usize = if chars[0] == '-' || chars[0] == '+' {
        1
    } else {
        0
    };
    if start == n {
        return None;
    }
    let ghost digits = chars@.subrange(start as int, n as int);
    assert(digits == if start == 1 {
        chars@.drop_first()
    } else {
        chars@
    });
    // The largest magnitude that fits: one more on the negative side.
    let limit: u64 = if negative {
        0x8000_0000_0000_0000
    } else {
        0x7fff_ffff_ffff_ffff
    };
    let mut magnitude: u64 = 0;
    let mut i: usize = start;
    assert(digits.take(0) == Seq::<char>::empty());
    while i < n
        invariant
            start <= i <= n == chars@.len(),
            digits == chars@.subrange(start as int, n as int),
            all_digits(digits.take(i - start)),
            magnitude == digits_value(digits.take(i - start)),
            magnitude <= limit,
        decreases n - i,
    {
        let ghost seen = digits.take(i - start);
        let ghost next = digits.take(i - start + 1);
        assert(next.drop_last() == seen);
        assert(next.last() == chars@[i as int]);
        match digit_of(chars[i]) {
            None => {
                assert(!is_digit(digits[i - start]));
                return None;
            },
            Some(d) => {
                assert forall|j: int| 0 <= j < next.len() implies is_digit(#[trigger] next[j]) by {
                    if j < seen.len() {
                        assert(next[j] == seen[j]);
                    }
                }
                if magnitude > (limit - d) / 10 {
                    proof {
                        if all_digits(digits) {
                            lemma_digits_value_grows(digits, i - start + 1);
                        }
                    }
                    return None;
                }
                magnitude = magnitude * 10 + d;
            },
        }
        i = i + 1;
    }
    assert(digits.take(n - start) == digits);
    if negative {
        if magnitude == 0x8000_0000_0000_0000 {
            Some(i64::MIN)
        } else {
            Some(-(magnitude as i64))
        }
    } else {
        Some(magnitude as i64)
    }
}

/// Appends the decimal text of `i` to `out`.
pub fn push_decimal(out: &mut String, i: i64)
    ensures
        final(out)@ == old(out)@ + decimal(i as int),
{
    let start: u64 = if i < 0 {
        (-(i + 1)) as u64 + 1
    } else {
        i as u64
    };
    let mut magnitude = start;
    let mut low_first: Vec<char> = Vec::new();
    while magnitude >= 10
        invariant
            decimal_digits(start as nat) == decimal_digits(magnitude as nat) + low_first@.reverse(),
        decreases magnitude,
    {
        let ghost before = low_first@;
        low_first.push(char_of_digit(magnitude % 10));
        assert(low_first@.reverse() == seq![digit_char((magnitude % 10) as int)]
            + before.reverse());
        assert(decimal_digits(magnitude as nat) == decimal_digits((magnitude / 10) as nat).push(
            digit_char((magnitude % 10) as int),
        ));
        magnitude = magnitude / 10;
    }
    let ghost before = low_first@;
    low_first.push(char_of_digit(magnitude));
    assert(low_first@.reverse() == seq![digit_char(magnitude as int)] + before.reverse());
    assert(decimal_digits(start as nat) == low_first@.reverse());
    if i < 0 {
        push_char(out, '-');
    }
    let ghost prefix = out@;
    let mut k: usize = low_first.len();
    while k > 0
        invariant
            k <= low_first@.len(),
            out@ == prefix + low_first@.reverse().take(low_first@.len() - k),
        decreases k,
    {
        k = k - 1;
        push_char(out, low_first[k]);
        assert(low_first@.reverse().take(low_first@.len() - k) == low_first@.reverse().take(
            low_first@.len() - k - 1,
        ).push(low_first@[k as int]));
    }
    assert(low_first@.reverse().take(low_first@.len() as int) == low_first@.reverse());
}

/// The decimal text of `i`.
pub fn i64_to_string(i: i64) -> (s: String)
    ensures
        s@ == decimal(i as int),
{
    let mut s = String::new();
    push_decimal(&mut s, i);
    s
}

/// The position of the first character of `s`, at or after `from`, that is no digit.
pub open spec fn digits_end(s: Seq<char>, from: int) -> int
    decreases s.len() - from,
{
    if 0 <= from < s.len() && is_digit(s[from]) {
        digits_end(s, from + 1)
    } else {
        from
    }
}

/// The position after the sign that `s` may hold at `from`.
pub open spec fn sign_end(s: Seq<char>, from: int) -> int {
    if 0 <= from < s.len() && (s[from] == '-' || s[from] == '+') {
        from + 1
    } else {
        from
    }
}

/// Whether `s` holds an exponent from `from` to its end: `e` or `E`, an
/// optional sign, and one or more digits.
pub open spec fn is_exponent(s: Seq<char>, from: int) -> bool {
    &&& 0 <= from < s.len()
    &&& s[from] == 'e' || s[from] == 'E'
    &&& sign_end(s, from + 1) < s.len()
    &&& digits_end(s, sign_end(s, from + 1)) == s.len()
}

/// Whether a text has the shape of a decimal number with a fraction or an
/// exponent allowed: an optional sign; digits, which a point and more
/// digits may follow, with at least one digit before or after the point;
/// and at the end an optional exponent.
pub open spec fn is_float_text(s: Seq<char>) -> bool {
    let start = sign_end(s, 0);
    let point = digits_end(s, start);
    let pointed = point < s.len() && s[point] == '.';
    let end = if pointed {
        digits_end(s, point + 1)
    } else {
        point
    };
    let digits = if pointed {
        (point - start) + (end - point - 1)
    } else {
        point - start
    };
    &&& digits >= 1
    &&& end == s.len() || is_exponent(s, end)
}

/// The position of the first character at or after `from` that is no digit.
fn skip_digits(chars: &Vec<char>, from: usize) -> (to: usize)
    requires
        from <= chars@.len(),
    ensures
        to == digits_end(chars@, from as int),
        from <= to <= chars@.len(),
{
    let n = chars.len();
    let mut to: usize = from;
    while to < n && digit_of(chars[to]).is_some()
        invariant
            from <= to <= n == chars@.len(),
            digits_end(chars@, from as int) == digits_end(chars@, to as int),
        decreases n - to,
    {
        to = to + 1;
    }
    to
}

/// Whether `text` has the shape of a decimal number with a fraction or an
/// exponent allowed.
pub fn has_float_shape(text: &str) -> (ok: bool)
    ensures
        ok == is_float_text(text@),
{
    let chars = chars_of(text);
    let n = chars.len();
    let start: usize = if n > 0 && (chars[0] == '-' || chars[0] == '+') {
        1
    } else {
        0
    };
    let point = skip_digits(&chars, start);
    let pointed = point < n && chars[point] == '.';
    let end: usize = if pointed {
        skip_digits(&chars, point + 1)
    } else {
        point
    };
    let digits: usize = if pointed {
        (point - start) + (end - point - 1)
    } else {
        point - start
    };
    if digits < 1 {
        return false;
    }
    if end == n {
        return true;
    }
    if chars[end] != 'e' && chars[end] != 'E' {
        return false;
    }
    let power: usize = if end + 1 < n && (chars[end + 1] == '-' || chars[end + 1] == '+') {
        end + 2
    } else {
        end + 1
    };
    power < n && skip_digits(&chars, power) == n
}

} // verus!
