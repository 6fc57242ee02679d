//! Signed 32-bit integers in decimal notation.
//!
//! Numbers are written with the fewest digits, and with a leading `-` when
//! negative. Reading is more liberal: a leading `+` and leading zeros are
//! taken too.

use vstd::prelude::*;
use crate::text::{to_chars, trim, trim_chars};

verus! {

/// Whether `c` is one of the ten ASCII digits.
pub open spec fn is_digit(c: char) -> bool {
    '0' <= c && c <= '9'
}

/// The number that the digit `c` stands for.
pub open spec fn digit_value(c: char) -> int {
    c as int - '0' as int
}

/// The digit that stands for `d`, where `0 <= d < 10`.
pub open spec fn digit_char(d: int) -> char {
    (d + '0' as int) as char
}

/// Whether `s` holds digits only.
pub open spec fn all_digits(s: Seq<char>) -> bool {
    forall|i: int| 0 <= i < s.len() ==> is_digit(#[trigger] s[i])
}

/// The number that a run of digits denotes, most significant digit first.
pub open spec fn digits_value(s: Seq<char>) -> nat
    decreases s.len(),
{
    if s.len() == 0 {
        0
    } else {
        (10 * digits_value(s.drop_last()) + digit_value(s.last())) as nat
    }
}

/// The digits of `n`, most significant first, without leading zeros.
pub open spec fn digits(n: nat) -> Seq<char>
    decreases n,
{
    if n < 10 {
        seq![digit_char(n as int)]
    } else {
        digits(n / 10).push(digit_char((n % 10) as int))
    }
}

/// How `n` is written.
pub open spec fn decimal(n: int) -> Seq<char> {
    if n < 0 {
        seq!['-'] + digits((-n) as nat)
    } else {
        digits(n as nat)
    }
}

/// The integer that `s` denotes: an optional sign, then at least one digit.
pub open spec fn parse_int(s: Seq<char>) -> Option<int> {
    if s.len() > 0 && (s[0] == '-' || s[0] == '+') {
        let t = s.subrange(1, s.len() as int);
        if t.len() > 0 && all_digits(t) {
            Some(if s[0] == '-' { -(digits_value(t) as int) } else { digits_value(t) as int })
        } else {
            None
        }
    } else if s.len() > 0 && all_digits(s) {
        Some(digits_value(s) as int)
    } else {
        None
    }
}

/// The 32-bit integer that `s` denotes, if it denotes an integer in range.
pub open spec fn parse_i32_spec(s: Seq<char>) -> Option<i32> {
    match parse_int(s) {
        Some(v) => if i32::MIN <= v <= i32::MAX { Some(v as i32) } else { None },
        None => None,
    }
}

/// A run of digits denotes at least what any of its prefixes denotes.
pub proof fn lemma_digits_value_grows(s: Seq<char>, k: int)
    requires
        all_digits(s),
        0 <= k <= s.len(),
    ensures
        digits_value(s.take(k)) <= digits_value(s),
    decreases s.len(),
{
    if k == s.len() {
        assert(s.take(k) == s);
    } else {
        let t = s.drop_last();
        assert(is_digit(s.last()));
        lemma_digits_value_grows(t, k);
        assert(t.take(k) == s.take(k));
    }
}

/// What `digits` writes is a non-empty run of digits that denotes the number
/// written.
pub proof fn lemma_digits(n: nat)
    ensures
        digits(n).len() > 0,
        all_digits(digits(n)),
        digits_value(digits(n)) == n,
    decreases n,
{
    if n < 10 {
        let s = digits(n);
        assert(s.drop_last() == Seq::<char>::empty());
        assert(digits_value(s.drop_last()) == 0);
    } else {
        lemma_digits(n / 10);
        let s = digits(n);
        assert(s.drop_last() == digits(n / 10));
        assert(s.last() == digit_char((n % 10) as int));
    }
}

/// Reading what was written gives the number back.
pub proof fn lemma_parse_decimal(n: int)
    ensures
        parse_int(decimal(n)) == Some(n),
{
    let s = decimal(n);
    if n < 0 {
        let m = (-n) as nat;
        lemma_digits(m);
        assert(s.subrange(1, s.len() as int) == digits(m));
    } else {
        lemma_digits(n as nat);
        assert(is_digit(s[0]));
    }
}

/// A written number holds digits, and a `-` in front when it is negative.
pub proof fn lemma_decimal_chars(n: int)
    ensures
        decimal(n).len() > 0,
        forall|i: int|
            0 <= i < decimal(n).len() ==> is_digit(#[trigger] decimal(n)[i]) || decimal(n)[i]
                == '-',
{
    if n < 0 {
        lemma_digits((-n) as nat);
    } else {
        lemma_digits(n as nat);
    }
}

/// Appends the digits of `m` to `out`.
fn push_digits(out: &mut String, m: u32)
    ensures
        final(out)@ == old(out)@ + digits(m as nat),
    decreases m,
{
    if m >= 10 {
        push_digits(out, m / 10);
    }
    let d: u8 = (m % 10) as u8;
    out.push((d + 48u8) as char);
    assert(out@ == old(out)@ + digits(m as nat));
}

/// Writes `n` in decimal notation.
pub fn format_i32(n: i32) -> (s: String)
    ensures
        s@ == decimal(n as int),
{
    let mut s = String::new();
    if n < 0 {
        s.push('-');
        let m: u32 = (-(n as i64)) as u32;
        push_digits(&mut s, m);
    } else {
        push_digits(&mut s, n as u32);
    }
    assert(s@ == decimal(n as int));
    s
}

/// Reads the 32-bit integer that the characters of `s` denote.
pub fn parse_i32_chars(s: &Vec<char>) -> (r: Option<i32>)
    ensures
        r == parse_i32_spec(s@),
{
    let n = s.len();
    if n == 0 {
        return None;
    }
    let negative = s[0] == '-';
    let start: usize = if s[0] == '-' || s[0] == '+' { 1 } else { 0 };
    if start == n {
        return None;
    }
    let ghost t = s@.subrange(start as int, n as int);
    let limit: i64 = 2147483648;
    let mut acc: i64 = 0;
    let mut i: usize = start;
    while i < n
        invariant
            start <= i <= n,
            n == s.len(),
            t == s@.subrange(start as int, n as int),
            all_digits(t.take(i - start)),
            acc == digits_value(t.take(i - start)),
            0 <= acc <= limit,
            limit == 2147483648,
            negative == (s@[0] == '-'),
            start == (if s@[0] == '-' || s@[0] == '+' { 1int } else { 0int }),
        decreases n - i,
    {
        let c = s[i];
        if !(c >= '0' && c <= '9') {
            assert(!is_digit(t[i - start]));
            assert(start == 0 ==> t == s@);
            return None;
        }
        let d: i64 = (c as u32 - '0' as u32) as i64;
        let next: i64 = acc * 10 + d;
        proof {
            let p = t.take(i - start + 1);
            assert(p.drop_last() == t.take(i - start));
            assert(p.last() == c);
            assert(digits_value(p) == next);
            assert(all_digits(p));
        }
        if next > limit {
            proof {
                assert(start == 0 ==> t == s@);
                if all_digits(t) {
                    lemma_digits_value_grows(t, i - start + 1);
                }
            }
            return None;
        }
        acc = next;
        i += 1;
    }
    assert(t.take(i - start) == t);
    assert(start == 0 ==> t == s@);
    if negative {
        Some((-acc) as i32)
    } else if acc < limit {
        Some(acc as i32)
    } else {
        None
    }
}

/// Reads the 32-bit integer that `s` denotes: an optional sign and at least
/// one digit, nothing else, with a value that fits.
pub fn parse_i32(s: &str) -> (r: Option<i32>)
    ensures
        r == parse_i32_spec(s@),
{
    let chars = to_chars(s);
    parse_i32_chars(&chars)
}

/// Reads a numeric user or group id as the system's `id` program prints
/// it: a 32-bit integer with white space around it, such as the line
/// break at its end.
pub fn parse_id(output: &str) -> (r: Option<i32>)
    ensures
        r == parse_i32_spec(trim(output@)),
{
    let chars = to_chars(output);
    let inner = trim_chars(&chars);
    parse_i32_chars(&inner)
}

} // verus!
