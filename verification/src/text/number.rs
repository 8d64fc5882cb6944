//! Decimal numbers.
use crate::text::chars;
use vstd::prelude::*;
use vstd::slice::slice_subrange;

verus! {

/// The character of a digit below ten.
pub open spec fn digit(d: nat) -> char {
    (48 + d) as u8 as char
}

/// The decimal notation of `n`, without leading zeros.
pub open spec fn dec(n: nat) -> Seq<char>
    decreases n,
{
    if n < 10 {
        seq![digit(n)]
    } else {
        dec(n / 10).push(digit(n % 10))
    }
}

/// The decimal notation of an integer.
pub open spec fn dec_int(n: int) -> Seq<char> {
    if n < 0 {
        "-"@ + dec((-n) as nat)
    } else {
        dec(n as nat)
    }
}

fn decimal_chars(n: u64) -> (r: Vec<char>)
    ensures
        r@ == dec(n as nat),
    decreases n,
{
    let d: u8 = (n % 10) as u8;
    let c = (48 + d) as char;
    let mut out: Vec<char> = if n < 10 {
        Vec::new()
    } else {
        decimal_chars(n / 10)
    };
    out.push(c);
    assert(out@ == dec(n as nat));
    out
}

/// Writes `n` in decimal.
pub fn decimal(n: usize) -> (r: String)
    ensures
        r@ == dec(n as nat),
{
    chars::string_of(decimal_chars(n as u64).as_slice())
}

/// Writes `n` in decimal.
pub fn decimal_u64(n: u64) -> (r: String)
    ensures
        r@ == dec(n as nat),
{
    chars::string_of(decimal_chars(n).as_slice())
}

/// Writes `n` in decimal, with a minus sign where it is negative.
pub fn decimal_i32(n: i32) -> (r: String)
    ensures
        r@ == dec_int(n as int),
{
    if n < 0 {
        let mut out = "-".to_string();
        let magnitude: u64 = (-(n as i64)) as u64;
        out.append(decimal_u64(magnitude).as_str());
        out
    } else {
        decimal_u64(n as u64)
    }
}

/// The value of a sequence of decimal digits.
pub open spec fn value(s: Seq<char>) -> nat
    decreases s.len(),
{
    if s.len() == 0 {
        0
    } else {
        value(s.drop_last()) * 10 + (s.last() as u32 - 48) as nat
    }
}

/// One or more decimal digits.
pub open spec fn all_digits(s: Seq<char>) -> bool {
    s.len() > 0 && forall|i: int| 0 <= i < s.len() ==> chars::is_digit(#[trigger] s[i])
}

/// The value of `s` where it is made of digits and does not exceed `max`.
pub open spec fn digits_upto(s: Seq<char>, max: nat) -> Option<nat> {
    if all_digits(s) && value(s) <= max {
        Some(value(s))
    } else {
        None
    }
}

/// `s` without one leading plus sign.
pub open spec fn unsigned_part(s: Seq<char>) -> Seq<char> {
    if s.len() > 0 && s[0] == '+' {
        s.skip(1)
    } else {
        s
    }
}

/// The natural number that `s` denotes, where it is at most `max`: digits after an optional plus
/// sign.
pub open spec fn parsed_nat(s: Seq<char>, max: nat) -> Option<nat> {
    digits_upto(unsigned_part(s), max)
}

/// The 32-bit signed integer that `s` denotes: digits after an optional sign.
pub open spec fn parsed_i32(s: Seq<char>) -> Option<int> {
    if s.len() > 0 && s[0] == '-' {
        match digits_upto(s.skip(1), 0x8000_0000) {
            Some(n) => Some(-(n as int)),
            None => None,
        }
    } else {
        match parsed_nat(s, 0x7fff_ffff) {
            Some(n) => Some(n as int),
            None => None,
        }
    }
}

/// A longer digit sequence never denotes less.
pub proof fn lemma_value_prefix(s: Seq<char>, n: int)
    requires
        0 <= n <= s.len(),
    ensures
        value(s.take(n)) <= value(s),
    decreases s.len() - n,
{
    if n < s.len() {
        lemma_value_prefix(s, n + 1);
        assert(s.take(n + 1).drop_last() == s.take(n));
    } else {
        assert(s.take(n) == s);
    }
}

/// Reads digits whose value does not exceed `max`.
pub fn read_digits(s: &[char], max: u64) -> (r: Option<u64>)
    ensures
        match r {
            Some(n) => digits_upto(s@, max as nat) == Some(n as nat),
            None => digits_upto(s@, max as nat) is None,
        },
{
    if s.len() == 0 {
        return None;
    }
    let mut acc: u64 = 0;
    let mut i: usize = 0;
    while i < s.len()
        invariant
            i <= s@.len(),
            acc == value(s@.take(i as int)),
            acc <= max,
            forall|j: int| 0 <= j < i ==> chars::is_digit(#[trigger] s@[j]),
        decreases s@.len() - i,
    {
        let c = s[i];
        if !chars::is_ascii_digit(c) {
            return None;
        }
        let d: u32 = c as u32 - 48;
        let next: u128 = (acc as u128) * 10 + d as u128;
        proof {
            assert(s@.take(i + 1).drop_last() == s@.take(i as int));
            assert(value(s@.take(i + 1)) == next);
        }
        if next > max as u128 {
            proof {
                lemma_value_prefix(s@, i + 1);
            }
            return None;
        }
        acc = next as u64;
        i += 1;
    }
    assert(s@.take(s@.len() as int) == s@);
    Some(acc)
}

/// Reads a natural number that does not exceed `max`.
pub fn read_nat(s: &[char], max: u64) -> (r: Option<u64>)
    ensures
        match r {
            Some(n) => parsed_nat(s@, max as nat) == Some(n as nat),
            None => parsed_nat(s@, max as nat) is None,
        },
{
    if s.len() > 0 && s[0] == '+' {
        assert(s@.skip(1) == s@.subrange(1, s@.len() as int));
        read_digits(slice_subrange(s, 1, s.len()), max)
    } else {
        read_digits(s, max)
    }
}

/// Reads a `usize`.
pub fn parse_usize(s: &[char]) -> (r: Option<usize>)
    ensures
        match r {
            Some(n) => parsed_nat(s@, usize::MAX as nat) == Some(n as nat),
            None => parsed_nat(s@, usize::MAX as nat) is None,
        },
{
    match read_nat(s, usize::MAX as u64) {
        Some(n) => Some(n as usize),
        None => None,
    }
}

/// Reads a `u32`.
pub fn parse_u32(s: &[char]) -> (r: Option<u32>)
    ensures
        match r {
            Some(n) => parsed_nat(s@, u32::MAX as nat) == Some(n as nat),
            None => parsed_nat(s@, u32::MAX as nat) is None,
        },
{
    match read_nat(s, u32::MAX as u64) {
        Some(n) => Some(n as u32),
        None => None,
    }
}

/// Reads an `i32`.
pub fn parse_i32(s: &[char]) -> (r: Option<i32>)
    ensures
        match r {
            Some(n) => parsed_i32(s@) == Some(n as int),
            None => parsed_i32(s@) is None,
        },
{
    if s.len() > 0 && s[0] == '-' {
        assert(s@.skip(1) == s@.subrange(1, s@.len() as int));
        match read_digits(slice_subrange(s, 1, s.len()), 0x8000_0000) {
            Some(n) => Some((-(n as i64)) as i32),
            None => None,
        }
    } else {
        match read_nat(s, 0x7fff_ffff) {
            Some(n) => Some(n as i32),
            None => None,
        }
    }
}

/// Decimal notation is made of digits.
pub proof fn lemma_dec_digits(n: nat)
    ensures
        all_digits(dec(n)),
    decreases n,
{
    if n >= 10 {
        lemma_dec_digits(n / 10);
    }
}

/// Decimal notation denotes the number it was made from.
pub proof fn lemma_dec_value(n: nat)
    ensures
        value(dec(n)) == n,
    decreases n,
{
    if n >= 10 {
        lemma_dec_value(n / 10);
        assert(dec(n).drop_last() == dec(n / 10));
    } else {
        assert(dec(n).drop_last() == Seq::<char>::empty());
        assert(value(Seq::<char>::empty()) == 0);
    }
}

/// What is written in decimal reads back as the same number, wherever it is in range.
pub proof fn law_dec_parses(n: nat, max: nat)
    requires
        n <= max,
    ensures
        parsed_nat(dec(n), max) == Some(n),
{
    lemma_dec_digits(n);
    lemma_dec_value(n);
    assert(chars::is_digit(dec(n)[0]));
}

/// A sign stands before a number or it does not; a number out of range, and anything but digits, is
/// none.
pub proof fn law_signed(n: nat, max: nat)
    ensures
        n <= max ==> parsed_nat(seq!['+'] + dec(n), max) == Some(n),
        n > max ==> parsed_nat(dec(n), max) is None,
        n <= 0x7fff_ffff ==> parsed_i32(dec(n)) == Some(n as int),
        n <= 0x8000_0000 ==> parsed_i32(seq!['-'] + dec(n)) == Some(-(n as int)),
        n > 0x7fff_ffff ==> parsed_i32(dec(n)) is None,
        n > 0x8000_0000 ==> parsed_i32(seq!['-'] + dec(n)) is None,
{
    lemma_dec_digits(n);
    lemma_dec_value(n);
    assert(chars::is_digit(dec(n)[0]));
    let plus = seq!['+'] + dec(n);
    let minus = seq!['-'] + dec(n);
    assert(plus.skip(1) == dec(n));
    assert(minus.skip(1) == dec(n));
}

/// A text with a character that is neither a digit nor a leading sign is no number, and an empty one
/// is none.
pub proof fn law_no_number(s: Seq<char>, i: int, max: nat)
    requires
        0 <= i < s.len(),
        !chars::is_digit(s[i]),
        i > 0 || (s[i] != '+' && s[i] != '-'),
    ensures
        parsed_nat(s, max) is None,
        parsed_i32(s) is None,
        parsed_nat(Seq::empty(), max) is None,
{
    if i > 0 {
        assert(s.skip(1)[i - 1] == s[i]);
    }
}

} // verus!
