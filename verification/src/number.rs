//! Decimal numbers in text.

use vstd::prelude::*;
use crate::text::characters;

verus! {

pub open spec fn is_digit(c: char) -> bool {
    0x30 <= c as u32 <= 0x39
}

pub open spec fn digit_value(c: char) -> int {
    c as u32 - 0x30
}

/// The number that the digits from `from` up to `to` write.
pub open spec fn digits_value(s: Seq<char>, from: int, to: int) -> int
    decreases to - from,
{
    if to <= from {
        0
    } else {
        digits_value(s, from, to - 1) * 10 + digit_value(s[to - 1])
    }
}

pub open spec fn all_digits(s: Seq<char>, from: int) -> bool {
    from < s.len() && forall|i: int| from <= i < s.len() ==> is_digit(#[trigger] s[i])
}

/// The number of at most `max` that the digits from `from` to the end write.
pub open spec fn magnitude(s: Seq<char>, from: int, max: int) -> Option<int> {
    if all_digits(s, from) && digits_value(s, from, s.len() as int) <= max {
        Some(digits_value(s, from, s.len() as int))
    } else {
        None
    }
}

/// An unsigned number of at most `max`: digits, with `+` allowed in front.
pub open spec fn unsigned(s: Seq<char>, max: int) -> Option<int> {
    magnitude(
        s,
        if s.len() > 0 && s[0] == '+' {
            1
        } else {
            0
        },
        max,
    )
}

/// A number of 64 bits with its sign: digits, with `+` or `-` allowed in front.
pub open spec fn signed(s: Seq<char>) -> Option<int> {
    if s.len() > 0 && s[0] == '-' {
        match magnitude(s, 1, 0x8000_0000_0000_0000) {
            Some(n) => Some(-n),
            None => None,
        }
    } else {
        unsigned(s, 0x7fff_ffff_ffff_ffff)
    }
}

proof fn digits_value_grows(s: Seq<char>, from: int, a: int, b: int)
    requires
        0 <= from <= a <= b <= s.len(),
        forall|i: int| from <= i < s.len() ==> is_digit(#[trigger] s[i]),
    ensures
        0 <= digits_value(s, from, a) <= digits_value(s, from, b),
    decreases b - from,
{
    if b > from {
        if a == b {
            digits_value_grows(s, from, a - 1, b - 1);
        } else {
            digits_value_grows(s, from, a, b - 1);
        }
        assert(is_digit(s[b - 1]));
    }
}

fn read_digits(x: &Vec<char>, from: usize, max: u64) -> (r: Option<u64>)
    requires
        from <= x@.len(),
    ensures
        r matches Some(n) ==> magnitude(x@, from as int, max as int) == Some(n as int),
        r is None ==> magnitude(x@, from as int, max as int) is None,
{
    if from >= x.len() {
        return None;
    }
    let mut i: usize = from;
    let mut v: u64 = 0;
    while i < x.len()
        invariant
            from <= i <= x.len(),
            from < x@.len(),
            v == digits_value(x@, from as int, i as int),
            v <= max,
            forall|k: int| from <= k < i ==> is_digit(#[trigger] x@[k]),
        decreases x.len() - i,
    {
        let n: u32 = x[i] as u32;
        if n < 0x30 || n > 0x39 {
            assert(!is_digit(x@[i as int]));
            return None;
        }
        let next: u128 = (v as u128) * 10 + ((n - 0x30) as u128);
        assert(next == digits_value(x@, from as int, i + 1));
        if next > max as u128 {
            proof {
                if all_digits(x@, from as int) {
                    digits_value_grows(x@, from as int, i + 1, x@.len() as int);
                }
            }
            return None;
        }
        v = next as u64;
        i += 1;
    }
    Some(v)
}

/// Reads an unsigned number of at most `max`.
pub fn read_unsigned(s: &str, max: u64) -> (r: Option<u64>)
    ensures
        r matches Some(n) ==> unsigned(s@, max as int) == Some(n as int),
        r is None ==> unsigned(s@, max as int) is None,
{
    let x = characters(s);
    if x.len() > 0 && x[0] == '+' {
        read_digits(&x, 1, max)
    } else {
        read_digits(&x, 0, max)
    }
}

pub fn read_u64(s: &str) -> (r: Option<u64>)
    ensures
        r matches Some(n) ==> unsigned(s@, u64::MAX as int) == Some(n as int),
        r is None ==> unsigned(s@, u64::MAX as int) is None,
{
    read_unsigned(s, u64::MAX)
}

pub fn read_usize(s: &str) -> (r: Option<usize>)
    ensures
        r matches Some(n) ==> unsigned(s@, usize::MAX as int) == Some(n as int),
        r is None ==> unsigned(s@, usize::MAX as int) is None,
{
    match read_unsigned(s, usize::MAX as u64) {
        Some(n) => Some(n as usize),
        None => None,
    }
}

pub fn read_i64(s: &str) -> (r: Option<i64>)
    ensures
        r matches Some(n) ==> signed(s@) == Some(n as int),
        r is None ==> signed(s@) is None,
{
    let x = characters(s);
    if x.len() > 0 && x[0] == '-' {
        match read_digits(&x, 1, 0x8000_0000_0000_0000) {
            Some(n) => Some((0 - (n as i128)) as i64),
            None => None,
        }
    } else {
        match read_unsigned(s, 0x7fff_ffff_ffff_ffff) {
            Some(n) => Some(n as i64),
            None => None,
        }
    }
}

pub open spec fn digit_char(n: int) -> char {
    ((n + 0x30) as u8) as char
}

/// A number written in decimal.
pub open spec fn decimal(n: int) -> Seq<char>
    decreases n,
{
    if n < 10 {
        seq![digit_char(n)]
    } else {
        decimal(n / 10).push(digit_char(n % 10))
    }
}

pub fn show(n: u64) -> (r: String)
    ensures
        r@ == decimal(n as int),
{
    show_wide(n as u128)
}

pub fn show_wide(n: u128) -> (r: String)
    ensures
        r@ == decimal(n as int),
    decreases n,
{
    let mut out = if n < 10 {
        String::new()
    } else {
        show_wide(n / 10)
    };
    proof {
        assert(Seq::<char>::empty().push(digit_char(n as int)) =~= seq![digit_char(n as int)]);
    }
    out.push(((n % 10) as u8 + 0x30) as char);
    out
}

pub fn show_usize(n: usize) -> (r: String)
    ensures
        r@ == decimal(n as int),
{
    show(n as u64)
}

/// An unsigned number is not negative.
pub proof fn unsigned_is_not_negative(s: Seq<char>, max: int)
    ensures
        unsigned(s, max) matches Some(n) ==> 0 <= n <= max,
{
    let from: int = if s.len() > 0 && s[0] == '+' {
        1
    } else {
        0
    };
    if all_digits(s, from) {
        digits_value_grows(s, from, from, s.len() as int);
    }
}

/// A number with a sign fits into 64 bits.
pub proof fn signed_fits(s: Seq<char>)
    ensures
        signed(s) matches Some(n) ==> i64::MIN <= n <= i64::MAX,
{
    unsigned_is_not_negative(s, 0x7fff_ffff_ffff_ffff);
    if all_digits(s, 1) {
        digits_value_grows(s, 1, 1, s.len() as int);
    }
}

/// A number is written in digits.
pub proof fn decimal_is_digits(n: int)
    requires
        0 <= n,
    ensures
        decimal(n).len() > 0,
        forall|i: int| 0 <= i < decimal(n).len() ==> is_digit(#[trigger] decimal(n)[i]),
        digits_value(decimal(n), 0, decimal(n).len() as int) == n,
    decreases n,
{
    let s = decimal(n);
    if n < 10 {
        assert(digits_value(s, 0, 0) == 0);
        assert(s[0] == digit_char(n));
    } else {
        decimal_is_digits(n / 10);
        let t = decimal(n / 10);
        assert(s.last() == digit_char(n % 10));
        digits_value_same(s, t, t.len() as int);
        assert forall|i: int| 0 <= i < s.len() implies is_digit(#[trigger] s[i]) by {
            if i < t.len() {
                assert(s[i] == t[i]);
            }
        }
    }
}

proof fn digits_value_same(s: Seq<char>, t: Seq<char>, to: int)
    requires
        0 <= to <= s.len(),
        to <= t.len(),
        forall|i: int| 0 <= i < to ==> s[i] == t[i],
    ensures
        digits_value(s, 0, to) == digits_value(t, 0, to),
    decreases to,
{
    if to > 0 {
        digits_value_same(s, t, to - 1);
    }
}

/// Reading gives back every number that was written, as long as it is in range.
pub proof fn reading_undoes_writing(n: int, max: int)
    requires
        0 <= n <= max,
    ensures
        unsigned(decimal(n), max) == Some(n),
{
    decimal_is_digits(n);
    assert(is_digit(decimal(n)[0]));
}

} // verus!
