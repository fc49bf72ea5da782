//! Decimal numbers as text: writing a number, and reading one back the way
//! `str::parse` does.

use vstd::prelude::*;

verus! {

/// The digit character for `d`, below ten.
pub open spec fn digit_char(d: int) -> char {
    ((0x30 + d) as u8) as char
}

/// `n` in decimal, without leading zeros.
pub open spec fn decimal(n: nat) -> Seq<char>
    decreases n,
{
    if n < 10 {
        seq![digit_char(n as int)]
    } else {
        decimal(n / 10).push(digit_char((n % 10) as int))
    }
}

/// Whether `c` is a decimal digit.
pub open spec fn is_digit(c: char) -> bool {
    '0' <= c <= '9'
}

/// Whether `s` is made of decimal digits alone.
pub open spec fn all_digits(s: Seq<char>) -> bool {
    forall|i: int| 0 <= i < s.len() ==> is_digit(#[trigger] s[i])
}

/// The number that the digits `s` spell.
pub open spec fn digits_value(s: Seq<char>) -> nat
    decreases s.len(),
{
    if s.len() == 0 {
        0
    } else {
        digits_value(s.drop_last()) * 10 + (s.last() as u32 - 0x30) as nat
    }
}

/// `s` as a number: one or more digits with a value of at most `max`.
pub open spec fn digits_up_to(s: Seq<char>, max: nat) -> Option<nat> {
    if s.len() > 0 && all_digits(s) && digits_value(s) <= max {
        Some(digits_value(s))
    } else {
        None
    }
}

/// `s` read as an unsigned integer: an optional `+`, then digits.
pub open spec fn unsigned_of(s: Seq<char>, max: nat) -> Option<nat> {
    if s.len() > 0 && s[0] == '+' {
        digits_up_to(s.skip(1), max)
    } else {
        digits_up_to(s, max)
    }
}

/// `s` read as an `i32`: an optional sign, then digits.
pub open spec fn i32_of(s: Seq<char>) -> Option<i32> {
    if s.len() > 0 && s[0] == '-' {
        match digits_up_to(s.skip(1), 0x8000_0000) {
            Some(n) => Some((-n) as i32),
            None => None,
        }
    } else {
        match unsigned_of(s, 0x7fff_ffff) {
            Some(n) => Some(n as i32),
            None => None,
        }
    }
}

/// Write `n` in decimal.
pub fn to_decimal(n: u64) -> (v: Vec<char>)
    ensures
        v@ == decimal(n as nat),
    decreases n,
{
    if n < 10 {
        let c = (0x30 + n as u8) as char;
        let mut v: Vec<char> = Vec::new();
        v.push(c);
        proof {
            assert(v@ =~= seq![digit_char(n as int)]);
        }
        v
    } else {
        let mut v = to_decimal(n / 10);
        v.push((0x30 + (n % 10) as u8) as char);
        v
    }
}

/// Read the digits from `from` on, as [`digits_up_to`] says.
pub fn parse_digits(s: &[char], from: usize, max: u64) -> (r: Option<u64>)
    requires
        from <= s.len(),
    ensures
        match digits_up_to(s@.skip(from as int), max as nat) {
            Some(n) => r == Some(n as u64),
            None => r.is_none(),
        },
{
    let ghost t = s@.skip(from as int);
    if from == s.len() {
        return None;
    }
    let mut acc: u64 = 0;
    let mut over: bool = false;
    let mut i: usize = from;
    while i < s.len()
        invariant
            from <= i <= s.len(),
            t == s@.skip(from as int),
            all_digits(t.take(i - from)),
            !over ==> acc == digits_value(t.take(i - from)) && acc <= max,
            over ==> digits_value(t.take(i - from)) > max,
        decreases s.len() - i,
    {
        let c = s[i];
        if !('0' <= c && c <= '9') {
            proof {
                assert(!is_digit(t[i - from]));
            }
            return None;
        }
        proof {
            assert(t[i - from] == c);
            assert(t.take(i + 1 - from).drop_last() =~= t.take(i - from));
        }
        let d: u64 = c as u64 - 0x30;
        if !over {
            let wide: u128 = acc as u128 * 10 + d as u128;
            if wide > max as u128 {
                over = true;
            } else {
                acc = wide as u64;
            }
        }
        i = i + 1;
    }
    proof {
        assert(t.take(t.len() as int) =~= t);
    }
    if over {
        None
    } else {
        Some(acc)
    }
}

/// Read an unsigned integer of at most `max`, as [`unsigned_of`] says.
pub fn parse_unsigned(s: &[char], max: u64) -> (r: Option<u64>)
    ensures
        match unsigned_of(s@, max as nat) {
            Some(n) => r == Some(n as u64),
            None => r.is_none(),
        },
{
    if s.len() > 0 && s[0] == '+' {
        parse_digits(s, 1, max)
    } else {
        proof {
            assert(s@.skip(0) =~= s@);
        }
        parse_digits(s, 0, max)
    }
}

/// Read an `i32`, as [`i32_of`] says.
pub fn parse_i32(s: &[char]) -> (r: Option<i32>)
    ensures
        r == i32_of(s@),
{
    if s.len() > 0 && s[0] == '-' {
        match parse_digits(s, 1, 0x8000_0000) {
            Some(n) => Some((0 - n as i64) as i32),
            None => None,
        }
    } else {
        match parse_unsigned(s, 0x7fff_ffff) {
            Some(n) => Some(n as i32),
            None => None,
        }
    }
}

/// Reading back a number that was written gives that number, wherever it is
/// within the limit.
pub proof fn decimal_reads_back(n: nat, max: nat)
    requires
        n <= max,
    ensures
        unsigned_of(decimal(n), max) == Some(n),
        all_digits(decimal(n)),
        decimal(n).len() >= 1,
{
    decimal_digits(n);
}

proof fn decimal_digits(n: nat)
    ensures
        all_digits(decimal(n)),
        decimal(n).len() >= 1,
        digits_value(decimal(n)) == n,
        is_digit(decimal(n)[0]),
    decreases n,
{
    if n >= 10 {
        decimal_digits(n / 10);
        assert(decimal(n).drop_last() =~= decimal(n / 10));
        assert(decimal(n)[0] == decimal(n / 10)[0]);
    } else {
        let s = decimal(n);
        assert(s.drop_last() =~= Seq::<char>::empty());
        assert(digits_value(s.drop_last()) == 0);
    }
}

/// A number is written without leading zeros.
pub proof fn no_leading_zeros(n: nat)
    ensures
        decimal(n)[0] == '0' <==> n == 0,
        n == 0 ==> decimal(n).len() == 1,
        decimal(n).len() >= 1,
    decreases n,
{
    if n >= 10 {
        no_leading_zeros(n / 10);
        assert(decimal(n)[0] == decimal(n / 10)[0]);
    }
}

/// Signed numbers read back, as far as 32 bits hold them, and are refused beyond.
pub proof fn signed_numbers_read_back(n: nat)
    ensures
        n <= 0x7fff_ffff ==> i32_of(decimal(n)) == Some(n as i32),
        n > 0x7fff_ffff ==> i32_of(decimal(n)).is_none(),
        n <= 0x7fff_ffff ==> i32_of(seq!['+'] + decimal(n)) == Some(n as i32),
        n <= 0x8000_0000 ==> i32_of(seq!['-'] + decimal(n)) == Some((-n) as i32),
        n > 0x8000_0000 ==> i32_of(seq!['-'] + decimal(n)).is_none(),
{
    decimal_digits(n);
    assert((seq!['-'] + decimal(n)).skip(1) =~= decimal(n));
    assert((seq!['+'] + decimal(n)).skip(1) =~= decimal(n));
}

/// Nothing but digits is read as a number, and none is read from an empty text.
pub proof fn only_digits_are_numbers(s: Seq<char>, max: nat, i: int)
    requires
        0 <= i < s.len() ==> !is_digit(s[i]),
        s.len() > 0 ==> 0 <= i < s.len(),
    ensures
        digits_up_to(s, max).is_none(),
{
}

} // verus!
