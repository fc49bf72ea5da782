//! Hexadecimal digits.

use vstd::prelude::*;

verus! {

/// The value of the hexadecimal digit `b`, in either case.
pub open spec fn hex_digit(b: u8) -> Option<u8> {
    if 0x30 <= b <= 0x39 {
        Some((b - 0x30) as u8)
    } else if 0x61 <= b <= 0x66 {
        Some((b - 0x61 + 10) as u8)
    } else if 0x41 <= b <= 0x46 {
        Some((b - 0x41 + 10) as u8)
    } else {
        None
    }
}

/// The value of a hexadecimal digit, or `None` for any other byte.
pub fn hex_val(b: u8) -> (v: Option<u8>)
    ensures
        v == hex_digit(b),
{
    if 0x30 <= b && b <= 0x39 {
        Some(b - 0x30)
    } else if 0x61 <= b && b <= 0x66 {
        Some(b - 0x61 + 10)
    } else if 0x41 <= b && b <= 0x46 {
        Some(b - 0x41 + 10)
    } else {
        None
    }
}

/// The lower-case digit that stands for `n`, for `n` below sixteen.
pub open spec fn lower_digit(n: u8) -> u8 {
    if n < 10 {
        (0x30 + n) as u8
    } else {
        (0x61 + n - 10) as u8
    }
}

/// The upper-case digit that stands for `n`, for `n` below sixteen.
pub open spec fn upper_digit(n: u8) -> u8 {
    if n < 10 {
        (0x30 + n) as u8
    } else {
        (0x41 + n - 10) as u8
    }
}

/// Write `n` as a lower-case digit.
pub fn to_lower_digit(n: u8) -> (d: u8)
    requires
        n < 16,
    ensures
        d == lower_digit(n),
        d < 0x80,
        hex_digit(d) == Some(n),
{
    if n < 10 {
        0x30 + n
    } else {
        0x61 + (n - 10)
    }
}

/// Write `n` as an upper-case digit.
pub fn to_upper_digit(n: u8) -> (d: u8)
    requires
        n < 16,
    ensures
        d == upper_digit(n),
        d < 0x80,
        hex_digit(d) == Some(n),
{
    if n < 10 {
        0x30 + n
    } else {
        0x41 + (n - 10)
    }
}

/// Digits read back in either case, and nothing else is a digit.
pub proof fn digits_read_back(n: u8, b: u8)
    requires
        n < 16,
    ensures
        hex_digit(lower_digit(n)) == Some(n),
        hex_digit(upper_digit(n)) == Some(n),
        hex_digit(b) == Some(n) <==> b == lower_digit(n) || b == upper_digit(n),
        n < 10 ==> lower_digit(n) == 0x30 + n && upper_digit(n) == 0x30 + n,
        n >= 10 ==> lower_digit(n) == 0x57 + n && upper_digit(n) == 0x37 + n,
        hex_digit(b) matches Some(v) ==> v < 16,
{
}

} // verus!
