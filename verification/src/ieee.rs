//! Comparisons of double-precision numbers, carried as their IEEE 754 bit patterns.
use vstd::prelude::*;

verus! {

/// The sign bit: set in every pattern of a negative number, and in negative zero.
pub const SIGN: u64 = 0x8000_0000_0000_0000;

/// The pattern of positive infinity. A finite number has a smaller magnitude than this, and
/// what has a larger one is not a number.
pub const INFINITY: u64 = 0x7ff0_0000_0000_0000;

/// The pattern of positive zero.
pub const ZERO: u64 = 0;

/// The pattern without its sign bit. Magnitudes are ordered as the absolute values are.
pub open spec fn magnitude(bits: u64) -> int {
    if bits < SIGN {
        bits as int
    } else {
        bits - SIGN
    }
}

pub open spec fn is_nan(bits: u64) -> bool {
    magnitude(bits) > INFINITY
}

pub open spec fn is_finite(bits: u64) -> bool {
    magnitude(bits) < INFINITY
}

/// An integer that is ordered as the numbers are. Both zeros map to 0.
pub open spec fn rank(bits: u64) -> int {
    if bits < SIGN {
        magnitude(bits)
    } else {
        -magnitude(bits)
    }
}

/// `a == b` on the numbers.
pub open spec fn num_eq(a: u64, b: u64) -> bool {
    !is_nan(a) && !is_nan(b) && rank(a) == rank(b)
}

/// `a < b` on the numbers.
pub open spec fn num_lt(a: u64, b: u64) -> bool {
    !is_nan(a) && !is_nan(b) && rank(a) < rank(b)
}

/// `a <= b` on the numbers.
pub open spec fn num_le(a: u64, b: u64) -> bool {
    !is_nan(a) && !is_nan(b) && rank(a) <= rank(b)
}

fn exec_rank(bits: u64) -> (r: Option<i64>)
    ensures
        r is None <==> is_nan(bits),
        r matches Some(k) ==> k == rank(bits),
{
    if bits < SIGN {
        if bits > INFINITY {
            None
        } else {
            Some(bits as i64)
        }
    } else {
        let m: u64 = bits - SIGN;
        if m > INFINITY {
            None
        } else {
            Some(-(m as i64))
        }
    }
}

/// Whether two numbers are equal: the zeros are equal to each other, and what is not a number
/// is equal to nothing.
pub fn float_eq(a: u64, b: u64) -> (r: bool)
    ensures
        r == num_eq(a, b),
{
    match (exec_rank(a), exec_rank(b)) {
        (Some(x), Some(y)) => x == y,
        _ => false,
    }
}

/// Whether the first number is less than the second.
pub fn float_lt(a: u64, b: u64) -> (r: bool)
    ensures
        r == num_lt(a, b),
{
    match (exec_rank(a), exec_rank(b)) {
        (Some(x), Some(y)) => x < y,
        _ => false,
    }
}

/// Whether the first number is less than the second or equal to it.
pub fn float_le(a: u64, b: u64) -> (r: bool)
    ensures
        r == num_le(a, b),
{
    match (exec_rank(a), exec_rank(b)) {
        (Some(x), Some(y)) => x <= y,
        _ => false,
    }
}

/// Numbers compare by their bit patterns: those of the numbers from 0 up grow with the numbers,
/// those of the negative ones grow as the numbers fall, and the two zeros are the same number. A
/// pattern beyond an infinity is not a number and compares with nothing.
pub proof fn patterns_are_ordered_as_numbers(a: u64, b: u64)
    ensures
        ZERO == 0,
        INFINITY == 0x7ff0_0000_0000_0000,
        is_nan(a) <==> 0x7ff0_0000_0000_0000 < a < 0x8000_0000_0000_0000 || a
            > 0xfff0_0000_0000_0000,
        is_finite(a) <==> a < 0x7ff0_0000_0000_0000 || 0x8000_0000_0000_0000 <= a
            < 0xfff0_0000_0000_0000,
        is_nan(a) || is_nan(b) ==> !num_lt(a, b) && !num_le(a, b) && !num_eq(a, b),
        a <= 0x7ff0_0000_0000_0000 && b <= 0x7ff0_0000_0000_0000 ==> {
            &&& num_lt(a, b) <==> a < b
            &&& num_le(a, b) <==> a <= b
            &&& num_eq(a, b) <==> a == b
        },
        0x8000_0000_0000_0000 <= a <= 0xfff0_0000_0000_0000 && 0x8000_0000_0000_0000 <= b
            <= 0xfff0_0000_0000_0000 ==> {
            &&& num_lt(a, b) <==> a > b
            &&& num_le(a, b) <==> a >= b
            &&& num_eq(a, b) <==> a == b
        },
        0x8000_0000_0000_0000 <= a <= 0xfff0_0000_0000_0000 && b <= 0x7ff0_0000_0000_0000 ==> {
            let zeros = a == 0x8000_0000_0000_0000 && b == 0;
            &&& num_le(a, b)
            &&& num_lt(a, b) <==> !zeros
            &&& num_eq(a, b) <==> zeros
            &&& num_le(b, a) <==> zeros
            &&& num_eq(b, a) <==> zeros
            &&& !num_lt(b, a)
        },
{
}

} // verus!
