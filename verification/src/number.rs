use vstd::prelude::*;

verus! {

/// The sign bit of a binary64 pattern.
pub const SIGN_BIT: u64 = 0x8000_0000_0000_0000;

/// The pattern of positive infinity. A larger magnitude is not a number.
pub const INFINITY_BITS: u64 = 0x7ff0_0000_0000_0000;

/// The pattern without its sign bit.
pub open spec fn magnitude(bits: u64) -> u64 {
    if bits >= SIGN_BIT {
        (bits - SIGN_BIT) as u64
    } else {
        bits
    }
}

/// The sign bit is set.
pub open spec fn is_negative(bits: u64) -> bool {
    bits >= SIGN_BIT
}

/// The pattern is not a number.
pub open spec fn is_nan(bits: u64) -> bool {
    magnitude(bits) > INFINITY_BITS
}

/// The place of a number among the numbers. Patterns of one sign are
/// ordered as their magnitudes are, and the two zeros share a place.
pub open spec fn place(bits: u64) -> int {
    if is_negative(bits) {
        -(magnitude(bits) as int)
    } else {
        magnitude(bits) as int
    }
}

/// `a == b` as IEEE 754 has it: what is not a number equals nothing, itself
/// included, and the two zeros are equal.
pub open spec fn number_eq(a: u64, b: u64) -> bool {
    !is_nan(a) && !is_nan(b) && place(a) == place(b)
}

/// `a < b` as IEEE 754 has it: false where either is not a number.
pub open spec fn number_lt(a: u64, b: u64) -> bool {
    !is_nan(a) && !is_nan(b) && place(a) < place(b)
}

/// `a <= b` as IEEE 754 has it: false where either is not a number.
pub open spec fn number_le(a: u64, b: u64) -> bool {
    !is_nan(a) && !is_nan(b) && place(a) <= place(b)
}

/// `-a`: the pattern with the other sign.
pub open spec fn negated(bits: u64) -> u64 {
    if bits >= SIGN_BIT {
        (bits - SIGN_BIT) as u64
    } else {
        (bits + SIGN_BIT) as u64
    }
}

fn magnitude_of(bits: u64) -> (r: u64)
    ensures
        r == magnitude(bits),
{
    if bits >= SIGN_BIT {
        bits - SIGN_BIT
    } else {
        bits
    }
}

/// Whether the pattern is not a number.
pub fn not_a_number(bits: u64) -> (r: bool)
    ensures
        r == is_nan(bits),
{
    magnitude_of(bits) > INFINITY_BITS
}

fn place_of(bits: u64) -> (r: i128)
    ensures
        r == place(bits),
{
    let m = magnitude_of(bits);
    if bits >= SIGN_BIT {
        -(m as i128)
    } else {
        m as i128
    }
}

/// `a == b` on numbers.
pub fn equal(a: u64, b: u64) -> (r: bool)
    ensures
        r == number_eq(a, b),
{
    !not_a_number(a) && !not_a_number(b) && place_of(a) == place_of(b)
}

/// `a < b` on numbers.
pub fn less(a: u64, b: u64) -> (r: bool)
    ensures
        r == number_lt(a, b),
{
    !not_a_number(a) && !not_a_number(b) && place_of(a) < place_of(b)
}

/// `a <= b` on numbers.
pub fn less_equal(a: u64, b: u64) -> (r: bool)
    ensures
        r == number_le(a, b),
{
    !not_a_number(a) && !not_a_number(b) && place_of(a) <= place_of(b)
}

/// `a > b` on numbers.
pub fn greater(a: u64, b: u64) -> (r: bool)
    ensures
        r == number_lt(b, a),
{
    less(b, a)
}

/// `a >= b` on numbers.
pub fn greater_equal(a: u64, b: u64) -> (r: bool)
    ensures
        r == number_le(b, a),
{
    less_equal(b, a)
}

/// `-a` on numbers.
pub fn negate(bits: u64) -> (r: u64)
    ensures
        r == negated(bits),
{
    if bits >= SIGN_BIT {
        bits - SIGN_BIT
    } else {
        bits + SIGN_BIT
    }
}

/// Negating twice gives the number back.
pub proof fn lemma_negated_twice(bits: u64)
    ensures
        negated(negated(bits)) == bits,
{
}

/// A number that is a number equals itself; of two numbers at most one is
/// less than the other.
pub proof fn lemma_order(a: u64, b: u64)
    ensures
        number_eq(a, a) == !is_nan(a),
        number_eq(a, b) == number_eq(b, a),
        !(number_lt(a, b) && number_lt(b, a)),
        number_le(a, b) == (number_lt(a, b) || number_eq(a, b)),
{
}

} // verus!
