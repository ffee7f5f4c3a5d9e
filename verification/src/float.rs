//! Double-precision numbers by their IEEE 754 bits, and how they compare.
//!
//! Arithmetic on them is done elsewhere; here they are only carried and compared.

use vstd::prelude::*;

verus! {

/// The bit of the sign.
pub const SIGN: u64 = 0x8000_0000_0000_0000;

/// The bits of infinity. Larger magnitudes stand for no number.
pub const INFINITY: u64 = 0x7FF0_0000_0000_0000;

/// The bits of one.
pub const ONE: u64 = 0x3FF0_0000_0000_0000;

/// The bits without the sign.
pub open spec fn magnitude(a: u64) -> int {
    if a < SIGN { a as int } else { a - SIGN }
}

/// The bits stand for a number.
pub open spec fn is_number(a: u64) -> bool {
    magnitude(a) <= INFINITY
}

/// The bits stand for a number that is not infinite.
pub open spec fn is_finite(a: u64) -> bool {
    magnitude(a) < INFINITY
}

/// Where a number stands among all numbers: the order of the bits is that of the numbers, once
/// the sign is taken into account.
pub open spec fn rank(a: u64) -> int {
    if a < SIGN { magnitude(a) } else { -magnitude(a) }
}

/// `a < b`.
pub open spec fn lt(a: u64, b: u64) -> bool {
    is_number(a) && is_number(b) && rank(a) < rank(b)
}

/// `a <= b`.
pub open spec fn le(a: u64, b: u64) -> bool {
    is_number(a) && is_number(b) && rank(a) <= rank(b)
}

/// `a == b`. The two zeros are equal.
pub open spec fn eq(a: u64, b: u64) -> bool {
    is_number(a) && is_number(b) && rank(a) == rank(b)
}

fn size_of(a: u64) -> (m: i128)
    ensures
        m == magnitude(a),
{
    if a < SIGN { a as i128 } else { (a - SIGN) as i128 }
}

fn place_of(a: u64) -> (r: i128)
    ensures
        r == rank(a),
{
    if a < SIGN { size_of(a) } else { -size_of(a) }
}

/// Whether the bits stand for a number.
pub fn number(a: u64) -> (b: bool)
    ensures
        b == is_number(a),
{
    size_of(a) <= INFINITY as i128
}

/// Whether the bits stand for a number that is not infinite.
pub fn finite(a: u64) -> (b: bool)
    ensures
        b == is_finite(a),
{
    size_of(a) < INFINITY as i128
}

/// `a < b`.
pub fn less(a: u64, b: u64) -> (r: bool)
    ensures
        r == lt(a, b),
{
    number(a) && number(b) && place_of(a) < place_of(b)
}

/// `a <= b`.
pub fn at_most(a: u64, b: u64) -> (r: bool)
    ensures
        r == le(a, b),
{
    number(a) && number(b) && place_of(a) <= place_of(b)
}

/// `a == b`.
pub fn same(a: u64, b: u64) -> (r: bool)
    ensures
        r == eq(a, b),
{
    number(a) && number(b) && place_of(a) == place_of(b)
}

/// A number without its sign.
pub open spec fn abs(a: u64) -> u64 {
    if a < SIGN { a } else { (a - SIGN) as u64 }
}

/// A number with the other sign.
pub open spec fn neg(a: u64) -> u64 {
    if a < SIGN { (a + SIGN) as u64 } else { (a - SIGN) as u64 }
}

/// A number without its sign.
pub fn absolute(a: u64) -> (r: u64)
    ensures
        r == abs(a),
{
    if a < SIGN { a } else { a - SIGN }
}

/// A number with the other sign.
pub fn negated(a: u64) -> (r: u64)
    ensures
        r == neg(a),
{
    if a < SIGN { a + SIGN } else { a - SIGN }
}

/// Whether a number is larger than zero.
pub open spec fn pos(a: u64) -> bool {
    lt(0, a)
}

/// Whether a number is larger than zero.
pub fn positive(a: u64) -> (r: bool)
    ensures
        r == pos(a),
{
    less(0, a)
}

/// Of two numbers, one is smaller than the other or they are equal, and never two of these;
/// without a number none of them holds.
pub proof fn numbers_are_ordered(a: u64, b: u64)
    ensures
        is_number(a) && is_number(b) ==> (lt(a, b) && !eq(a, b) && !lt(b, a)) || (!lt(a, b) && eq(
            a,
            b,
        ) && !lt(b, a)) || (!lt(a, b) && !eq(a, b) && lt(b, a)),
        !is_number(a) || !is_number(b) ==> !lt(a, b) && !le(a, b) && !eq(a, b),
        le(a, b) == (lt(a, b) || eq(a, b)),
{
}

/// What is smaller than a smaller number is smaller.
pub proof fn order_is_transitive(a: u64, b: u64, c: u64)
    ensures
        lt(a, b) && lt(b, c) ==> lt(a, c),
        le(a, b) && le(b, c) ==> le(a, c),
{
}

/// Positive numbers compare as their bits do; a change of the signs turns the order round, and
/// every negative number is smaller than every positive one.
pub proof fn numbers_compare_by_their_bits(a: u64, b: u64)
    requires
        0 < a <= 0x7FF0_0000_0000_0000,
        0 < b <= 0x7FF0_0000_0000_0000,
    ensures
        lt(a, b) <==> a < b,
        le(a, b) <==> a <= b,
        eq(a, b) <==> a == b,
        lt(neg(a), neg(b)) <==> b < a,
        le(neg(a), neg(b)) <==> b <= a,
        lt(neg(a), b) && !lt(b, neg(a)),
        lt(0, a) && lt(neg(a), 0) && eq(0, neg(0)) && !lt(0, neg(0)),
        pos(a) && !pos(neg(a)) && !pos(0) && !pos(neg(0)),
{
}

/// A number and its negative differ in the sign alone, and are equally large.
pub proof fn signs_come_and_go(a: u64)
    ensures
        neg(a) != a && neg(neg(a)) == a,
        abs(neg(a)) == abs(a),
        abs(a) == a || abs(a) == neg(a),
        abs(a) < 0x8000_0000_0000_0000,
        is_number(a) <==> abs(a) <= 0x7FF0_0000_0000_0000,
        is_finite(a) <==> abs(a) < 0x7FF0_0000_0000_0000,
{
}

} // verus!
