//! Real numbers as bits: their order and their opposite, without arithmetic.
use vstd::prelude::*;

verus! {

/// Are the `f32` bits those of no number?
pub open spec fn nan(bits: u32) -> bool {
    bits & 0x7fff_ffff > 0x7f80_0000
}

/// An integer that orders `f32` bits as the numbers are ordered; both zeros
/// are zero.
pub open spec fn cle(bits: u32) -> int {
    if bits < 0x8000_0000 {
        bits as int
    } else {
        -(bits - 0x8000_0000)
    }
}

/// `f32` bits of the opposite number.
pub open spec fn oppose(bits: u32) -> u32 {
    bits ^ 0x8000_0000
}

/// Is the first number at least the second?
pub open spec fn au_moins(a: u32, b: u32) -> bool {
    !nan(a) && !nan(b) && cle(a) >= cle(b)
}

pub fn est_nan(bits: u32) -> (r: bool)
    ensures
        r == nan(bits),
{
    bits & 0x7fff_ffff > 0x7f80_0000
}

/// An integer that orders `f32` bits as the numbers are ordered.
pub fn cle_f32(bits: u32) -> (r: i64)
    ensures
        r == cle(bits),
        -0x7fff_ffff <= r <= 0x7fff_ffff,
{
    if bits < 0x8000_0000 {
        bits as i64
    } else {
        -((bits - 0x8000_0000) as i64)
    }
}

/// `f32` bits of the opposite number.
pub fn oppose_f32(bits: u32) -> (r: u32)
    ensures
        r == oppose(bits),
{
    bits ^ 0x8000_0000
}

/// Is the first number at least the second?
pub fn est_au_moins(a: u32, b: u32) -> (r: bool)
    ensures
        r == au_moins(a, b),
{
    !est_nan(a) && !est_nan(b) && cle_f32(a) >= cle_f32(b)
}

/// The opposite number has the opposite place in the order, and is its own
/// opposite's opposite.
pub proof fn loi_oppose(bits: u32)
    ensures
        cle(oppose(bits)) == -cle(bits),
        oppose(oppose(bits)) == bits,
        nan(oppose(bits)) == nan(bits),
{
    assert((bits ^ 0x8000_0000) ^ 0x8000_0000 == bits) by (bit_vector);
    assert((bits ^ 0x8000_0000) & 0x7fff_ffff == bits & 0x7fff_ffff) by (bit_vector);
    assert(bits < 0x8000_0000 ==> (bits ^ 0x8000_0000) == bits + 0x8000_0000) by (bit_vector);
    assert(bits >= 0x8000_0000 ==> (bits ^ 0x8000_0000) == bits - 0x8000_0000) by (bit_vector);
}

/// The order of the numbers: that of the patterns among positive numbers, the
/// reverse among negative ones; a pattern of no number compares with none, and
/// two numbers compare one way or the other.
pub proof fn loi_ordre_des_reels(a: u32, b: u32, c: u32)
    ensures
        nan(a) ==> !au_moins(a, b) && !au_moins(b, a),
        !nan(a) && !nan(b) ==> au_moins(a, b) || au_moins(b, a),
        au_moins(a, b) && au_moins(b, c) ==> au_moins(a, c),
        a < 0x8000_0000 && b < 0x8000_0000 && !nan(a) && !nan(b) ==> (au_moins(a, b) <==> a >= b),
        a < 0x8000_0000 && b >= 0x8000_0000 && !nan(a) && !nan(b) ==> au_moins(a, b),
        a >= 0x8000_0000 && b >= 0x8000_0000 && !nan(a) && !nan(b) ==> (au_moins(a, b) <==> a <= b),
{
}

/// No number: every exponent bit set and a fraction that is not zero.
pub proof fn loi_pas_un_nombre(bits: u32)
    ensures
        bits <= 0x7f80_0000 ==> !nan(bits),
        0x7f80_0000 < bits < 0x8000_0000 ==> nan(bits),
        0x8000_0000 <= bits <= 0xff80_0000 ==> !nan(bits),
        bits > 0xff80_0000 ==> nan(bits),
{
    assert(bits < 0x8000_0000 ==> bits & 0x7fff_ffff == bits) by (bit_vector);
    assert(bits >= 0x8000_0000 ==> bits & 0x7fff_ffff == bits - 0x8000_0000) by (bit_vector);
}

} // verus!
