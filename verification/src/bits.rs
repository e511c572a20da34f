//! Bits of a number, by plain arithmetic.
use vstd::prelude::*;

use vstd::arithmetic::power2::pow2;
use vstd::bits::lemma_u8_shr_is_div;

verus! {

/// Bit `k` of `v` (0 is the least significant): 0 or 1.
pub open spec fn bit(v: int, k: nat) -> int {
    (v / pow2(k) as int) % 2
}

/// Testing bit `k` of a byte by a shift and a mask gives its arithmetic
/// bit.
pub proof fn lemma_shift_mask_is_bit(b: u8, k: u8)
    requires
        k < 8,
    ensures
        ((b >> k) & 1u8 == 1u8) == (bit(b as int, k as nat) == 1),
        0 <= bit(b as int, k as nat) <= 1,
{
    lemma_u8_shr_is_div(b, k);
    let y: u8 = b >> k;
    assert(y & 1u8 == y % 2) by (bit_vector);
    vstd::arithmetic::power2::lemma_pow2_pos(k as nat);
}

/// The bits of OR, AND and XOR of two bytes are the OR, AND and XOR of
/// their bits.
pub proof fn lemma_bitwise_bits(a: u8, b: u8, k: u8)
    requires
        k < 8,
    ensures
        bit((a | b) as int, k as nat) == if bit(a as int, k as nat) == 1 || bit(b as int, k as nat)
            == 1 {
            1int
        } else {
            0int
        },
        bit((a & b) as int, k as nat) == bit(a as int, k as nat) * bit(b as int, k as nat),
        bit((a ^ b) as int, k as nat) == if bit(a as int, k as nat) != bit(b as int, k as nat) {
            1int
        } else {
            0int
        },
{
    lemma_shift_mask_is_bit(a, k);
    lemma_shift_mask_is_bit(b, k);
    lemma_shift_mask_is_bit(a | b, k);
    lemma_shift_mask_is_bit(a & b, k);
    lemma_shift_mask_is_bit(a ^ b, k);
    assert(((a | b) >> k) & 1u8 == ((a >> k) & 1u8) | ((b >> k) & 1u8)) by (bit_vector);
    assert(((a & b) >> k) & 1u8 == ((a >> k) & 1u8) & ((b >> k) & 1u8)) by (bit_vector);
    assert(((a ^ b) >> k) & 1u8 == ((a >> k) & 1u8) ^ ((b >> k) & 1u8)) by (bit_vector);
    let x: u8 = (a >> k) & 1u8;
    let y: u8 = (b >> k) & 1u8;
    assert(x <= 1 && y <= 1) by (bit_vector)
        requires
            x == (a >> k) & 1u8,
            y == (b >> k) & 1u8,
    ;
    assert((x | y == 1u8) == (x == 1u8 || y == 1u8)) by (bit_vector)
        requires
            x <= 1,
            y <= 1,
    ;
    assert((x & y == 1u8) == (x == 1u8 && y == 1u8)) by (bit_vector)
        requires
            x <= 1,
            y <= 1,
    ;
    assert((x ^ y == 1u8) == (x != y)) by (bit_vector)
        requires
            x <= 1,
            y <= 1,
    ;
}

} // verus!
