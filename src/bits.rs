//! Operations on the eight bits of a single byte.
use vstd::prelude::*;

verus! {

/// Whether bit `i` (0 = least significant) of `b` is set.
pub open spec fn bit(b: u8, i: u8) -> bool {
    (b >> i) & 1u8 == 1u8
}

/// Reversing the bits turns a right rotation into a left rotation by the same amount.
pub proof fn lemma_reversed_bits_rotr(b: u8, k: u8)
    requires
        k < 8,
    ensures
        reversed_bits(rotr(b, k)) == rotl(reversed_bits(b), k),
{
    let rb = reversed_bits(b);
    assert(k < 8 && k != 0 ==> reversed_bits(((b >> k) | (b << ((8 - k) as u8))) as u8) == ((rb
        << k) | (rb >> ((8 - k) as u8))) as u8) by (bit_vector)
        requires
            rb == reversed_bits(b),
    ;
}

/// `b` rotated circularly right by `k` positions, for `k < 8`.
pub open spec fn rotr(b: u8, k: u8) -> u8
    recommends
        k < 8,
{
    if k == 0 {
        b
    } else {
        ((b >> k) | (b << ((8 - k) as u8))) as u8
    }
}

/// `b` rotated circularly left by `k` positions, for `k < 8`.
pub open spec fn rotl(b: u8, k: u8) -> u8
    recommends
        k < 8,
{
    if k == 0 {
        b
    } else {
        ((b << k) | (b >> ((8 - k) as u8))) as u8
    }
}

/// `b` with the order of its eight bits reversed.
pub open spec fn reversed_bits(b: u8) -> u8 {
    ((b & 0x01u8) << 7u8) | ((b & 0x02u8) << 5u8) | ((b & 0x04u8) << 3u8) | ((b & 0x08u8) << 1u8)
        | ((b & 0x10u8) >> 1u8) | ((b & 0x20u8) >> 3u8) | ((b & 0x40u8) >> 5u8) | ((b
        & 0x80u8) >> 7u8)
}

/// Rotating right moves bit `(i + k) mod 8` to position `i`.
pub proof fn lemma_rotr_bits(b: u8, k: u8)
    requires
        k < 8,
    ensures
        forall|i: u8| i < 8 ==> #[trigger] bit(rotr(b, k), i) == bit(b, ((i + k) % 8) as u8),
{
    assert(forall|i: u8|
        i < 8 && k < 8 && k != 0 ==> #[trigger] bit(((b >> k) | (b << ((8 - k) as u8))) as u8, i)
            == bit(b, ((i + k) % 8) as u8)) by (bit_vector);
}

/// Reversal moves bit `7 - i` to position `i`.
pub proof fn lemma_reversed_bits(b: u8)
    ensures
        forall|i: u8| i < 8 ==> #[trigger] bit(reversed_bits(b), i) == bit(b, (7 - i) as u8),
{
    assert(forall|i: u8| i < 8 ==> #[trigger] bit(reversed_bits(b), i) == bit(b, (7 - i) as u8))
        by (bit_vector);
}

/// Rotating left by `k` undoes rotating right by `k`.
pub proof fn lemma_rotl_rotr(b: u8, k: u8)
    requires
        k < 8,
    ensures
        rotl(rotr(b, k), k) == b,
{
    assert(k < 8 && k != 0 ==> ((((((b >> k) | (b << ((8 - k) as u8))) as u8) << k) | ((((b >> k)
        | (b << ((8 - k) as u8))) as u8) >> ((8 - k) as u8))) as u8) == b) by (bit_vector);
}

/// Bit reversal is its own inverse.
pub proof fn lemma_reversed_bits_involutive(b: u8)
    ensures
        reversed_bits(reversed_bits(b)) == b,
{
    assert(reversed_bits(reversed_bits(b)) == b) by (bit_vector);
}

/// `b` rotated circularly right by `k` positions.
pub fn rotate_right(b: u8, k: u8) -> (r: u8)
    requires
        k < 8,
    ensures
        r == rotr(b, k),
{
    if k == 0 {
        b
    } else {
        (b >> k) | (b << (8 - k))
    }
}

/// `b` rotated circularly left by `k` positions.
pub fn rotate_left(b: u8, k: u8) -> (r: u8)
    requires
        k < 8,
    ensures
        r == rotl(b, k),
{
    if k == 0 {
        b
    } else {
        (b << k) | (b >> (8 - k))
    }
}

/// `b` with its bit order reversed: bit 0 swaps with bit 7, 1 with 6, 2 with 5, 3 with 4.
pub fn reverse_bits(b: u8) -> (r: u8)
    ensures
        r == reversed_bits(b),
{
    ((b & 0x01) << 7) | ((b & 0x02) << 5) | ((b & 0x04) << 3) | ((b & 0x08) << 1) | ((b & 0x10)
        >> 1) | ((b & 0x20) >> 3) | ((b & 0x40) >> 5) | ((b & 0x80) >> 7)
}

} // verus!
