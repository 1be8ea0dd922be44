//! Bit-level vocabulary shared by the keypad, the screen and the decoder,
//! with the facts about masks and shifts that the other modules rely on.

use vstd::prelude::*;

verus! {

/// Whether bit `k` of the byte `b` is set, bit 0 being the least significant.
pub open spec fn bit8(b: u8, k: u8) -> bool {
    b & (1u8 << k) != 0
}

/// Whether bit `k` of the 16-bit word `w` is set, bit 0 being the least
/// significant.
pub open spec fn bit16(w: u16, k: u16) -> bool {
    w & (1u16 << k) != 0
}

/// No bit of the zero word is set.
pub proof fn lemma_bit16_zero(k: u16)
    by (bit_vector)
    requires
        k < 16,
    ensures
        !bit16(0u16, k),
{
}

/// Or-ing in the mask of bit `i` sets that bit and keeps the others.
pub proof fn lemma_bit16_set(w: u16, i: u16, k: u16)
    by (bit_vector)
    requires
        i < 16,
        k < 16,
    ensures
        bit16(w | (1u16 << i), k) == (k == i || bit16(w, k)),
{
}

/// And-ing with the complement of the mask of bit `i` clears that bit and
/// keeps the others.
pub proof fn lemma_bit16_clear(w: u16, i: u16, k: u16)
    by (bit_vector)
    requires
        i < 16,
        k < 16,
    ensures
        bit16(w & !(1u16 << i), k) == (k != i && bit16(w, k)),
{
}

/// No bit of the zero byte is set.
pub proof fn lemma_bit8_zero(k: u8)
    by (bit_vector)
    requires
        k < 8,
    ensures
        !bit8(0u8, k),
{
}

/// Xor-ing with the mask of bit `i` inverts that bit and keeps the others.
pub proof fn lemma_bit8_flip(b: u8, i: u8, k: u8)
    by (bit_vector)
    requires
        i < 8,
        k < 8,
    ensures
        bit8(b ^ (1u8 << i), k) == (bit8(b, k) != (k == i)),
{
}

/// Moving a byte four places up brings its low half into the high half and
/// empties the low half.
pub proof fn lemma_bit8_shl4(b: u8, k: u8)
    by (bit_vector)
    requires
        k < 8,
    ensures
        bit8(b << 4, k) == (k >= 4 && bit8(b, (k - 4) as u8)),
{
}

/// Moving a byte four places down brings its high half into the low half and
/// empties the high half.
pub proof fn lemma_bit8_shr4(b: u8, k: u8)
    by (bit_vector)
    requires
        k < 8,
    ensures
        bit8(b >> 4, k) == (k < 4 && bit8(b, (k + 4) as u8)),
{
}

/// A bit of an or is the or of the bits.
pub proof fn lemma_bit8_or(a: u8, b: u8, k: u8)
    by (bit_vector)
    requires
        k < 8,
    ensures
        bit8(a | b, k) == (bit8(a, k) || bit8(b, k)),
{
}

/// Two bytes joined by shift and or make the word with the first byte as
/// its high half.
pub proof fn lemma_word(hi: u8, lo: u8)
    by (bit_vector)
    ensures
        ((hi as u16) << 8) | (lo as u16) == hi * 256 + lo,
{
}

/// Masks and shifts by one place, as arithmetic.
pub proof fn lemma_shift_one(b: u8)
    by (bit_vector)
    ensures
        b & 1 == b % 2,
        b >> 7 == b / 128,
        b >> 1 == b / 2,
        b < 128 ==> b << 1 == b * 2,
        b >= 128 ==> b << 1 == b * 2 - 256,
{
}

/// Masking a byte with fifteen leaves its remainder modulo sixteen.
pub proof fn lemma_low_nibble(b: u8)
    by (bit_vector)
    ensures
        b & 0x0F == b % 16,
{
}

/// The lowest and the highest bit of a byte, as arithmetic.
pub proof fn lemma_end_bits(b: u8)
    by (bit_vector)
    ensures
        bit8(b, 0) == (b % 2 == 1),
        bit8(b, 7) == (b / 128 == 1),
{
}

} // verus!
