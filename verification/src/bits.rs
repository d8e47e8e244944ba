//! Bits and nibbles of bytes.

use vstd::prelude::*;

verus! {

/// Bit `n` of `v`, counted from the least significant bit.
pub open spec fn bit(v: u8, n: u8) -> bool {
    (v >> n) & 1u8 == 1u8
}

/// A byte read as a two's complement number.
pub open spec fn signed(v: u8) -> int {
    if v < 0x80 {
        v as int
    } else {
        v - 0x100
    }
}

/// The 16-bit word with the given high and low bytes.
pub open spec fn word(high: u8, low: u8) -> u16 {
    (high * 0x100 + low) as u16
}

/// The high byte of a word.
pub open spec fn high_byte(w: u16) -> u8 {
    (w / 0x100) as u8
}

/// The low byte of a word.
pub open spec fn low_byte(w: u16) -> u8 {
    (w % 0x100) as u8
}

/// Testing a single-bit mask reads the corresponding bit.
pub proof fn lemma_masks(v: u8)
    by (bit_vector)
    ensures
        (v & 0x01 != 0) == bit(v, 0),
        (v & 0x02 != 0) == bit(v, 1),
        (v & 0x04 != 0) == bit(v, 2),
        (v & 0x08 != 0) == bit(v, 3),
        (v & 0x10 != 0) == bit(v, 4),
        (v & 0x20 != 0) == bit(v, 5),
        (v & 0x40 != 0) == bit(v, 6),
        (v & 0x80 != 0) == bit(v, 7),
{
}

/// Bit `n` of a byte is the digit of weight 2 to the `n` of its binary form.
pub proof fn law_bits(v: u8)
    by (bit_vector)
    ensures
        bit(v, 0) == (v % 2 == 1),
        bit(v, 1) == ((v / 2) % 2 == 1),
        bit(v, 2) == ((v / 4) % 2 == 1),
        bit(v, 3) == ((v / 8) % 2 == 1),
        bit(v, 4) == ((v / 16) % 2 == 1),
        bit(v, 5) == ((v / 32) % 2 == 1),
        bit(v, 6) == ((v / 64) % 2 == 1),
        bit(v, 7) == (v >= 128),
{
}

/// A byte read as a signed number lies between -128 and 127 and differs from
/// the byte by 0 or 256.
pub proof fn law_signed(v: u8)
    ensures
        -128 <= signed(v) <= 127,
        signed(v) == v || signed(v) == v - 256,
{
}

/// A word is 256 times its high byte plus its low byte.
pub proof fn law_word(high: u8, low: u8, w: u16)
    ensures
        word(high, low) == 256 * high + low,
        256 * high_byte(w) + low_byte(w) == w,
{
}

/// Masks and shifts that cut a byte into fields, as arithmetic.
pub proof fn lemma_fields(v: u8)
    by (bit_vector)
    ensures
        v & 0x01 == v % 2,
        v & 0x03 == v % 4,
        v & 0x07 == v % 8,
        v & 0x0F == v % 16,
        v & 0x1F == v % 32,
        v & 0x3F == v % 64,
        v & 0x7F == v % 128,
        v & 0xF0 == v - v % 16,
        v & 0xFE == v - v % 2,
        v >> 1 == v / 2,
        v >> 2 == v / 4,
        v >> 3 == v / 8,
        v >> 4 == v / 16,
        v >> 5 == v / 32,
        v >> 6 == v / 64,
        v >> 7 == v / 128,
{
}

/// The mask of the low nibble, as arithmetic.
pub proof fn lemma_low_nibble(v: u8)
    by (bit_vector)
    ensures
        v & 0x0F == v % 16,
{
}

/// Three-bit fields, as arithmetic.
pub proof fn lemma_three_bits(v: u8)
    by (bit_vector)
    ensures
        v & 0x07 == v % 8,
        (v >> 3) & 0x07 == (v / 8) % 8,
        (v >> 4) & 0x07 == (v / 16) % 8,
{
}

/// Setting and clearing bit `n` change no other bit.
pub proof fn lemma_single_bit(v: u8, n: u8, m: u8)
    by (bit_vector)
    requires
        n < 8,
        m < 8,
    ensures
        bit(v | (1u8 << n), m) == (m == n || bit(v, m)),
        bit(v & !(1u8 << n), m) == (m != n && bit(v, m)),
{
}

/// Casting a byte to a signed one reads it as two's complement.
pub proof fn lemma_signed(v: u8)
    ensures
        v as i8 == signed(v),
{
    assert((v < 0x80 ==> v as i8 == v) && (v >= 0x80 ==> v as i8 == v - 0x100)) by (bit_vector);
}

/// Shifting and joining two bytes gives the word.
pub proof fn lemma_join_word(high: u8, low: u8)
    ensures
        ((high as u16) << 8) | low as u16 == word(high, low),
{
    assert(((high as u16) << 8) | low as u16 == high * 0x100 + low) by (bit_vector);
}

/// Shifting and truncating a word gives its bytes.
pub proof fn lemma_split_word(w: u16)
    ensures
        (w >> 8) as u8 == high_byte(w),
        w as u8 == low_byte(w),
{
    assert((w >> 8) as u8 == w / 0x100 && w as u8 == w % 0x100) by (bit_vector);
}

/// Wrapping arithmetic on bytes is arithmetic modulo 256.
pub proof fn lemma_wrapping_byte(a: u8, b: u8)
    ensures
        a.wrapping_add(b) == (a + b) % 256,
        a.wrapping_sub(b) == (a - b) % 256,
{
}

/// The low byte and the low nibble of a word.
pub proof fn lemma_low_parts(w: u16)
    by (bit_vector)
    ensures
        w as u8 == w % 256,
        (w as u8) & 0x0F == w % 16,
{
}

/// A word and its two bytes determine each other.
pub proof fn lemma_word_bytes(high: u8, low: u8)
    ensures
        high_byte(word(high, low)) == high,
        low_byte(word(high, low)) == low,
{
}

/// Splitting a word and joining the bytes gives the word back.
pub proof fn lemma_bytes_word(w: u16)
    ensures
        word(high_byte(w), low_byte(w)) == w,
{
}

} // verus!
