//! How a 256-bit value is laid out.
//!
//! A value is written as 64 hex digits, digit 0 first. Two digits make a byte
//! (the high half first), and eight bytes make a little-endian word, so that
//! the last hex digit sits in bits 56..60 of the last word.
use vstd::prelude::*;

verus! {

/// The position, inside its word, of the lowest bit of hex digit `i`.
pub open spec fn nibble_shift(i: int) -> u64 {
    (8 * ((i / 2) % 8) + (if i % 2 == 0 { 4int } else { 0int })) as u64
}

/// Hex digit `i` of the value held in `words`, as a number below 16.
pub open spec fn nibble_at(words: Seq<u64>, i: int) -> u8 {
    ((words[i / 16] >> nibble_shift(i)) & 0xf) as u8
}

/// The 64 hex digits of the value held in `words`, first digit first.
pub open spec fn nibbles_of(words: Seq<u64>) -> Seq<u8> {
    Seq::new(64, |i: int| nibble_at(words, i))
}

/// Whether bit `p` of the value held in `words` is set. Bits are counted as
/// they are written: bit `4 * i` is the highest bit of hex digit `i`.
pub open spec fn bit_at(words: Seq<u64>, p: int) -> bool {
    (words[p / 64] >> ((nibble_shift(p / 4) + 3 - p % 4) as u64)) & 1 == 1
}

/// Whether `digits` are the 64 hex digits of some 256-bit value.
pub open spec fn is_digits(digits: Seq<u8>) -> bool {
    digits.len() == 64 && forall|i: int| 0 <= i < 64 ==> #[trigger] digits[i] < 16
}

/// Hex digit `i` of a value given as its 32 bytes.
pub open spec fn byte_nibble(bytes: Seq<u8>, i: int) -> u8 {
    if i % 2 == 0 {
        bytes[i / 2] >> 4
    } else {
        bytes[i / 2] & 0xf
    }
}

/// The 64 hex digits of a value given as its 32 bytes.
pub open spec fn nibbles_of_bytes(bytes: Seq<u8>) -> Seq<u8> {
    Seq::new(64, |i: int| byte_nibble(bytes, i))
}

/// The little-endian word made of eight bytes, `b0` the least significant.
pub open spec fn le_word(b0: u8, b1: u8, b2: u8, b3: u8, b4: u8, b5: u8, b6: u8, b7: u8) -> u64 {
    (b0 as u64) | ((b1 as u64) << 8) | ((b2 as u64) << 16) | ((b3 as u64) << 24) | ((b4 as u64)
        << 32) | ((b5 as u64) << 40) | ((b6 as u64) << 48) | ((b7 as u64) << 56)
}

/// Word `k` of the value whose bytes are `bytes`.
pub open spec fn word_of_bytes(bytes: Seq<u8>, k: int) -> u64 {
    le_word(
        bytes[8 * k],
        bytes[8 * k + 1],
        bytes[8 * k + 2],
        bytes[8 * k + 3],
        bytes[8 * k + 4],
        bytes[8 * k + 5],
        bytes[8 * k + 6],
        bytes[8 * k + 7],
    )
}

proof fn lemma_le_word_nibbles(b0: u8, b1: u8, b2: u8, b3: u8, b4: u8, b5: u8, b6: u8, b7: u8)
    by (bit_vector)
    ensures
        (le_word(b0, b1, b2, b3, b4, b5, b6, b7) >> 4u64) & 0xf == (b0 >> 4u8) as u64,
        (le_word(b0, b1, b2, b3, b4, b5, b6, b7) >> 0u64) & 0xf == (b0 & 0xf) as u64,
        (le_word(b0, b1, b2, b3, b4, b5, b6, b7) >> 12u64) & 0xf == (b1 >> 4u8) as u64,
        (le_word(b0, b1, b2, b3, b4, b5, b6, b7) >> 8u64) & 0xf == (b1 & 0xf) as u64,
        (le_word(b0, b1, b2, b3, b4, b5, b6, b7) >> 20u64) & 0xf == (b2 >> 4u8) as u64,
        (le_word(b0, b1, b2, b3, b4, b5, b6, b7) >> 16u64) & 0xf == (b2 & 0xf) as u64,
        (le_word(b0, b1, b2, b3, b4, b5, b6, b7) >> 28u64) & 0xf == (b3 >> 4u8) as u64,
        (le_word(b0, b1, b2, b3, b4, b5, b6, b7) >> 24u64) & 0xf == (b3 & 0xf) as u64,
        (le_word(b0, b1, b2, b3, b4, b5, b6, b7) >> 36u64) & 0xf == (b4 >> 4u8) as u64,
        (le_word(b0, b1, b2, b3, b4, b5, b6, b7) >> 32u64) & 0xf == (b4 & 0xf) as u64,
        (le_word(b0, b1, b2, b3, b4, b5, b6, b7) >> 44u64) & 0xf == (b5 >> 4u8) as u64,
        (le_word(b0, b1, b2, b3, b4, b5, b6, b7) >> 40u64) & 0xf == (b5 & 0xf) as u64,
        (le_word(b0, b1, b2, b3, b4, b5, b6, b7) >> 52u64) & 0xf == (b6 >> 4u8) as u64,
        (le_word(b0, b1, b2, b3, b4, b5, b6, b7) >> 48u64) & 0xf == (b6 & 0xf) as u64,
        (le_word(b0, b1, b2, b3, b4, b5, b6, b7) >> 60u64) & 0xf == (b7 >> 4u8) as u64,
        (le_word(b0, b1, b2, b3, b4, b5, b6, b7) >> 56u64) & 0xf == (b7 & 0xf) as u64,
{
}

/// Packing bytes into little-endian words keeps every hex digit in its place.
pub proof fn lemma_word_of_bytes_nibble(bytes: Seq<u8>, words: Seq<u64>, i: int)
    requires
        bytes.len() == 32,
        words.len() == 4,
        forall|k: int| 0 <= k < 4 ==> #[trigger] words[k] == word_of_bytes(bytes, k),
        0 <= i < 64,
    ensures
        nibble_at(words, i) == byte_nibble(bytes, i),
{
    let k = i / 16;
    assert(words[k] == word_of_bytes(bytes, k));
    lemma_le_word_nibbles(
        bytes[8 * k],
        bytes[8 * k + 1],
        bytes[8 * k + 2],
        bytes[8 * k + 3],
        bytes[8 * k + 4],
        bytes[8 * k + 5],
        bytes[8 * k + 6],
        bytes[8 * k + 7],
    );
    let j = (i / 2) % 8;
    assert(i / 2 == 8 * k + j);
    assert(0 <= j < 8);
}

proof fn lemma_nibble_below_16(w: u64, s: u64)
    by (bit_vector)
    ensures
        ((w >> s) & 0xf) < 16,
        ((w >> s) & 0xf) as u8 == (w >> s) & 0xf,
{
}

proof fn lemma_bit_of_nibble(w: u64, s: u64, b: u64)
    by (bit_vector)
    requires
        s <= 60,
        b <= 3,
    ensures
        (w >> ((s + b) as u64)) & 1 == (((w >> s) & 0xf) >> b) & 1,
{
}

proof fn lemma_bits_of_extremes(b: u64)
    by (bit_vector)
    requires
        b <= 3,
    ensures
        (0xfu64 >> b) & 1 == 1,
        (0u64 >> b) & 1 == 0,
{
}

/// A bit of a hex digit that is all ones is set, and one of a digit that is
/// zero is clear.
pub proof fn lemma_bit_of_full_or_empty_nibble(words: Seq<u64>, p: int)
    requires
        0 <= p < 256,
        nibble_at(words, p / 4) == 0xf || nibble_at(words, p / 4) == 0,
    ensures
        bit_at(words, p) == (nibble_at(words, p / 4) == 0xf),
{
    let i = p / 4;
    let w = words[i / 16];
    let s = nibble_shift(i);
    let b = (3 - p % 4) as u64;
    assert(p / 64 == i / 16);
    lemma_nibble_below_16(w, s);
    lemma_bit_of_nibble(w, s, b);
    lemma_bits_of_extremes(b);
}

/// Every hex digit is below 16.
pub proof fn lemma_nibble_range(words: Seq<u64>, i: int)
    ensures
        nibble_at(words, i) < 16,
{
    lemma_nibble_below_16(words[i / 16], nibble_shift(i));
}

/// The hex digits read from words are 64 numbers below 16.
pub proof fn lemma_nibbles_are_digits(words: Seq<u64>)
    ensures
        is_digits(nibbles_of(words)),
{
    assert forall|i: int| 0 <= i < 64 implies #[trigger] nibbles_of(words)[i] < 16 by {
        lemma_nibble_range(words, i);
    }
}

proof fn lemma_byte_halves(b: u8)
    by (bit_vector)
    ensures
        b >> 4u8 < 16,
        b & 0xfu8 < 16,
{
}

/// The hex digits read from bytes are 64 numbers below 16.
pub proof fn lemma_byte_nibbles_are_digits(bytes: Seq<u8>)
    ensures
        is_digits(nibbles_of_bytes(bytes)),
{
    assert forall|i: int| 0 <= i < 64 implies #[trigger] nibbles_of_bytes(bytes)[i] < 16 by {
        lemma_byte_halves(bytes[i / 2]);
    }
}

proof fn lemma_word_from_nibbles(a: u64, b: u64)
    by (bit_vector)
    requires
        (a >> 0u64) & 0xf == (b >> 0u64) & 0xf,
        (a >> 4u64) & 0xf == (b >> 4u64) & 0xf,
        (a >> 8u64) & 0xf == (b >> 8u64) & 0xf,
        (a >> 12u64) & 0xf == (b >> 12u64) & 0xf,
        (a >> 16u64) & 0xf == (b >> 16u64) & 0xf,
        (a >> 20u64) & 0xf == (b >> 20u64) & 0xf,
        (a >> 24u64) & 0xf == (b >> 24u64) & 0xf,
        (a >> 28u64) & 0xf == (b >> 28u64) & 0xf,
        (a >> 32u64) & 0xf == (b >> 32u64) & 0xf,
        (a >> 36u64) & 0xf == (b >> 36u64) & 0xf,
        (a >> 40u64) & 0xf == (b >> 40u64) & 0xf,
        (a >> 44u64) & 0xf == (b >> 44u64) & 0xf,
        (a >> 48u64) & 0xf == (b >> 48u64) & 0xf,
        (a >> 52u64) & 0xf == (b >> 52u64) & 0xf,
        (a >> 56u64) & 0xf == (b >> 56u64) & 0xf,
        (a >> 60u64) & 0xf == (b >> 60u64) & 0xf,
    ensures
        a == b,
{
}

/// The sixteen hex digits of word `k` are the digits `16 * k` to
/// `16 * k + 15` of the value; this names each with its shift.
proof fn lemma_word_digits(words: Seq<u64>, k: int)
    requires
        0 <= k < 4,
    ensures
        nibble_at(words, 16 * k + 0) == (words[k] >> 4u64) & 0xf,
        nibble_at(words, 16 * k + 1) == (words[k] >> 0u64) & 0xf,
        nibble_at(words, 16 * k + 2) == (words[k] >> 12u64) & 0xf,
        nibble_at(words, 16 * k + 3) == (words[k] >> 8u64) & 0xf,
        nibble_at(words, 16 * k + 4) == (words[k] >> 20u64) & 0xf,
        nibble_at(words, 16 * k + 5) == (words[k] >> 16u64) & 0xf,
        nibble_at(words, 16 * k + 6) == (words[k] >> 28u64) & 0xf,
        nibble_at(words, 16 * k + 7) == (words[k] >> 24u64) & 0xf,
        nibble_at(words, 16 * k + 8) == (words[k] >> 36u64) & 0xf,
        nibble_at(words, 16 * k + 9) == (words[k] >> 32u64) & 0xf,
        nibble_at(words, 16 * k + 10) == (words[k] >> 44u64) & 0xf,
        nibble_at(words, 16 * k + 11) == (words[k] >> 40u64) & 0xf,
        nibble_at(words, 16 * k + 12) == (words[k] >> 52u64) & 0xf,
        nibble_at(words, 16 * k + 13) == (words[k] >> 48u64) & 0xf,
        nibble_at(words, 16 * k + 14) == (words[k] >> 60u64) & 0xf,
        nibble_at(words, 16 * k + 15) == (words[k] >> 56u64) & 0xf,
{
    assert forall|i: int| 16 * k <= i < 16 * k + 16 implies #[trigger] nibble_at(words, i) == (
    words[k] >> nibble_shift(i)) & 0xf by {
        lemma_nibble_below_16(words[k], nibble_shift(i));
    }
}

/// Two values with the same hex digits have the same words: the digits say
/// all there is to say of a 256-bit value.
pub proof fn lemma_nibbles_determine_words(a: Seq<u64>, b: Seq<u64>)
    requires
        a.len() == 4,
        b.len() == 4,
        nibbles_of(a) == nibbles_of(b),
    ensures
        a == b,
{
    assert forall|k: int| 0 <= k < 4 implies a[k] == b[k] by {
        assert forall|i: int| 0 <= i < 64 implies nibble_at(a, i) == nibble_at(b, i) by {
            assert(nibbles_of(a)[i] == nibble_at(a, i));
            assert(nibbles_of(b)[i] == nibble_at(b, i));
        }
        lemma_word_digits(a, k);
        lemma_word_digits(b, k);
        lemma_word_from_nibbles(a[k], b[k]);
    }
    assert(a =~= b);
}

/// Reads word `k` of a 32-byte value.
fn pack_word(bytes: &[u8; 32], k: usize) -> (w: u64)
    requires
        k < 4,
    ensures
        w == word_of_bytes(bytes@, k as int),
{
    let base: usize = 8 * k;
    (bytes[base] as u64) | ((bytes[base + 1] as u64) << 8) | ((bytes[base + 2] as u64) << 16) | ((
    bytes[base + 3] as u64) << 24) | ((bytes[base + 4] as u64) << 32) | ((bytes[base + 5] as u64)
        << 40) | ((bytes[base + 6] as u64) << 48) | ((bytes[base + 7] as u64) << 56)
}

/// Packs the 32 bytes of a value into its four little-endian words.
///
/// The words hold the same 64 hex digits as the bytes, in the same order.
pub fn pack_words(bytes: &[u8; 32]) -> (words: [u64; 4])
    ensures
        forall|k: int| 0 <= k < 4 ==> #[trigger] words@[k] == word_of_bytes(bytes@, k),
        nibbles_of(words@) == nibbles_of_bytes(bytes@),
{
    let words: [u64; 4] = [
        pack_word(bytes, 0),
        pack_word(bytes, 1),
        pack_word(bytes, 2),
        pack_word(bytes, 3),
    ];
    proof {
        assert forall|i: int| 0 <= i < 64 implies nibble_at(words@, i) == byte_nibble(
            bytes@,
            i,
        ) by {
            lemma_word_of_bytes_nibble(bytes@, words@, i);
        }
        assert(nibbles_of(words@) =~= nibbles_of_bytes(bytes@));
    }
    words
}

} // verus!
