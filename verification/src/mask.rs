//! The mask that selects the trailing hex digits of a digest.
use vstd::prelude::*;
use crate::error::SearchError;
use crate::digest::{hex_char, hex_of, Digest};
use crate::layout::{
    bit_at, byte_nibble, is_digits, lemma_bit_of_full_or_empty_nibble, lemma_nibbles_are_digits,
    lemma_nibbles_determine_words, nibble_at, nibbles_of, nibbles_of_bytes, pack_words,
};

verus! {

/// A 256-bit pattern of the hex digits that must be zero in a digest.
#[derive(Clone, Copy, Debug, PartialEq, Eq)]
pub struct Mask {
    /// The pattern as four little-endian words, the first bytes first.
    pub words: [u64; 4],
}

impl View for Mask {
    type V = Seq<u8>;

    /// The mask as its 64 hex digits, first digit first.
    open spec fn view(&self) -> Seq<u8> {
        nibbles_of(self.words@)
    }
}

/// The hex digits of the mask for `z` trailing zeros: the last `z` digits are
/// all ones, the others zero.
pub open spec fn mask_nibbles(z: int) -> Seq<u8> {
    Seq::new(
        64,
        |i: int|
            if i >= 64 - z {
                0xfu8
            } else {
                0u8
            },
    )
}

/// Byte `j` of the mask for `z` trailing zeros.
pub open spec fn mask_byte(z: int, j: int) -> u8 {
    if 2 * j >= 64 - z {
        0xffu8
    } else if 2 * j + 1 >= 64 - z {
        0x0fu8
    } else {
        0x00u8
    }
}

proof fn lemma_mask_byte_nibbles()
    by (bit_vector)
    ensures
        0xffu8 >> 4u8 == 0xfu8,
        0xffu8 & 0xfu8 == 0xfu8,
        0x0fu8 >> 4u8 == 0u8,
        0x0fu8 & 0xfu8 == 0xfu8,
        0x00u8 >> 4u8 == 0u8,
        0x00u8 & 0xfu8 == 0u8,
{
}

/// Builds the mask that selects the last `num_zeros` hex digits of a digest.
///
/// A digest has 64 hex digits; a larger count is refused.
pub fn make_check_mask(num_zeros: usize) -> (r: Result<Mask, SearchError>)
    ensures
        num_zeros <= 64 ==> r is Ok && r->Ok_0@ == mask_nibbles(num_zeros as int),
        num_zeros > 64 ==> r == Err::<Mask, SearchError>(SearchError::ZerosOutOfRange),
{
    if num_zeros > 64 {
        return Err(SearchError::ZerosOutOfRange);
    }
    let bytes_to_check: usize = num_zeros / 2 + num_zeros % 2;
    let extra_nibble: bool = num_zeros % 2 != 0;
    let mut bytes: [u8; 32] = [0u8; 32];
    let mut j: usize = 0;
    while j < 32
        invariant
            j <= 32,
            num_zeros <= 64,
            bytes_to_check == num_zeros / 2 + num_zeros % 2,
            extra_nibble == (num_zeros % 2 != 0),
            forall|t: int| 0 <= t < j ==> #[trigger] bytes@[t] == mask_byte(num_zeros as int, t),
        decreases 32 - j,
    {
        let from_end: usize = 32 - j;
        let b: u8 = if from_end == bytes_to_check && extra_nibble {
            0x0f
        } else if from_end <= bytes_to_check {
            0xff
        } else {
            0x00
        };
        bytes[j] = b;
        j += 1;
    }
    let words = pack_words(&bytes);
    let mask = Mask { words };
    proof {
        lemma_mask_byte_nibbles();
        assert forall|i: int| 0 <= i < 64 implies byte_nibble(bytes@, i) == mask_nibbles(
            num_zeros as int,
        )[i] by {
            assert(bytes@[i / 2] == mask_byte(num_zeros as int, i / 2));
        }
        assert(nibbles_of_bytes(bytes@) =~= mask_nibbles(num_zeros as int));
    }
    Ok(mask)
}

/// A mask is known by its hex digits: there is only one mask for a given
/// number of trailing zeros.
pub proof fn lemma_mask_is_its_digits(a: Mask, b: Mask)
    requires
        a@ == b@,
    ensures
        a == b,
{
    lemma_nibbles_determine_words(a.words@, b.words@);
    assert(a.words =~= b.words);
}

/// Whether hex digit `i` of the digest `d` has no bit in common with that of
/// the mask `m`.
pub open spec fn digit_clear(m: Seq<u8>, d: Seq<u8>, i: int) -> bool {
    m[i] & d[i] == 0
}

/// Whether a digest with the hex digits `d` passes the mask with the hex
/// digits `m`: wherever the mask has a one, the digest has a zero.
pub open spec fn passes(m: Seq<u8>, d: Seq<u8>) -> bool {
    forall|i: int| 0 <= i < 64 ==> digit_clear(m, d, i)
}

/// The number of characters `'0'` at the end of `text`.
pub open spec fn trailing_zeros(text: Seq<char>) -> nat
    decreases text.len(),
{
    if text.len() > 0 && text.last() == '0' {
        1 + trailing_zeros(text.drop_last())
    } else {
        0
    }
}

proof fn lemma_words_clear(m: u64, d: u64)
    by (bit_vector)
    ensures
        (d & m == 0) <==> ({
            &&& ((m >> 0u64) & 0xf) & ((d >> 0u64) & 0xf) == 0
            &&& ((m >> 4u64) & 0xf) & ((d >> 4u64) & 0xf) == 0
            &&& ((m >> 8u64) & 0xf) & ((d >> 8u64) & 0xf) == 0
            &&& ((m >> 12u64) & 0xf) & ((d >> 12u64) & 0xf) == 0
            &&& ((m >> 16u64) & 0xf) & ((d >> 16u64) & 0xf) == 0
            &&& ((m >> 20u64) & 0xf) & ((d >> 20u64) & 0xf) == 0
            &&& ((m >> 24u64) & 0xf) & ((d >> 24u64) & 0xf) == 0
            &&& ((m >> 28u64) & 0xf) & ((d >> 28u64) & 0xf) == 0
            &&& ((m >> 32u64) & 0xf) & ((d >> 32u64) & 0xf) == 0
            &&& ((m >> 36u64) & 0xf) & ((d >> 36u64) & 0xf) == 0
            &&& ((m >> 40u64) & 0xf) & ((d >> 40u64) & 0xf) == 0
            &&& ((m >> 44u64) & 0xf) & ((d >> 44u64) & 0xf) == 0
            &&& ((m >> 48u64) & 0xf) & ((d >> 48u64) & 0xf) == 0
            &&& ((m >> 52u64) & 0xf) & ((d >> 52u64) & 0xf) == 0
            &&& ((m >> 56u64) & 0xf) & ((d >> 56u64) & 0xf) == 0
            &&& ((m >> 60u64) & 0xf) & ((d >> 60u64) & 0xf) == 0
        }),
{
}

proof fn lemma_digit_and(m: u64, d: u64, s: u64)
    by (bit_vector)
    ensures
        (((m >> s) & 0xf) as u8) & (((d >> s) & 0xf) as u8) == ((m >> s) & 0xf) & ((d >> s) & 0xf),
{
}

proof fn lemma_and_with_extremes(x: u8)
    by (bit_vector)
    requires
        x < 16,
    ensures
        (0xfu8 & x == 0) <==> x == 0,
        0u8 & x == 0,
{
}

/// A word of the digest has no bit in common with the same word of the mask
/// exactly when none of its sixteen hex digits has.
proof fn lemma_word_clear_iff_digits_clear(m: Mask, d: Digest, k: int)
    requires
        0 <= k < 4,
    ensures
        (d.words@[k] & m.words@[k] == 0) <==> (forall|i: int|
            16 * k <= i < 16 * k + 16 ==> digit_clear(m@, d@, i)),
{
    let mw = m.words@[k];
    let dw = d.words@[k];
    lemma_words_clear(mw, dw);
    assert forall|i: int| 16 * k <= i < 16 * k + 16 implies (#[trigger] digit_clear(m@, d@, i)
        <==> ((mw >> crate::layout::nibble_shift(i)) & 0xf) & ((dw >> crate::layout::nibble_shift(
        i,
    )) & 0xf) == 0) by {
        lemma_digit_and(mw, dw, crate::layout::nibble_shift(i));
        assert(m@[i] == nibble_at(m.words@, i));
        assert(d@[i] == nibble_at(d.words@, i));
    }
    if forall|i: int| 16 * k <= i < 16 * k + 16 ==> digit_clear(m@, d@, i) {
        assert(digit_clear(m@, d@, 16 * k + 0));
        assert(digit_clear(m@, d@, 16 * k + 1));
        assert(digit_clear(m@, d@, 16 * k + 2));
        assert(digit_clear(m@, d@, 16 * k + 3));
        assert(digit_clear(m@, d@, 16 * k + 4));
        assert(digit_clear(m@, d@, 16 * k + 5));
        assert(digit_clear(m@, d@, 16 * k + 6));
        assert(digit_clear(m@, d@, 16 * k + 7));
        assert(digit_clear(m@, d@, 16 * k + 8));
        assert(digit_clear(m@, d@, 16 * k + 9));
        assert(digit_clear(m@, d@, 16 * k + 10));
        assert(digit_clear(m@, d@, 16 * k + 11));
        assert(digit_clear(m@, d@, 16 * k + 12));
        assert(digit_clear(m@, d@, 16 * k + 13));
        assert(digit_clear(m@, d@, 16 * k + 14));
        assert(digit_clear(m@, d@, 16 * k + 15));
    }
}

impl Mask {
    /// Whether the digest `d` has a zero bit wherever the mask has a one,
    /// said digit by digit.
    pub open spec fn spec_accepts(&self, d: &Digest) -> bool {
        passes(self@, d@)
    }

    /// Tests the digest against the mask, a word at a time.
    pub fn accepts(&self, d: &Digest) -> (ok: bool)
        ensures
            ok == self.spec_accepts(d),
            ok == (forall|k: int| 0 <= k < 4 ==> #[trigger] d.words@[k] & self.words@[k] == 0),
    {
        let mut k: usize = 0;
        while k < 4
            invariant
                k <= 4,
                forall|t: int| 0 <= t < k ==> #[trigger] d.words@[t] & self.words@[t] == 0,
                forall|i: int| 0 <= i < 16 * k ==> digit_clear(self@, d@, i),
            decreases 4 - k,
        {
            proof {
                lemma_word_clear_iff_digits_clear(*self, *d, k as int);
            }
            if d.words[k] & self.words[k] != 0 {
                return false;
            }
            k += 1;
        }
        true
    }
}

/// Digits pass the mask for `z` trailing zeros exactly when the last `z` of
/// them are zero.
pub proof fn lemma_passes_iff_last_digits_zero(d: Seq<u8>, z: int)
    requires
        0 <= z <= 64,
        is_digits(d),
    ensures
        passes(mask_nibbles(z), d) <==> (forall|i: int| 64 - z <= i < 64 ==> #[trigger] d[i] == 0),
{
    let m = mask_nibbles(z);
    assert forall|i: int| 0 <= i < 64 implies (#[trigger] digit_clear(m, d, i) <==> (i >= 64 - z
        ==> d[i] == 0)) by {
        lemma_and_with_extremes(d[i]);
    }
    if passes(m, d) {
        assert forall|i: int| 64 - z <= i < 64 implies #[trigger] d[i] == 0 by {
            assert(digit_clear(m, d, i));
        }
    }
    if forall|i: int| 64 - z <= i < 64 ==> #[trigger] d[i] == 0 {
        assert forall|i: int| 0 <= i < 64 implies digit_clear(m, d, i) by {
            if i >= 64 - z {
                assert(d[i] == 0);
            }
        }
    }
}

/// The text has at least `z` trailing zeros exactly when its last `z`
/// characters are all `'0'`.
pub proof fn lemma_trailing_zeros_at_least(text: Seq<char>, z: int)
    requires
        0 <= z,
    ensures
        z <= trailing_zeros(text) <==> (z <= text.len() && forall|i: int|
            text.len() - z <= i < text.len() ==> #[trigger] text[i] == '0'),
    decreases text.len(),
{
    if z > 0 && text.len() > 0 {
        let rest = text.drop_last();
        let n = text.len() as int;
        lemma_trailing_zeros_at_least(rest, z - 1);
        if text.last() != '0' {
            assert(text[n - 1] != '0');
        } else if z <= n {
            assert forall|i: int| 0 <= i < n - 1 implies #[trigger] rest[i] == text[i] by {}
            let all_text = forall|i: int| n - z <= i < n ==> #[trigger] text[i] == '0';
            let all_rest = forall|i: int| n - z <= i < n - 1 ==> #[trigger] rest[i] == '0';
            if all_text {
                assert forall|i: int| n - z <= i < n - 1 implies #[trigger] rest[i] == '0' by {
                    assert(text[i] == '0');
                }
            }
            if all_rest {
                assert forall|i: int| n - z <= i < n implies #[trigger] text[i] == '0' by {
                    if i < n - 1 {
                        assert(rest[i] == '0');
                    }
                }
            }
            assert(all_text <==> all_rest);
        }
    }
}

/// Digits pass the mask for `z` trailing zeros exactly when their hex text
/// ends in at least `z` characters `'0'`.
pub proof fn lemma_passes_iff_hex_ends_in_zeros(d: Seq<u8>, z: int)
    requires
        0 <= z <= 64,
        is_digits(d),
    ensures
        passes(mask_nibbles(z), d) <==> z <= trailing_zeros(hex_of(d)),
{
    lemma_passes_iff_last_digits_zero(d, z);
    lemma_trailing_zeros_at_least(hex_of(d), z);
    let text = hex_of(d);
    assert forall|i: int| 0 <= i < 64 implies (#[trigger] text[i] == '0' <==> d[i] == 0) by {
        assert(text[i] == hex_char(d[i]));
    }
    if forall|i: int| 64 - z <= i < 64 ==> #[trigger] d[i] == 0 {
        assert forall|i: int| text.len() - z <= i < text.len() implies #[trigger] text[i]
            == '0' by {
            assert(d[i] == 0);
        }
    }
    if forall|i: int| text.len() - z <= i < text.len() ==> #[trigger] text[i] == '0' {
        assert forall|i: int| 64 - z <= i < 64 implies #[trigger] d[i] == 0 by {
            assert(text[i] == '0');
        }
    }
}

/// A digest is a match for `z` trailing zeros exactly when its hex text ends
/// in at least `z` characters `'0'`. So a digest whose text ends in exactly
/// `k` zeros is reported for every `z <= k` and for no `z > k`.
pub proof fn lemma_accepts_iff_hex_ends_in_zeros(m: Mask, d: Digest, z: int)
    requires
        0 <= z <= 64,
        m@ == mask_nibbles(z),
    ensures
        m.spec_accepts(&d) <==> z <= trailing_zeros(hex_of(d@)),
{
    lemma_nibbles_are_digits(d.words@);
    lemma_passes_iff_hex_ends_in_zeros(d@, z);
}

/// The mask for no trailing zeros lets every digest pass.
pub proof fn lemma_zero_mask_accepts_all(m: Mask, d: Digest)
    requires
        m@ == mask_nibbles(0),
    ensures
        m.spec_accepts(&d),
{
    lemma_nibbles_are_digits(d.words@);
    lemma_passes_iff_last_digits_zero(d@, 0);
}

/// The mask for `z` trailing zeros has exactly `4 * z` bits set: the last
/// `4 * z` of the 256.
pub proof fn lemma_mask_bits(m: Mask, z: int)
    requires
        0 <= z <= 64,
        m@ == mask_nibbles(z),
    ensures
        forall|p: int| 0 <= p < 256 ==> (#[trigger] bit_at(m.words@, p) <==> p >= 256 - 4 * z),
        Set::new(|p: int| 0 <= p < 256 && bit_at(m.words@, p)).finite(),
        Set::new(|p: int| 0 <= p < 256 && bit_at(m.words@, p)).len() == 4 * z,
{
    assert forall|p: int| 0 <= p < 256 implies (#[trigger] bit_at(m.words@, p) <==> p >= 256 - 4
        * z) by {
        assert(m@[p / 4] == nibble_at(m.words@, p / 4));
        assert(m@[p / 4] == mask_nibbles(z)[p / 4]);
        lemma_bit_of_full_or_empty_nibble(m.words@, p);
    }
    let set_bits = Set::new(|p: int| 0 <= p < 256 && bit_at(m.words@, p));
    vstd::set_lib::lemma_int_range(256 - 4 * z, 256);
    assert(set_bits =~= vstd::set_lib::set_int_range(256 - 4 * z, 256));
}

} // verus!
