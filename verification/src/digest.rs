//! The SHA-256 digest of a candidate, as words and as hex text.
use vstd::prelude::*;
use crate::layout::{nibble_shift, nibbles_of, nibbles_of_bytes, pack_words};
use crate::text::push_char;

verus! {

/// The SHA-256 hash of a byte string, as its 32 bytes.
pub uninterp spec fn sha256(data: Seq<u8>) -> Seq<u8>;

/// Calls `Sha256::digest` of the `sha2` crate on `data`. The contract says
/// that the 32 bytes returned are the SHA-256 hash of `data`, a function of
/// the bytes alone.
#[verifier::external_body]
fn sha256_of(data: &[u8]) -> (out: [u8; 32])
    ensures
        out@ == sha256(data@),
{
    let hash = <sha2::Sha256 as sha2::Digest>::digest(data);
    hash.into()
}

/// The eight bytes of a candidate, least significant first.
pub open spec fn candidate_bytes(n: u64) -> Seq<u8> {
    Seq::new(8, |k: int| ((n >> ((8 * k) as u64)) & 0xff) as u8)
}

/// Encodes a candidate as its eight little-endian bytes.
pub fn encode_candidate(n: u64) -> (bytes: [u8; 8])
    ensures
        bytes@ == candidate_bytes(n),
{
    let mut bytes: [u8; 8] = [0u8; 8];
    let mut k: usize = 0;
    while k < 8
        invariant
            k <= 8,
            forall|t: int| 0 <= t < k ==> #[trigger] bytes@[t] == candidate_bytes(n)[t],
        decreases 8 - k,
    {
        let shift: u64 = 8 * (k as u64);
        let low: u64 = (n >> shift) & 0xff;
        assert(low <= 0xff) by (bit_vector)
            requires
                low == (n >> shift) & 0xff,
        ;
        bytes[k] = low as u8;
        k += 1;
    }
    assert(bytes@ =~= candidate_bytes(n));
    bytes
}

/// The character that stands for a hex digit. A number above 15 is no hex
/// digit and is written like 15.
pub open spec fn hex_char(n: u8) -> char {
    if n == 0 {
        '0'
    } else if n == 1 {
        '1'
    } else if n == 2 {
        '2'
    } else if n == 3 {
        '3'
    } else if n == 4 {
        '4'
    } else if n == 5 {
        '5'
    } else if n == 6 {
        '6'
    } else if n == 7 {
        '7'
    } else if n == 8 {
        '8'
    } else if n == 9 {
        '9'
    } else if n == 10 {
        'a'
    } else if n == 11 {
        'b'
    } else if n == 12 {
        'c'
    } else if n == 13 {
        'd'
    } else if n == 14 {
        'e'
    } else {
        'f'
    }
}

/// The hex text of a sequence of hex digits.
pub open spec fn hex_of(nibbles: Seq<u8>) -> Seq<char> {
    Seq::new(nibbles.len(), |i: int| hex_char(nibbles[i]))
}

/// The lowercase character for a hex digit.
pub fn hex_digit(n: u8) -> (c: char)
    ensures
        c == hex_char(n),
{
    if n == 0 {
        '0'
    } else if n == 1 {
        '1'
    } else if n == 2 {
        '2'
    } else if n == 3 {
        '3'
    } else if n == 4 {
        '4'
    } else if n == 5 {
        '5'
    } else if n == 6 {
        '6'
    } else if n == 7 {
        '7'
    } else if n == 8 {
        '8'
    } else if n == 9 {
        '9'
    } else if n == 10 {
        'a'
    } else if n == 11 {
        'b'
    } else if n == 12 {
        'c'
    } else if n == 13 {
        'd'
    } else if n == 14 {
        'e'
    } else {
        'f'
    }
}

/// The hex digits of the digest of candidate `n`.
pub open spec fn digest_nibbles(n: u64) -> Seq<u8> {
    nibbles_of_bytes(sha256(candidate_bytes(n)))
}

/// A 256-bit digest.
#[derive(Clone, Copy, Debug, PartialEq, Eq)]
pub struct Digest {
    /// The digest as four little-endian words, the first bytes first.
    pub words: [u64; 4],
}

impl View for Digest {
    type V = Seq<u8>;

    /// The digest as its 64 hex digits, first digit first.
    open spec fn view(&self) -> Seq<u8> {
        nibbles_of(self.words@)
    }
}

impl Digest {
    /// The digest whose 32 bytes are `bytes`.
    pub fn from_bytes(bytes: &[u8; 32]) -> (d: Digest)
        ensures
            d@ == nibbles_of_bytes(bytes@),
    {
        Digest { words: pack_words(bytes) }
    }

    /// The SHA-256 digest of the little-endian encoding of candidate `n`.
    pub fn of_candidate(n: u64) -> (d: Digest)
        ensures
            d@ == digest_nibbles(n),
    {
        let bytes = encode_candidate(n);
        let hash = sha256_of(bytes.as_slice());
        Digest::from_bytes(&hash)
    }

    /// Hex digit `i` of the digest, as a number below 16.
    pub fn nibble(&self, i: usize) -> (n: u8)
        requires
            i < 64,
        ensures
            n == self@[i as int],
            n < 16,
    {
        let half: u64 = if i % 2 == 0 {
            4
        } else {
            0
        };
        let shift: u64 = 8 * (((i / 2) % 8) as u64) + half;
        assert(shift == nibble_shift(i as int));
        let word: u64 = self.words[i / 16];
        let low: u64 = (word >> shift) & 0xf;
        assert(low < 16) by (bit_vector)
            requires
                low == (word >> shift) & 0xf,
        ;
        low as u8
    }

    /// The digest as 64 lowercase hex characters.
    pub fn to_hex(&self) -> (text: String)
        ensures
            text@ == hex_of(self@),
    {
        let mut text = String::new();
        let mut i: usize = 0;
        while i < 64
            invariant
                i <= 64,
                text@ == hex_of(self@.take(i as int)),
            decreases 64 - i,
        {
            let c = hex_digit(self.nibble(i));
            push_char(&mut text, c);
            assert(hex_of(self@.take(i as int)).push(c) =~= hex_of(self@.take(i + 1)));
            i += 1;
        }
        assert(self@.take(64) =~= self@);
        text
    }
}

} // verus!
