use hashsearch::digest::Digest;
use hashsearch::error::SearchError;
use hashsearch::mask::{make_check_mask, Mask};

fn mask_bytes(mask: &Mask) -> Vec<u8> {
    let mut bytes: Vec<u8> = Vec::new();
    for word in mask.words.iter() {
        bytes.extend_from_slice(&word.to_le_bytes());
    }
    bytes
}

fn set_bits(mask: &Mask) -> u32 {
    mask.words.iter().map(|w| w.count_ones()).sum()
}

#[test]
fn zero_count_gives_empty_mask() {
    let mask = make_check_mask(0).unwrap();
    assert_eq!(mask.words, [0u64; 4]);
}

#[test]
fn one_zero_masks_low_half_of_last_byte() {
    let mask = make_check_mask(1).unwrap();
    assert_eq!(mask.words, [0, 0, 0, 0x0f00_0000_0000_0000]);
}

#[test]
fn two_zeros_mask_last_byte() {
    let mask = make_check_mask(2).unwrap();
    assert_eq!(mask.words, [0, 0, 0, 0xff00_0000_0000_0000]);
}

#[test]
fn three_zeros_mask_one_and_a_half_bytes() {
    let mask = make_check_mask(3).unwrap();
    assert_eq!(mask.words, [0, 0, 0, 0xff0f_0000_0000_0000]);
}

#[test]
fn seventeen_zeros_reach_into_third_word() {
    let mask = make_check_mask(17).unwrap();
    assert_eq!(mask.words, [0, 0, 0x0f00_0000_0000_0000, u64::MAX]);
}

#[test]
fn sixty_four_zeros_mask_everything() {
    let mask = make_check_mask(64).unwrap();
    assert_eq!(mask.words, [u64::MAX; 4]);
}

#[test]
fn more_than_sixty_four_zeros_are_refused() {
    assert_eq!(make_check_mask(65), Err(SearchError::ZerosOutOfRange));
    assert_eq!(make_check_mask(usize::MAX), Err(SearchError::ZerosOutOfRange));
}

#[test]
fn mask_has_four_bits_for_each_zero() {
    for z in 0..=64usize {
        let mask = make_check_mask(z).unwrap();
        assert_eq!(set_bits(&mask), 4 * z as u32);
    }
}

#[test]
fn mask_covers_the_trailing_digits() {
    for z in 0..=64usize {
        let mask = make_check_mask(z).unwrap();
        let bytes = mask_bytes(&mask);
        for i in 0..64usize {
            let byte = bytes[i / 2];
            let digit = if i % 2 == 0 { byte >> 4 } else { byte & 0x0f };
            let expected: u8 = if i >= 64 - z { 0x0f } else { 0 };
            assert_eq!(digit, expected);
        }
    }
}

#[test]
fn empty_mask_accepts_every_digest() {
    let mask = make_check_mask(0).unwrap();
    assert!(mask.accepts(&Digest { words: [u64::MAX; 4] }));
    assert!(mask.accepts(&Digest { words: [0; 4] }));
    for n in 1..=50u64 {
        assert!(mask.accepts(&Digest::of_candidate(n)));
    }
}

#[test]
fn accepts_looks_at_every_word() {
    let mask = make_check_mask(64).unwrap();
    assert!(mask.accepts(&Digest { words: [0; 4] }));
    assert!(!mask.accepts(&Digest { words: [1, 0, 0, 0] }));
    assert!(!mask.accepts(&Digest { words: [0, 1, 0, 0] }));
    assert!(!mask.accepts(&Digest { words: [0, 0, 1, 0] }));
    assert!(!mask.accepts(&Digest { words: [0, 0, 0, 1] }));
}

#[test]
fn accepts_ignores_digits_outside_the_mask() {
    let mask = make_check_mask(2).unwrap();
    assert!(mask.accepts(&Digest { words: [u64::MAX, u64::MAX, u64::MAX, 0x00ff_ffff_ffff_ffff] }));
    assert!(!mask.accepts(&Digest { words: [0, 0, 0, 0x0100_0000_0000_0000] }));
    assert!(!mask.accepts(&Digest { words: [0, 0, 0, 0x1000_0000_0000_0000] }));
}

#[test]
fn match_exactly_up_to_the_trailing_zeros_of_the_hex_text() {
    for n in [1u64, 14, 75, 502, 929, 2664] {
        let digest = Digest::of_candidate(n);
        let hex = digest.to_hex();
        let zeros: usize = hex.chars().rev().take_while(|c| *c == '0').count();
        for z in 0..=64usize {
            let mask = make_check_mask(z).unwrap();
            assert_eq!(mask.accepts(&digest), z <= zeros);
        }
    }
}

#[test]
fn candidate_with_three_trailing_zeros() {
    let digest = Digest::of_candidate(2664);
    assert!(make_check_mask(3).unwrap().accepts(&digest));
    assert!(!make_check_mask(4).unwrap().accepts(&digest));
}
