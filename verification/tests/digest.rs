use hashsearch::digest::{encode_candidate, hex_digit, Digest};

#[test]
fn candidate_is_encoded_least_significant_byte_first() {
    assert_eq!(encode_candidate(1), [1, 0, 0, 0, 0, 0, 0, 0]);
    assert_eq!(
        encode_candidate(0x0102_0304_0506_0708),
        [0x08, 0x07, 0x06, 0x05, 0x04, 0x03, 0x02, 0x01]
    );
    assert_eq!(encode_candidate(u64::MAX), [0xff; 8]);
    assert_eq!(encode_candidate(0), [0; 8]);
}

#[test]
fn encoding_agrees_with_the_standard_library() {
    for n in [1u64, 255, 256, 65_535, 1 << 32, u64::MAX - 1] {
        assert_eq!(encode_candidate(n), n.to_le_bytes());
    }
}

#[test]
fn hex_digits_are_lowercase() {
    let text: String = (0..16u8).map(hex_digit).collect();
    assert_eq!(text, "0123456789abcdef");
}

#[test]
fn digest_of_one_is_the_sha256_of_its_eight_bytes() {
    let digest = Digest::of_candidate(1);
    assert_eq!(
        digest.to_hex(),
        "7c9fa136d4413fa6173637e883b6998d32e1d675f88cddff9dcbcf331820f4b8"
    );
}

#[test]
fn digest_agrees_with_the_hash_crate() {
    for n in [1u64, 2, 3, 14, 2664, u64::MAX] {
        let reference = <sha2::Sha256 as sha2::Digest>::digest(n.to_le_bytes());
        assert_eq!(Digest::of_candidate(n).to_hex(), format!("{:x}", reference));
    }
}

#[test]
fn digest_of_zero_and_of_the_largest_candidate() {
    assert_eq!(
        Digest::of_candidate(0).to_hex(),
        "af5570f5a1810b7af78caf4bc70a660f0df51e42baf91d4de5b2328de0e83dfc"
    );
    assert_eq!(
        Digest::of_candidate(u64::MAX).to_hex(),
        "12a3ae445661ce5dee78d0650d33362dec29c4f82af05e7e57fb595bbbacf0ca"
    );
}

#[test]
fn words_are_little_endian_groups_of_eight_bytes() {
    let digest = Digest::of_candidate(1);
    assert_eq!(
        digest.words,
        [
            0xa63f_41d4_36a1_9f7c,
            0x8d99_b683_e837_3617,
            0xffdd_8cf8_75d6_e132,
            0xb8f4_2018_33cf_cb9d
        ]
    );
}

#[test]
fn from_bytes_keeps_the_order_of_the_bytes() {
    let mut bytes = [0u8; 32];
    for (i, b) in bytes.iter_mut().enumerate() {
        *b = i as u8;
    }
    let digest = Digest::from_bytes(&bytes);
    assert_eq!(digest.words[0], 0x0706_0504_0302_0100);
    assert_eq!(digest.words[3], 0x1f1e_1d1c_1b1a_1918);
    assert_eq!(
        digest.to_hex(),
        "000102030405060708090a0b0c0d0e0f101112131415161718191a1b1c1d1e1f"
    );
}

#[test]
fn nibbles_are_the_hex_digits_in_order() {
    let digest = Digest::of_candidate(1);
    let hex = digest.to_hex();
    assert_eq!(hex.len(), 64);
    for (i, c) in hex.chars().enumerate() {
        assert_eq!(hex_digit(digest.nibble(i)), c);
    }
    assert_eq!(digest.nibble(0), 0x7);
    assert_eq!(digest.nibble(1), 0xc);
    assert_eq!(digest.nibble(63), 0x8);
}
