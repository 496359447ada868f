use hashsearch::text::{format_line, push_decimal};

fn decimal(n: u64) -> String {
    let mut text = String::new();
    push_decimal(&mut text, n);
    text
}

#[test]
fn decimal_of_small_numbers() {
    assert_eq!(decimal(0), "0");
    assert_eq!(decimal(7), "7");
    assert_eq!(decimal(10), "10");
    assert_eq!(decimal(2664), "2664");
}

#[test]
fn decimal_of_the_largest_number() {
    assert_eq!(decimal(u64::MAX), "18446744073709551615");
}

#[test]
fn decimal_agrees_with_the_standard_library() {
    for n in [1u64, 9, 99, 100, 101, 12_345_678_901_234_567_890, 1 << 63] {
        assert_eq!(decimal(n), n.to_string());
    }
}

#[test]
fn decimal_is_appended_to_what_is_there() {
    let mut text = String::from("n = ");
    push_decimal(&mut text, 42);
    assert_eq!(text, "n = 42");
}

#[test]
fn line_is_number_colon_space_hex() {
    assert_eq!(
        format_line(1, "7c9fa136d4413fa6173637e883b6998d32e1d675f88cddff9dcbcf331820f4b8"),
        "1: 7c9fa136d4413fa6173637e883b6998d32e1d675f88cddff9dcbcf331820f4b8"
    );
    assert_eq!(format_line(502, "00"), "502: 00");
}
