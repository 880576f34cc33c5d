use syncplay::text::{decimal_string, parse_unsigned, push_decimal};

#[test]
fn numbers_in_decimal() {
    assert_eq!(decimal_string(0), "0");
    assert_eq!(decimal_string(9), "9");
    assert_eq!(decimal_string(10), "10");
    assert_eq!(decimal_string(48_000), "48000");
    assert_eq!(decimal_string(u64::MAX), "18446744073709551615");
    let mut text = String::from("port ");
    push_decimal(&mut text, 12_345);
    assert_eq!(text, "port 12345");
}

#[test]
fn numbers_are_read_like_the_standard_library_reads_them() {
    for text in [
        "0", "7", "00012", "+5", "48000", "4294967295", "4294967296", "99999999999999999999999",
        "", "+", "-0", " 1", "1 ", "1_0", "0x1", "+-1", "\u{661}",
    ] {
        assert_eq!(parse_unsigned(text.as_bytes(), u32::MAX), text.parse::<u32>().ok(), "{text}");
        assert_eq!(
            parse_unsigned(text.as_bytes(), 65535),
            text.parse::<u16>().ok().map(u32::from),
            "{text}"
        );
    }
}

#[test]
fn decimal_is_read_back() {
    for n in [0u32, 1, 9, 10, 99, 100, 65535, 1_000_000, u32::MAX] {
        assert_eq!(parse_unsigned(decimal_string(n as u64).as_bytes(), u32::MAX), Some(n));
    }
}
