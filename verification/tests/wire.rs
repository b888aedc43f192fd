use xvc_core::wire::{parse_u32, push_decimal, u32_from_le_bytes, u32_to_le_bytes, NumberError};

#[test]
fn little_endian_bytes() {
    assert_eq!(u32_to_le_bytes(0x1234_5678), [0x78, 0x56, 0x34, 0x12]);
    assert_eq!(u32_to_le_bytes(0), [0, 0, 0, 0]);
    assert_eq!(u32_to_le_bytes(u32::MAX), [0xFF, 0xFF, 0xFF, 0xFF]);
    assert_eq!(u32_to_le_bytes(1), [1, 0, 0, 0]);
    assert_eq!(u32_to_le_bytes(0x0100_0000), [0, 0, 0, 1]);
}

#[test]
fn little_endian_value() {
    assert_eq!(u32_from_le_bytes([0x78, 0x56, 0x34, 0x12]), 0x1234_5678);
    assert_eq!(u32_from_le_bytes([0, 0, 0, 0]), 0);
    assert_eq!(u32_from_le_bytes([0xFF, 0xFF, 0xFF, 0xFF]), u32::MAX);
    assert_eq!(u32_from_le_bytes([0, 1, 0, 0]), 256);
}

#[test]
fn little_endian_agrees_with_std() {
    for x in [0u32, 1, 255, 256, 65535, 65536, 0xDEAD_BEEF, u32::MAX - 1, u32::MAX] {
        assert_eq!(u32_to_le_bytes(x), x.to_le_bytes());
        assert_eq!(u32_from_le_bytes(x.to_le_bytes()), x);
        assert_eq!(u32_from_le_bytes(u32_to_le_bytes(x)), x);
    }
}

fn decimal_of(n: u64) -> Vec<u8> {
    let mut out = Vec::new();
    push_decimal(&mut out, n);
    out
}

#[test]
fn decimal_digits() {
    assert_eq!(decimal_of(0), b"0".to_vec());
    assert_eq!(decimal_of(7), b"7".to_vec());
    assert_eq!(decimal_of(10), b"10".to_vec());
    assert_eq!(decimal_of(10485760), b"10485760".to_vec());
    assert_eq!(decimal_of(4294967295), b"4294967295".to_vec());
    assert_eq!(decimal_of(u64::MAX), b"18446744073709551615".to_vec());
}

#[test]
fn decimal_digits_are_appended() {
    let mut out = b"n=".to_vec();
    push_decimal(&mut out, 42);
    assert_eq!(out, b"n=42".to_vec());
}

#[test]
fn numbers_are_parsed() {
    assert_eq!(parse_u32(b"0"), Ok(0));
    assert_eq!(parse_u32(b"32"), Ok(32));
    assert_eq!(parse_u32(b"+32"), Ok(32));
    assert_eq!(parse_u32(b"007"), Ok(7));
    assert_eq!(parse_u32(b"4294967295"), Ok(u32::MAX));
    assert_eq!(parse_u32(b"0000000004294967295"), Ok(u32::MAX));
}

#[test]
fn wrong_numbers_are_refused() {
    assert_eq!(parse_u32(b""), Err(NumberError::Empty));
    assert_eq!(parse_u32(b"+"), Err(NumberError::InvalidDigit));
    assert_eq!(parse_u32(b"-"), Err(NumberError::InvalidDigit));
    assert_eq!(parse_u32(b"-1"), Err(NumberError::InvalidDigit));
    assert_eq!(parse_u32(b"12a"), Err(NumberError::InvalidDigit));
    assert_eq!(parse_u32(b" 12"), Err(NumberError::InvalidDigit));
    assert_eq!(parse_u32(b"12 "), Err(NumberError::InvalidDigit));
    assert_eq!(parse_u32(b"1_000"), Err(NumberError::InvalidDigit));
    assert_eq!(parse_u32(b"++1"), Err(NumberError::InvalidDigit));
    assert_eq!(parse_u32(b"4294967296"), Err(NumberError::Overflow));
    assert_eq!(parse_u32(b"99999999999"), Err(NumberError::Overflow));
    assert_eq!(parse_u32(b"4294967295x"), Err(NumberError::InvalidDigit));
    assert_eq!(parse_u32(b"99999999999x"), Err(NumberError::Overflow));
    assert_eq!(parse_u32(b"x99999999999"), Err(NumberError::InvalidDigit));
    assert_eq!(parse_u32(&[0x31, 0xC3, 0xA9]), Err(NumberError::InvalidDigit));
}

#[test]
fn numbers_are_parsed_as_std_parses_them() {
    let samples: [&str; 14] = [
        "0", "1", "+1", "-1", "", "+", "-", "42", "4294967295", "4294967296", "12a", "a12",
        "00000000000000000001", "429496729500",
    ];
    for text in samples {
        let ours = parse_u32(text.as_bytes()).ok();
        let theirs = text.parse::<u32>().ok();
        assert_eq!(ours, theirs, "{:?}", text);
    }
}

#[test]
fn parsing_the_digits_of_a_number_gives_it_back() {
    for n in [0u32, 9, 10, 99, 100, 32, 10485760, u32::MAX] {
        assert_eq!(parse_u32(&decimal_of(n as u64)), Ok(n));
    }
}
