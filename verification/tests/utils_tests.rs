use lib::utils::{hex_digits, is_match, memcmp, parse_token, strlen, terminated_len, FdtToken};

#[test]
fn parse_token_known_codes() {
    assert_eq!(parse_token(0x0000_0001), Ok(FdtToken::BeginNode));
    assert_eq!(parse_token(0x0000_0002), Ok(FdtToken::EndNode));
    assert_eq!(parse_token(0x0000_0003), Ok(FdtToken::Prop));
    assert_eq!(parse_token(0x0000_0004), Ok(FdtToken::Nop));
    assert_eq!(parse_token(0x0000_0009), Ok(FdtToken::End));
}

#[test]
fn parse_token_rejects_other_words() {
    for raw in [0u32, 5, 6, 7, 8, 10, 0x0100_0000, 0xffff_ffff] {
        assert_eq!(parse_token(raw), Err("Invalid hardware token"));
    }
}

#[test]
fn token_code_roundtrip() {
    for t in [FdtToken::BeginNode, FdtToken::EndNode, FdtToken::Prop, FdtToken::Nop, FdtToken::End] {
        assert_eq!(parse_token(t.code()), Ok(t));
    }
    assert_eq!(FdtToken::End.code(), 9);
}

#[test]
fn memcmp_equal_prefixes_give_zero() {
    assert_eq!(memcmp(b"abcdef", b"abcxyz", 3), 0);
    assert_eq!(memcmp(b"abc", b"abc", 3), 0);
    assert_eq!(memcmp(b"", b"", 0), 0);
    assert_eq!(memcmp(b"x", b"y", 0), 0);
}

#[test]
fn memcmp_gives_difference_of_first_differing_bytes() {
    assert_eq!(memcmp(b"abd", b"abc", 3), 1);
    assert_eq!(memcmp(b"abc", b"abd", 3), -1);
    assert_eq!(memcmp(&[0u8, 255], &[0u8, 0], 2), 255);
    assert_eq!(memcmp(&[0u8, 0], &[0u8, 255], 2), -255);
    assert_eq!(memcmp(b"azz", b"baa", 3), -1);
}

#[test]
fn memcmp_is_antisymmetric() {
    let a = [3u8, 9, 200, 7];
    let b = [3u8, 9, 17, 250];
    assert_eq!(memcmp(&a, &b, 4), -memcmp(&b, &a, 4));
    assert_eq!(memcmp(&a, &a, 4), 0);
}

#[test]
fn strlen_counts_up_to_first_zero() {
    assert_eq!(strlen(b"hello\0world\0"), 5);
    assert_eq!(strlen(b"\0"), 0);
    assert_eq!(strlen(b"cpus\0\0\0\0"), 4);
}

#[test]
fn terminated_len_without_zero() {
    assert_eq!(terminated_len(b"abc"), None);
    assert_eq!(terminated_len(b""), None);
    assert_eq!(terminated_len(b"ab\0"), Some(2));
}

#[test]
fn is_match_compares_length_then_bytes() {
    assert!(is_match(b"reg\0junk", 4, b"reg\0"));
    assert!(!is_match(b"reg\0", 3, b"reg\0"));
    assert!(!is_match(b"rex\0", 4, b"reg\0"));
    assert!(!is_match(b"compatible\0", 11, b"compatiblE\0"));
    assert!(is_match(b"", 0, b""));
}

#[test]
fn hex_digits_of_bytes() {
    assert_eq!(hex_digits(0x00), *b"00");
    assert_eq!(hex_digits(0x3c), *b"3c");
    assert_eq!(hex_digits(0xff), *b"ff");
    assert_eq!(hex_digits(0xa5), *b"a5");
}

#[test]
fn memcmp_stops_at_first_difference() {
    assert_eq!(memcmp(b"ab", b"ac", 5), -1);
    assert_eq!(memcmp(b"x", b"yzz", 3), -1);
}

#[test]
fn is_match_stops_at_first_mismatch() {
    assert!(!is_match(b"rx", 4, b"reg\0"));
    assert!(!is_match(b"cx", 11, b"compatible\0"));
}
