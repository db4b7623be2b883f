use mcproxy::text::{chars_of, decimal_string, find, parse_unsigned, six_digit_string, trim};

#[test]
fn trim_strips_unicode_whitespace() {
    assert_eq!(trim("  \t hello world \r\n").as_str(), "hello world");
    assert_eq!(trim("\u{3000}name\u{a0}").as_str(), "name");
    assert_eq!(trim("   ").as_str(), "");
    assert_eq!(trim("").as_str(), "");
}

#[test]
fn find_gives_first_character_position() {
    let h = chars_of("ab[AD]cd[AD]");
    assert_eq!(find(&h, &chars_of("[AD]")), Some(2));
    assert_eq!(find(&h, &chars_of("[/AD]")), None);
    assert_eq!(find(&h, &chars_of("")), Some(0));
    let wide = chars_of("é[AD]");
    assert_eq!(find(&wide, &chars_of("[AD]")), Some(1));
}

#[test]
fn parse_unsigned_reads_like_from_str() {
    let cs = chars_of("25565");
    assert_eq!(parse_unsigned(&cs, 0, cs.len(), 65535), Some(25565));
    let plus = chars_of("+80");
    assert_eq!(parse_unsigned(&plus, 0, plus.len(), 65535), Some(80));
    let big = chars_of("65536");
    assert_eq!(parse_unsigned(&big, 0, big.len(), 65535), None);
    let max = chars_of("65535");
    assert_eq!(parse_unsigned(&max, 0, max.len(), 65535), Some(65535));
    let neg = chars_of("-1");
    assert_eq!(parse_unsigned(&neg, 0, neg.len(), 65535), None);
    let empty = chars_of("+");
    assert_eq!(parse_unsigned(&empty, 0, empty.len(), 65535), None);
    let junk = chars_of("12a");
    assert_eq!(parse_unsigned(&junk, 0, junk.len(), 65535), None);
    assert_eq!("25565".parse::<u16>().ok(), Some(25565));
    assert_eq!("+80".parse::<u16>().ok(), Some(80));
}

#[test]
fn decimal_and_room_code_formatting() {
    assert_eq!(decimal_string(0).as_str(), "0");
    assert_eq!(decimal_string(25565).as_str(), "25565");
    assert_eq!(decimal_string(u64::MAX).as_str(), u64::MAX.to_string());
    assert_eq!(six_digit_string(42).as_str(), "000042");
    assert_eq!(six_digit_string(999999).as_str(), "999999");
    assert_eq!(six_digit_string(123456).as_str(), format!("{:06}", 123456));
}

#[test]
fn decimal_reads_back() {
    for n in [0u64, 7, 10, 65535, 1_000_000] {
        let s = decimal_string(n);
        let cs = chars_of(&s);
        assert_eq!(parse_unsigned(&cs, 0, cs.len(), u64::MAX), Some(n));
    }
}
