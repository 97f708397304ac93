use godbolt_proxy::number::{parse_bounded, parse_chars, parse_u16, parse_u64};

#[test]
fn parse_u64_reads_plain_numerals() {
    assert_eq!(parse_u64("0"), Some(0));
    assert_eq!(parse_u64("43200"), Some(43200));
    assert_eq!(parse_u64("007"), Some(7));
}

#[test]
fn parse_u64_accepts_a_leading_plus() {
    assert_eq!(parse_u64("+5"), Some(5));
    assert_eq!(parse_u64("+"), None);
    assert_eq!(parse_u64("++5"), None);
}

#[test]
fn parse_u64_refuses_what_is_no_numeral() {
    for s in ["", " ", "-1", "-0", "12a", "a12", "1 2", " 12", "12 ", "1_000", "１２", "0x10", "1.5"] {
        assert_eq!(parse_u64(s), None, "{:?}", s);
    }
}

#[test]
fn parse_u64_stops_at_the_largest_value() {
    assert_eq!(parse_u64("18446744073709551615"), Some(u64::MAX));
    assert_eq!(parse_u64("18446744073709551616"), None);
    assert_eq!(parse_u64("99999999999999999999999"), None);
    assert_eq!(parse_u64("000000000000000000000000001"), Some(1));
}

#[test]
fn parse_u64_agrees_with_std() {
    for s in ["", "+", "-", "0", "+0", "-0", "42", "+42", "18446744073709551615",
              "18446744073709551616", "4a", "٣", "00", " 1"] {
        assert_eq!(parse_u64(s), s.parse::<u64>().ok(), "{:?}", s);
    }
}

#[test]
fn parse_u16_stops_at_sixteen_bits() {
    assert_eq!(parse_u16("65535"), Some(65535));
    assert_eq!(parse_u16("65536"), None);
    assert_eq!(parse_u16("70"), Some(70));
    assert_eq!(parse_u16(""), None);
    for s in ["0", "65535", "65536", "+7", "-7", "x"] {
        assert_eq!(parse_u16(s), s.parse::<u16>().ok(), "{:?}", s);
    }
}

#[test]
fn parse_bounded_respects_small_bounds() {
    assert_eq!(parse_bounded("5", 5), Some(5));
    assert_eq!(parse_bounded("6", 5), None);
    assert_eq!(parse_bounded("0", 0), Some(0));
    assert_eq!(parse_bounded("1", 0), None);
    assert_eq!(parse_bounded("10", 9), None);
}

#[test]
fn parse_chars_reads_a_stretch() {
    let v: Vec<char> = "1.70.0".chars().collect();
    assert_eq!(parse_chars(&v, 0, 1, 65535), Some(1));
    assert_eq!(parse_chars(&v, 2, 4, 65535), Some(70));
    assert_eq!(parse_chars(&v, 5, 6, 65535), Some(0));
    assert_eq!(parse_chars(&v, 0, 4, 65535), None);
    assert_eq!(parse_chars(&v, 1, 1, 65535), None);
}
