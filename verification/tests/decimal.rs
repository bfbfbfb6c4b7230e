use memimpact::decimal::{
    parse_i32, parse_i32_chars, parse_u64, parse_u64_chars, push_i32, push_u64,
};

#[test]
fn parse_i32_reads_signed_decimals() {
    assert_eq!(parse_i32("0"), Some(0));
    assert_eq!(parse_i32("1234"), Some(1234));
    assert_eq!(parse_i32("-1234"), Some(-1234));
    assert_eq!(parse_i32("+1234"), Some(1234));
    assert_eq!(parse_i32("007"), Some(7));
    assert_eq!(parse_i32("-0"), Some(0));
    assert_eq!(parse_i32("2147483647"), Some(i32::MAX));
    assert_eq!(parse_i32("-2147483648"), Some(i32::MIN));
    assert_eq!(parse_i32("0000000000002147483647"), Some(i32::MAX));
}

#[test]
fn parse_i32_rejects_everything_else() {
    for text in [
        "", "+", "-", "--1", "+-1", "1 ", " 1", "1_000", "12a", "a12", "1.0", "2147483648",
        "-2147483649", "99999999999999999999999", "\u{661}\u{662}",
    ] {
        assert_eq!(parse_i32(text), None, "{:?}", text);
        assert_eq!(text.parse::<i32>().ok(), None, "{:?}", text);
    }
}

#[test]
fn parse_u64_reads_unsigned_decimals() {
    assert_eq!(parse_u64("0"), Some(0));
    assert_eq!(parse_u64("50"), Some(50));
    assert_eq!(parse_u64("+50"), Some(50));
    assert_eq!(parse_u64("18446744073709551615"), Some(u64::MAX));
    assert_eq!(parse_u64("000018446744073709551615"), Some(u64::MAX));
}

#[test]
fn parse_u64_rejects_everything_else() {
    for text in [
        "", "+", "-", "-0", "-1", "++1", "1 ", " 1", "12a", "18446744073709551616",
        "184467440737095516150", "99999999999999999999999",
    ] {
        assert_eq!(parse_u64(text), None, "{:?}", text);
        assert_eq!(text.parse::<u64>().ok(), None, "{:?}", text);
    }
}

#[test]
fn parsers_over_characters_agree_with_those_over_text() {
    for text in ["", "12", "-12", "+12", "x", "4294967296"] {
        let chars: Vec<char> = text.chars().collect();
        assert_eq!(parse_i32_chars(&chars), parse_i32(text));
        assert_eq!(parse_u64_chars(&chars), parse_u64(text));
    }
}

#[test]
fn push_writes_decimal_text() {
    let mut out = String::from("n=");
    push_u64(&mut out, 0);
    out.push(',');
    push_u64(&mut out, 9);
    out.push(',');
    push_u64(&mut out, 10);
    out.push(',');
    push_u64(&mut out, 1700000000);
    out.push(',');
    push_u64(&mut out, u64::MAX);
    assert_eq!(out, "n=0,9,10,1700000000,18446744073709551615");

    let mut out = String::new();
    push_i32(&mut out, 0);
    out.push(',');
    push_i32(&mut out, -1);
    out.push(',');
    push_i32(&mut out, i32::MAX);
    out.push(',');
    push_i32(&mut out, i32::MIN);
    assert_eq!(out, "0,-1,2147483647,-2147483648");
}

#[test]
fn written_numbers_are_read_back() {
    for n in [0, 1, -1, 9, 10, 99, 100, 4242, -4242, i32::MAX, i32::MIN] {
        let mut out = String::new();
        push_i32(&mut out, n);
        assert_eq!(out, n.to_string());
        assert_eq!(parse_i32(&out), Some(n));
    }
    for n in [0, 1, 1023, 1024, u64::MAX / 10, u64::MAX - 1, u64::MAX] {
        let mut out = String::new();
        push_u64(&mut out, n);
        assert_eq!(out, n.to_string());
        assert_eq!(parse_u64(&out), Some(n));
    }
}
