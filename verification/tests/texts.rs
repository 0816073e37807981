use tiktok_json_analyzer::text::{chars_of, parse_u64, push_decimal, text_of};

fn decimal(n: u64) -> String {
    let mut out = String::new();
    push_decimal(n, &mut out);
    out
}

#[test]
fn texts_are_taken_apart_and_put_together() {
    assert_eq!(chars_of(""), Vec::<char>::new());
    assert_eq!(chars_of("a\u{e9}\u{1F600}"), vec!['a', '\u{e9}', '\u{1F600}']);
    assert_eq!(text_of(&vec![]), "");
    assert_eq!(text_of(&vec!['a', '\u{e9}', '\u{1F600}']), "a\u{e9}\u{1F600}");
    assert_eq!(text_of(&chars_of("round trip")), "round trip");
}

#[test]
fn decimal_numbers_are_read() {
    assert_eq!(parse_u64("0"), Some(0));
    assert_eq!(parse_u64("7"), Some(7));
    assert_eq!(parse_u64("+7"), Some(7));
    assert_eq!(parse_u64("0042"), Some(42));
    assert_eq!(parse_u64("1234567890"), Some(1_234_567_890));
    assert_eq!(parse_u64("18446744073709551615"), Some(u64::MAX));
    assert_eq!(parse_u64("+18446744073709551615"), Some(u64::MAX));
    assert_eq!(parse_u64("000000000000000000000000000001"), Some(1));
}

#[test]
fn other_texts_are_no_decimal_numbers() {
    assert_eq!(parse_u64(""), None);
    assert_eq!(parse_u64("+"), None);
    assert_eq!(parse_u64("-"), None);
    assert_eq!(parse_u64("-1"), None);
    assert_eq!(parse_u64("-0"), None);
    assert_eq!(parse_u64("++1"), None);
    assert_eq!(parse_u64("1+"), None);
    assert_eq!(parse_u64(" 1"), None);
    assert_eq!(parse_u64("1 "), None);
    assert_eq!(parse_u64("1.0"), None);
    assert_eq!(parse_u64("1e3"), None);
    assert_eq!(parse_u64("0x10"), None);
    assert_eq!(parse_u64("1_000"), None);
    assert_eq!(parse_u64("\u{663}"), None);
    assert_eq!(parse_u64("18446744073709551616"), None);
    assert_eq!(parse_u64("18446744073709551620"), None);
    assert_eq!(parse_u64("99999999999999999999"), None);
    assert_eq!(parse_u64("184467440737095516150"), None);
}

#[test]
fn decimal_numbers_are_read_as_std_reads_them() {
    let texts = [
        "", "+", "-", "0", "+0", "-0", "1", "+1", "-1", "12", "012", "1a", "a1", " 1", "1 ", "++1",
        "18446744073709551615", "18446744073709551616", "28446744073709551615", "\u{661}",
    ];
    for text in texts.iter() {
        assert_eq!(parse_u64(text), text.parse::<u64>().ok());
    }
}

#[test]
fn decimal_numbers_are_written() {
    assert_eq!(decimal(0), "0");
    assert_eq!(decimal(7), "7");
    assert_eq!(decimal(10), "10");
    assert_eq!(decimal(1_234_567_890), "1234567890");
    assert_eq!(decimal(u64::MAX), "18446744073709551615");
    let mut out = String::from("n = ");
    push_decimal(42, &mut out);
    assert_eq!(out, "n = 42");
}

#[test]
fn written_numbers_are_read_back() {
    for n in [0u64, 1, 9, 10, 99, 100, 12_345, u64::MAX - 1, u64::MAX] {
        assert_eq!(parse_u64(&decimal(n)), Some(n));
        assert_eq!(decimal(n), n.to_string());
    }
}
