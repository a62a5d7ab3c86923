use pg_typescript::text::{
    contains, decimal_i64, first_line, hex16, join, parse_i64, split, starts_with, str_eq, str_lt,
    strip_prefix, to_ascii_lowercase, trim, utf8_to_string,
};

#[test]
fn text_agrees_with_the_standard_library() {
    let samples = [
        "", " ", "a", "A,b", "\u{a0}x\u{3000}", "a\nb", "a\r\nb", "h\u{e9}llo", "\u{1f600},",
        "abcabd", "\r", "x\r", ",,", "Z\u{c4}", "\u{2028}y\u{85}",
    ];
    for a in samples {
        assert_eq!(trim(a), a.trim());
        assert_eq!(to_ascii_lowercase(a), a.to_ascii_lowercase());
        assert_eq!(split(a, ','), a.split(',').collect::<Vec<_>>());
        assert_eq!(first_line(a), a.lines().next().unwrap_or(a));
        for b in samples {
            assert_eq!(str_eq(a, b), a == b);
            assert_eq!(str_lt(a, b), a < b);
            assert_eq!(starts_with(a, b), a.starts_with(b));
            assert_eq!(contains(a, b), a.contains(b));
            assert_eq!(strip_prefix(a, b).as_deref(), a.strip_prefix(b));
        }
    }
}

#[test]
fn numbers_agree_with_the_standard_library() {
    for n in [0, 7, -7, 10, 1234567890, i64::MAX, i64::MIN] {
        assert_eq!(decimal_i64(n), n.to_string());
        assert_eq!(parse_i64(&n.to_string()), Some(n));
    }
    for n in [0u64, 15, 16, 0xdeadbeef, u64::MAX] {
        assert_eq!(hex16(n), format!("{n:016x}"));
    }
    for text in ["", "+", "-", "+5", "-0", "007", "1 ", "9223372036854775808", "0x1", "\u{661}"] {
        assert_eq!(parse_i64(text), text.parse::<i64>().ok());
    }
}

#[test]
fn lists_are_joined() {
    let list = vec!["a".to_string(), String::new(), "b".to_string()];
    assert_eq!(join(&list, ", "), "a, , b");
    assert_eq!(join(&vec![], ", "), "");
}

#[test]
fn bytes_are_decoded() {
    assert_eq!(utf8_to_string(&Some(vec![0xc3, 0xa9])), Some("\u{e9}".to_string()));
    assert_eq!(utf8_to_string(&Some(vec![0xc3])), None);
    assert_eq!(utf8_to_string(&None), None);
}
