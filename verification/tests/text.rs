use baseline::text::{
    decimal, ends_with, parse_number, same, starts_with, strip_prefix, strip_suffix, trim,
};

#[test]
fn prefixes_and_suffixes() {
    assert!(starts_with(b"GET / HTTP/1.1", b"GET"));
    assert!(starts_with(b"GET", b"GET"));
    assert!(starts_with(b"GET", b""));
    assert!(starts_with(b"", b""));
    assert!(!starts_with(b"GE", b"GET"));
    assert!(!starts_with(b"get /", b"GET"));
    assert!(!starts_with(b" GET", b"GET"));
    assert!(ends_with(b"0.jpg", b".jpg"));
    assert!(ends_with(b".jpg", b".jpg"));
    assert!(ends_with(b"x", b""));
    assert!(!ends_with(b"jpg", b".jpg"));
    assert!(!ends_with(b"0.jpg ", b".jpg"));
    assert!(!ends_with(b"0.jpeg", b".jpg"));
}

#[test]
fn same_bytes() {
    assert!(same(b"", b""));
    assert!(same(b"json", b"json"));
    assert!(!same(b"json", b"jsonx"));
    assert!(!same(b"jsonx", b"json"));
    assert!(!same(b"json", b"jsoN"));
}

#[test]
fn stripping_takes_the_pattern_off() {
    assert_eq!(strip_prefix(b"GET /img HTTP/1.1\r\n", b"GET /"), Some(&b"img HTTP/1.1\r\n"[..]));
    assert_eq!(strip_prefix(b"GET /", b"GET /"), Some(&b""[..]));
    assert_eq!(strip_prefix(b"GET", b"GET /"), None);
    assert_eq!(strip_prefix(b"POST /", b"GET /"), None);
    assert_eq!(strip_suffix(b"img HTTP/1.1\r\n", b" HTTP/1.1\r\n"), Some(&b"img"[..]));
    assert_eq!(strip_suffix(b" HTTP/1.1\r\n", b" HTTP/1.1\r\n"), Some(&b""[..]));
    assert_eq!(strip_suffix(b"img HTTP/1.0\r\n", b" HTTP/1.1\r\n"), None);
    assert_eq!(strip_suffix(b"\r\n", b" HTTP/1.1\r\n"), None);
}

#[test]
fn trim_takes_white_space_off_both_ends() {
    assert_eq!(trim(b"12\r\n"), b"12");
    assert_eq!(trim(b"  12"), b"12");
    assert_eq!(trim(b"\t 1 2 \n"), b"1 2");
    assert_eq!(trim(b""), b"");
    assert_eq!(trim(b" \r\n\t\x0b\x0c"), b"");
    assert_eq!(trim(b"12"), b"12");
    assert_eq!(trim(b"\x0812\x0e"), b"\x0812\x0e");
}

#[test]
fn trim_agrees_with_the_trimming_of_strings() {
    let spaces = [
        "\u{0009}", "\u{000a}", "\u{000b}", "\u{000c}", "\u{000d}", "\u{0020}", "\u{0085}",
        "\u{00a0}", "\u{1680}", "\u{2000}", "\u{2001}", "\u{2005}", "\u{200a}", "\u{2028}",
        "\u{2029}", "\u{202f}", "\u{205f}", "\u{3000}",
    ];
    let others = [
        "\u{0008}", "\u{000e}", "\u{001f}", "\u{0084}", "\u{0086}", "\u{00a1}", "\u{009f}",
        "\u{167f}", "\u{1681}", "\u{180e}", "\u{1fff}", "\u{200b}", "\u{2027}", "\u{202a}",
        "\u{202e}", "\u{2030}", "\u{205e}", "\u{2060}", "\u{2fff}", "\u{3001}", "\u{feff}",
        "\u{e280}", "\u{10000}", "x",
    ];
    for space in spaces {
        let text = format!("{}{}12{}{}", space, space, space, space);
        assert_eq!(text.trim(), "12");
        assert_eq!(trim(text.as_bytes()), b"12");
        for other in others {
            let text = format!("{}{}{}1{}{}", space, other, space, other, space);
            assert_eq!(trim(text.as_bytes()), text.trim().as_bytes());
        }
    }
    for other in others {
        let text = format!("{}12{}", other, other);
        assert_eq!(text.trim(), text);
        assert_eq!(trim(text.as_bytes()), text.as_bytes());
    }
}

#[test]
fn numbers_are_read_as_strings_are_parsed() {
    let texts = [
        "0", "7", "12", "007", "+5", "+0", "18446744073709551615", "18446744073709551616",
        "99999999999999999999999", "000000000000000000000000000001", "+18446744073709551615",
        "", "+", "-", "-1", "++1", "+-1", "1+", "12a", "a12", " 12", "12 ", "1 2", "1_000",
        "0x10", "1.0", "\u{0661}",
    ];
    for text in texts {
        assert_eq!(parse_number(text.as_bytes(), u64::MAX), text.parse::<u64>().ok());
    }
}

#[test]
fn numbers_above_the_limit_are_refused() {
    assert_eq!(parse_number(b"255", 255), Some(255));
    assert_eq!(parse_number(b"256", 255), None);
    assert_eq!(parse_number(b"0256", 255), None);
    assert_eq!(parse_number(b"00255", 255), Some(255));
    assert_eq!(parse_number(b"5", 4), None);
    assert_eq!(parse_number(b"4", 4), Some(4));
    assert_eq!(parse_number(b"0", 0), Some(0));
    assert_eq!(parse_number(b"1", 0), None);
    assert_eq!(parse_number(b"4294967295", 4294967295), Some(4294967295));
    assert_eq!(parse_number(b"4294967296", 4294967295), None);
}

#[test]
fn decimal_writes_a_number_as_strings_do() {
    for n in [0usize, 1, 9, 10, 11, 27, 99, 100, 101, 120, 1000, 65535, 4294967295, usize::MAX] {
        assert_eq!(decimal(n), n.to_string().into_bytes());
    }
    assert_eq!(decimal(0), b"0".to_vec());
    assert_eq!(decimal(1203), b"1203".to_vec());
}

#[test]
fn reading_undoes_writing() {
    for n in [0usize, 5, 10, 99, 12345, usize::MAX] {
        assert_eq!(parse_number(&decimal(n), u64::MAX), Some(n as u64));
    }
}
