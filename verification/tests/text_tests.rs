use wqms::text::{
    ends_with, format_u64, join_path, parse_u16, parse_u64, split_any, text_eq, trim,
};

#[test]
fn trim_removes_ascii_white_space() {
    assert_eq!(trim("  a b \t\n"), "a b");
    assert_eq!(trim(""), "");
    assert_eq!(trim(" \r\n\t "), "");
    assert_eq!(trim("M"), "M");
}

#[test]
fn trim_removes_unicode_white_space() {
    assert_eq!(trim("\u{3000}x\u{a0}\u{2028}"), "x");
    assert_eq!(trim("\u{85}ph\u{1680}"), "ph");
    assert_eq!(trim("\u{200b}x"), "\u{200b}x");
}

#[test]
fn trim_agrees_with_std() {
    for s in ["  a ", "\u{2000}b\u{200a}", "c\u{202f}", " \u{205f} d e \u{3000}", "x\u{b}"] {
        assert_eq!(trim(s), s.trim());
    }
}

#[test]
fn trim_is_idempotent() {
    let once = trim(" \t value \n");
    assert_eq!(trim(&once), once);
}

#[test]
fn parse_u64_reads_decimal_numbers() {
    assert_eq!(parse_u64("1000"), Some(1000));
    assert_eq!(parse_u64("+5"), Some(5));
    assert_eq!(parse_u64("007"), Some(7));
    assert_eq!(parse_u64("18446744073709551615"), Some(u64::MAX));
}

#[test]
fn parse_u64_refuses_what_std_refuses() {
    for s in ["", "+", "-5", "-", "1000\n", " 1", "1.5", "18446744073709551616", "99999999999999999999999", "++1", "١"] {
        assert_eq!(parse_u64(s), None, "{:?}", s);
        assert_eq!(s.parse::<u64>().ok(), None, "{:?}", s);
    }
}

#[test]
fn parse_u16_bounds() {
    assert_eq!(parse_u16("65535"), Some(65535));
    assert_eq!(parse_u16("65536"), None);
    assert_eq!(parse_u16("0"), Some(0));
}

#[test]
fn format_u64_writes_decimal() {
    assert_eq!(format_u64(0), "0");
    assert_eq!(format_u64(1234567890), "1234567890");
    assert_eq!(format_u64(u64::MAX), u64::MAX.to_string());
}

#[test]
fn format_then_parse_gives_the_number_back() {
    for n in [0u64, 1, 9, 10, 600, 1000, 4294967296, u64::MAX] {
        assert_eq!(parse_u64(&format_u64(n)), Some(n));
    }
}

#[test]
fn split_any_keeps_empty_pieces() {
    assert_eq!(split_any("a,b,,c", &[',']), vec!["a", "b", "", "c"]);
    assert_eq!(split_any("", &[',']), vec![""]);
    assert_eq!(split_any("x\n", &['\n']), vec!["x", ""]);
    assert_eq!(split_any("/ls@bot dir", &[' ', '@']), vec!["/ls", "bot", "dir"]);
}

#[test]
fn join_path_as_std_path() {
    assert_eq!(join_path("/ws", "nitri"), "/ws/nitri");
    assert_eq!(join_path("/ws/", "nitri"), "/ws/nitri");
    assert_eq!(join_path("", "nitri"), "nitri");
    assert_eq!(join_path("/ws", "/abs"), "/abs");
    for (b, c) in [("/ws", "nitri"), ("a/b", "c"), ("a/", "b/c")] {
        assert_eq!(join_path(b, c), std::path::Path::new(b).join(c).to_str().unwrap());
    }
}

#[test]
fn ends_with_and_equality() {
    assert!(ends_with("20200911.csv", ".csv"));
    assert!(!ends_with("csv", ".csv"));
    assert!(ends_with("x", ""));
    assert!(text_eq("/start", "/start"));
    assert!(!text_eq("/start", "/star"));
}
