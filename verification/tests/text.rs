use idx_mcp::text::ascii_lower;
use idx_mcp::text::comes_before;
use idx_mcp::text::contains_text;
use idx_mcp::text::decimal_text;
use idx_mcp::text::ends_with;
use idx_mcp::text::find_char;
use idx_mcp::text::has_char;
use idx_mcp::text::hex_text;
use idx_mcp::text::is_one_of;
use idx_mcp::text::is_whitespace;
use idx_mcp::text::join;
use idx_mcp::text::parse_unsigned;
use idx_mcp::text::push_signed;
use idx_mcp::text::same_ignoring_case;
use idx_mcp::text::same_text;
use idx_mcp::text::starts_with;
use idx_mcp::text::strip_prefix;
use idx_mcp::text::trim;
use idx_mcp::text::trim_end_char;
use idx_mcp::text::writes_number;

const SAMPLES: [&str; 14] = [
    "",
    "a",
    "A",
    "abc",
    "aBc",
    "ab",
    "abd",
    "\u{e9}",
    "z\u{20ac}",
    " a b ",
    "\u{2003}x\u{85}",
    "a/b/c",
    "\u{10ffff}",
    "\u{ffff}",
];

#[test]
fn comparisons_agree_with_the_standard_ones() {
    for a in SAMPLES {
        for b in SAMPLES {
            assert_eq!(same_text(a, b), a == b, "{a:?} {b:?}");
            assert_eq!(same_ignoring_case(a, b), a.eq_ignore_ascii_case(b));
            assert_eq!(starts_with(a, b), a.starts_with(b), "{a:?} {b:?}");
            assert_eq!(ends_with(a, b), a.ends_with(b), "{a:?} {b:?}");
            assert_eq!(contains_text(a, b), a.contains(b), "{a:?} {b:?}");
            assert_eq!(comes_before(a, b), a < b, "{a:?} {b:?}");
            assert_eq!(strip_prefix(a, b).as_deref(), a.strip_prefix(b));
        }
    }
}

#[test]
fn forms_agree_with_the_standard_ones() {
    for s in SAMPLES {
        assert_eq!(ascii_lower(s), s.to_ascii_lowercase());
        assert_eq!(trim(s), s.trim());
        assert_eq!(trim_end_char(s, 'c'), s.trim_end_matches('c'));
        assert_eq!(has_char(s, 'b'), s.contains('b'));
        assert_eq!(find_char(s, 'b'), s.chars().position(|c| c == 'b'));
    }
    assert_eq!(trim_end_char("a///", '/'), "a");
    assert_eq!(trim_end_char("///", '/'), "");
    for c in (0..=0x3100u32).filter_map(char::from_u32) {
        assert_eq!(is_whitespace(c), c.is_whitespace(), "{c:?}");
    }
}

#[test]
fn numbers_agree_with_the_standard_ones() {
    for s in [
        "0", "7", "+7", "-7", "00012", "18446744073709551615", "18446744073709551616", "", "+",
        "1 ", "1_0", "\u{661}", "99999999999999999999999999",
    ] {
        assert_eq!(parse_unsigned(s, u64::MAX), s.parse::<u64>().ok(), "{s:?}");
        assert_eq!(
            parse_unsigned(s, u32::MAX as u64),
            s.parse::<u32>().ok().map(u64::from),
            "{s:?}"
        );
    }
    for n in [0, 9, 10, 99, 1234567890, u64::MAX] {
        assert_eq!(decimal_text(n), n.to_string());
    }
    for n in [0, 5, -5, i64::MIN, i64::MAX] {
        let mut s = "n=".to_string();
        push_signed(&mut s, n);
        assert_eq!(s, format!("n={n}"));
    }
    assert_eq!(hex_text(&[0, 1, 15, 16, 171, 255]), "00010f10abff");
}

#[test]
fn number_texts_agree_with_the_float_parser() {
    for s in [
        "0", "1.5", ".5", "5.", ".", "", "+1", "-1", "+-1", "1e5", "1E5", "1e+5", "1e-5", "1e",
        "e5", "1e5.0", ".e5", "1.e5", ".5e5", "inf", "-inf", "+Infinity", "INFINITY", "nan",
        "-NaN", "infin", "1 ", " 1", "1_0", "0x1", "1d", "--1", "1e99999", "\u{661}", "1..2",
    ] {
        assert_eq!(writes_number(s), s.parse::<f64>().is_ok(), "{s:?}");
    }
}

#[test]
fn lists_are_joined_and_searched() {
    let list: Vec<String> = ["a", "b", "c"].iter().map(|s| s.to_string()).collect();
    assert_eq!(join(&list, ", "), "a, b, c");
    assert_eq!(join(&Vec::new(), ", "), "");
    assert!(is_one_of("b", &list));
    assert!(!is_one_of("B", &list));
    assert!(!is_one_of("", &list));
}
