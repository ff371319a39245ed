use changelogging::text::{
    find, from_chars, parse_integer, precedes, to_chars, trim, trim_start,
};

fn parse(text: &str) -> Option<u32> {
    parse_integer(text)
}

#[test]
fn chars_round_trip() {
    let chars = to_chars("héllo ✓");
    assert_eq!(chars, vec!['h', 'é', 'l', 'l', 'o', ' ', '✓']);
    assert_eq!(from_chars(&chars), "héllo ✓");
    assert_eq!(from_chars(&Vec::new()), "");
}

#[test]
fn trims_both_ends() {
    assert_eq!(trim("  \n hello world \t\n"), "hello world");
    assert_eq!(trim(" \t "), "");
    assert_eq!(trim(""), "");
    assert_eq!(trim("x"), "x");
    assert_eq!(trim("\u{a0}\u{3000}é \u{2028}"), "é");
}

#[test]
fn trims_as_std_does() {
    for text in ["", " ", "a", " a", "a ", " a b \n", "\r\n\tx\u{85}", "\u{200b} x"] {
        assert_eq!(trim(text), text.trim());
        assert_eq!(trim_start(text), text.trim_start());
    }
}

#[test]
fn trims_the_start_only() {
    assert_eq!(trim_start("\n\n  hello \n"), "hello \n");
    assert_eq!(trim_start("   "), "");
}

#[test]
fn finds_the_first_occurrence() {
    assert_eq!(find(&to_chars("abcabc"), &to_chars("bc")), Some(1));
    assert_eq!(find(&to_chars("abcabc"), &to_chars("")), Some(0));
    assert_eq!(find(&to_chars("abcabc"), &to_chars("cb")), None);
    assert_eq!(find(&to_chars("ab"), &to_chars("abc")), None);
    assert_eq!(find(&to_chars(""), &to_chars("")), Some(0));
    assert_eq!(find(&to_chars("aab"), &to_chars("ab")), Some(1));
    assert_eq!(find(&to_chars("é.x"), &to_chars(".")), Some(1));
}

#[test]
fn parses_integers() {
    assert_eq!(parse("0"), Some(0));
    assert_eq!(parse("13"), Some(13));
    assert_eq!(parse("+13"), Some(13));
    assert_eq!(parse("007"), Some(7));
    assert_eq!(parse("4294967295"), Some(4294967295));
    assert_eq!(parse("4294967296"), None);
    assert_eq!(parse("99999999999999999999"), None);
    assert_eq!(parse(""), None);
    assert_eq!(parse("+"), None);
    assert_eq!(parse("-1"), None);
    assert_eq!(parse("-0"), None);
    assert_eq!(parse("++1"), None);
    assert_eq!(parse("1 "), None);
    assert_eq!(parse(" 1"), None);
    assert_eq!(parse("1_000"), None);
    assert_eq!(parse("12a"), None);
    assert_eq!(parse("١٢"), None);
}

#[test]
fn parses_integers_as_std_does() {
    for text in [
        "", "+", "-", "0", "+0", "-0", "1", "42", "+42", "0042", "4294967295", "4294967296",
        "42949672950", "000000000000000000001", "1x", "x1", "1.5", " 7", "7 ", "+-7", "٣",
    ] {
        assert_eq!(parse(text), text.parse::<u32>().ok(), "{text:?}");
    }
}

#[test]
fn orders_texts_by_code_point() {
    let le = |left: &str, right: &str| precedes(&to_chars(left), &to_chars(right));
    assert!(le("", ""));
    assert!(le("", "a"));
    assert!(!le("a", ""));
    assert!(le("a", "a"));
    assert!(le("a", "ab"));
    assert!(!le("ab", "a"));
    assert!(le("ab", "b"));
    assert!(le("B", "a"));
    assert!(!le("a", "B"));
    assert!(le("z", "é"));
}

#[test]
fn orders_texts_as_std_does() {
    let texts = ["", "a", "A", "ab", "abc", "b", "é", "z", "~", "10", "9", "✓"];
    for left in texts {
        for right in texts {
            assert_eq!(precedes(&to_chars(left), &to_chars(right)), left <= right);
        }
    }
}
