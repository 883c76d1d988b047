use collector::numeral::{is_real, parse_decimal, push_decimal};
use collector::text::{
    chars_of, char_is_whitespace, contains_chars, ends_with, find_char, remove_all_chars,
    split_chars, split_lines, split_words, starts_with, string_from, trim_chars,
};

fn chars(s: &str) -> Vec<char> {
    s.chars().collect()
}

fn strings(parts: Vec<&[char]>) -> Vec<String> {
    parts.into_iter().map(|p| p.iter().collect()).collect()
}

#[test]
fn chars_round_trip() {
    let text = "a–b\u{3000}c";
    let cs = chars_of(text);
    assert_eq!(cs, chars(text));
    assert_eq!(string_from(&cs), text);
}

#[test]
fn find_gives_first_position_or_length() {
    assert_eq!(find_char(&chars("a;b;c"), ';'), 1);
    assert_eq!(find_char(&chars("abc"), ';'), 3);
    assert_eq!(find_char(&chars(""), ';'), 0);
}

#[test]
fn split_keeps_empty_pieces() {
    let text = chars("a;;b;");
    assert_eq!(strings(split_chars(&text, ';')), vec!["a", "", "b", ""]);
    let empty = chars("");
    assert_eq!(strings(split_chars(&empty, ';')), vec![""]);
    let plain = chars("abc");
    assert_eq!(strings(split_chars(&plain, ';')), vec!["abc"]);
}

#[test]
fn split_agrees_with_std() {
    for text in ["", ";", "a;b", ";a;", "100;msec;cycles;1.0;100.00%", "x;;;y"] {
        let cs = chars(text);
        let expected: Vec<String> = text.split(';').map(String::from).collect();
        assert_eq!(strings(split_chars(&cs, ';')), expected);
    }
}

#[test]
fn lines_agree_with_std() {
    for text in ["", "\n", "a", "a\n", "a\nb", "a\r\nb\r\n", "a\r", "a\n\nb", "\r\n", "a\rb\n", "a\n\r"] {
        let cs = chars(text);
        let expected: Vec<String> = text.lines().map(String::from).collect();
        assert_eq!(strings(split_lines(&cs)), expected, "lines of {:?}", text);
    }
}

#[test]
fn trim_agrees_with_std() {
    for text in ["", " ", "  a  ", "\ta b\n", "\u{a0}x\u{2003}", "x", " \u{85}\u{1680}y\u{3000}\u{205f}"] {
        let cs = chars(text);
        let trimmed: String = trim_chars(&cs).iter().collect();
        assert_eq!(trimmed, text.trim(), "trim of {:?}", text);
    }
}

#[test]
fn whitespace_agrees_with_std() {
    for code in 0u32..0x3100 {
        if let Some(c) = char::from_u32(code) {
            assert_eq!(char_is_whitespace(c), c.is_whitespace(), "U+{:04X}", code);
        }
    }
}

#[test]
fn words_agree_with_std() {
    for text in ["", "  ", "a", " a  b ", "--release  -Zfoo\t--bar", "x\u{3000}y"] {
        let cs = chars(text);
        let expected: Vec<String> = text.split_whitespace().map(String::from).collect();
        assert_eq!(split_words(&cs), expected, "words of {:?}", text);
    }
}

#[test]
fn prefix_suffix_and_containment() {
    let text = chars("prefix-1234.events");
    assert!(starts_with(&text, &chars("prefix")));
    assert!(!starts_with(&text, &chars("refix")));
    assert!(starts_with(&text, &chars("")));
    assert!(ends_with(&text, &chars(".events")));
    assert!(!ends_with(&text, &chars(".event")));
    assert!(contains_chars(&text, &chars("-1234")));
    assert!(contains_chars(&text, &chars("")));
    assert!(!contains_chars(&text, &chars("12345")));
    assert!(!starts_with(&chars("ab"), &chars("abc")));
    assert!(!ends_with(&chars("bc"), &chars("abc")));
}

#[test]
fn remove_all_agrees_with_std() {
    for text in ["", "a.patch", ".patch.patch", "x.patc.patchh", "..patchpatch", "no match", ".pat.patchch"] {
        let cs = chars(text);
        let removed: String = remove_all_chars(&cs, &chars(".patch")).iter().collect();
        assert_eq!(removed, text.replace(".patch", ""), "replace in {:?}", text);
    }
    let kept: String = remove_all_chars(&chars("abc"), &chars("")).iter().collect();
    assert_eq!(kept, "abc");
}

#[test]
fn decimal_numerals_are_read_as_std_reads_them() {
    for text in ["0", "7", "+7", "007", "4294967295", "4294967296", "", "+", "-1", "1 ", " 1", "1a", "++1", "١"] {
        let cs = chars(text);
        let expected = text.parse::<u32>().ok().map(u64::from);
        assert_eq!(parse_decimal(&cs, u32::MAX as u64), expected, "u32 from {:?}", text);
    }
    for text in ["18446744073709551615", "18446744073709551616", "99999999999999999999999"] {
        let cs = chars(text);
        assert_eq!(parse_decimal(&cs, u64::MAX), text.parse::<u64>().ok(), "u64 from {:?}", text);
    }
    assert_eq!(parse_decimal(&chars("5"), 4), None);
    assert_eq!(parse_decimal(&chars("4"), 4), Some(4));
    assert_eq!(parse_decimal(&chars("0"), 0), Some(0));
}

#[test]
fn decimal_numerals_are_written_as_std_writes_them() {
    for n in [0u64, 1, 9, 10, 11, 99, 100, 12345, u32::MAX as u64, u64::MAX] {
        let mut out = chars("n=");
        push_decimal(&mut out, n);
        let text: String = out.iter().collect();
        assert_eq!(text, format!("n={}", n));
    }
}

#[test]
fn real_numerals_are_recognised_as_std_parses_them() {
    let cases = [
        "0", "12.34", "100", "1.", ".5", "+.5", "-0.25", "1e5", "1E5", "1e+5", "1e-5", "1.e5",
        ".5e1", "inf", "INF", "Infinity", "-infinity", "nan", "NaN", "+nan", "", ".", "+", "-",
        "e5", "1e", "1e+", "1.2.3", "1,5", " 1", "1 ", "0x10", "infinit", "na", "1f", "--1",
        "1e5.0", ".e5", "+-1", "١", "1_000", "12.34\r", "infinityy", "i", "INFINITY",
    ];
    for text in cases {
        let cs = chars(text);
        assert_eq!(is_real(&cs), text.parse::<f64>().is_ok(), "real numeral {:?}", text);
    }
}
