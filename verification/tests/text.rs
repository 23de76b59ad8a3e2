use rusty_tape::text::convert::{chars_of, string_of};
use rusty_tape::text::number::{
    char_is_digit, is_wide_numeral, push_decimal, push_signed_decimal, read_digits, read_signed,
    read_unsigned,
};
use rusty_tape::text::search::{
    find_first, matches_at, split_once_only, without_first, without_last, without_prefix,
};
use rusty_tape::text::space::{char_is_space, trim, trim_end, trim_start};
use rusty_tape::text::split::{has_suffix, remove_all, rest_after_last, split_all};
use rusty_tape::text::words::{next_word, three_words};

fn chars(text: &str) -> Vec<char> {
    text.chars().collect()
}

fn text(chars: &[char]) -> String {
    chars.iter().collect()
}

#[test]
fn strings_and_characters() {
    assert_eq!(chars_of("a\u{e9}\u{1F600}"), vec!['a', '\u{e9}', '\u{1F600}']);
    assert_eq!(chars_of(""), Vec::<char>::new());
    assert_eq!(string_of(&['h', 'i', '\u{e9}']), "hi\u{e9}");
    assert_eq!(string_of(&[]), "");
}

#[test]
fn white_space_is_what_the_standard_library_says() {
    for code in 0u32..0x11_0000 {
        if let Some(c) = char::from_u32(code) {
            assert_eq!(char_is_space(c), c.is_whitespace(), "U+{:04X}", code);
        }
    }
}

#[test]
fn digits_are_the_ten_ascii_digits() {
    for code in 0u32..0x11_0000 {
        if let Some(c) = char::from_u32(code) {
            assert_eq!(char_is_digit(c), c.is_ascii_digit(), "U+{:04X}", code);
        }
    }
}

#[test]
fn trimming() {
    assert_eq!(text(trim(&chars("  a b \t\n"))), "a b");
    assert_eq!(text(trim_start(&chars("  a b  "))), "a b  ");
    assert_eq!(text(trim_end(&chars("  a b  "))), "  a b");
    assert_eq!(text(trim(&chars("   "))), "");
    assert_eq!(text(trim(&chars(""))), "");
    assert_eq!(text(trim(&chars("x"))), "x");
    assert_eq!(text(trim(&chars("\u{a0}x\u{3000}"))), "x");
    for sample in ["", " ", "a", " a ", "\t a  b \r\n", "\u{2003}\u{e9} \u{2003}"] {
        assert_eq!(text(trim(&chars(sample))), sample.trim());
        assert_eq!(text(trim_start(&chars(sample))), sample.trim_start());
        assert_eq!(text(trim_end(&chars(sample))), sample.trim_end());
    }
}

#[test]
fn searching() {
    let s = chars("abcabc");
    assert_eq!(find_first(&s, &chars("bc")), Some(1));
    assert_eq!(find_first(&s, &chars("abc")), Some(0));
    assert_eq!(find_first(&s, &chars("cab")), Some(2));
    assert_eq!(find_first(&s, &chars("cb")), None);
    assert_eq!(find_first(&s, &chars("abcabca")), None);
    assert_eq!(find_first(&s, &chars("")), Some(0));
    assert_eq!(find_first(&chars(""), &chars("")), Some(0));
    assert_eq!(find_first(&chars(""), &chars("a")), None);
    assert!(matches_at(&s, &chars("abc"), 3));
    assert!(!matches_at(&s, &chars("abc"), 4));
    assert!(matches_at(&s, &chars(""), 6));
    assert!(!matches_at(&s, &chars(""), 7));
    assert!(has_suffix(&s, &chars("bc")));
    assert!(!has_suffix(&s, &chars("ab")));
    assert!(!has_suffix(&chars("c"), &chars("bc")));
    assert!(has_suffix(&s, &chars("")));
}

#[test]
fn stripping() {
    assert_eq!(without_prefix(&chars("goto x"), &chars("goto")).map(text), Some(" x".to_string()));
    assert_eq!(without_prefix(&chars("got"), &chars("goto")).map(text), None);
    assert_eq!(without_first(&chars("[R1]"), '[').map(text), Some("R1]".to_string()));
    assert_eq!(without_first(&chars("R1]"), '[').map(text), None);
    assert_eq!(without_first(&chars(""), '[').map(text), None);
    assert_eq!(without_last(&chars("R1]"), ']').map(text), Some("R1".to_string()));
    assert_eq!(without_last(&chars("R1"), ']').map(text), None);
    assert_eq!(without_last(&chars(""), ']').map(text), None);
}

#[test]
fn splitting_once() {
    let pair = |source: &str, pattern: &str| -> Option<(String, String)> {
        let source = chars(source);
        split_once_only(&source, &chars(pattern)).map(|(a, b)| (text(a), text(b)))
    };
    assert_eq!(pair("a := b", ":="), Some(("a ".to_string(), " b".to_string())));
    assert_eq!(pair(":=", ":="), Some(("".to_string(), "".to_string())));
    assert_eq!(pair("a = b", ":="), None);
    assert_eq!(pair("a := b := c", ":="), None);
    assert_eq!(pair("a :=:= c", ":="), None);
    assert_eq!(pair("a ::= c", ":="), Some(("a :".to_string(), " c".to_string())));
}

#[test]
fn splitting_everywhere() {
    let split = |source: &str, pattern: &str| -> Vec<String> {
        let source = chars(source);
        split_all(&source, &chars(pattern)).into_iter().map(text).collect()
    };
    assert_eq!(split("1, 2,3", ","), vec!["1", " 2", "3"]);
    assert_eq!(split("", ","), vec![""]);
    assert_eq!(split(",", ","), vec!["", ""]);
    assert_eq!(split("a,,b,", ","), vec!["a", "", "b", ""]);
    for sample in ["", "a", ",a", "a,b,,c", ",,,"] {
        let expected: Vec<String> = sample.split(',').map(|s| s.to_string()).collect();
        assert_eq!(split(sample, ","), expected);
    }
    let last = |source: &str, pattern: &str| -> String {
        let source = chars(source);
        text(rest_after_last(&source, &chars(pattern)))
    };
    assert_eq!(last("1, 2, 30", ", "), "30");
    assert_eq!(last("1, 2, ", ", "), "");
    assert_eq!(last("12", ", "), "12");
    assert_eq!(last("", ", "), "");
    assert_eq!(last("a/b/c", "/"), "c");
    assert_eq!(text(&remove_all(&chars("a.ramb.ram"), &chars(".ram"))), "ab");
    assert_eq!(text(&remove_all(&chars("abc"), &chars(".ram"))), "abc");
    assert_eq!(text(&remove_all(&chars("aaa"), &chars("aa"))), "a");
    for sample in ["", ".ram", "x.ram.ramy", ".r.ramam", "ram."] {
        assert_eq!(text(&remove_all(&chars(sample), &chars(".ram"))), sample.replace(".ram", ""));
    }
}

#[test]
fn words_of_a_text() {
    let three = |source: &str| -> Option<(String, String, String)> {
        let source = chars(source);
        three_words(&source).map(|(a, b, c)| (text(a), text(b), text(c)))
    };
    assert_eq!(
        three(" R1  <=\tR2 "),
        Some(("R1".to_string(), "<=".to_string(), "R2".to_string()))
    );
    assert_eq!(three("a b"), None);
    assert_eq!(three("a b c d"), None);
    assert_eq!(three(""), None);
    assert_eq!(three("abc"), None);
    let source = chars("  one two");
    let (word, rest) = next_word(&source).unwrap();
    assert_eq!((text(word), text(rest)), ("one".to_string(), " two".to_string()));
    assert!(next_word(&chars("   ")).is_none());
    assert!(next_word(&chars("")).is_none());
}

#[test]
fn reading_numbers() {
    assert_eq!(read_digits(&chars("0123"), 1000), Some(123));
    assert_eq!(read_digits(&chars("1000"), 1000), Some(1000));
    assert_eq!(read_digits(&chars("1001"), 1000), None);
    assert_eq!(read_digits(&chars(""), 1000), None);
    assert_eq!(read_digits(&chars("12a"), 1000), None);
    assert_eq!(read_digits(&chars("+1"), 1000), None);
    assert_eq!(read_digits(&chars("18446744073709551615"), u64::MAX), Some(u64::MAX));
    assert_eq!(read_digits(&chars("18446744073709551616"), u64::MAX), None);
    assert_eq!(read_unsigned(&chars("+17"), 100), Some(17));
    assert_eq!(read_unsigned(&chars("17"), 100), Some(17));
    assert_eq!(read_unsigned(&chars("-17"), 100), None);
    assert_eq!(read_unsigned(&chars("++17"), 100), None);
    assert_eq!(read_signed(&chars("-17")), Some(-17));
    assert_eq!(read_signed(&chars("+17")), Some(17));
    assert_eq!(read_signed(&chars("-2147483648")), Some(i32::MIN));
    assert_eq!(read_signed(&chars("2147483648")), None);
    assert_eq!(read_signed(&chars(" 1")), None);
    assert!(is_wide_numeral(&chars("9223372036854775807")));
    assert!(!is_wide_numeral(&chars("9223372036854775808")));
    assert!(is_wide_numeral(&chars("-9223372036854775808")));
    assert!(!is_wide_numeral(&chars("-9223372036854775809")));
    assert!(!is_wide_numeral(&chars("")));
    for sample in ["0", "-0", "+0", "007", "-", "+", "", "1e3", "2147483647", "-2147483649"] {
        assert_eq!(read_signed(&chars(sample)), sample.parse::<i32>().ok(), "{}", sample);
        assert_eq!(is_wide_numeral(&chars(sample)), sample.parse::<i64>().is_ok(), "{}", sample);
    }
}

#[test]
fn writing_numbers() {
    let mut out = vec!['x'];
    push_decimal(&mut out, 0);
    push_decimal(&mut out, 907);
    push_signed_decimal(&mut out, -45);
    push_signed_decimal(&mut out, 6);
    assert_eq!(text(&out), "x0907-456");
    for value in [0, 1, -1, 9, 10, 99, 100, 12345, i32::MAX, i32::MIN, -1000000] {
        let mut out = Vec::new();
        push_signed_decimal(&mut out, value);
        assert_eq!(text(&out), value.to_string());
        assert_eq!(read_signed(&out), Some(value));
    }
    let mut out = Vec::new();
    push_decimal(&mut out, u64::MAX);
    assert_eq!(text(&out), u64::MAX.to_string());
}
