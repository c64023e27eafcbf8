use media_pipeline::order::{sort_strings, text_le_of};
use media_pipeline::text::{
    begins_with, chars_of, decimal_of, push_decimal, push_padded2, push_signed, same_text,
    slice_of, string_of,
};
use media_pipeline::words::{
    fields_of, lower_of, parse_numeral, parse_signed, trim_of, words_of,
};

fn chars(s: &str) -> Vec<char> {
    s.chars().collect()
}

fn text(v: &[char]) -> String {
    v.iter().collect()
}

fn texts(v: &[Vec<char>]) -> Vec<String> {
    v.iter().map(|w| text(w)).collect()
}

#[test]
fn strings_and_characters_convert_both_ways() {
    for s in ["", "abc", "näïve ✅", "a\nb"] {
        assert_eq!(chars_of(s), chars(s));
        assert_eq!(string_of(&chars(s)), s);
    }
}

#[test]
fn decimal_numerals_have_no_leading_zeros() {
    assert_eq!(text(&decimal_of(0)), "0");
    assert_eq!(text(&decimal_of(7)), "7");
    assert_eq!(text(&decimal_of(10)), "10");
    assert_eq!(text(&decimal_of(1234567890)), "1234567890");
    assert_eq!(text(&decimal_of(u64::MAX)), "18446744073709551615");
}

#[test]
fn numerals_are_appended_to_what_is_there() {
    let mut out = chars("n=");
    push_decimal(&mut out, 42);
    assert_eq!(text(&out), "n=42");
}

#[test]
fn padded_numerals_are_two_digits_wide_at_least() {
    let mut out = Vec::new();
    push_padded2(&mut out, 0);
    out.push(' ');
    push_padded2(&mut out, 9);
    out.push(' ');
    push_padded2(&mut out, 10);
    out.push(' ');
    push_padded2(&mut out, 123);
    assert_eq!(text(&out), "00 09 10 123");
}

#[test]
fn signed_numerals_carry_a_minus() {
    let mut out = Vec::new();
    push_signed(&mut out, -5);
    out.push(' ');
    push_signed(&mut out, 0);
    out.push(' ');
    push_signed(&mut out, i64::MIN);
    out.push(' ');
    push_signed(&mut out, i64::MAX);
    assert_eq!(text(&out), "-5 0 -9223372036854775808 9223372036854775807");
}

#[test]
fn texts_compare_by_their_characters() {
    assert!(same_text(&chars("abc"), &chars("abc")));
    assert!(!same_text(&chars("abc"), &chars("abd")));
    assert!(!same_text(&chars("abc"), &chars("ab")));
    assert!(begins_with(&chars("apply 1"), &chars("apply ")));
    assert!(begins_with(&chars("abc"), &chars("")));
    assert!(!begins_with(&chars("app"), &chars("apply")));
    assert_eq!(text(&slice_of(&chars("abcdef"), 2, 4)), "cd");
}

#[test]
fn the_order_of_texts_is_that_of_strings() {
    let samples = ["", "a", "ab", "b", "B", "a b", "é", "z", "Show.S01E01.en.srt", "Show.S01E01.srt"];
    for a in samples {
        for b in samples {
            assert_eq!(text_le_of(&chars(a), &chars(b)), a <= b, "{:?} <= {:?}", a, b);
        }
    }
}

#[test]
fn sorting_strings_agrees_with_the_standard_sort() {
    let given: Vec<String> =
        ["pear", "apple", "fig", "apple", "Apple", "", "été", "zoo", "a/b", "a.b"]
            .iter()
            .map(|s| s.to_string())
            .collect();
    let mut expected = given.clone();
    expected.sort();
    assert_eq!(sort_strings(given), expected);
    assert_eq!(sort_strings(Vec::new()), Vec::<String>::new());
}

#[test]
fn trimming_agrees_with_the_standard_trim() {
    for s in [
        "",
        "   ",
        " a ",
        "\t\n x y \r\n",
        "\u{a0}apply\u{3000}",
        "\u{2003}a\u{2028}b\u{205f}",
        "no-space",
        "\u{85}x\u{1680}",
    ] {
        assert_eq!(text(&trim_of(&chars(s))), s.trim(), "{:?}", s);
    }
}

#[test]
fn lower_case_touches_ascii_letters_only() {
    assert_eq!(text(&lower_of(&chars("APPLY All 12"))), "apply all 12");
    assert_eq!(text(&lower_of(&chars("ÉTÉ[]@`{"))), "ÉtÉ[]@`{");
}

#[test]
fn words_agree_with_split_whitespace() {
    for s in ["", "  ", "a", " a  b\tc\n", "1 2  5", "\u{a0}x\u{2003}y", "ends "] {
        let expected: Vec<String> = s.split_whitespace().map(|w| w.to_string()).collect();
        assert_eq!(texts(&words_of(&chars(s))), expected, "{:?}", s);
    }
}

#[test]
fn fields_agree_with_split() {
    for s in ["", "1", "1,2", ",", "a,,b", "1,2,"] {
        let expected: Vec<String> = s.split(',').map(|w| w.to_string()).collect();
        assert_eq!(texts(&fields_of(&chars(s), ',')), expected, "{:?}", s);
    }
}

#[test]
fn numerals_parse_as_the_standard_parser_does() {
    for s in [
        "0",
        "7",
        "+7",
        "007",
        "18446744073709551615",
        "18446744073709551616",
        "99999999999999999999999",
        "",
        "+",
        "-1",
        "1a",
        " 1",
        "1.5",
        "٣",
        "++1",
    ] {
        assert_eq!(parse_numeral(&chars(s)), s.parse::<u64>().ok(), "{:?}", s);
    }
}

#[test]
fn signed_numerals_parse_as_the_standard_parser_does() {
    for s in [
        "0",
        "-0",
        "+5",
        "-5",
        "-9223372036854775808",
        "-9223372036854775809",
        "9223372036854775807",
        "9223372036854775808",
        "",
        "-",
        "-+5",
        "+-5",
        "--5",
        "5-",
        "-1001234567890",
    ] {
        assert_eq!(parse_signed(&chars(s)), s.parse::<i64>().ok(), "{:?}", s);
    }
}
