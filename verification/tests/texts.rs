use search_cache::number::{decimal_text, parse_u64, signed_text};
use search_cache::order::{drop_repeats, sort_rows, text_leq};
use search_cache::text::{
    chars_of, fold, is_white_space, join_texts, lowered, split_on, split_words, string_of,
    to_lower_char, trimmed,
};

fn strings(rows: Vec<Vec<char>>) -> Vec<String> {
    rows.into_iter().map(|r| r.into_iter().collect()).collect()
}

#[test]
fn white_space_and_case_are_those_of_std() {
    for n in 0..=0x10ffffu32 {
        if let Some(c) = char::from_u32(n) {
            assert_eq!(is_white_space(c), c.is_whitespace(), "{n:x}");
            assert_eq!(to_lower_char(c), c.to_ascii_lowercase(), "{n:x}");
        }
    }
}

#[test]
fn words_and_margins_are_those_of_std() {
    for s in [
        "",
        " ",
        "a",
        " a  b ",
        "\u{a0}x\u{2009}y\u{3000}",
        "tab\tnew\nline\u{b}\u{c}\r",
        "\u{85}É \u{1680}",
        "no-space",
    ] {
        let expected: Vec<String> = s.split_whitespace().map(str::to_string).collect();
        assert_eq!(strings(split_words(s)), expected);
        assert_eq!(string_of(&trimmed(s)), s.trim());
        assert_eq!(fold(s), s.trim().to_ascii_lowercase());
        assert_eq!(
            string_of(&lowered(&chars_of(s))),
            s.to_ascii_lowercase()
        );
        assert_eq!(fold(&fold(s)), fold(s));
    }
}

#[test]
fn pieces_are_those_of_std() {
    for s in ["", ",", "a", "a,b", ",a,,b,", "\"x\", W/\"y\" ,é"] {
        let expected: Vec<String> = s.split(',').map(str::to_string).collect();
        assert_eq!(strings(split_on(s, ',')), expected);
        assert_eq!(join_texts(&expected, ","), s);
    }
}

#[test]
fn rows_are_sorted_by_code_points() {
    let words = ["b", "", "a\u{10000}", "a\u{ffff}", "ab", "a", "b"];
    let rows: Vec<Vec<char>> = words.iter().map(|w| chars_of(w)).collect();
    let mut expected: Vec<String> = words.iter().map(|w| w.to_string()).collect();
    expected.sort();
    assert_eq!(strings(sort_rows(rows.clone())), expected);
    expected.dedup();
    assert_eq!(strings(drop_repeats(sort_rows(rows))), expected);
    assert!(text_leq(&chars_of("a"), &chars_of("a")));
    assert!(text_leq(&chars_of("a"), &chars_of("ab")));
    assert!(!text_leq(&chars_of("b"), &chars_of("ab")));
}

#[test]
fn numbers_are_written_in_decimal() {
    for n in [0, 7, 10, 65535, u64::MAX] {
        assert_eq!(decimal_text(n), n.to_string());
        assert_eq!(parse_u64(&decimal_text(n)), Some(n));
    }
    for n in [0, -1, 42, i64::MIN, i64::MAX] {
        assert_eq!(signed_text(n), n.to_string());
    }
}

#[test]
fn numbers_are_read_as_std_reads_them() {
    for s in [
        "",
        "+",
        "-",
        "+5",
        "++5",
        "-5",
        "-0",
        "007",
        " 7",
        "7 ",
        "1_000",
        "0x10",
        "\u{661}",
        "18446744073709551615",
        "18446744073709551616",
        "000000000000000000000000000018446744073709551615",
        "99999999999999999999999",
        "3.5",
    ] {
        assert_eq!(parse_u64(s), s.parse::<u64>().ok(), "{s}");
    }
}
