use awsm::text::{compare_chars, int_to_string, join_strings, lines_of, str_contains, trim_str, truncate_chars, truncate_str};
use awsm::units::human_size;

fn float_size(bytes: i64) -> String {
    let kb = 1024.0_f64;
    let mb = kb * 1024.0;
    let gb = mb * 1024.0;
    let b = bytes as f64;
    if b < kb {
        format!("{} B", bytes)
    } else if b < mb {
        format!("{:.1} KB", b / kb)
    } else if b < gb {
        format!("{:.1} MB", b / mb)
    } else {
        format!("{:.1} GB", b / gb)
    }
}

#[test]
fn human_size_bytes_kilobytes_megabytes() {
    assert_eq!(human_size(0), "0 B");
    assert_eq!(human_size(1023), "1023 B");
    assert_eq!(human_size(1024), "1.0 KB");
    assert_eq!(human_size(1536), "1.5 KB");
    assert_eq!(human_size(1024 * 1024), "1.0 MB");
    assert_eq!(human_size(5 * 1024 * 1024 * 1024), "5.0 GB");
    assert_eq!(human_size(-5), "-5 B");
}

#[test]
fn human_size_rounds_half_to_even_like_float_formatting() {
    let samples: [i64; 12] = [
        1024 + 51, 1024 + 52, 1024 + 102, 2047, 10_000, 123_456, 999_999, 1_048_575, 1_048_576 + 52_428,
        7_340_032, 1_073_741_823, 3_221_225_472 + 536_870_912,
    ];
    for b in samples {
        assert_eq!(human_size(b), float_size(b), "bytes {}", b);
    }
}

#[test]
fn int_to_string_negative_and_zero() {
    assert_eq!(int_to_string(0), "0");
    assert_eq!(int_to_string(-42), "-42");
    assert_eq!(int_to_string(i64::MIN), i64::MIN.to_string());
}

#[test]
fn truncate_str_keeps_short_text() {
    assert_eq!(truncate_str("abc", 5), "abc");
    assert_eq!(truncate_str("abcdefgh", 6), "abc...");
    assert_eq!(truncate_str("abcdefgh", 2), "ab");
}

#[test]
fn join_strings_with_separator() {
    let parts = vec!["a".to_string(), "b".to_string(), "c".to_string()];
    assert_eq!(join_strings(&parts, ", "), "a, b, c");
    assert_eq!(join_strings(&Vec::new(), ", "), "");
}

#[test]
fn str_contains_and_compare() {
    assert!(str_contains("hello world", "lo w"));
    assert!(!str_contains("hello", "world"));
    let a: Vec<char> = "apple".chars().collect();
    let b: Vec<char> = "apricot".chars().collect();
    assert_eq!(compare_chars(&a, &b), -1);
    assert_eq!(compare_chars(&b, &a), 1);
    assert_eq!(compare_chars(&a, &a), 0);
}

#[test]
fn trim_drops_unicode_white_space() {
    assert_eq!(trim_str("\u{3000} a b\t\n"), "a b");
    assert_eq!(trim_str("\u{a0}\u{2009}x\u{85}"), "x");
    assert_eq!(trim_str("   "), "");
    assert_eq!(trim_str("a\u{200b}"), "a\u{200b}");
}

#[test]
fn lines_split_at_line_feeds() {
    assert_eq!(lines_of("a\r\nb\n\nc\n"), vec!["a", "b", "", "c"]);
    assert_eq!(lines_of(""), Vec::<String>::new());
    assert_eq!(lines_of("\n"), vec![""]);
    assert_eq!(lines_of("x\ry\nz\r"), vec!["x\ry", "z\r"]);
}

#[test]
fn truncate_chars_counts_characters() {
    assert_eq!(truncate_chars("h\u{e9}llo w\u{f6}rld", 8), "h\u{e9}llo...");
    assert_eq!(truncate_chars("h\u{e9}llo", 5), "h\u{e9}llo");
    assert_eq!(truncate_chars("abcdef", 2), "ab");
    assert_eq!(truncate_chars("abcdefgh", 6).chars().count(), 6);
}

#[test]
fn truncations_agree_on_ascii() {
    for max in 0..12 {
        for text in ["", "ab", "abcdef", "abcdefghijk"] {
            assert_eq!(truncate_str(text, max), truncate_chars(text, max));
        }
    }
}
