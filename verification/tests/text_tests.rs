use codex_island::text::{decimal_string, text_eq, trimmed, chars_of, contains_chars, lower_chars, strip_prefix_repeatedly, starts_with_chars};

#[test]
fn decimal_rendering() {
    assert_eq!(decimal_string(0), "0");
    assert_eq!(decimal_string(7), "7");
    assert_eq!(decimal_string(10), "10");
    assert_eq!(decimal_string(1234567890), "1234567890");
    assert_eq!(decimal_string(u64::MAX), u64::MAX.to_string());
}

#[test]
fn trimming_and_equality() {
    assert_eq!(trimmed("\t\u{a0} x y \u{feff}\u{205f}"), "x y");
    assert_eq!(trimmed("\u{200b}x"), "\u{200b}x");
    assert_eq!(trimmed(""), "");
    assert!(text_eq("abc", "abc"));
    assert!(!text_eq("abc", "abd"));
    assert!(!text_eq("ab", "abc"));
}

#[test]
fn search_and_case() {
    let hay = chars_of("Hello World");
    assert_eq!(lower_chars(&hay).into_iter().collect::<String>(), "hello world");
    assert!(contains_chars(&hay, &chars_of("lo W")));
    assert!(contains_chars(&hay, &chars_of("")));
    assert!(!contains_chars(&hay, &chars_of("world")));
    assert!(starts_with_chars(&hay, &chars_of("Hell")));
    assert!(!starts_with_chars(&chars_of("He"), &chars_of("Hell")));
    assert_eq!(strip_prefix_repeatedly(&chars_of("ababx"), &chars_of("ab")), "x");
    assert_eq!(strip_prefix_repeatedly(&chars_of("aba"), &chars_of("ab")), "a");
}

#[test]
fn decimal_reads_back_and_keeps_order() {
    let values = [0u64, 9, 10, 99, 100, 1_700_000_000, u64::MAX - 1, u64::MAX];
    for v in values {
        assert_eq!(decimal_string(v).parse::<u64>().unwrap(), v);
    }
    for w in values.windows(2) {
        assert!(decimal_string(w[0]).parse::<u64>().unwrap() <= decimal_string(w[1]).parse::<u64>().unwrap());
    }
}
