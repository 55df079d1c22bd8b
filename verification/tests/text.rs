use web_server::text::{char_is_whitespace, chars_of, decimal_string, has_suffix};

fn str_ends_with(s: &str, suffix: &str) -> bool {
    has_suffix(&chars_of(s), suffix)
}

#[test]
fn whitespace_is_what_the_standard_library_says() {
    for code in 0u32..=0x10FFFF {
        if let Some(c) = char::from_u32(code) {
            assert_eq!(char_is_whitespace(c), c.is_whitespace(), "U+{:04X}", code);
        }
    }
}

#[test]
fn decimal_of_small_numbers() {
    assert_eq!(decimal_string(0), "0");
    assert_eq!(decimal_string(7), "7");
    assert_eq!(decimal_string(9), "9");
    assert_eq!(decimal_string(10), "10");
    assert_eq!(decimal_string(11), "11");
    assert_eq!(decimal_string(100), "100");
    assert_eq!(decimal_string(1234567890), "1234567890");
}

#[test]
fn decimal_of_the_largest_number() {
    assert_eq!(decimal_string(usize::MAX), format!("{}", usize::MAX));
}

#[test]
fn decimal_agrees_with_formatting() {
    let mut n: usize = 1;
    for _ in 0..19 {
        assert_eq!(decimal_string(n), format!("{}", n));
        assert_eq!(decimal_string(n - 1), format!("{}", n - 1));
        n = n * 10;
    }
}

#[test]
fn ends_with_matches_whole_suffixes_only() {
    assert!(str_ends_with("a.html", ".html"));
    assert!(str_ends_with(".html", ".html"));
    assert!(!str_ends_with("html", ".html"));
    assert!(!str_ends_with("a.htmlx", ".html"));
    assert!(!str_ends_with("a.HTML", ".html"));
    assert!(str_ends_with("anything", ""));
    assert!(str_ends_with("", ""));
    assert!(!str_ends_with("", "x"));
}

#[test]
fn ends_with_counts_characters_not_bytes() {
    assert!(str_ends_with("\u{65e5}\u{672c}.png", ".png"));
    assert!(str_ends_with("x\u{e9}", "\u{e9}"));
    assert!(!str_ends_with("x\u{e9}", "\u{e8}"));
}

#[test]
fn chars_of_lists_every_character() {
    assert_eq!(chars_of(""), Vec::<char>::new());
    assert_eq!(chars_of("a\u{e9}\u{1f600}b"), vec!['a', '\u{e9}', '\u{1f600}', 'b']);
}

#[test]
fn has_suffix_works_on_collected_characters() {
    let chars = chars_of("photo.jpeg");
    assert!(has_suffix(&chars, ".jpeg"));
    assert!(has_suffix(&chars, "jpeg"));
    assert!(!has_suffix(&chars, ".jpg"));
}
