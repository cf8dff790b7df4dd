use jwc::decimal::decimal_string;
use jwc::text::{count_text, is_whitespace_char};

#[test]
fn whitespace_is_what_the_standard_library_calls_whitespace() {
    let mut code: u32 = 0;
    while code <= 0x10ffff {
        if let Some(c) = char::from_u32(code) {
            assert_eq!(is_whitespace_char(c), c.is_whitespace(), "U+{:04X}", code);
        }
        code += 1;
    }
}

#[test]
fn whitespace_examples() {
    assert!(is_whitespace_char(' '));
    assert!(is_whitespace_char('\t'));
    assert!(is_whitespace_char('\n'));
    assert!(is_whitespace_char('\u{a0}'));
    assert!(is_whitespace_char('\u{3000}'));
    assert!(!is_whitespace_char('a'));
    assert!(!is_whitespace_char('\u{200b}'));
    assert!(!is_whitespace_char('\u{8}'));
    assert!(!is_whitespace_char('\u{e}'));
}

#[test]
fn count_text_counts_characters_and_words() {
    assert_eq!(count_text(""), (0, 0));
    assert_eq!(count_text("   "), (3, 0));
    assert_eq!(count_text("a"), (1, 1));
    assert_eq!(count_text("a b"), (3, 2));
    assert_eq!(count_text("  two  words "), (13, 2));
    assert_eq!(count_text("na\u{ef}ve caf\u{e9}"), (10, 2));
}

#[test]
fn count_text_agrees_with_split_whitespace() {
    let samples = vec![
        "",
        " ",
        "x",
        " x",
        "x ",
        "a  b   c",
        "\ta\nb\rc\u{b}d\u{c}e",
        "\u{2000}a\u{200a}b\u{2028}c\u{2029}",
        "no-break\u{a0}space and ideographic\u{3000}space",
        "\u{1f600}\u{1f601} \u{1f602}",
    ];
    for sample in samples {
        let (chars, words) = count_text(sample);
        assert_eq!(chars, sample.chars().count(), "text {:?}", sample);
        assert_eq!(words, sample.split_whitespace().count(), "text {:?}", sample);
    }
}

#[test]
fn decimal_string_writes_digits() {
    assert_eq!(decimal_string(0), "0");
    assert_eq!(decimal_string(7), "7");
    assert_eq!(decimal_string(10), "10");
    assert_eq!(decimal_string(305), "305");
    assert_eq!(decimal_string(1000000), "1000000");
}

#[test]
fn decimal_string_agrees_with_to_string() {
    let samples: Vec<usize> = vec![
        0, 1, 9, 10, 11, 99, 100, 101, 999, 1000, 12345, 65535, 65536, 4294967295,
        usize::MAX - 1,
        usize::MAX,
    ];
    for n in samples {
        assert_eq!(decimal_string(n), n.to_string());
    }
}
