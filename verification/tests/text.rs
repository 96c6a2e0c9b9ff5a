use rust_bbs::chars::{
    align_right, count, decimal_text, int_text, is_ascii_digit, is_ascii_letter, is_control,
    is_whitespace, join_strings, le_text, lines_of, pad, parse_number, same, same_ignoring_case,
    size_text, space_text, split_chars, to_ascii_lower, to_chars, trim_text, two_digit_text,
    words_of,
};
use rust_bbs::ui::text::{layout, measure, wrap, Counter};

#[test]
fn wraps_words_and_keeps_blank_lines() {
    assert_eq!(wrap("aaa bbb ccc", 7), vec!["aaa bbb", "ccc"]);
    assert_eq!(wrap("a\n\nb", 10), vec!["a", "", "b"]);
}

#[test]
fn splits_overlong_words() {
    assert_eq!(wrap("abcdefgh", 3), vec!["abc", "def", "gh"]);
}

#[test]
fn keeps_short_lines_exactly() {
    assert_eq!(
        wrap("   /\\_/\\\n  ( o.o )\n a  b", 78),
        vec!["   /\\_/\\", "  ( o.o )", " a  b"]
    );
}

#[test]
fn wrapped_lines_keep_indent() {
    assert_eq!(wrap("  aaa bbb ccc", 9), vec!["  aaa bbb", "  ccc"]);
}

#[test]
fn wide_characters_take_two_columns() {
    assert_eq!(wrap("日本語", 4), vec!["日本", "語"]);
    assert_eq!(wrap("日本 ab", 5), vec!["日本", "ab"]);
    assert_eq!(wrap("日本 ab", 7), vec!["日本 ab"]);
}

#[test]
fn combining_characters_take_none() {
    assert_eq!(wrap("e\u{301}e\u{301}e\u{301}", 3), vec!["e\u{301}e\u{301}e\u{301}"]);
}

#[test]
fn a_width_of_none_is_one() {
    assert_eq!(wrap("ab c", 0), vec!["a", "b", "c"]);
}

#[test]
fn wrapping_is_measuring_and_laying_out() {
    let text = "  one two three\nfour";
    assert_eq!(layout(&measure(text), 9), wrap(text, 9));
}

#[test]
fn wrapping_loses_no_visible_character() {
    let text = "The quick brown fox, jumped over: averyveryverylongword  twice";
    for width in 1..30 {
        let shown: String = wrap(text, width).concat().chars().filter(|c| *c != ' ').collect();
        let given: String = text.chars().filter(|c| *c != ' ').collect();
        assert_eq!(shown, given, "width {}", width);
    }
}

#[test]
fn wrapped_lines_fit_the_width() {
    let text = "   The quick brown fox, jumped over: averyveryverylongword  twice\n\nand on";
    for width in 1..40 {
        for line in wrap(text, width) {
            assert!(line.len() <= width, "{:?} at {}", line, width);
        }
    }
    assert_eq!(wrap("日本 日", 2), vec!["日", "本", "日"]);
    // A character wider than a line has one for itself.
    assert_eq!(wrap("日本", 1), vec!["", "日", "本"]);
}

#[test]
fn counters_hold_a_value() {
    let mut c = Counter::new(3);
    assert_eq!(c.get(), 3);
    c.set(9);
    assert_eq!(c.get(), 9);
}

#[test]
fn character_classes_are_the_standard_ones() {
    for n in 0..=0x10FFFFu32 {
        let Some(c) = char::from_u32(n) else { continue };
        assert_eq!(is_control(c), c.is_control(), "{:?}", c);
        assert_eq!(is_whitespace(c), c.is_whitespace(), "{:?}", c);
        assert_eq!(is_ascii_letter(c), c.is_ascii_alphabetic(), "{:?}", c);
        assert_eq!(is_ascii_digit(c), c.is_ascii_digit(), "{:?}", c);
        assert_eq!(to_ascii_lower(c), c.to_ascii_lowercase(), "{:?}", c);
    }
}

#[test]
fn lines_are_the_standard_ones() {
    for text in ["", "a", "a\n", "a\r\nb", "\n\n", "a\r", "a\n\rb\r\n", "x\r\r\n"] {
        let mine: Vec<String> = lines_of(text).iter().map(|l| l.iter().collect()).collect();
        let std: Vec<&str> = text.lines().collect();
        assert_eq!(mine, std, "{:?}", text);
    }
}

#[test]
fn words_and_splits_are_the_standard_ones() {
    for text in ["", " ", "a", " a  b\tc ", "é ü", "x\u{a0}y"] {
        let mine: Vec<String> =
            words_of(&to_chars(text)).iter().map(|w| w.iter().collect()).collect();
        let std: Vec<&str> = text.split_whitespace().collect();
        assert_eq!(mine, std, "{:?}", text);
        let mine: Vec<String> =
            split_chars(&to_chars(text), ' ').iter().map(|w| w.iter().collect()).collect();
        let std: Vec<&str> = text.split(' ').collect();
        assert_eq!(mine, std, "{:?}", text);
        assert_eq!(trim_text(text), text.trim());
        assert_eq!(count(text), text.chars().count());
    }
}

#[test]
fn numbers_in_text() {
    assert_eq!(decimal_text(0), "0");
    assert_eq!(decimal_text(u128::MAX), u128::MAX.to_string());
    assert_eq!(size_text(1207), "1207");
    assert_eq!(int_text(-42), "-42");
    assert_eq!(int_text(i64::MIN), i64::MIN.to_string());
    assert_eq!(two_digit_text(7), "07");
    assert_eq!(two_digit_text(59), "59");
    assert_eq!(parse_number("000123"), 123);
    assert_eq!(parse_number(""), 0);
}

#[test]
fn padding_counts_characters() {
    assert_eq!(pad("é", 3), format!("{:<3}", "é"));
    assert_eq!(pad("long", 2), "long");
    assert_eq!(align_right("12", 5), format!("{:>5}", "12"));
    assert_eq!(align_right("123456", 5), "123456");
    assert_eq!(space_text(4), "    ");
}

#[test]
fn comparing_texts() {
    assert!(same("abc", "abc"));
    assert!(!same("abc", "abC"));
    assert!(same_ignoring_case("GuEst", "guest"));
    assert!(!same_ignoring_case("É", "é"));
    for (a, b) in [("a", "b"), ("a", "aa"), ("", "a"), ("é", "z"), ("b", "a")] {
        assert_eq!(le_text(a, b), a <= b, "{} {}", a, b);
    }
    assert_eq!(join_strings(&vec!["a".to_string(), "b".to_string()], ", "), "a, b");
}
