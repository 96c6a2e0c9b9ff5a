use rust_bbs::content::{
    clean_body, clean_chat, clean_motd, clean_subject, clean_title, is_deceptive, BODY_MAX,
    CHAT_MAX, MOTD_MAX, SUBJECT_MAX, TITLE_MAX,
};

#[test]
fn title_is_collapsed_and_bounded() {
    assert_eq!(
        clean_title("  hello \t  world\x1b[31m ").unwrap(),
        "hello world [31m"
    );
    assert!(clean_title("ab").is_err());
    assert!(clean_title(&"x".repeat(TITLE_MAX + 1)).is_err());
    assert_eq!(clean_title("a\u{202E}bc").unwrap(), "abc");
}

#[test]
fn body_is_sanitised() {
    assert_eq!(clean_body("a\n\n\n\n\n\nb").unwrap(), "a\n\n\n\nb");
    assert_eq!(
        clean_body("hi\x1b[2J\r\n\r\n\r\n\r\nthere  \n").unwrap(),
        "hi[2J\n\n\n\nthere"
    );
    assert!(clean_body(" \n\t\n").is_err());
    assert!(clean_body(&"x".repeat(BODY_MAX + 1)).is_err());
}

#[test]
fn body_keeps_indentation_and_spacing() {
    let art = "   /\\_/\\\n  ( o.o )\n   > ^ <\n\n\nend   here";
    assert_eq!(clean_body(art).unwrap(), art);
    assert_eq!(clean_body("\n\n    x\n").unwrap(), "    x");
    assert_eq!(clean_body("\tx").unwrap(), "    x");
}

#[test]
fn subjects_are_single_line_and_bounded() {
    assert_eq!(clean_subject("  Hi\tthere \x1b").unwrap(), "Hi there");
    assert_eq!(clean_subject("x").unwrap(), "x");
    assert!(clean_subject("   ").is_err());
    assert!(clean_subject(&"x".repeat(SUBJECT_MAX + 1)).is_err());
}

#[test]
fn motd_allows_empty_and_keeps_formatting() {
    assert_eq!(clean_motd("").unwrap(), "", "empty clears the MOTD, not an error");
    assert_eq!(clean_motd("   \n\t \n").unwrap(), "");
    let banner = "  Welcome!\n  Be nice to each other.";
    assert_eq!(clean_motd(banner).unwrap(), banner);
    assert!(clean_motd(&"x".repeat(MOTD_MAX + 1)).is_err());
    assert!(clean_motd(&"x".repeat(MOTD_MAX)).is_ok());
}

#[test]
fn chat_lines_are_cleaned() {
    assert_eq!(clean_chat("  hi \t there\x1b[2J ").unwrap(), "hi there [2J");
    assert!(clean_chat("  \t ").is_err());
    assert!(clean_chat(&"x".repeat(CHAT_MAX + 1)).is_err());
    assert_eq!(clean_chat("a\u{202E}b").unwrap(), "ab");
}

#[test]
fn limits_are_exact() {
    assert!(clean_title("abc").is_ok());
    assert!(clean_title(&"x".repeat(TITLE_MAX)).is_ok());
    assert!(clean_body(&"x".repeat(BODY_MAX)).is_ok());
    assert!(clean_subject(&"x".repeat(SUBJECT_MAX)).is_ok());
    assert!(clean_chat(&"x".repeat(CHAT_MAX)).is_ok());
    assert_eq!(TITLE_MAX, 80);
    assert_eq!(BODY_MAX, 2000);
}

#[test]
fn accepted_texts_are_accepted_again_unchanged() {
    let raw = "\t hi\x1b \r\n\r\n\r\n\r\n\r\n\r\nthere \u{200B}x\u{2067}  ";
    let body = clean_body(raw).unwrap();
    assert_eq!(clean_body(&body).unwrap(), body);
    let title = clean_title(raw).unwrap();
    assert_eq!(clean_title(&title).unwrap(), title);
    let subject = clean_subject(raw).unwrap();
    assert_eq!(clean_subject(&subject).unwrap(), subject);
    let motd = clean_motd(raw).unwrap();
    assert_eq!(clean_motd(&motd).unwrap(), motd);
    let chat = clean_chat(raw).unwrap();
    assert_eq!(clean_chat(&chat).unwrap(), chat);
    for text in [&body, &title, &subject, &motd, &chat] {
        assert!(!text.chars().any(is_deceptive));
        assert!(!text.chars().any(|c| c.is_control() && c != '\n'));
    }
}

#[test]
fn deceptive_characters() {
    for c in ['\u{200B}', '\u{200E}', '\u{202A}', '\u{202E}', '\u{2066}', '\u{2069}', '\u{FEFF}'] {
        assert!(is_deceptive(c), "{:?}", c);
    }
    for c in ['a', ' ', 'é', '\u{2010}', '€'] {
        assert!(!is_deceptive(c), "{:?}", c);
    }
}

#[test]
fn words_stand_one_space_apart() {
    assert_eq!(clean_title("\u{3000}a\u{200b}b \t c\n\nd ").unwrap(), "ab c d");
}

#[test]
fn clean_texts_are_kept_exactly() {
    let text = "  /\\_/\\\n ( o.o )   x\n\n\n\nfn f() {\n        1\n}";
    assert_eq!(clean_body(text).unwrap(), text);
    assert_eq!(clean_motd(text).unwrap(), text);
    assert_eq!(clean_title("One title, as it is").unwrap(), "One title, as it is");
}
