use rust_bbs::content;
use rust_bbs::ui::compose::{quote, Compose, ComposeEvent, Focus, TextArea};
use rust_bbs::ui::input::Key;
use rust_bbs::ui::paint::{Color, Rect};
use rust_bbs::ui::Request;

fn type_str(area: &mut TextArea, s: &str) {
    for c in s.chars() {
        area.handle(if c == '\n' { Key::Enter } else { Key::Char(c) });
    }
}

fn type_form(form: &mut Compose, s: &str) {
    for c in s.chars() {
        form.handle(if c == '\n' { Key::Enter } else { Key::Char(c) });
    }
}

#[test]
fn quote_formats_attribution_and_prefixes_every_line() {
    let q = quote("alice", "2026-09-25 12:00", "hello\n\nworld");
    assert_eq!(
        q,
        "On 2026-09-25 12:00, alice wrote:\n> hello\n\n> world\n\n"
    );
    assert!(!q.lines().any(|l| l == ">"));
    assert!(q.ends_with("world\n\n"));
}

#[test]
fn reply_prefills_the_body_with_a_quote_ready_to_type_after() {
    let c = Compose::reply(9, "Some thread", Some(("alice", "2026-09-25 12:00", "hi there")));
    assert_eq!(
        c.body.value(),
        "On 2026-09-25 12:00, alice wrote:\n> hi there\n\n"
    );
    assert!(matches!(c.focus, Focus::Body));
}

#[test]
fn reply_without_a_quote_leaves_the_body_empty() {
    let c = Compose::reply(9, "Some thread", None);
    assert!(c.body.value().is_empty());
}

#[test]
fn word_wraps_at_limit() {
    let mut area = TextArea::new(1000);
    let word = "word ";
    type_str(&mut area, &word.repeat(30));
    let value = area.value();
    assert!(
        value
            .lines()
            .all(|l| l.chars().count() <= content::WRAP_COLS)
    );
    assert!(value.lines().count() >= 2);
    assert_eq!(value.split_whitespace().count(), 30);
}

#[test]
fn long_unbreakable_token_is_not_split() {
    let mut area = TextArea::new(1000);
    let long_token = "x".repeat(content::WRAP_COLS + 10);
    type_str(&mut area, &long_token);
    assert_eq!(area.value(), long_token);
    assert_eq!(area.value().lines().count(), 1);
}

#[test]
fn url_survives_intact_among_ordinary_prose() {
    let mut area = TextArea::new(1000);
    let url = "https://store.rockstargames.com/de/merchandise/gtavi-goodtime-state-vice-city-collection";
    type_str(&mut area, &format!("check this out:\n{url}\nlooks cool"));
    let value = area.value();
    assert!(value.contains(url), "the URL must appear byte-for-byte unbroken: {value:?}");
    assert!(value.contains("check this out:"));
    assert!(value.contains("looks cool"));
}

#[test]
fn wrapping_resumes_normally_right_after_an_unbreakable_token() {
    let mut area = TextArea::new(1000);
    let long_token = "x".repeat(content::WRAP_COLS + 5);
    type_str(&mut area, &format!("{long_token} {}", "word ".repeat(20)));
    let value = area.value();
    assert!(value.starts_with(&long_token));
    assert!(
        value.lines().skip(1).all(|l| l.chars().count() <= content::WRAP_COLS),
        "wrapping resumed normally after the token: {value:?}"
    );
}

#[test]
fn editing_across_lines() {
    let mut area = TextArea::new(100);
    type_str(&mut area, "ab\ncd");
    area.handle(Key::Home);
    area.handle(Key::Backspace);
    assert_eq!(area.value(), "abcd");
    area.handle(Key::Left);
    area.handle(Key::Enter);
    assert_eq!(area.value(), "a\nbcd");
}

#[test]
fn respects_max_chars() {
    let mut area = TextArea::new(5);
    type_str(&mut area, "abcdefgh");
    assert_eq!(area.value(), "abcde");
}

#[test]
fn typing_keeps_the_text_but_for_line_breaks() {
    let mut area = TextArea::new(2000);
    let text = "some words that go on and on ".repeat(12);
    type_str(&mut area, &text);
    assert_eq!(area.value().replace('\n', " "), text);
}

#[test]
fn cursor_keys_move_about_the_text() {
    let mut area = TextArea::new(100);
    type_str(&mut area, "first\nsecond line\nx");
    area.handle(Key::Up);
    area.handle(Key::End);
    area.handle(Key::Char('!'));
    assert_eq!(area.value(), "first\nsecond line!\nx");
    area.handle(Key::Delete);
    assert_eq!(area.value(), "first\nsecond line!x");
    area.handle(Key::Up);
    area.handle(Key::Home);
    area.handle(Key::Tab);
    assert_eq!(area.value(), "    first\nsecond line!x");
    area.handle(Key::Down);
    area.handle(Key::Left);
    area.handle(Key::Right);
    area.handle(Key::Char('#'));
    assert_eq!(area.value(), "    first\nseco#nd line!x");
    assert!(!area.handle(Key::Esc));
}

#[test]
fn the_area_scrolls_with_the_cursor() {
    let mut area = TextArea::new(100);
    type_str(&mut area, "a\nb\nc\nd\ne");
    let view = area.render(Rect { x: 0, y: 0, width: 10, height: 5 }, true);
    assert_eq!(view.text, "c\nd\ne");
    assert_eq!(view.cursor, Some((2, 3)));
    assert!(view.focused);
    let tiny = area.render(Rect { x: 0, y: 0, width: 2, height: 2 }, true);
    assert_eq!(tiny.cursor, None);
}

#[test]
fn a_new_thread_is_checked_and_sent() {
    let mut form = Compose::new_thread(4);
    assert!(matches!(form.handle(Key::Ctrl('d')), ComposeEvent::Nothing));
    assert!(form.error.is_some());
    assert!(matches!(form.focus, Focus::Body));
    type_form(&mut form, "Hello  there ");
    form.handle(Key::BackTab);
    assert!(matches!(form.focus, Focus::Title));
    type_form(&mut form, "x");
    assert!(matches!(form.handle(Key::Ctrl('d')), ComposeEvent::Nothing));
    assert!(matches!(form.focus, Focus::Title));
    type_form(&mut form, "yz\n");
    let event = form.handle(Key::Ctrl('d'));
    assert!(matches!(event, ComposeEvent::Submit(Request::CreateThread { board_id: 4, ref title, ref body })
        if title == "xyz" && body == "Hello  there"));
    assert!(form.busy);
    assert!(matches!(form.handle(Key::Esc), ComposeEvent::Nothing));
    form.fail("nope".into());
    assert_eq!(form.status(), ("nope".to_string(), Color::Red));
    assert!(matches!(form.handle(Key::Esc), ComposeEvent::Cancel));
}

#[test]
fn a_reply_is_sent_with_its_thread() {
    let mut form = Compose::reply(9, "Some thread", None);
    assert_eq!(form.heading, "Reply to: Some thread");
    type_form(&mut form, "me too");
    assert!(matches!(form.handle(Key::Ctrl('d')),
        ComposeEvent::Submit(Request::Reply { thread_id: 9, ref body }) if body == "me too"));
}

#[test]
fn tab_switches_between_title_and_message() {
    let mut form = Compose::new_thread(1);
    assert!(matches!(form.focus, Focus::Title));
    assert!(matches!(form.handle(Key::Tab), ComposeEvent::Nothing));
    assert!(matches!(form.focus, Focus::Body));
    assert!(matches!(form.handle(Key::Tab), ComposeEvent::Nothing));
    assert!(matches!(form.focus, Focus::Title));
    assert_eq!(form.body.value(), "");
    form.handle(Key::Tab);
    type_form(&mut form, "hi");
    form.handle(Key::Tab);
    assert!(matches!(form.focus, Focus::Title));
    assert_eq!(form.body.value(), "hi");
    assert_eq!(
        form.status(),
        (
            "Ctrl-D: post · Esc: cancel · Tab: switch between title and message".to_string(),
            Color::Gray
        )
    );
}

#[test]
fn tab_indents_a_reply() {
    let mut form = Compose::reply(9, "Some thread", None);
    form.handle(Key::Tab);
    assert!(matches!(form.focus, Focus::Body));
    assert_eq!(form.body.value(), "    ");
    form.handle(Key::BackTab);
    assert!(matches!(form.focus, Focus::Body));
    assert_eq!(
        form.status(),
        (
            "Ctrl-D: post · Esc: cancel · Tab: indent · Shift-Tab: back to title".to_string(),
            Color::Gray
        )
    );
}
