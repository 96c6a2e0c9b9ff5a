use rust_bbs::ui::input::{Key, KeyParser, TextInput};
use rust_bbs::ui::paint::Rect;

#[test]
fn parses_arrows_and_split_sequences() {
    let mut p = KeyParser::default();
    assert_eq!(p.feed(b"\x1b[A\x1b[B"), vec![Key::Up, Key::Down]);
    assert_eq!(p.feed(b"\x1b["), vec![]);
    assert_eq!(p.feed(b"C"), vec![Key::Right]);
    assert_eq!(p.feed(b"\x1b"), vec![Key::Esc]);
    assert_eq!(p.feed(b"\x1bOA"), vec![Key::Up]);
    assert_eq!(p.feed(b"\x1b[3~"), vec![Key::Delete]);
    assert_eq!(p.feed(b"\x1b[5~\x1b[6~"), vec![Key::PageUp, Key::PageDown]);
}

#[test]
fn parses_text_and_controls() {
    let mut p = KeyParser::default();
    assert_eq!(
        p.feed("aä\r\n\x7f\x03".as_bytes()),
        vec![
            Key::Char('a'),
            Key::Char('ä'),
            Key::Enter,
            Key::Backspace,
            Key::Ctrl('c')
        ]
    );
    let bytes = "€".as_bytes();
    assert_eq!(p.feed(&bytes[..1]), vec![]);
    assert_eq!(p.feed(&bytes[1..]), vec![Key::Char('€')]);
}

#[test]
fn text_input_edits() {
    let mut t = TextInput::new(4, false);
    for c in "abcde".chars() {
        t.handle(Key::Char(c));
    }
    assert_eq!(t.value(), "abcd");
    t.handle(Key::Left);
    t.handle(Key::Backspace);
    assert_eq!(t.value(), "abd");
}

#[test]
fn keys_of_many_terminals() {
    let mut p = KeyParser::default();
    assert_eq!(p.feed(b"\x1b[H\x1b[F"), vec![Key::Home, Key::End]);
    assert_eq!(p.feed(b"\x1b[1~\x1b[4~\x1b[7~\x1b[8~"), vec![Key::Home, Key::End, Key::Home, Key::End]);
    assert_eq!(p.feed(b"\x1b[Z\t"), vec![Key::BackTab, Key::Tab]);
    assert_eq!(p.feed(b"\x1bOH\x1bOF"), vec![Key::Home, Key::End]);
    assert_eq!(p.feed(b"\x08\n"), vec![Key::Backspace, Key::Enter]);
    assert_eq!(p.feed(b"\x1b[99~a"), vec![Key::Char('a')]);
}

#[test]
fn reads_may_be_cut_anywhere_but_behind_escape() {
    let data = "aé\x1b[A€\x1b[6~\r\nz".as_bytes();
    let mut whole = KeyParser::default();
    let expected = whole.feed(data);
    for cut in 1..data.len() {
        if data[cut - 1] == 0x1b {
            continue;
        }
        let mut p = KeyParser::default();
        let mut keys = p.feed(&data[..cut]);
        keys.extend(p.feed(&data[cut..]));
        assert_eq!(keys, expected, "cut at {}", cut);
    }
}

#[test]
fn garbage_is_not_kept_for_ever() {
    let mut p = KeyParser::default();
    let mut junk = vec![0x1b, b'['];
    junk.extend(vec![b'1'; 100]);
    p.feed(&junk);
    let keys = p.feed(b"~x");
    assert_eq!(keys.last(), Some(&Key::Char('x')));
}

#[test]
fn field_cursor_keys() {
    let mut t = TextInput::new(10, false);
    for c in "hello".chars() {
        t.handle(Key::Char(c));
    }
    t.handle(Key::Home);
    t.handle(Key::Delete);
    assert_eq!(t.value(), "ello");
    t.handle(Key::End);
    t.handle(Key::Left);
    t.handle(Key::Ctrl('u'));
    assert_eq!(t.value(), "o");
    assert!(!t.is_empty());
    t.clear();
    assert!(t.is_empty());
    t.set("a\x1bb");
    assert_eq!(t.value(), "ab");
    assert!(!t.handle(Key::Esc));
    assert!(t.handle(Key::Backspace));
}

#[test]
fn backspace_takes_back_what_was_typed() {
    let mut t = TextInput::new(10, false);
    t.set("abc");
    t.handle(Key::Left);
    t.handle(Key::Char('x'));
    assert_eq!(t.value(), "abxc");
    t.handle(Key::Backspace);
    assert_eq!(t.value(), "abc");
    t.handle(Key::Char('y'));
    assert_eq!(t.value(), "abyc");
}

#[test]
fn masked_fields_hide_their_text() {
    let area = Rect { x: 0, y: 0, width: 12, height: 3 };
    let mut a = TextInput::new(20, true);
    let mut b = TextInput::new(20, true);
    a.set("secret");
    b.set("hidden");
    assert_eq!(a.render(area, true).text, "******");
    assert_eq!(a.render(area, true).text, b.render(area, true).text);
    assert_eq!(a.render(area, true).cursor, Some((7, 1)));
    assert_eq!(a.render(area, false).cursor, None);
}

#[test]
fn long_fields_scroll_with_the_cursor() {
    let area = Rect { x: 2, y: 3, width: 7, height: 3 };
    let mut t = TextInput::new(20, false);
    t.set("0123456789");
    let view = t.render(area, true);
    assert_eq!(view.text, "6789");
    assert_eq!(view.cursor, Some((7, 4)));
    t.handle(Key::Home);
    let view = t.render(area, true);
    assert_eq!(view.text, "01234");
    assert_eq!(view.cursor, Some((3, 4)));
}
