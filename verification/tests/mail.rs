use rust_bbs::content;
use rust_bbs::db::{Folder, MailItem, MailMessage};
use rust_bbs::ui::input::Key;
use rust_bbs::ui::mail::{
    reply_subject, BlocksEvent, BlocksScreen, MailCompose, MailComposeEvent, MailboxEvent,
    MailboxScreen, MessageEvent, MessageScreen,
};
use rust_bbs::ui::paint::Line;

fn item(id: i64) -> MailItem {
    MailItem {
        id,
        other: "alice".into(),
        subject: "Hi".into(),
        created: "2026-01-01 00:00".into(),
        unread: true,
    }
}

fn message(is_recipient: bool) -> MailMessage {
    MailMessage {
        id: 7,
        from: "alice".into(),
        to: "bob".into(),
        subject: "Hi".into(),
        body: "text".into(),
        created: "2026-01-01 00:00".into(),
        is_recipient,
    }
}

fn type_text(field: &mut MailCompose, text: &str) {
    for c in text.chars() {
        field.handle(if c == '\n' { Key::Enter } else { Key::Char(c) });
    }
}

fn text(line: &Line) -> String {
    line.spans.iter().map(|s| s.text.as_str()).collect()
}

#[test]
fn reply_subjects_dont_stack() {
    assert_eq!(reply_subject("Hello"), "Re: Hello");
    assert_eq!(reply_subject("Re: Hello"), "Re: Hello");
    assert!(reply_subject(&"x".repeat(200)).chars().count() <= content::SUBJECT_MAX);
}

#[test]
fn mailbox_keys() {
    let mut m = MailboxScreen::new(Folder::Inbox);
    m.set(vec![item(1), item(2)], 2);
    assert!(matches!(m.handle(Key::Down), MailboxEvent::Nothing));
    assert!(matches!(m.handle(Key::Enter), MailboxEvent::Open(2)));
    assert!(matches!(m.handle(Key::Char('d')), MailboxEvent::Nothing));
    assert!(matches!(m.handle(Key::Char('n')), MailboxEvent::Nothing), "anything but y cancels");
    m.handle(Key::Char('d'));
    assert!(matches!(m.handle(Key::Char('y')), MailboxEvent::Delete(2)));
    assert!(matches!(m.handle(Key::Tab), MailboxEvent::Switch(Folder::Sent)));
    assert!(matches!(m.handle(Key::Char('c')), MailboxEvent::Compose));
    assert!(matches!(m.handle(Key::Char('B')), MailboxEvent::Blocks));
    assert!(matches!(m.handle(Key::Esc), MailboxEvent::Back));
}

#[test]
fn message_actions_depend_on_which_copy_you_hold() {
    let mut inbox = MessageScreen::new(message(true));
    assert!(matches!(inbox.handle(Key::Char('r')), MessageEvent::Reply { ref to, ref subject } if to == "alice" && subject == "Re: Hi"));
    inbox.handle(Key::Char('b'));
    assert!(matches!(inbox.handle(Key::Char('y')), MessageEvent::Block(ref n) if n == "alice"));
    assert!(matches!(inbox.handle(Key::Esc), MessageEvent::Back(Folder::Inbox)));

    let mut sent = MessageScreen::new(message(false));
    assert!(matches!(sent.handle(Key::Char('r')), MessageEvent::Nothing), "can't reply to your own sent copy");
    sent.handle(Key::Char('b'));
    assert!(matches!(sent.handle(Key::Char('y')), MessageEvent::Nothing), "can't block from the sent folder");
    sent.handle(Key::Char('d'));
    assert!(matches!(sent.handle(Key::Char('y')), MessageEvent::Delete(7)));
    assert!(matches!(sent.handle(Key::Esc), MessageEvent::Back(Folder::Sent)));
}

#[test]
fn compose_validates_before_sending() {
    let mut c = MailCompose::new(None, None);
    assert!(matches!(c.handle(Key::Ctrl('d')), MailComposeEvent::Nothing));
    assert_eq!(c.focus, 0, "recipient missing");

    type_text(&mut c, "bob\n");
    assert!(matches!(c.handle(Key::Ctrl('d')), MailComposeEvent::Nothing));
    assert_eq!(c.focus, 1, "subject missing");

    type_text(&mut c, "Hi\n");
    assert!(matches!(c.handle(Key::Ctrl('d')), MailComposeEvent::Nothing));
    assert_eq!(c.focus, 2, "message empty");

    type_text(&mut c, "hello there");
    let event = c.handle(Key::Ctrl('d'));
    assert!(matches!(event, MailComposeEvent::Submit { ref to, ref subject, ref body }
        if to == "bob" && subject == "Hi" && body == "hello there"));
    assert!(c.busy);
    assert!(matches!(c.handle(Key::Esc), MailComposeEvent::Nothing), "locked while sending");
    c.fail("nope".into());
    assert!(!c.busy && c.error.as_deref() == Some("nope"));
}

#[test]
fn replies_start_in_the_body_with_fields_prefilled() {
    let c = MailCompose::new(Some("alice"), Some("Re: Hi"));
    assert_eq!((c.to.value().as_str(), c.subject.value().as_str(), c.focus), ("alice", "Re: Hi", 2));
}

#[test]
fn blocked_list_unblocks_the_selected_name() {
    let mut b = BlocksScreen::new();
    b.set(vec!["alice".into(), "bob".into()]);
    b.handle(Key::Down);
    assert!(matches!(b.handle(Key::Char('x')), BlocksEvent::Unblock(ref n) if n == "bob"));
    assert!(matches!(b.handle(Key::Esc), BlocksEvent::Back));
}

#[test]
fn replying_to_a_cut_reply_changes_nothing() {
    let once = reply_subject(&"y".repeat(200));
    assert_eq!(reply_subject(&once), once);
    assert_eq!(reply_subject("re: Hello"), "Re: re: Hello");
}

#[test]
fn the_mailbox_shows_who_and_what() {
    let mut m = MailboxScreen::new(Folder::Inbox);
    m.set(vec![item(1)], 1);
    let pane = m.draw();
    assert_eq!(text(&pane.items[0]), "* alice           Hi  2026-01-01 00:00");
    assert!(pane.title.contains("Inbox"), "{}", pane.title);
}

#[test]
fn a_message_scrolls_within_its_text() {
    let mut long = message(true);
    long.body = "line\n".repeat(50).trim_end().to_string();
    let mut s = MessageScreen::new(long);
    s.draw(40, 10);
    s.handle(Key::PageDown);
    let pane = s.draw(40, 10);
    assert_eq!(pane.scroll, 9);
    s.handle(Key::End);
    let pane = s.draw(40, 10);
    assert_eq!(pane.scroll, pane.lines.len() - 10);
    s.handle(Key::Up);
    assert_eq!(s.draw(40, 10).scroll, pane.scroll - 1);
}
