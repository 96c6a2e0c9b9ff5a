use rust_bbs::ui::input::Key;
use rust_bbs::ui::keys::{KeysEvent, KeysScreen};
use rust_bbs::ui::online::{format_duration, OnlineEvent, OnlineScreen};
use rust_bbs::ui::paint::{Color, Line};
use rust_bbs::ui::password::{PasswordEvent, PasswordForm};
use rust_bbs::ui::register::{FormEvent, RegisterForm};
use rust_bbs::ui::sysop::{MotdEditor, MotdEvent, SysopMenu, SysopMenuEvent};
use rust_bbs::ui::{KeyInfo, OnlineInfo};

fn fill(form: &mut PasswordForm, current: &str, new: &str, confirm: &str) -> PasswordEvent {
    for (i, text) in [current, new, confirm].iter().enumerate() {
        form.focus = i;
        for c in text.chars() {
            form.handle(Key::Char(c));
        }
    }
    form.focus = 2;
    form.handle(Key::Enter)
}

fn text(line: &Line) -> String {
    line.spans.iter().map(|s| s.text.as_str()).collect()
}

#[test]
fn formats_durations() {
    assert_eq!(format_duration(5), "just now");
    assert_eq!(format_duration(125), "2m");
    assert_eq!(format_duration(3 * 3600 + 7 * 60), "3h 07m");
}

#[test]
fn valid_input_is_submitted_once() {
    let mut f = PasswordForm::new("alice");
    let event = fill(&mut f, "old-password", "new-password-1", "new-password-1");
    assert!(matches!(event, PasswordEvent::Submit { ref current, ref new }
        if current == "old-password" && new == "new-password-1"));
    assert!(matches!(f.handle(Key::Enter), PasswordEvent::Nothing));
    assert!(f.busy);
}

#[test]
fn mistakes_are_caught_before_the_server_and_focus_the_bad_field() {
    let mut f = PasswordForm::new("alice");
    assert!(matches!(fill(&mut f, "", "new-password-1", "new-password-1"), PasswordEvent::Nothing));
    assert_eq!((f.focus, f.error.as_deref()), (0, Some("Enter your current password.")));

    let mut f = PasswordForm::new("alice");
    assert!(matches!(fill(&mut f, "old-password", "short", "short"), PasswordEvent::Nothing));
    assert_eq!(f.focus, 1);

    let mut f = PasswordForm::new("alice");
    assert!(matches!(fill(&mut f, "same-password", "same-password", "same-password"), PasswordEvent::Nothing));
    assert!(f.error.unwrap().contains("differ"));

    let mut f = PasswordForm::new("alice");
    assert!(matches!(fill(&mut f, "old-password", "new-password-1", "new-password-2"), PasswordEvent::Nothing));
    assert_eq!(f.focus, 2);
    assert!(!f.busy);
}

#[test]
fn a_rejected_attempt_wipes_the_fields() {
    let mut f = PasswordForm::new("alice");
    fill(&mut f, "old-password", "new-password-1", "new-password-1");
    f.fail("Current password is wrong.".into());
    assert!(f.current.is_empty() && f.new.is_empty() && f.confirm.is_empty());
    assert!(!f.busy);
    assert_eq!(f.focus, 0);
}

#[test]
fn durations_at_the_edges() {
    assert_eq!(format_duration(59), "just now");
    assert_eq!(format_duration(60), "1m");
    assert_eq!(format_duration(3599), "59m");
    assert_eq!(format_duration(3600), "1h 00m");
}

#[test]
fn a_password_form_says_what_is_wrong() {
    let mut f = PasswordForm::new("alice");
    fill(&mut f, "old-password", "new-password-1", "other");
    assert_eq!(f.status(), Some(("The two new passwords don't match.".to_string(), Color::Red)));
    assert!(matches!(f.handle(Key::Esc), PasswordEvent::Cancel));
}

fn registration(name: &str, password: &str, again: &str) -> (RegisterForm, FormEvent) {
    let mut f = RegisterForm::new();
    for (i, text) in [name, password, again].iter().enumerate() {
        for c in text.chars() {
            f.handle(Key::Char(c));
        }
        if i < 2 {
            f.handle(Key::Tab);
        }
    }
    let event = f.handle(Key::Enter);
    (f, event)
}

#[test]
fn a_valid_registration_is_sent_once() {
    let (mut f, event) = registration("alice", "long-enough", "long-enough");
    assert!(matches!(event, FormEvent::Submit { ref username, ref password }
        if username == "alice" && password == "long-enough"));
    assert!(matches!(f.handle(Key::Esc), FormEvent::Nothing));
    f.fail("That username is already taken.".into());
    assert_eq!((f.password.value(), f.confirm.value()), (String::new(), String::new()));
    assert_eq!(f.status(), Some(("That username is already taken.".to_string(), Color::Red)));
    assert!(matches!(f.handle(Key::Esc), FormEvent::Cancel));
}

#[test]
fn an_invalid_registration_is_not_sent() {
    let (f, event) = registration("1alice", "long-enough", "long-enough");
    assert!(matches!(event, FormEvent::Nothing));
    assert_eq!(f.focus, 0);
    let (f, _) = registration("alice", "short", "short");
    assert_eq!(f.focus, 1);
    let (f, _) = registration("alice", "long-enough", "long-enougj");
    assert_eq!((f.focus, f.error.as_deref()), (2, Some("The two passwords don't match.")));
}

fn key(id: i64) -> KeyInfo {
    KeyInfo { id, fingerprint: "SHA256:abc".into(), comment: "laptop".into() }
}

#[test]
fn keys_are_added_and_deleted() {
    let mut k = KeysScreen::new();
    k.update(vec![key(4), key(5)], true);
    assert!(text(&k.draw().items[0]).contains("SHA256:abc"));
    k.handle(Key::Down);
    k.handle(Key::Char('d'));
    assert!(matches!(k.handle(Key::Char('n')), KeysEvent::Nothing));
    k.handle(Key::Char('d'));
    assert!(matches!(k.handle(Key::Char('y')), KeysEvent::Delete(5)));
    k.handle(Key::Char('a'));
    for c in "ssh-ed25519 AAAA".chars() {
        k.handle(Key::Char(c));
    }
    assert!(matches!(k.handle(Key::Enter), KeysEvent::Add(ref line) if line == "ssh-ed25519 AAAA"));
    k.update(vec![key(4)], true);
    assert!(matches!(k.handle(Key::Esc), KeysEvent::Back));
}

#[test]
fn who_is_online() {
    let mut s = OnlineScreen::new();
    assert_eq!(text(&s.draw().items[0]), "Loading…");
    s.set(
        vec![OnlineInfo {
            user_id: 1,
            name: "alice".into(),
            is_sysop: true,
            connected: 125,
            activity: "Chatting",
            sessions: 2,
        }],
        1,
    );
    let line = text(&s.draw().items[0]);
    assert!(line.contains("alice") && line.contains("2m") && line.contains("Chatting"), "{}", line);
    assert!(matches!(s.handle(Key::Char('r')), OnlineEvent::Refresh));
    assert!(matches!(s.handle(Key::Esc), OnlineEvent::Back));
    assert!(matches!(s.handle(Key::Tab), OnlineEvent::Nothing));
}

#[test]
fn the_sysop_menu_opens_the_motd_editor() {
    let mut m = SysopMenu::new();
    assert!(matches!(m.handle(Key::Down), SysopMenuEvent::Nothing));
    assert!(matches!(m.handle(Key::Enter), SysopMenuEvent::EditMotd));
    assert!(matches!(m.handle(Key::Esc), SysopMenuEvent::Back));
}

#[test]
fn the_motd_is_edited_once_it_is_there() {
    let mut e = MotdEditor::loading();
    assert!(matches!(e.handle(Key::Esc), MotdEvent::Nothing));
    e.set_text("Hello\nworld");
    e.handle(Key::Char('!'));
    assert!(matches!(e.handle(Key::Ctrl('d')), MotdEvent::Save(ref text) if text == "Hello\nworld!"));
    assert!(matches!(e.handle(Key::Esc), MotdEvent::Nothing));
    e.fail("no".into());
    assert_eq!(e.status().0, "no");
    assert!(matches!(e.handle(Key::Esc), MotdEvent::Cancel));
}
