use rust_bbs::chat::{ChatEvent, ChatKind, ChatSnapshot};
use rust_bbs::db::{Folder, Role};
use rust_bbs::mail::MailNotice;
use rust_bbs::state::Identity;
use rust_bbs::ui::app::{motd_popup, sum_unread, Screen, MAX_QUEUED_KEYS};
use rust_bbs::ui::input::Key;
use rust_bbs::ui::paint::{Color, Line, Rect};
use rust_bbs::ui::{
    Action, App, BoardInfo, MenuItem, PageTarget, PostInfo, Request, Response, ThreadDetail,
};

fn user(role: Role) -> Identity {
    Identity::User { id: 1, name: "alice".into(), role }
}

fn member() -> App {
    App::new(user(Role::User))
}

fn text(line: &Line) -> String {
    line.spans.iter().map(|s| s.text.as_str()).collect()
}

fn board(id: i64, unread: i64) -> BoardInfo {
    BoardInfo {
        id,
        name: "General".into(),
        description: String::new(),
        thread_count: 1,
        unread_threads: unread,
    }
}

fn detail() -> ThreadDetail {
    ThreadDetail {
        id: 9,
        board_id: 1,
        board_name: "General".into(),
        title: "T".into(),
        posts: vec![PostInfo {
            id: 5,
            author: "bob".into(),
            author_is_sysop: false,
            body: "hello".into(),
            created: "now".into(),
            unread: false,
        }],
        page: 0,
        pages: 1,
        total: 1,
    }
}

#[test]
fn the_menu_depends_on_who_you_are() {
    let guest = App::new(Identity::Guest);
    assert!(guest.menu_items().contains(&MenuItem::Register));
    assert!(!guest.menu_items().contains(&MenuItem::Mail));
    assert!(!member().menu_items().contains(&MenuItem::SysopTools));
    let sysop = App::new(user(Role::Sysop));
    assert!(sysop.menu_items().contains(&MenuItem::SysopTools));
    assert_eq!(guest.header(), "rust-bbs — welcome, guest (register to get your own account)");
    assert_eq!(sysop.header(), "rust-bbs — welcome, alice");
}

#[test]
fn the_menu_is_drawn_with_counts() {
    let mut app = member();
    app.set_unread_threads(4);
    app.set_unread_mail(2);
    let pane = app.draw_menu();
    assert_eq!(text(&pane.items[0]), "[1] Message boards (4 unread)");
    assert_eq!(text(&pane.items[2]), "[3] Mail (2 unread)");
    assert_eq!(pane.selected, Some(0));
}

#[test]
fn the_menu_goes_round() {
    let mut app = member();
    app.handle_key(Key::Up);
    assert_eq!(app.selected, app.menu_items().len() - 1);
    app.handle_key(Key::Char('j'));
    assert_eq!(app.selected, 0);
    assert!(matches!(app.handle_key(Key::Char('q')), Some(Action::Quit)));
}

#[test]
fn ctrl_c_logs_off_from_anywhere() {
    let mut app = member();
    app.set_motd(Some("Hi".into()));
    app.push_input(b"\x03");
    assert!(matches!(app.pump(), Some(Action::Quit)));
}

#[test]
fn the_motd_keeps_keys_away_until_enter() {
    let mut app = member();
    app.set_motd(Some("Hi".into()));
    assert_eq!(app.activity(), "Reading the message of the day");
    assert!(app.handle_key(Key::Char('q')).is_none());
    assert!(app.motd_popup.is_some());
    assert!(app.handle_key(Key::Enter).is_none());
    assert!(app.motd_popup.is_none());
    assert_eq!(app.activity(), "Main menu");
    app.set_motd(Some(String::new()));
    assert!(app.motd_popup.is_none());
}

#[test]
fn keys_wait_for_the_server() {
    let mut app = member();
    app.push_input(b"1jj");
    assert!(matches!(app.pump(), Some(Action::Request(Request::ListBoards))));
    assert_eq!(app.queue.len(), 2);
    app.on_response(Response::Boards {
        boards: vec![board(1, 2), board(2, 0), board(3, 5)],
        notice: None,
    });
    assert_eq!(app.unread_threads, 7);
    assert!(app.pump().is_none());
    app.push_input(b"\r");
    assert!(matches!(app.pump(), Some(Action::Request(Request::ListThreads { board_id: 3, page: 0 }))));
}

#[test]
fn typed_ahead_keys_are_capped() {
    let mut app = member();
    app.push_input(&vec![b'x'; 10_000]);
    assert_eq!(app.queue.len(), MAX_QUEUED_KEYS);
}

#[test]
fn guests_read_but_do_not_post() {
    let mut app = App::new(Identity::Guest);
    app.on_response(Response::Thread { detail: detail(), to_end: false, notice: None });
    assert!(app.handle_key(Key::Char('r')).is_none());
    assert!(matches!(app.screen, Screen::Thread(_)));
    assert_eq!(
        app.status_line(),
        ("Guests can't post. Register an account from the main menu first.".to_string(), Color::Red)
    );
    let mut app = App::new(Identity::Guest);
    assert!(app.handle_key(Key::Char('2')).is_none());
    assert!(matches!(app.screen, Screen::Menu));
}

#[test]
fn a_reply_is_written_refused_and_cancelled() {
    let mut app = member();
    app.on_response(Response::Thread { detail: detail(), to_end: false, notice: None });
    app.handle_key(Key::Char('r'));
    assert_eq!(app.activity(), "Writing a post");
    for c in "ok".chars() {
        app.handle_key(Key::Char(c));
    }
    let sent = app.handle_key(Key::Ctrl('d'));
    assert!(matches!(sent, Some(Action::Request(Request::Reply { thread_id: 9, ref body }))
        if body == "On now, bob wrote:\n> hello\n\nok"));
    app.on_response(Response::PostFailed("Too fast.".into()));
    match &app.screen {
        Screen::Compose(screen) => {
            assert_eq!(screen.compose.error.as_deref(), Some("Too fast."));
            assert!(screen.compose.body.value().ends_with("ok"));
        }
        _ => panic!("the editor is gone"),
    }
    app.handle_key(Key::Esc);
    assert!(matches!(app.screen, Screen::Thread(_)));
}

#[test]
fn going_back_keeps_the_list_page() {
    let mut app = member();
    app.on_response(Response::Threads {
        board_id: 1,
        board_name: "General".into(),
        threads: vec![],
        notice: Some("Thread deleted.".into()),
        page: 1,
        pages: 3,
        total: 60,
    });
    assert_eq!(app.status_line(), ("Thread deleted.".to_string(), Color::Yellow));
    let back = app.handle_key(Key::Left);
    assert!(matches!(back, Some(Action::Request(Request::ListThreads { board_id: 1, page: 0 }))));
    assert_eq!(app.status_line().0, "");
    let mut detail = detail();
    detail.pages = 2;
    app.on_response(Response::Thread { detail, to_end: false, notice: None });
    let next = app.handle_key(Key::Right);
    assert!(matches!(next, Some(Action::Request(Request::OpenThread { thread_id: 9, target: PageTarget::Page(1) }))));
    let back = app.handle_key(Key::Esc);
    assert!(matches!(back, Some(Action::Request(Request::ListThreads { board_id: 1, page: 0 }))));
}

#[test]
fn registering_changes_the_session() {
    let mut app = App::new(Identity::Guest);
    app.handle_key(Key::Char('4'));
    assert!(matches!(app.screen, Screen::Register(_)));
    app.on_response(Response::Registered(Err("That username is already taken.".into())));
    assert!(matches!(app.screen, Screen::Register(ref f) if f.error.is_some()));
    app.on_response(Response::Registered(Ok(user(Role::User))));
    assert!(matches!(app.screen, Screen::Menu));
    assert_eq!(app.identity.user_id(), Some(1));
    assert!(app.status_line().0.starts_with("Welcome, alice! Your account is ready."));
}

#[test]
fn mail_is_announced_to_its_recipient() {
    let mut app = member();
    assert!(!app.on_mail_notice(MailNotice { to_user_id: 2, from: "bob".into() }));
    assert!(app.on_mail_notice(MailNotice { to_user_id: 1, from: "bob".into() }));
    assert_eq!(app.unread_mail, 1);
    assert_eq!(app.status_line().0, "New mail from bob.");
    app.on_response(Response::Mailbox { folder: Folder::Inbox, items: vec![], unread: 1, notice: None });
    app.on_mail_notice(MailNotice { to_user_id: 1, from: "bob".into() });
    assert_eq!(app.status_line().0, "New mail from bob. Press r to refresh.");
}

#[test]
fn chat_events_reach_the_chat_screen() {
    let mut app = member();
    let event = || ChatEvent {
        seq: 1,
        at: 0,
        kind: ChatKind::Join { name: "bob".into(), is_sysop: false },
    };
    assert!(!app.on_chat_event(event()));
    assert!(matches!(app.handle_key(Key::Char('2')), Some(Action::Request(Request::JoinChat))));
    app.on_response(Response::ChatJoined(ChatSnapshot::default()));
    assert!(app.on_chat_event(event()));
    assert!(!app.on_chat_event(event()));
    app.on_response(Response::ChatRejected("Slow down.".into()));
    assert!(app.on_chat_snapshot(ChatSnapshot::default()));
    assert!(matches!(app.handle_key(Key::Esc), Some(Action::Request(Request::LeaveChat))));
}

#[test]
fn failures_are_shown_where_they_belong() {
    let mut app = member();
    app.on_response(Response::Error("No.".into()));
    assert_eq!(app.status_line(), ("No.".to_string(), Color::Red));
    app.on_response(Response::SysopActionFailed("Only sysops can do that.".into()));
    assert_eq!(app.status_line().0, "Only sysops can do that.");
    app.on_response(Response::Nothing);
    assert_eq!(app.status_line().0, "Only sysops can do that.");
    app.on_response(Response::PasswordChanged(Ok("Password changed.".into())));
    assert_eq!(app.status_line(), ("Password changed.".to_string(), Color::Yellow));
    app.on_response(Response::Keys { keys: vec![], notice: Some(Err("Bad key.".into())) });
    assert_eq!(app.status_line(), ("Bad key.".to_string(), Color::Red));
}

#[test]
fn counts_that_cannot_be_added_up() {
    assert_eq!(sum_unread(&vec![board(1, 2), board(2, 3)]), Some(5));
    assert_eq!(sum_unread(&vec![board(1, i64::MAX), board(2, 1)]), None);
}

#[test]
fn the_popup_is_sized_to_its_message() {
    let screen = Rect { x: 0, y: 0, width: 80, height: 24 };
    let r = motd_popup("Hi", screen);
    assert_eq!((r.x, r.y, r.width, r.height), (8, 6, 64, 12));
    let r = motd_popup(&"line\n".repeat(100), screen);
    assert_eq!(r.height, 19);
    let tiny = Rect { x: 0, y: 0, width: 3, height: 1 };
    let r = motd_popup("Hi", tiny);
    assert_eq!((r.x, r.y, r.width, r.height), (1, 0, 1, 1));
}
