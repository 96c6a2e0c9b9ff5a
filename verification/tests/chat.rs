use rust_bbs::chat::{
    sort_members, ChatEvent, ChatKind, ChatRoom, ChatSnapshot, Member, HISTORY_LEN,
};
use rust_bbs::ui::chat::{shows_members, ChatAction, ChatLine, ChatScreen};
use rust_bbs::ui::input::Key;
use rust_bbs::ui::paint::Line;

fn names(s: &ChatSnapshot) -> Vec<&str> {
    s.members.iter().map(|m| m.name.as_str()).collect()
}

fn message(seq: u64, from: &str, text: &str) -> ChatEvent {
    ChatEvent {
        seq,
        at: 12 * 3600 + 34 * 60,
        kind: ChatKind::Message {
            from: from.into(),
            is_sysop: false,
            text: text.into(),
            action: false,
        },
    }
}

fn snapshot(seq: u64, history: Vec<ChatEvent>) -> ChatSnapshot {
    ChatSnapshot {
        seq,
        history,
        members: vec![Member {
            name: "alice".into(),
            is_sysop: false,
        }],
    }
}

fn type_and_enter(screen: &mut ChatScreen, text: &str) -> ChatAction {
    for c in text.chars() {
        screen.handle(Key::Char(c));
    }
    screen.handle(Key::Enter)
}

fn text(line: &Line) -> String {
    line.spans.iter().map(|s| s.text.as_str()).collect()
}

#[test]
fn join_say_leave_are_sequenced_and_in_history() {
    let mut room = ChatRoom::new();
    let (a, b) = (room.new_id(), room.new_id());
    room.join(a, "alice", false, 0);
    let snap = room.join(b, "bob", true, 0);
    room.say("bob", true, "hi", false, 0);
    room.leave(a, 0);

    let snap2 = room.snapshot();
    assert_eq!(names(&snap), ["alice", "bob"]);
    assert_eq!(names(&snap2), ["bob"]);
    let seqs: Vec<u64> = snap2.history.iter().map(|e| e.seq).collect();
    assert_eq!(seqs, [1, 2, 3, 4]);
    assert!(matches!(snap2.history[3].kind, ChatKind::Leave { ref name } if name == "alice"));
    assert_eq!(snap2.seq, 4);
}

#[test]
fn several_sessions_of_one_user_announce_once() {
    let mut room = ChatRoom::new();
    let (s1, s2) = (room.new_id(), room.new_id());
    room.join(s1, "alice", false, 0);
    let snap = room.join(s2, "alice", false, 0);
    assert_eq!(names(&snap), ["alice"]);
    assert_eq!(snap.history.len(), 1, "only one join notice");

    room.leave(s1, 0);
    assert_eq!(room.snapshot().history.len(), 1, "still here via the other session");
    room.leave(s2, 0);
    assert_eq!(room.snapshot().history.len(), 2, "now she left");
    room.leave(s2, 0);
    assert_eq!(room.snapshot().history.len(), 2);
}

#[test]
fn joining_twice_with_same_id_is_idempotent() {
    let mut room = ChatRoom::new();
    let id = room.new_id();
    room.join(id, "alice", false, 0);
    room.join(id, "alice", false, 0);
    assert_eq!(room.snapshot().members.len(), 1);
    assert_eq!(room.snapshot().history.len(), 1);
    assert!(room.is_member(id));
    room.leave(id, 0);
    assert!(!room.is_member(id));
}

#[test]
fn history_is_capped() {
    let mut room = ChatRoom::new();
    for i in 0..HISTORY_LEN + 20 {
        room.say("bob", false, &format!("m{i}"), false, 0);
    }
    let snap = room.snapshot();
    assert_eq!(snap.history.len(), HISTORY_LEN);
    assert_eq!(snap.history[0].seq, 21);
    assert_eq!(snap.seq, (HISTORY_LEN + 20) as u64);
}

#[test]
fn listeners_receive_events_in_order_and_snapshot_seq_lets_them_dedupe() {
    let mut room = ChatRoom::new();
    let id = room.new_id();
    let snap = room.join(id, "alice", false, 0);
    room.say("alice", false, "one", false, 0);
    room.say("alice", false, "two", true, 0);

    let received = room.take_outbox();
    assert_eq!(received.len(), 3);
    assert_eq!(received[0].seq, snap.seq);
    let fresh: Vec<&ChatEvent> = received.iter().filter(|e| e.seq > snap.seq).collect();
    assert_eq!(fresh.len(), 2);
    assert!(matches!(&fresh[1].kind, ChatKind::Message { action: true, text, .. } if text == "two"));
    assert!(room.take_outbox().is_empty());
}

#[test]
fn events_covered_by_the_snapshot_are_ignored() {
    let mut s = ChatScreen::new("alice");
    s.set_snapshot(snapshot(2, vec![message(1, "bob", "a"), message(2, "bob", "b")]));
    assert!(!s.on_event(message(2, "bob", "b")), "duplicate");
    assert!(s.on_event(message(3, "bob", "c")));
    assert_eq!(s.lines.len(), 3);
}

#[test]
fn events_arriving_before_the_snapshot_are_replayed_not_lost() {
    let mut s = ChatScreen::new("alice");
    assert!(!s.on_event(message(2, "bob", "b")));
    assert!(!s.on_event(message(3, "bob", "c")));
    s.set_snapshot(snapshot(2, vec![message(1, "bob", "a"), message(2, "bob", "b")]));
    let texts: Vec<String> = s
        .lines
        .iter()
        .filter_map(|l| match l {
            ChatLine::Message { text, .. } => Some(text.clone()),
            _ => None,
        })
        .collect();
    assert_eq!(texts, ["a", "b", "c"]);
}

#[test]
fn join_and_leave_update_the_member_list() {
    let mut s = ChatScreen::new("alice");
    s.set_snapshot(snapshot(0, vec![]));
    s.on_event(ChatEvent {
        seq: 1,
        at: 0,
        kind: ChatKind::Join { name: "bob".into(), is_sysop: true },
    });
    assert_eq!(s.members.len(), 2);
    s.on_event(ChatEvent {
        seq: 2,
        at: 0,
        kind: ChatKind::Leave { name: "alice".into() },
    });
    assert_eq!(s.members.iter().map(|m| m.name.as_str()).collect::<Vec<_>>(), ["bob"]);
}

#[test]
fn commands() {
    let mut s = ChatScreen::new("alice");
    s.set_snapshot(snapshot(0, vec![]));
    assert!(matches!(type_and_enter(&mut s, "hello"), ChatAction::Say { ref text, action: false } if text == "hello"));
    assert!(matches!(type_and_enter(&mut s, "/me waves"), ChatAction::Say { ref text, action: true } if text == "waves"));
    assert!(matches!(type_and_enter(&mut s, "/me"), ChatAction::Nothing));
    assert!(matches!(type_and_enter(&mut s, "/who"), ChatAction::Nothing));
    assert!(matches!(type_and_enter(&mut s, "/nope"), ChatAction::Nothing));
    assert!(matches!(type_and_enter(&mut s, "/quit"), ChatAction::Leave));
    assert!(matches!(type_and_enter(&mut s, "   "), ChatAction::Nothing));
    assert_eq!(s.lines.iter().filter(|l| matches!(l, ChatLine::System(_))).count(), 3);
    assert!(matches!(s.handle(Key::Esc), ChatAction::Leave));
}

#[test]
fn scrolled_view_stays_on_the_same_text() {
    let mut s = ChatScreen::new("alice");
    s.set_snapshot(snapshot(0, vec![]));
    s.width.set(80);
    s.offset = 5;
    s.on_event(message(1, "bob", "hi"));
    assert_eq!(s.offset, 6, "one new line pushes the anchored view by one");
    s.offset = 0;
    s.on_event(message(2, "bob", "hi"));
    assert_eq!(s.offset, 0, "following the bottom stays at the bottom");
}

#[test]
fn long_messages_wrap_with_an_indent() {
    let s = ChatScreen::new("alice");
    let line = ChatLine::Message {
        at: 0,
        from: "bob".into(),
        is_sysop: false,
        text: "word ".repeat(20).trim().to_string(),
        action: false,
    };
    let out = s.render_line(&line, 40);
    assert!(out.len() > 1);
    let second: String = out[1].spans.iter().map(|s| s.text.as_str()).collect();
    assert!(second.starts_with("          "), "continuation is indented under the text: {second:?}");
}

#[test]
fn commands_ignore_case() {
    let mut s = ChatScreen::new("alice");
    assert!(matches!(type_and_enter(&mut s, "/ME waves"), ChatAction::Say { ref text, action: true } if text == "waves"));
    assert!(matches!(type_and_enter(&mut s, "/Quit"), ChatAction::Leave));
    type_and_enter(&mut s, "/NOPE");
    assert!(s.lines.iter().any(|l| matches!(l, ChatLine::System(t) if t == "Unknown command /nope. Try /help.")));
}

#[test]
fn members_are_sorted_whatever_their_case() {
    let member = |name: &str| Member { name: name.into(), is_sysop: false };
    let sorted = sort_members(vec![member("bob"), member("Carol"), member("alice"), member("Émile")]);
    let order: Vec<&str> = sorted.iter().map(|m| m.name.as_str()).collect();
    assert_eq!(order, ["alice", "bob", "Carol", "Émile"]);
}

#[test]
fn the_screen_follows_the_room() {
    let mut room = ChatRoom::new();
    let (a, b, c) = (room.new_id(), room.new_id(), room.new_id());
    room.join(b, "bob", false, 5);
    room.leave(b, 6);
    room.join(b, "bob", false, 7);
    let snap = room.join(a, "alice", false, 8);
    room.take_outbox();
    let mut s = ChatScreen::new("alice");
    s.set_snapshot(snap);
    assert_eq!(s.members.iter().map(|m| m.name.as_str()).collect::<Vec<_>>(), ["alice", "bob"]);
    room.join(c, "Carol", true, 9);
    room.leave(b, 10);
    for event in room.take_outbox() {
        assert!(s.on_event(event));
    }
    let shown: Vec<&str> = s.members.iter().map(|m| m.name.as_str()).collect();
    assert_eq!(shown, names(&room.snapshot()));
    assert_eq!(shown, ["alice", "Carol"]);
}

#[test]
fn the_same_events_again_change_nothing() {
    let mut s = ChatScreen::new("alice");
    s.set_snapshot(snapshot(0, vec![]));
    for _ in 0..2 {
        s.on_event(message(1, "bob", "a"));
        s.on_event(message(2, "bob", "b"));
    }
    assert_eq!(s.lines.len(), 2);
}

#[test]
fn lines_are_drawn_with_time_and_name() {
    let mut s = ChatScreen::new("alice");
    s.set_snapshot(snapshot(1, vec![message(1, "bob", "hi there")]));
    let pane = s.draw(60, 10);
    assert_eq!(text(&pane.lines[pane.lines.len() - 1]), "[12:34] <bob> hi there");
    assert_eq!(pane.members.len(), 1);
    assert!(text(&pane.members[0]).contains("alice"));
    assert!(shows_members(60));
    assert!(!shows_members(59));
}

#[test]
fn scrolling_up_and_back() {
    let mut s = ChatScreen::new("alice");
    let many = (1..=40).map(|i| message(i, "bob", "x")).collect();
    s.set_snapshot(snapshot(40, many));
    s.draw(60, 10);
    s.handle(Key::PageUp);
    assert_eq!(s.offset, 9);
    s.handle(Key::Home);
    assert_eq!(s.offset, 30);
    s.handle(Key::Up);
    assert_eq!(s.offset, 30);
    s.handle(Key::End);
    assert_eq!(s.offset, 0);
}
