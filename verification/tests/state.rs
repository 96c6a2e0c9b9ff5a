use rust_bbs::db::Role;
use rust_bbs::state::{
    bucket, Event, Identity, IpAddr, Limiter, Online, OnlineEntry, Subject,
    MAX_CONNECTIONS_PER_IP, SECOND,
};

const A: IpAddr = IpAddr::V4(0x7f00_0001);
const B: IpAddr = IpAddr::V4(0x7f00_0002);

#[test]
fn limits_are_the_documented_ones() {
    assert_eq!(Event::AuthFailure.limit(), (10, 600 * SECOND));
    assert_eq!(Event::Registration.limit(), (3, 3600 * SECOND));
    assert_eq!(Event::Post.limit(), (10, 600 * SECOND));
    assert_eq!(Event::NewThread.limit(), (3, 3600 * SECOND));
    assert_eq!(MAX_CONNECTIONS_PER_IP, 8);
}

#[test]
fn a_limit_is_reached_and_expires() {
    let mut l = Limiter::default();
    let me = Subject::User(1);
    for i in 0..3 {
        assert!(l.allowed(me, Event::NewThread, i * SECOND));
        l.record(me, Event::NewThread, i * SECOND);
    }
    assert!(!l.allowed(me, Event::NewThread, 10 * SECOND));
    assert!(l.allowed(Subject::User(2), Event::NewThread, 10 * SECOND));
    assert!(l.allowed(me, Event::Post, 10 * SECOND));
    assert!(!l.allowed(me, Event::NewThread, 3600 * SECOND - 1));
    assert!(l.allowed(me, Event::NewThread, 3600 * SECOND));
}

#[test]
fn connections_are_counted_per_address() {
    let mut l = Limiter::default();
    let mut guards = Vec::new();
    for _ in 0..MAX_CONNECTIONS_PER_IP {
        guards.push(l.connect(A).unwrap());
    }
    assert!(l.connect(A).is_none());
    assert!(l.connect(B).is_some());
    l.disconnect(guards.pop().unwrap());
    let again = l.connect(A);
    assert!(again.is_some());
    assert!(l.connect(A).is_none());
}

#[test]
fn one_network_is_one_subject() {
    let x = IpAddr::V6 { network: 5, host: 1 };
    let y = IpAddr::V6 { network: 5, host: 2 };
    let z = IpAddr::V6 { network: 6, host: 1 };
    assert_eq!(bucket(x), bucket(y));
    assert_ne!(bucket(x), bucket(z));
    assert_eq!(bucket(A), A);
    let mut l = Limiter::default();
    for _ in 0..10 {
        l.record(Subject::ip(x), Event::AuthFailure, SECOND);
    }
    assert!(!l.allowed(Subject::ip(y), Event::AuthFailure, SECOND));
    assert!(l.allowed(Subject::ip(z), Event::AuthFailure, SECOND));
}

#[test]
fn many_subjects_are_pruned_without_changing_an_answer() {
    let mut l = Limiter::default();
    for i in 0..3 {
        l.record(Subject::User(-1), Event::NewThread, 3000 * SECOND + i);
    }
    for i in 0..10_010 {
        l.record(Subject::User(i), Event::ChatMessage, 2000 * SECOND);
    }
    l.record(Subject::User(1), Event::Post, 3001 * SECOND);
    assert!(!l.allowed(Subject::User(-1), Event::NewThread, 3001 * SECOND));
    assert!(l.allowed(Subject::User(5), Event::ChatMessage, 3001 * SECOND));
}

#[test]
fn identities() {
    let guest = Identity::Guest;
    assert_eq!(guest.user_id(), None);
    assert!(!guest.is_sysop());
    assert_eq!(guest.display_name(), "guest");
    let user = Identity::User { id: 3, name: "alice".into(), role: Role::Sysop };
    assert_eq!(user.clone().user_id(), Some(3));
    assert!(user.is_sysop());
    assert_eq!(user.display_name(), "alice");
}

fn entry(name: &str, user_id: Option<i64>, since: u64) -> OnlineEntry {
    OnlineEntry { name: name.into(), user_id, role: Role::User, since, activity: "Main menu" }
}

#[test]
fn the_longest_connected_come_first() {
    let mut online = Online::default();
    let young = online.join(entry("bob", Some(2), 50));
    let old = online.join(entry("alice", Some(1), 10));
    let guest = online.join(entry("guest", None, 30));
    let names: Vec<String> = online.snapshot(100).into_iter().map(|u| u.name).collect();
    assert_eq!(names, ["alice", "guest", "bob"]);
    assert_eq!(online.snapshot(100)[0].connected, 90);
    online.set_activity(&young, "Chatting");
    assert_eq!(online.snapshot(100)[2].activity, "Chatting");
    online.set_identity(&guest, &Identity::User { id: 1, name: "alice".into(), role: Role::User });
    assert_eq!(online.sessions_of(1), vec![old.id(), guest.id()]);
    assert_eq!(online.user_sessions().len(), 3);
    online.leave(old);
    assert_eq!(online.sessions_of(1), vec![guest.id()]);
    online.leave(guest);
    online.leave(young);
    assert!(online.snapshot(100).is_empty());
}

#[test]
fn leaving_undoes_joining() {
    let mut online = Online::default();
    online.join(entry("alice", Some(1), 10));
    let before = online.user_sessions();
    let guard = online.join(entry("bob", Some(2), 20));
    assert_eq!(online.sessions_of(2), vec![guard.id()]);
    online.leave(guard);
    assert_eq!(online.user_sessions(), before);
}

#[test]
fn a_session_is_registered_as_who_it_is() {
    let guest = OnlineEntry::new(&Identity::Guest, 5);
    assert_eq!((guest.name.as_str(), guest.user_id), ("guest", None));
    assert!(matches!(guest.role, Role::User));
    assert_eq!((guest.since, guest.activity), (5, "Main menu"));
    let sysop = Identity::User { id: 3, name: "Alice".into(), role: Role::Sysop };
    let entry = OnlineEntry::new(&sysop, 9);
    assert_eq!((entry.name.as_str(), entry.user_id, entry.since), ("Alice", Some(3), 9));
    assert!(matches!(entry.role, Role::Sysop));
    assert!(Online::default().has_room());
}
