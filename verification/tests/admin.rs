use rust_bbs::admin;
use rust_bbs::admin::RoleChange;
use rust_bbs::db::{
    Account, BoardRecord, DbError, KeyRecord, PostDeletion, PostRecord, Role, Stats, ThreadHead,
    ThreadRecord, UserSummary,
};

fn account() -> Account {
    Account { id: 3, username: "alice".into(), role: Role::User, banned: false }
}

fn summary(id: i64, banned: bool, reason: Option<&str>) -> UserSummary {
    UserSummary {
        id,
        username: "alice".into(),
        role: Role::Sysop,
        banned,
        ban_reason: reason.map(|r| r.to_string()),
        created: "2026-01-01".into(),
        posts: 12,
        keys: 1,
    }
}

#[test]
fn stats() {
    let s = Stats { users: 5, sysops: 1, banned: 2, boards: 3, threads: 4, posts: 10, keys: 6 };
    assert_eq!(
        admin::stats_lines(&s),
        [
            "users:   5 (1 sysops, 2 banned)",
            "boards:  3",
            "threads: 4",
            "posts:   10",
            "keys:    6"
        ]
    );
}

#[test]
fn first_lines() {
    assert_eq!(admin::first_line("one\ntwo", 10), "one");
    assert_eq!(admin::first_line("", 10), "");
    assert_eq!(admin::first_line("abcdef", 5), "abcde…");
    assert_eq!(admin::first_line("abcde", 5), "abcde");
    assert_eq!(admin::first_line("\nx", 5), "");
}

#[test]
fn threads_are_listed() {
    let t = ThreadRecord {
        id: 7,
        title: "Amiga".into(),
        author: "alice".into(),
        post_count: 2,
        last_post: "2026-01-01 12:00".into(),
        unread: 0,
    };
    let lines = admin::list_threads(4, Some("Retro".into()), &vec![t]).unwrap();
    assert_eq!(lines[0], "Board 4: Retro");
    assert_eq!(
        lines[1],
        format!("{:>5}  {:<40}  {:<16}  {:>5}  {}", "ID", "TITLE", "AUTHOR", "POSTS", "LAST POST")
    );
    assert_eq!(
        lines[2],
        format!("{:>5}  {:<40}  {:<16}  {:>5}  {}", 7, "Amiga", "alice", 2, "2026-01-01 12:00")
    );
    assert_eq!(admin::list_threads(4, None, &vec![]).unwrap_err(), "no such board: 4");
}

#[test]
fn posts_are_listed() {
    let head = ThreadHead { id: 7, board_id: 4, board_name: "Retro".into(), title: "Amiga".into() };
    let p = PostRecord {
        id: 12,
        author: "alice".into(),
        author_is_sysop: false,
        body: "first\nsecond".into(),
        created: "2026-01-01 12:00".into(),
        unread: false,
    };
    let lines = admin::list_posts(7, &head, &vec![p]);
    assert_eq!(lines[0], "Thread 7: Amiga (board Retro)");
    assert_eq!(lines[1], format!("{:>5}  {:<16}  {:<16}  {}", "ID", "AUTHOR", "POSTED", "TEXT"));
    assert_eq!(
        lines[2],
        format!("{:>5}  {:<16}  {:<16}  {}", 12, "alice", "2026-01-01 12:00", "first")
    );
    assert_eq!(
        admin::thread_deleted(7, &head),
        "Deleted thread 7 \"Amiga\" from board Retro."
    );
    assert_eq!(admin::no_such_thread(9), "no such thread: 9");
}

#[test]
fn posts_are_deleted() {
    let d = PostDeletion { thread_id: 7, board_id: 4, thread_deleted: true };
    assert_eq!(
        admin::post_deleted(12, d),
        "Deleted post 12; it was the last one, so thread 7 is gone too."
    );
    let d = PostDeletion { thread_deleted: false, ..d };
    assert_eq!(admin::post_deleted(12, d), "Deleted post 12 from thread 7.");
}

#[test]
fn boards_are_listed_and_changed() {
    let b = BoardRecord {
        id: 4,
        name: "Retro".into(),
        description: "Old machines".into(),
        position: 2,
        thread_count: 1,
        unread_threads: 0,
    };
    let lines = admin::list_boards(&vec![b]);
    assert_eq!(
        lines,
        [
            format!("{:>4}  {:>3}  {:<16}  {:>7}  {}", "ID", "POS", "NAME", "THREADS", "DESCRIPTION"),
            format!("{:>4}  {:>3}  {:<16}  {:>7}  {}", 4, 2, "Retro", 1, "Old machines"),
        ]
    );
    assert_eq!(
        admin::new_board(" Retro ", "  ").unwrap(),
        ("Retro".to_string(), String::new())
    );
    assert!(admin::new_board("ab", "").is_err());
    assert!(admin::new_board("Retro", "x").is_err());
    assert_eq!(admin::board_created("Retro", Ok(4)).unwrap(), "Created board 4: Retro");
    assert_eq!(
        admin::board_created("Retro", Err(DbError::Duplicate)).unwrap_err(),
        "a board named \"Retro\" already exists"
    );
    assert_eq!(
        admin::board_renamed(4, "New", Ok(())).unwrap(),
        "Board 4 is now called \"New\"."
    );
    assert_eq!(
        admin::board_renamed(4, "New", Err(DbError::NotFound)).unwrap_err(),
        "renaming board: not found"
    );
    assert_eq!(
        admin::board_described(4, Ok(())).unwrap(),
        "Updated the description of board 4."
    );
    assert_eq!(admin::board_moved(4, 9, Ok(())).unwrap(), "Board 4 is now at position 9.");
    assert_eq!(admin::board_deleted(4, Ok(())).unwrap(), "Deleted board 4.");
    assert_eq!(
        admin::board_deleted(4, Err(DbError::NotEmpty)).unwrap_err(),
        "board 4 still has threads; use --force to delete them and their posts"
    );
}

#[test]
fn users_are_listed_and_shown() {
    let lines = admin::list_users(&vec![summary(3, true, None)]);
    assert_eq!(
        lines,
        [
            format!(
                "{:>4}  {:<16}  {:<6}  {:<7}  {:>5}  {:>4}  {}",
                "ID", "NAME", "ROLE", "STATUS", "POSTS", "KEYS", "CREATED"
            ),
            format!(
                "{:>4}  {:<16}  {:<6}  {:<7}  {:>5}  {:>4}  {}",
                3, "alice", "sysop", "banned", 12, 1, "2026-01-01"
            ),
        ]
    );
    let keys = vec![KeyRecord { id: 8, fingerprint: "SHA256:x".into(), comment: "laptop".into() }];
    let users = vec![summary(1, false, None), summary(3, true, Some("testing"))];
    assert_eq!(
        admin::show_user(&account(), &users, &keys).unwrap(),
        [
            "id:       3",
            "name:     alice",
            "role:     user",
            "status:   banned (testing)",
            "created:  2026-01-01",
            "posts:    12",
            "ssh keys: 1",
            "  [8] SHA256:x  laptop",
        ]
    );
    assert_eq!(admin::show_user(&account(), &vec![], &keys).unwrap_err(), "user vanished");
    let users = vec![summary(3, true, None)];
    assert_eq!(admin::show_user(&account(), &users, &keys).unwrap()[3], "status:   banned");
    let users = vec![summary(3, false, Some("old"))];
    assert_eq!(admin::show_user(&account(), &users, &keys).unwrap()[3], "status:   ok");
}

#[test]
fn passwords_are_read() {
    assert_eq!(admin::password_on_line("secret \r\n"), "secret ");
    assert_eq!(admin::password_on_line("\n\n"), "");
    assert_eq!(admin::repeated_password("a".into(), "a").unwrap(), "a");
    assert_eq!(admin::repeated_password("a".into(), "b").unwrap_err(), "passwords don't match");
    assert!(admin::read_password("alice", "short".into()).is_err());
    assert_eq!(admin::read_password("alice", "long-enough".into()).unwrap(), "long-enough");
}

#[test]
fn users_are_created() {
    assert!(admin::new_user_name("sysop").is_ok());
    assert!(admin::new_user_name("1bad").is_err());
    assert_eq!(
        admin::user_created("alice", Err(DbError::Duplicate)).unwrap_err(),
        "a user named alice already exists"
    );
    assert_eq!(
        admin::user_created("alice", Err(DbError::Other)).unwrap_err(),
        "creating user: database error"
    );
    assert_eq!(admin::user_created("alice", Ok(3)), Ok(3));
    assert_eq!(admin::user_welcome("alice", 3, true), "Created sysop alice (id 3).");
    assert_eq!(admin::user_welcome("alice", 3, false), "Created user alice (id 3).");
}

#[test]
fn users_are_changed() {
    assert!(matches!(admin::set_role(&account(), Role::User), RoleChange::Already(ref t)
        if t == "alice is already user."));
    assert!(matches!(admin::set_role(&account(), Role::Sysop), RoleChange::Change(ref t)
        if t == "alice is now sysop."));
    assert_eq!(
        admin::user_banned(&account()),
        "Banned alice. Connected sessions are dropped within about 10 seconds."
    );
    assert_eq!(admin::user_unbanned(&account()), "Unbanned alice.");
    assert_eq!(admin::password_changed(&account()), "Password for alice changed.");
    assert_eq!(admin::key_removed(8), "Removed key 8.");
    assert_eq!(admin::account("bob", Ok(None)).err().unwrap(), "no such user: bob");
    assert_eq!(
        admin::account("bob", Err(DbError::Other)).err().unwrap(),
        "looking up user: database error"
    );
    assert_eq!(admin::db_failure("stats", DbError::Other), "stats: database error");
}
