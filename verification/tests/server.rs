use rust_bbs::auth;
use rust_bbs::boards;
use rust_bbs::boards::INTERNAL_ERROR;
use rust_bbs::db::{
    Account, BoardRecord, DbError, Folder, KeyRecord, MailError, PostDeletion, PostRecord, Role,
    ThreadHead, ThreadRecord, UserRecord,
};
use rust_bbs::mail;
use rust_bbs::server::{
    key_added, key_login, key_removed, must_end, new_password_hash, password_login, resize,
    verify_password_login, Attempt, Connection,
};
use rust_bbs::state::{Event, Identity, IpAddr, Limiter, Subject, SECOND};
use rust_bbs::sysop;
use rust_bbs::ui::Response;

const IP: IpAddr = IpAddr::V4(1);

fn account(id: i64, role: Role, banned: bool) -> Account {
    Account { id, username: format!("user{id}"), role, banned }
}

fn found(id: i64) -> Result<Option<Account>, DbError> {
    Ok(Some(account(id, Role::User, false)))
}

fn user(id: i64) -> Identity {
    Identity::User { id, name: format!("user{id}"), role: Role::User }
}

fn error(r: Response) -> String {
    match r {
        Response::Error(e) => e,
        _ => panic!("no error"),
    }
}

fn post_failed(r: Response) -> String {
    match r {
        Response::PostFailed(e) => e,
        _ => panic!("no refusal"),
    }
}

fn mail_failed(r: Response) -> String {
    match r {
        Response::MailFailed(e) => e,
        _ => panic!("no refusal"),
    }
}

#[test]
fn accounts_are_read_fresh() {
    assert_eq!(
        boards::live_account(&Identity::Guest, found(1)).err().unwrap(),
        "Guests can't do that. Register an account first."
    );
    assert_eq!(
        boards::live_account(&user(1), Ok(Some(account(1, Role::User, true)))).err().unwrap(),
        "Your account has been suspended."
    );
    assert_eq!(
        boards::live_account(&user(1), Ok(None)).err().unwrap(),
        "Your account no longer exists."
    );
    assert_eq!(boards::live_account(&user(1), Err(DbError::Other)).err().unwrap(), INTERNAL_ERROR);
    assert_eq!(boards::live_account(&user(1), found(1)).ok().unwrap().id, 1);
}

#[test]
fn only_sysops_moderate() {
    let sysop = Identity::User { id: 1, name: "s".into(), role: Role::Sysop };
    assert_eq!(
        boards::require_sysop(&sysop, found(1)).unwrap_err(),
        "Only sysops can do that."
    );
    assert!(boards::require_sysop(&user(1), Ok(Some(account(1, Role::Sysop, false)))).is_ok());
    let refused = boards::may_delete(&user(1), found(1)).err().unwrap();
    assert_eq!(error(refused), "Only sysops can do that.");
}

#[test]
fn three_threads_an_hour() {
    let mut l = Limiter::default();
    for i in 0..3 {
        let thread = boards::create_thread(
            &mut l, &user(7), found(7), 2, " A  title ".into(), "text \n".into(), i * SECOND,
        )
        .ok()
        .unwrap();
        assert_eq!((thread.board_id, thread.author_id), (2, 7));
        assert_eq!((thread.title.as_str(), thread.body.as_str()), ("A title", "text"));
    }
    let refused = boards::create_thread(
        &mut l, &user(7), found(7), 2, "Title".into(), "text".into(), 10 * SECOND,
    );
    assert_eq!(
        post_failed(refused.err().unwrap()),
        "You're posting too fast. Please wait a few minutes."
    );
    let reply = boards::reply(&mut l, &user(7), found(7), 9, "me too".into(), 10 * SECOND);
    assert_eq!(reply.ok().unwrap().thread_id, 9);
}

#[test]
fn refused_posts_are_not_counted() {
    let mut l = Limiter::default();
    for _ in 0..20 {
        let refused = boards::reply(&mut l, &user(7), found(7), 9, "  ".into(), SECOND);
        assert!(refused.is_err());
    }
    assert!(boards::reply(&mut l, &user(7), found(7), 9, "ok".into(), SECOND).is_ok());
    let guest = boards::reply(&mut l, &Identity::Guest, Ok(None), 9, "ok".into(), SECOND);
    assert_eq!(
        post_failed(guest.err().unwrap()),
        "Guests can't post. Register an account first."
    );
}

#[test]
fn what_is_said_of_posts() {
    assert!(matches!(boards::thread_created(7, Ok(4)),
        boards::Show::Thread { thread_id: 4, to_end: true, notice: Some(ref n), viewer: Some(7) } if n == "Posted."));
    for (err, text) in [
        (DbError::NotFound, "That board no longer exists."),
        (DbError::LimitReached, "This thread is full (200 posts). Please start a new one."),
        (DbError::Other, INTERNAL_ERROR),
    ] {
        match boards::thread_created(7, Err(err)) {
            boards::Show::Answer(r) => assert_eq!(post_failed(r), text),
            _ => panic!("no answer"),
        }
    }
    match boards::reply_stored(4, 7, Err(DbError::NotFound)) {
        boards::Show::Answer(r) => assert_eq!(post_failed(r), "That thread no longer exists."),
        _ => panic!("no answer"),
    }
    assert!(matches!(boards::reply_stored(4, 7, Ok(())), boards::Show::Thread { thread_id: 4, .. }));
}

#[test]
fn what_is_said_of_deletions() {
    assert!(matches!(boards::delete_thread(&user(7), Ok(3)),
        boards::Show::Threads { board_id: 3, notice: Some(ref n), viewer: Some(7) } if n == "Thread deleted."));
    let d = PostDeletion { thread_id: 5, board_id: 3, thread_deleted: true };
    assert!(matches!(boards::delete_post(&user(7), Ok(d)),
        boards::Show::Threads { board_id: 3, notice: Some(ref n), .. } if n == "Post deleted; the thread is gone too."));
    let d = PostDeletion { thread_deleted: false, ..d };
    assert!(matches!(boards::delete_post(&user(7), Ok(d)),
        boards::Show::Thread { thread_id: 5, to_end: false, notice: Some(ref n), .. } if n == "Post deleted."));
    match boards::delete_post(&user(7), Err(DbError::NotFound)) {
        boards::Show::Answer(r) => assert_eq!(error(r), "That post no longer exists."),
        _ => panic!("no answer"),
    }
}

#[test]
fn boards_and_threads_are_shown_as_read() {
    let record = BoardRecord {
        id: 1,
        name: "General".into(),
        description: "d".into(),
        position: 0,
        thread_count: 3,
        unread_threads: 2,
    };
    match boards::list_boards(Ok(vec![record])) {
        Response::Boards { boards, notice: None } => {
            assert_eq!(boards.len(), 1);
            assert_eq!((boards[0].name.as_str(), boards[0].unread_threads), ("General", 2));
        }
        _ => panic!("no boards"),
    }
    assert_eq!(error(boards::list_boards(Err(DbError::Other))), INTERNAL_ERROR);
    let thread = ThreadRecord {
        id: 4,
        title: "T".into(),
        author: "a".into(),
        post_count: 2,
        last_post: "now".into(),
        unread: 1,
    };
    match boards::list_threads(1, None, Ok(Some(("General".into(), vec![thread])))) {
        Response::Threads { board_id: 1, threads, page: 0, pages: 1, total: 1, .. } => {
            assert_eq!(threads[0].title, "T")
        }
        _ => panic!("no threads"),
    }
    assert_eq!(error(boards::list_threads(1, None, Ok(None))), "That board doesn't exist.");
    let head = ThreadHead { id: 4, board_id: 1, board_name: "General".into(), title: "T".into() };
    let post = PostRecord {
        id: 8,
        author: "a".into(),
        author_is_sysop: true,
        body: "b".into(),
        created: "c".into(),
        unread: true,
    };
    match boards::open_thread(true, Some("Posted.".into()), Ok(Some((head, vec![post])))) {
        Response::Thread { detail, to_end: true, notice: Some(_) } => {
            assert_eq!(detail.posts[0].body, "b");
            assert!(detail.posts[0].author_is_sysop && detail.posts[0].unread);
        }
        _ => panic!("no thread"),
    }
    assert_eq!(error(boards::open_thread(true, None, Ok(None))), "That thread doesn't exist.");
    assert_eq!(boards::unread_total(Err(DbError::Other)), 0);
    assert_eq!(boards::unread_total(Ok(4)), 4);
}

#[test]
fn read_markers_are_for_members() {
    assert_eq!(boards::mark_board_read(&user(7)).ok(), Some(7));
    assert_eq!(
        error(boards::mark_board_read(&Identity::Guest).err().unwrap()),
        "Guests don't have read markers. Register an account first."
    );
    assert!(matches!(boards::board_marked(3, 7, Ok(())), boards::Show::Threads { board_id: 3, .. }));
}

#[test]
fn letters_are_checked_addressed_and_limited() {
    let mut l = Limiter::default();
    let guest = mail::draft(&Identity::Guest, Ok(None), "bob".into(), "s".into(), "b".into());
    assert_eq!(
        mail_failed(guest.err().unwrap()),
        "Mail is for registered users. Register an account first."
    );
    let letter = mail::draft(&user(1), found(1), " bob ".into(), " Hi ".into(), "text".into());
    let letter = letter.ok().unwrap();
    assert_eq!((letter.to.as_str(), letter.subject.as_str()), ("bob", "Hi"));
    let lost = mail::send(&mut l, &letter, Ok(None), SECOND);
    assert_eq!(mail_failed(lost.err().unwrap()), "There is no user called \"bob\".");
    for _ in 0..10 {
        assert!(mail::send(&mut l, &letter, found(2), SECOND).is_ok());
    }
    assert_eq!(
        mail_failed(mail::send(&mut l, &letter, found(2), SECOND).err().unwrap()),
        "You're sending mail too fast. Please wait a few minutes."
    );
}

#[test]
fn delivered_mail_is_announced_to_others_only() {
    let (me, you) = (account(1, Role::User, false), account(2, Role::User, false));
    let (told, show) = mail::sent(&me, &you, Ok(()));
    let told = told.unwrap();
    assert_eq!((told.to_user_id, told.from.as_str()), (2, "user1"));
    assert!(matches!(show, mail::Show::Mailbox { folder: Folder::Inbox, notice: Some(ref n) }
        if n == "Message sent to user2."));
    assert!(mail::sent(&me, &me, Ok(())).0.is_none());
    for (err, text) in [
        (MailError::Blocked, "You can't send messages to that user."),
        (MailError::RecipientFull, "user2's mailbox is full."),
        (MailError::SentFull, "Your sent folder is full. Delete some old messages first."),
        (
            MailError::TooFast,
            "You've sent user2 several messages recently. Please wait a few minutes.",
        ),
        (MailError::Db(DbError::Other), INTERNAL_ERROR),
    ] {
        match mail::sent(&me, &you, Err(err)) {
            (None, mail::Show::Answer(r)) => assert_eq!(mail_failed(r), text),
            _ => panic!("no answer"),
        }
    }
}

#[test]
fn blocking() {
    assert_eq!(
        error(mail::block(1, "user1", found(1)).err().unwrap()),
        "You can't block yourself."
    );
    let target = mail::block(1, "user2", found(2)).ok().unwrap();
    assert!(matches!(mail::blocked(&target, Ok(())), mail::Show::Mailbox { notice: Some(ref n), .. }
        if n == "Blocked user2. They can no longer send you mail (see B in the mailbox)."));
    assert!(matches!(mail::unblocked(&target, Ok(())), mail::Show::Blocks { notice: Some(ref n) }
        if n == "Unblocked user2."));
    assert_eq!(
        error(mail::unblock("nobody", Ok(None)).err().unwrap()),
        "There is no user called \"nobody\"."
    );
}

#[test]
fn mailboxes() {
    assert!(mail::may_read(&user(1), found(1)).is_ok());
    assert!(matches!(mail::open_mailbox(Folder::Sent, None, Ok((vec![], 3))),
        Response::Mailbox { folder: Folder::Sent, unread: 3, .. }));
    assert_eq!(
        error(mail::read_message(Ok((None, 0)))),
        "That message doesn't exist any more."
    );
    assert!(matches!(mail::delete_message(Folder::Sent, Ok(())),
        mail::Show::Mailbox { folder: Folder::Sent, .. }));
    assert!(matches!(mail::list_blocks(None, Ok(vec!["bob".into()])), Response::Blocks { ref names, .. }
        if names.len() == 1));
    assert_eq!(mail::unread_count(Err(DbError::Other)), 0);
}

#[test]
fn the_motd_is_for_sysops() {
    let sysop = Ok(Some(account(1, Role::Sysop, false)));
    let saved = sysop::set_motd(&user(1), sysop, "  Hi\n\n".into()).ok().unwrap();
    assert_eq!((saved.text.as_str(), saved.user_id, saved.notice), ("  Hi", 1, "MOTD saved."));
    let sysop = Ok(Some(account(1, Role::Sysop, false)));
    assert_eq!(sysop::set_motd(&user(1), sysop, " \n".into()).ok().unwrap().notice, "MOTD cleared.");
    assert!(matches!(sysop::set_motd(&user(1), found(1), "x".into()).err().unwrap(),
        Response::SysopActionFailed(ref e) if e == "Only sysops can do that."));
    assert!(matches!(sysop::get_motd(&Identity::Guest, Ok(None)).err().unwrap(),
        Response::SysopActionFailed(_)));
    assert!(sysop::motd_stored(Err(DbError::Other)).is_err());
    assert!(matches!(sysop::fetch_motd(Ok("x".into()), None), Response::Motd { ref text, .. } if text == "x"));
}

fn connected(l: &mut Limiter) -> Connection {
    Connection::new_client(l, Some(IP)).0
}

#[test]
fn guests_log_in_with_the_guest_password() {
    let mut l = Limiter::default();
    let mut c = connected(&mut l);
    let password = Some("letmein".to_string());
    assert!(matches!(c.auth_password(&l, &password, "GUEST", "letmein", 0),
        Attempt::Decided(Some(Identity::Guest))));
    assert!(matches!(c.auth_password(&l, &password, "guest", "x", 0), Attempt::Decided(None)));
    assert!(matches!(c.auth_password(&l, &None, "guest", "letmein", 0), Attempt::Decided(None)));
    assert!(matches!(c.auth_password(&l, &password, "alice", "x", 0), Attempt::LookUp));
    assert!(matches!(c.auth_publickey(&l, "guest", 0), Attempt::Decided(None)));
    assert!(matches!(c.auth_publickey(&l, "alice", 0), Attempt::LookUp));
    assert!(c.finish_auth(&mut l, Some(Identity::Guest), 0));
    assert!(c.user_id().is_none());
}

#[test]
fn absurd_credentials_are_rejected_unseen() {
    let mut l = Limiter::default();
    let c = connected(&mut l);
    assert!(matches!(c.auth_password(&l, &None, &"é".repeat(32), "x", 0), Attempt::LookUp));
    assert!(matches!(c.auth_password(&l, &None, &"é".repeat(33), "x", 0), Attempt::Reject));
    assert!(matches!(c.auth_password(&l, &None, "alice", &"x".repeat(1025), 0), Attempt::Reject));
    assert!(matches!(c.auth_publickey(&l, &"a".repeat(65), 0), Attempt::Reject));
}

#[test]
fn ten_failures_lock_an_address_out() {
    let mut l = Limiter::default();
    let mut c = connected(&mut l);
    for _ in 0..10 {
        assert!(!c.finish_auth(&mut l, None, SECOND));
    }
    assert!(matches!(c.auth_password(&l, &Some("p".into()), "guest", "p", SECOND), Attempt::Reject));
    assert!(matches!(c.auth_publickey(&l, "alice", SECOND), Attempt::Reject));
    assert!(matches!(c.auth_publickey(&l, "alice", 601 * SECOND), Attempt::LookUp));
}

#[test]
fn too_many_connections_are_dropped() {
    let mut l = Limiter::default();
    let guards: Vec<_> = (0..8).map(|_| Connection::new_client(&mut l, Some(IP)).1).collect();
    assert!(guards.iter().all(|g| g.is_some()));
    let (c, guard) = Connection::new_client(&mut l, Some(IP));
    assert!(c.over_limit && guard.is_none());
    assert!(matches!(c.auth_publickey(&l, "alice", 0), Attempt::Drop));
    assert!(matches!(c.auth_password(&l, &None, "alice", "x", 0), Attempt::Drop));
    let (c, _) = Connection::new_client(&mut l, None);
    assert!(!c.over_limit);
}

fn record(password_hash: &str, banned: bool) -> UserRecord {
    UserRecord {
        id: 3,
        username: "Alice".into(),
        password_hash: password_hash.into(),
        role: Role::Sysop,
        banned,
    }
}

#[test]
fn passwords_log_users_in() {
    let hash = new_password_hash("long-enough-pw").unwrap();
    let dummy = auth::hash_password("not-a-real-password").unwrap();
    let who = verify_password_login(Some(record(&hash, false)), "long-enough-pw", &dummy);
    assert!(matches!(who, Some(Identity::User { id: 3, ref name, role: Role::Sysop }) if name == "Alice"));
    assert!(verify_password_login(Some(record(&hash, false)), "wrong", &dummy).is_none());
    assert!(verify_password_login(Some(record(&hash, true)), "long-enough-pw", &dummy).is_none());
    assert!(verify_password_login(None, "not-a-real-password", &dummy).is_none());
    assert!(verify_password_login(Some(record("plain", false)), "plain", &dummy).is_none());
    assert!(password_login(Some(record("", false)), false).is_none());
    assert!(password_login(None, true).is_none());
}

#[test]
fn keys_log_users_in() {
    assert!(matches!(key_login(found(4)), Some(Identity::User { id: 4, .. })));
    assert!(key_login(Ok(Some(account(4, Role::User, true)))).is_none());
    assert!(key_login(Ok(None)).is_none());
    assert!(key_login(Err(DbError::Other)).is_none());
}

#[test]
fn guests_register_three_times_an_hour() {
    let mut l = Limiter::default();
    let mut c = connected(&mut l);
    assert_eq!(
        c.register(&mut l, "alice", "long-enough", 0).unwrap_err(),
        "You already have an account."
    );
    c.finish_auth(&mut l, Some(Identity::Guest), 0);
    assert_eq!(
        c.register(&mut l, "root", "long-enough", 0).unwrap_err(),
        "That username is reserved."
    );
    for _ in 0..3 {
        assert!(c.register(&mut l, "alice", "long-enough", 0).is_ok());
    }
    assert_eq!(
        c.register(&mut l, "alice", "long-enough", 0).unwrap_err(),
        "Too many registrations from your address. Try again later."
    );
    assert_eq!(
        c.registered("alice".into(), Err(DbError::Duplicate)).unwrap_err(),
        "That username is already taken."
    );
    assert_eq!(c.registered("alice".into(), Err(DbError::Other)).unwrap_err(), INTERNAL_ERROR);
    assert!(c.user_id().is_none());
    assert!(matches!(c.registered("alice".into(), Ok(9)).unwrap(),
        Identity::User { id: 9, ref name, role: Role::User } if name == "alice"));
    assert_eq!(c.user_id(), Some(9));
    assert!(l.allowed(Subject::ip(IP), Event::AuthFailure, 0));
}

const ED25519: &str =
    "ssh-ed25519 AAAAC3NzaC1lZDI1NTE5AAAAIJdD7y3aLq454yWBdwLWbieU1ebz9/cu7/QEXn9OIeZJ laptop";

#[test]
fn keys_are_stored_for_users() {
    let mut l = Limiter::default();
    let mut c = connected(&mut l);
    assert_eq!(c.add_key(ED25519).err().unwrap(), "Register an account first.");
    assert_eq!(c.delete_key().unwrap_err(), "Register an account first.");
    assert!(matches!(c.keys_response(Ok(vec![]), None),
        Response::Keys { notice: Some(Err(ref e)), .. } if e == "Register an account first."));
    c.finish_auth(&mut l, Some(user(3)), 0);
    let key = c.add_key(ED25519).ok().unwrap();
    assert_eq!((key.user_id, key.comment.as_str()), (3, "laptop"));
    assert!(key.fingerprint.starts_with("SHA256:"));
    assert!(c.add_key("rubbish").is_err());
    let stored = KeyRecord { id: 1, fingerprint: key.fingerprint, comment: key.comment };
    match c.keys_response(Ok(vec![stored]), Some(Ok("Key added".into()))) {
        Response::Keys { keys, notice: Some(Ok(_)) } => assert_eq!(keys[0].comment, "laptop"),
        _ => panic!("no keys"),
    }
    assert_eq!(c.delete_key(), Ok(3));
    assert_eq!(key_added("SHA256:x", Ok(())).unwrap(), "Key added: SHA256:x");
    assert_eq!(
        key_added("x", Err(DbError::Duplicate)).unwrap_err(),
        "That key is already registered."
    );
    assert_eq!(
        key_added("x", Err(DbError::LimitReached)).unwrap_err(),
        "You can store at most 10 keys."
    );
    assert_eq!(key_removed(Ok(())).unwrap(), "Key removed.");
    assert_eq!(key_removed(Err(DbError::Other)).unwrap_err(), INTERNAL_ERROR);
}

#[test]
fn suspended_sessions_end() {
    assert!(must_end(&Ok(Some(account(4, Role::User, true)))));
    assert!(!must_end(&found(4)));
    assert!(!must_end(&Ok(None)));
    assert!(!must_end(&Err(DbError::Other)));
}

#[test]
fn terminals_have_bounds() {
    let area = resize(80, 24);
    assert_eq!((area.width, area.height), (80, 24));
    let area = resize(0, 100_000);
    assert_eq!((area.x, area.y, area.width, area.height), (0, 0, 1, 500));
}
