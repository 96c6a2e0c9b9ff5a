//! Server-side handling of message board requests: permission checks,
//! validation and rate limiting. What the database has answered comes in as
//! an argument, and what it is to do next comes out as a result.

use vstd::prelude::*;

use crate::chars::{cat3, size_text};
use crate::content::{clean_body, clean_title};
use crate::db::{
    Account, BoardRecord, DbError, PostDeletion, PostRecord, Role, ThreadHead, ThreadRecord,
    MAX_POSTS_PER_THREAD,
};
use crate::state::{Event, Identity, Limiter, Limits, Subject};
use crate::ui::protocol;
use crate::ui::protocol::{
    BoardInfo, PageTarget, PostInfo, Refusal, Response, ThreadDetail, ThreadInfo,
};
use crate::{auth, chars, content};

verus! {

pub const INTERNAL_ERROR: &'static str = "Internal error, please try again later.";

// ------------------------------------------------------------------ reading

/// Threads with unread posts across all boards, for the main menu.
pub fn unread_total(found: Result<i64, DbError>) -> (r: i64)
    ensures
        r == match found {
            Ok(n) => n,
            Err(_) => 0,
        },
{
    match found {
        Ok(n) => n,
        Err(_) => 0,
    }
}

impl BoardInfo {
    /// A board as the UI lists it.
    pub open spec fn listing(b: BoardRecord) -> BoardInfo {
        BoardInfo {
            id: b.id,
            name: b.name,
            description: b.description,
            thread_count: b.thread_count,
            unread_threads: b.unread_threads,
        }
    }
}

impl ThreadInfo {
    /// A thread as the UI lists it.
    pub open spec fn listing(t: ThreadRecord) -> ThreadInfo {
        ThreadInfo {
            id: t.id,
            title: t.title,
            author: t.author,
            post_count: t.post_count,
            last_post: t.last_post,
            unread: t.unread,
        }
    }
}

impl PostInfo {
    /// A post as the UI shows it.
    pub open spec fn listing(p: PostRecord) -> PostInfo {
        PostInfo {
            id: p.id,
            author: p.author,
            author_is_sysop: p.author_is_sysop,
            body: p.body,
            created: p.created,
            unread: p.unread,
        }
    }
}

/// Shows the boards that were read from the database.
pub fn list_boards(found: Result<Vec<BoardRecord>, DbError>) -> (r: Response)
    ensures
        match found {
            Ok(boards) => r matches Response::Boards { boards: shown, notice } && notice is None
                && shown@ == boards@.map_values(|b: BoardRecord| BoardInfo::listing(b)),
            Err(_) => r.refusal() == Refusal::Error(INTERNAL_ERROR@),
        },
{
    match found {
        Ok(records) => {
            let mut boards: Vec<BoardInfo> = Vec::new();
            for b in it: records
                invariant
                    it.seq() == records@,
                    boards@ == records@.take(it.index() as int).map_values(
                        |b: BoardRecord| BoardInfo::listing(b),
                    ),
            {
                boards.push(
                    BoardInfo {
                        id: b.id,
                        name: b.name,
                        description: b.description,
                        thread_count: b.thread_count,
                        unread_threads: b.unread_threads,
                    },
                );
            }
            assert(records@.take(records@.len() as int) =~= records@);
            Response::Boards { boards, notice: None }
        },
        Err(_) => Response::Error(INTERNAL_ERROR.to_owned()),
    }
}

/// Whether a thread is opened at its newest post.
pub fn opens_at_end(target: &PageTarget) -> (r: bool)
    ensures
        r == (*target is Last || *target is PageEnd),
{
    match target {
        PageTarget::Last | PageTarget::PageEnd(_) => true,
        PageTarget::Smart | PageTarget::Page(_) => false,
    }
}

/// Shows one board's threads, if there is such a board.
pub fn list_threads(
    board_id: i64,
    notice: Option<String>,
    found: Result<Option<(String, Vec<ThreadRecord>)>, DbError>,
) -> (r: Response)
    ensures
        match found {
            Ok(Some((name, threads))) => r matches Response::Threads {
                board_id: id,
                board_name,
                threads: shown,
                notice: said,
                page,
                pages,
                total,
            } && id == board_id && board_name == name && said == notice && page == 0 && pages == 1
                && total == threads@.len() && shown@ == threads@.map_values(
                |t: ThreadRecord| ThreadInfo::listing(t),
            ),
            Ok(None) => r.refusal() == Refusal::Error("That board doesn't exist."@),
            Err(_) => r.refusal() == Refusal::Error(INTERNAL_ERROR@),
        },
{
    match found {
        Ok(Some((board_name, records))) => {
            let total: usize = records.len();
            let mut threads: Vec<ThreadInfo> = Vec::new();
            for t in it: records
                invariant
                    it.seq() == records@,
                    threads@ == records@.take(it.index() as int).map_values(
                        |t: ThreadRecord| ThreadInfo::listing(t),
                    ),
            {
                threads.push(
                    ThreadInfo {
                        id: t.id,
                        title: t.title,
                        author: t.author,
                        post_count: t.post_count,
                        last_post: t.last_post,
                        unread: t.unread,
                    },
                );
            }
            assert(records@.take(records@.len() as int) =~= records@);
            Response::Threads { board_id, board_name, threads, notice, page: 0, pages: 1, total }
        },
        Ok(None) => Response::Error("That board doesn't exist.".to_owned()),
        Err(_) => Response::Error(INTERNAL_ERROR.to_owned()),
    }
}

/// Shows one thread, if there is such a thread. The posts carry the unread
/// flags they had before the read pointer was advanced: what was new stays
/// flagged on this screen.
pub fn open_thread(
    to_end: bool,
    notice: Option<String>,
    found: Result<Option<(ThreadHead, Vec<PostRecord>)>, DbError>,
) -> (r: Response)
    ensures
        match found {
            Ok(Some((head, posts))) => r matches Response::Thread {
                detail,
                to_end: at_end,
                notice: said,
            } && at_end == to_end && said == notice && detail.id == head.id && detail.board_id
                == head.board_id && detail.board_name == head.board_name && detail.title
                == head.title && detail.page == 0 && detail.pages == 1 && detail.total
                == posts@.len() && detail.posts@ == posts@.map_values(
                |p: PostRecord| PostInfo::listing(p),
            ),
            Ok(None) => r.refusal() == Refusal::Error("That thread doesn't exist."@),
            Err(_) => r.refusal() == Refusal::Error(INTERNAL_ERROR@),
        },
{
    match found {
        Ok(Some((head, records))) => {
            let total: usize = records.len();
            let mut posts: Vec<PostInfo> = Vec::new();
            for p in it: records
                invariant
                    it.seq() == records@,
                    posts@ == records@.take(it.index() as int).map_values(
                        |p: PostRecord| PostInfo::listing(p),
                    ),
            {
                posts.push(
                    PostInfo {
                        id: p.id,
                        author: p.author,
                        author_is_sysop: p.author_is_sysop,
                        body: p.body,
                        created: p.created,
                        unread: p.unread,
                    },
                );
            }
            assert(records@.take(records@.len() as int) =~= records@);
            Response::Thread {
                detail: ThreadDetail {
                    id: head.id,
                    board_id: head.board_id,
                    board_name: head.board_name,
                    title: head.title,
                    posts,
                    page: 0,
                    pages: 1,
                    total,
                },
                to_end,
                notice,
            }
        },
        Ok(None) => Response::Error("That thread doesn't exist.".to_owned()),
        Err(_) => Response::Error(INTERNAL_ERROR.to_owned()),
    }
}

// -------------------------------------------------------------- permissions

/// What the database says of the account that a session acts for, and what
/// the session is told if it may not act. `found` is the lookup of the
/// account; there is none for guests.
pub open spec fn account_of(
    identity: Identity,
    found: Result<Option<Account>, DbError>,
) -> Result<Account, Seq<char>> {
    match (identity, found) {
        (Identity::Guest, _) => Err("Guests can't do that. Register an account first."@),
        (_, Ok(Some(account))) => if account.banned {
            Err("Your account has been suspended."@)
        } else {
            Ok(account)
        },
        (_, Ok(None)) => Err("Your account no longer exists."@),
        (_, Err(_)) => Err(INTERNAL_ERROR@),
    }
}

pub open spec fn account_outcome(r: Result<Account, String>) -> Result<Account, Seq<char>> {
    match r {
        Ok(account) => Ok(account),
        Err(e) => Err(e@),
    }
}

/// The user's current account state; roles and bans can be changed at any
/// time by the admin tool, so this is never taken from the session.
pub fn live_account(identity: &Identity, found: Result<Option<Account>, DbError>) -> (r: Result<
    Account,
    String,
>)
    ensures
        account_outcome(r) == account_of(*identity, found),
{
    match identity {
        Identity::Guest => Err("Guests can't do that. Register an account first.".to_owned()),
        Identity::User { .. } => match found {
            Ok(Some(account)) => if account.banned {
                Err("Your account has been suspended.".to_owned())
            } else {
                Ok(account)
            },
            Ok(None) => Err("Your account no longer exists.".to_owned()),
            Err(_) => Err(INTERNAL_ERROR.to_owned()),
        },
    }
}

/// Only sysops may moderate; anyone else is told why not.
pub open spec fn moderation(
    identity: Identity,
    found: Result<Option<Account>, DbError>,
) -> Result<(), Seq<char>> {
    match account_of(identity, found) {
        Ok(account) => if account.role == Role::Sysop {
            Ok(())
        } else {
            Err("Only sysops can do that."@)
        },
        Err(e) => Err(e),
    }
}

/// Only sysops may moderate.
pub fn require_sysop(identity: &Identity, found: Result<Option<Account>, DbError>) -> (r: Result<
    (),
    String,
>)
    ensures
        auth::verdict(r) == moderation(*identity, found),
{
    match live_account(identity, found) {
        Ok(account) => match account.role {
            Role::Sysop => Ok(()),
            Role::User => Err("Only sysops can do that.".to_owned()),
        },
        Err(e) => Err(e),
    }
}

/// Only registered, non-suspended users may post, and not too often. The
/// author's id, or why they may not.
pub open spec fn posting(
    limits: Limits,
    identity: Identity,
    found: Result<Option<Account>, DbError>,
    thread_start: bool,
    now: u64,
) -> Result<i64, Seq<char>> {
    match account_of(identity, found) {
        Ok(account) => {
            let subject = Subject::User(account.id);
            if limits.under_limit(subject, Event::Post, now) && (thread_start
                ==> limits.under_limit(subject, Event::NewThread, now)) {
                Ok(account.id)
            } else {
                Err("You're posting too fast. Please wait a few minutes."@)
            }
        },
        Err(e) => if identity is Guest {
            Err("Guests can't post. Register an account first."@)
        } else {
            Err(e)
        },
    }
}

pub open spec fn id_outcome(r: Result<i64, String>) -> Result<i64, Seq<char>> {
    match r {
        Ok(id) => Ok(id),
        Err(e) => Err(e@),
    }
}

/// Only registered, non-suspended users may post, and not too often.
fn check_can_post(
    limiter: &Limiter,
    identity: &Identity,
    found: Result<Option<Account>, DbError>,
    thread_start: bool,
    now: u64,
) -> (r: Result<i64, String>)
    requires
        limiter.wf(),
    ensures
        id_outcome(r) == posting(limiter@, *identity, found, thread_start, now),
{
    if let Identity::Guest = identity {
        return Err("Guests can't post. Register an account first.".to_owned());
    }
    let account = match live_account(identity, found) {
        Ok(account) => account,
        Err(e) => return Err(e),
    };
    let subject = Subject::User(account.id);
    if !limiter.allowed(subject, Event::Post, now) || (thread_start && !limiter.allowed(
        subject,
        Event::NewThread,
        now,
    )) {
        return Err("You're posting too fast. Please wait a few minutes.".to_owned());
    }
    Ok(account.id)
}

/// The limits once a post of `user_id` has been counted.
pub open spec fn counted(limits: Limits, user_id: i64, thread_start: bool, now: u64) -> Limits {
    let subject = Subject::User(user_id);
    let post = limits.recorded(subject, Event::Post, now);
    if thread_start {
        post.recorded(subject, Event::NewThread, now)
    } else {
        post
    }
}

fn record_post(limiter: &mut Limiter, user_id: i64, thread_start: bool, now: u64)
    requires
        old(limiter).wf(),
    ensures
        final(limiter)@ == counted(old(limiter)@, user_id, thread_start, now),
        final(limiter).wf(),
{
    limiter.record(Subject::User(user_id), Event::Post, now);
    if thread_start {
        limiter.record(Subject::User(user_id), Event::NewThread, now);
    }
}

// ------------------------------------------------------------------ posting

/// What is shown once the database has done its part: a list or a thread to
/// be read now, or an answer that needs nothing more.
pub enum Show {
    Threads { board_id: i64, notice: Option<String>, viewer: Option<i64> },
    Thread { thread_id: i64, to_end: bool, notice: Option<String>, viewer: Option<i64> },
    Answer(Response),
}

/// A `Show` over the texts themselves.
pub enum Shown {
    Threads { board_id: i64, notice: Option<Seq<char>>, viewer: Option<i64> },
    Thread { thread_id: i64, to_end: bool, notice: Option<Seq<char>>, viewer: Option<i64> },
    Refused(Refusal),
}

impl View for Show {
    type V = Shown;

    open spec fn view(&self) -> Shown {
        match self {
            Show::Threads { board_id, notice, viewer } => Shown::Threads {
                board_id: *board_id,
                notice: protocol::text_of(*notice),
                viewer: *viewer,
            },
            Show::Thread { thread_id, to_end, notice, viewer } => Shown::Thread {
                thread_id: *thread_id,
                to_end: *to_end,
                notice: protocol::text_of(*notice),
                viewer: *viewer,
            },
            Show::Answer(response) => Shown::Refused(response.refusal()),
        }
    }
}

/// Why a post was not stored; `what` is the thing it was to go into.
pub open spec fn post_failure(err: DbError, what: Seq<char>) -> Seq<char> {
    match err {
        DbError::NotFound => "That "@ + what + " no longer exists."@,
        DbError::LimitReached => "This thread is full ("@ + chars::decimal(
            MAX_POSTS_PER_THREAD as nat,
        ) + " posts). Please start a new one."@,
        _ => INTERNAL_ERROR@,
    }
}

fn post_error(err: DbError, what: &str) -> (r: Response)
    ensures
        r.refusal() == Refusal::Post(post_failure(err, what@)),
{
    Response::PostFailed(
        match err {
            DbError::NotFound => cat3("That ", what, " no longer exists."),
            DbError::LimitReached => cat3(
                "This thread is full (",
                &size_text(MAX_POSTS_PER_THREAD),
                " posts). Please start a new one.",
            ),
            _ => INTERNAL_ERROR.to_owned(),
        },
    )
}

/// A thread to be stored.
pub struct NewThread {
    pub board_id: i64,
    pub author_id: i64,
    pub title: String,
    pub body: String,
}

/// A reply to be stored.
pub struct NewPost {
    pub thread_id: i64,
    pub author_id: i64,
    pub body: String,
}

/// The author, title and body of a thread to be stored, or why there is
/// none. Permission comes first; only then is the text looked at.
pub open spec fn thread_request(
    limits: Limits,
    identity: Identity,
    found: Result<Option<Account>, DbError>,
    title: Seq<char>,
    body: Seq<char>,
    now: u64,
) -> Result<(i64, Seq<char>, Seq<char>), Seq<char>> {
    match posting(limits, identity, found, true, now) {
        Err(e) => Err(e),
        Ok(id) => match (content::title_of(title), content::body_of(body)) {
            (Ok(t), Ok(b)) => Ok((id, t, b)),
            (Err(e), _) => Err(e),
            (_, Err(e)) => Err(e),
        },
    }
}

/// A user wants to start a thread. `found` is the lookup of their account.
pub fn create_thread(
    limiter: &mut Limiter,
    identity: &Identity,
    found: Result<Option<Account>, DbError>,
    board_id: i64,
    title: String,
    body: String,
    now: u64,
) -> (r: Result<NewThread, Response>)
    requires
        old(limiter).wf(),
    ensures
        match thread_request(old(limiter)@, *identity, found, title@, body@, now) {
            Ok((author, clean_title, clean_body)) => r matches Ok(thread) && thread.board_id
                == board_id && thread.author_id == author && thread.title@ == clean_title
                && thread.body@ == clean_body && final(limiter)@ == counted(
                old(limiter)@,
                author,
                true,
                now,
            ),
            Err(e) => r matches Err(response) && response.refusal() == Refusal::Post(e)
                && final(limiter)@ == old(limiter)@,
        },
        final(limiter).wf(),
{
    let author_id: i64 = match check_can_post(limiter, identity, found, true, now) {
        Ok(id) => id,
        Err(e) => return Err(Response::PostFailed(e)),
    };
    let title = match clean_title(&title) {
        Ok(title) => title,
        Err(e) => return Err(Response::PostFailed(e)),
    };
    let body = match clean_body(&body) {
        Ok(body) => body,
        Err(e) => return Err(Response::PostFailed(e)),
    };
    record_post(limiter, author_id, true, now);
    Ok(NewThread { board_id, author_id, title, body })
}

/// The database has tried to store a new thread of `user_id`.
pub fn thread_created(user_id: i64, result: Result<i64, DbError>) -> (r: Show)
    ensures
        r@ == match result {
            Ok(thread_id) => Shown::Thread {
                thread_id,
                to_end: true,
                notice: Some("Posted."@),
                viewer: Some(user_id),
            },
            Err(e) => Shown::Refused(Refusal::Post(post_failure(e, "board"@))),
        },
{
    match result {
        Ok(thread_id) => Show::Thread {
            thread_id,
            to_end: true,
            notice: Some("Posted.".to_owned()),
            viewer: Some(user_id),
        },
        Err(e) => Show::Answer(post_error(e, "board")),
    }
}

/// The author and body of a reply to be stored, or why there is none.
pub open spec fn reply_request(
    limits: Limits,
    identity: Identity,
    found: Result<Option<Account>, DbError>,
    body: Seq<char>,
    now: u64,
) -> Result<(i64, Seq<char>), Seq<char>> {
    match posting(limits, identity, found, false, now) {
        Err(e) => Err(e),
        Ok(id) => match content::body_of(body) {
            Ok(b) => Ok((id, b)),
            Err(e) => Err(e),
        },
    }
}

/// A user wants to reply. `found` is the lookup of their account.
pub fn reply(
    limiter: &mut Limiter,
    identity: &Identity,
    found: Result<Option<Account>, DbError>,
    thread_id: i64,
    body: String,
    now: u64,
) -> (r: Result<NewPost, Response>)
    requires
        old(limiter).wf(),
    ensures
        match reply_request(old(limiter)@, *identity, found, body@, now) {
            Ok((author, clean_body)) => r matches Ok(post) && post.thread_id == thread_id
                && post.author_id == author && post.body@ == clean_body && final(limiter)@
                == counted(old(limiter)@, author, false, now),
            Err(e) => r matches Err(response) && response.refusal() == Refusal::Post(e)
                && final(limiter)@ == old(limiter)@,
        },
        final(limiter).wf(),
{
    let author_id: i64 = match check_can_post(limiter, identity, found, false, now) {
        Ok(id) => id,
        Err(e) => return Err(Response::PostFailed(e)),
    };
    let body = match clean_body(&body) {
        Ok(body) => body,
        Err(e) => return Err(Response::PostFailed(e)),
    };
    record_post(limiter, author_id, false, now);
    Ok(NewPost { thread_id, author_id, body })
}

/// The database has tried to store a reply of `user_id`.
pub fn reply_stored(thread_id: i64, user_id: i64, result: Result<(), DbError>) -> (r: Show)
    ensures
        r@ == match result {
            Ok(()) => Shown::Thread {
                thread_id,
                to_end: true,
                notice: Some("Posted."@),
                viewer: Some(user_id),
            },
            Err(e) => Shown::Refused(Refusal::Post(post_failure(e, "thread"@))),
        },
{
    match result {
        Ok(()) => Show::Thread {
            thread_id,
            to_end: true,
            notice: Some("Posted.".to_owned()),
            viewer: Some(user_id),
        },
        Err(e) => Show::Answer(post_error(e, "thread")),
    }
}

// --------------------------------------------------------------- moderating

/// May this session delete threads and posts? `found` is the lookup of its
/// account.
pub fn may_delete(identity: &Identity, found: Result<Option<Account>, DbError>) -> (r: Result<
    (),
    Response,
>)
    ensures
        match moderation(*identity, found) {
            Ok(()) => r is Ok,
            Err(e) => r matches Err(response) && response.refusal() == Refusal::Error(e),
        },
{
    match require_sysop(identity, found) {
        Ok(()) => Ok(()),
        Err(e) => Err(Response::Error(e)),
    }
}

/// Why something was not deleted; `what` is the thing.
pub open spec fn deletion_failure(err: DbError, what: Seq<char>) -> Seq<char> {
    match err {
        DbError::NotFound => "That "@ + what + " no longer exists."@,
        _ => INTERNAL_ERROR@,
    }
}

fn deletion_error(err: DbError, what: &str) -> (r: Response)
    ensures
        r.refusal() == Refusal::Error(deletion_failure(err, what@)),
{
    Response::Error(
        match err {
            DbError::NotFound => cat3("That ", what, " no longer exists."),
            _ => INTERNAL_ERROR.to_owned(),
        },
    )
}

/// The database has tried to delete a thread, and says which board it was on.
pub fn delete_thread(identity: &Identity, result: Result<i64, DbError>) -> (r: Show)
    ensures
        r@ == match result {
            Ok(board_id) => Shown::Threads {
                board_id,
                notice: Some("Thread deleted."@),
                viewer: identity.account_id(),
            },
            Err(e) => Shown::Refused(Refusal::Error(deletion_failure(e, "thread"@))),
        },
{
    match result {
        Ok(board_id) => Show::Threads {
            board_id,
            notice: Some("Thread deleted.".to_owned()),
            viewer: identity.user_id(),
        },
        Err(e) => Show::Answer(deletion_error(e, "thread")),
    }
}

/// The database has tried to delete a post, and says what became of its
/// thread.
pub fn delete_post(identity: &Identity, result: Result<PostDeletion, DbError>) -> (r: Show)
    ensures
        r@ == match result {
            Ok(d) => if d.thread_deleted {
                Shown::Threads {
                    board_id: d.board_id,
                    notice: Some("Post deleted; the thread is gone too."@),
                    viewer: identity.account_id(),
                }
            } else {
                Shown::Thread {
                    thread_id: d.thread_id,
                    to_end: false,
                    notice: Some("Post deleted."@),
                    viewer: identity.account_id(),
                }
            },
            Err(e) => Shown::Refused(Refusal::Error(deletion_failure(e, "post"@))),
        },
{
    match result {
        Ok(d) => if d.thread_deleted {
            Show::Threads {
                board_id: d.board_id,
                notice: Some("Post deleted; the thread is gone too.".to_owned()),
                viewer: identity.user_id(),
            }
        } else {
            Show::Thread {
                thread_id: d.thread_id,
                to_end: false,
                notice: Some("Post deleted.".to_owned()),
                viewer: identity.user_id(),
            }
        },
        Err(e) => Show::Answer(deletion_error(e, "post")),
    }
}

// ------------------------------------------------------------- read markers

/// Whose read markers are to be set, if the session has any.
pub fn mark_board_read(identity: &Identity) -> (r: Result<i64, Response>)
    ensures
        match identity.account_id() {
            Some(id) => r matches Ok(user_id) && user_id == id,
            None => r matches Err(response) && response.refusal() == Refusal::Error(
                "Guests don't have read markers. Register an account first."@,
            ),
        },
{
    match identity.user_id() {
        Some(id) => Ok(id),
        None => Err(
            Response::Error(
                "Guests don't have read markers. Register an account first.".to_owned(),
            ),
        ),
    }
}

/// The database has tried to mark every thread in the board as read.
pub fn board_marked(board_id: i64, user_id: i64, result: Result<(), DbError>) -> (r: Show)
    ensures
        r@ == match result {
            Ok(()) => Shown::Threads {
                board_id,
                notice: Some("Marked everything in this board as read."@),
                viewer: Some(user_id),
            },
            Err(_) => Shown::Refused(Refusal::Error(INTERNAL_ERROR@)),
        },
{
    match result {
        Ok(()) => Show::Threads {
            board_id,
            notice: Some("Marked everything in this board as read.".to_owned()),
            viewer: Some(user_id),
        },
        Err(_) => Show::Answer(Response::Error(INTERNAL_ERROR.to_owned())),
    }
}

} // verus!
