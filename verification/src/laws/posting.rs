//! Laws of reading, posting and moderating: what the functions of `boards`
//! answer, whoever asks and whatever was stored.

use vstd::prelude::*;

use crate::boards;
use crate::boards::{NewPost, NewThread, Show, INTERNAL_ERROR};
use crate::chars;
use crate::content;
use crate::db::{
    Account, BoardRecord, DbError, PostDeletion, PostRecord, Role, ThreadHead, ThreadRecord,
};
use crate::laws::content as clean;
use crate::state::{Event, Identity, Limiter, Subject};
use crate::ui::protocol::{BoardInfo, PageTarget, PostInfo, Response, ThreadInfo};

verus! {

// ------------------------------------------------------------------- posting

/// A member who is under the limits, and whose reply is well set and of at
/// most 2000 characters, has it stored in that thread, under their own name,
/// character for character as it was sent; and it counts as one post.
pub proof fn law_replies_are_stored_as_written(
    limiter: &mut Limiter,
    identity: &Identity,
    account: Account,
    thread_id: i64,
    lines: Seq<Seq<char>>,
    body: String,
    now: u64,
    r: Result<NewPost, Response>,
)
    requires
        call_ensures(
            boards::reply,
            (limiter, identity, Ok(Some(account)), thread_id, body, now),
            r,
        ),
        identity is User,
        !account.banned,
        old(limiter)@.under_limit(Subject::User(account.id), Event::Post, now),
        clean::well_set(lines),
        body@ == chars::joined(lines, "\n"@),
        body@.len() <= 2000,
    ensures
        r matches Ok(post) && post.thread_id == thread_id && post.author_id == account.id
            && post.body@ == body@,
        final(limiter)@ == old(limiter)@.recorded(Subject::User(account.id), Event::Post, now),
{
    lemma_kept(lines, body@);
}

/// A member who is under the limits, and whose title is a line of 3 to 80
/// printable characters and whose text is well set and of at most 2000, has
/// the thread stored on that board, under their own name, character for
/// character as it was sent; and it counts as a post and as a new thread.
pub proof fn law_threads_are_stored_as_written(
    limiter: &mut Limiter,
    identity: &Identity,
    account: Account,
    board_id: i64,
    title: String,
    lines: Seq<Seq<char>>,
    body: String,
    now: u64,
    r: Result<NewThread, Response>,
)
    requires
        call_ensures(
            boards::create_thread,
            (limiter, identity, Ok(Some(account)), board_id, title, body, now),
            r,
        ),
        identity is User,
        !account.banned,
        old(limiter)@.under_limit(Subject::User(account.id), Event::Post, now),
        old(limiter)@.under_limit(Subject::User(account.id), Event::NewThread, now),
        clean::clean(title@),
        clean::evenly_spaced(title@),
        3 <= title@.len() <= 80,
        clean::well_set(lines),
        body@ == chars::joined(lines, "\n"@),
        body@.len() <= 2000,
    ensures
        r matches Ok(thread) && thread.board_id == board_id && thread.author_id == account.id
            && thread.title@ == title@ && thread.body@ == body@,
        final(limiter)@ == old(limiter)@.recorded(
            Subject::User(account.id),
            Event::Post,
            now,
        ).recorded(Subject::User(account.id), Event::NewThread, now),
{
    lemma_kept(lines, body@);
    clean::law_clean_lines_are_kept(title@);
}

proof fn lemma_kept(lines: Seq<Seq<char>>, body: Seq<char>)
    requires
        clean::well_set(lines),
        body == chars::joined(lines, "\n"@),
        body.len() <= 2000,
    ensures
        content::body_of(body) == Ok::<Seq<char>, Seq<char>>(body),
{
    clean::lemma_well_set(lines);
    clean::law_clean_texts_are_kept(lines);
}

/// What is stored of a reply is what cleaning makes of it and depends on
/// nothing else; what cleaning refuses is refused with the same words, and
/// counts for nothing.
pub proof fn law_replies_are_cleaned(
    limiter: &mut Limiter,
    identity: &Identity,
    account: Account,
    thread_id: i64,
    text: &str,
    body: String,
    now: u64,
    cleaned: Result<String, String>,
    r: Result<NewPost, Response>,
)
    requires
        call_ensures(
            boards::reply,
            (limiter, identity, Ok(Some(account)), thread_id, body, now),
            r,
        ),
        call_ensures(content::clean_body, (text,), cleaned),
        body@ == text@,
        identity is User,
        !account.banned,
        old(limiter)@.under_limit(Subject::User(account.id), Event::Post, now),
    ensures
        match cleaned {
            Ok(t) => r matches Ok(post) && post.body@ == t@ && post.thread_id == thread_id
                && post.author_id == account.id,
            Err(e) => r matches Err(Response::PostFailed(why)) && why@ == e@ && final(limiter)@
                == old(limiter)@,
        },
{
    assert(content::outcome(cleaned) == content::body_of(text@));
}

/// The same of new threads; of two faults the one in the title is told.
pub proof fn law_threads_are_cleaned(
    limiter: &mut Limiter,
    identity: &Identity,
    account: Account,
    board_id: i64,
    heading: &str,
    text: &str,
    title: String,
    body: String,
    now: u64,
    cleaned_title: Result<String, String>,
    cleaned: Result<String, String>,
    r: Result<NewThread, Response>,
)
    requires
        call_ensures(
            boards::create_thread,
            (limiter, identity, Ok(Some(account)), board_id, title, body, now),
            r,
        ),
        call_ensures(content::clean_title, (heading,), cleaned_title),
        call_ensures(content::clean_body, (text,), cleaned),
        title@ == heading@,
        body@ == text@,
        identity is User,
        !account.banned,
        old(limiter)@.under_limit(Subject::User(account.id), Event::Post, now),
        old(limiter)@.under_limit(Subject::User(account.id), Event::NewThread, now),
    ensures
        match (cleaned_title, cleaned) {
            (Ok(h), Ok(t)) => r matches Ok(thread) && thread.title@ == h@ && thread.body@ == t@
                && thread.board_id == board_id && thread.author_id == account.id,
            (Err(e), _) => r matches Err(Response::PostFailed(why)) && why@ == e@
                && final(limiter)@ == old(limiter)@,
            (_, Err(e)) => r matches Err(Response::PostFailed(why)) && why@ == e@
                && final(limiter)@ == old(limiter)@,
        },
{
    assert(content::outcome(cleaned_title) == content::title_of(heading@));
    assert(content::outcome(cleaned) == content::body_of(text@));
}

/// Who may not post is told so, nothing is stored and nothing is counted:
/// guests, suspended users, users whose account is gone, and whoever has
/// posted too often. A new thread is held to both limits, a reply to one.
pub proof fn law_who_may_not_post(
    limiter: &mut Limiter,
    identity: &Identity,
    found: Result<Option<Account>, DbError>,
    place: i64,
    title: String,
    body: String,
    now: u64,
    post: Result<NewPost, Response>,
    thread: Result<NewThread, Response>,
)
    ensures
        call_ensures(boards::reply, (limiter, identity, found, place, body, now), post) ==> match (
            *identity,
            found,
        ) {
            (Identity::Guest, _) => refused(post, "Guests can't post. Register an account first."@)
                && final(limiter)@ == old(limiter)@,
            (_, Ok(None)) => refused(post, "Your account no longer exists."@) && final(limiter)@
                == old(limiter)@,
            (_, Err(_)) => refused(post, "Internal error, please try again later."@)
                && final(limiter)@ == old(limiter)@,
            (_, Ok(Some(account))) => if account.banned {
                refused(post, "Your account has been suspended."@) && final(limiter)@ == old(limiter)@
            } else if !old(limiter)@.under_limit(Subject::User(account.id), Event::Post, now) {
                refused(post, "You're posting too fast. Please wait a few minutes."@)
                    && final(limiter)@ == old(limiter)@
            } else {
                post matches Ok(p) ==> p.author_id == account.id
            },
        },
        call_ensures(
            boards::create_thread,
            (limiter, identity, found, place, title, body, now),
            thread,
        ) ==> match (*identity, found) {
            (Identity::Guest, _) => refused(
                thread,
                "Guests can't post. Register an account first."@,
            ) && final(limiter)@ == old(limiter)@,
            (_, Ok(None)) => refused(thread, "Your account no longer exists."@) && final(limiter)@
                == old(limiter)@,
            (_, Err(_)) => refused(thread, "Internal error, please try again later."@)
                && final(limiter)@ == old(limiter)@,
            (_, Ok(Some(account))) => if account.banned {
                refused(thread, "Your account has been suspended."@) && final(limiter)@ == old(limiter)@
            } else if !old(limiter)@.under_limit(Subject::User(account.id), Event::Post, now)
                || !old(limiter)@.under_limit(Subject::User(account.id), Event::NewThread, now) {
                refused(thread, "You're posting too fast. Please wait a few minutes."@)
                    && final(limiter)@ == old(limiter)@
            } else {
                thread matches Ok(t) ==> t.author_id == account.id
            },
        },
{
}

/// A post was turned down, with these words.
pub open spec fn refused<T>(r: Result<T, Response>, why: Seq<char>) -> bool {
    r matches Err(Response::PostFailed(e)) && e@ == why
}

/// Once a post is stored its thread is shown, at its end, to its author; if
/// it is not stored, the author is told why and keeps the text.
pub proof fn law_stored_posts_are_shown(
    thread_id: i64,
    user_id: i64,
    created: Result<i64, DbError>,
    stored: Result<(), DbError>,
    after_thread: Show,
    after_reply: Show,
)
    requires
        call_ensures(boards::thread_created, (user_id, created), after_thread),
        call_ensures(boards::reply_stored, (thread_id, user_id, stored), after_reply),
    ensures
        match created {
            Ok(id) => after_thread matches Show::Thread { thread_id: t, to_end, notice, viewer }
                && t == id && to_end && viewer == Some(user_id) && (notice matches Some(n) && n@
                == "Posted."@),
            Err(DbError::NotFound) => after_thread matches Show::Answer(Response::PostFailed(e))
                && e@ == "That "@ + "board"@ + " no longer exists."@,
            Err(DbError::LimitReached) => after_thread matches Show::Answer(
                Response::PostFailed(e),
            ) && e@ == "This thread is full ("@ + chars::decimal(200)
                + " posts). Please start a new one."@,
            Err(_) => after_thread matches Show::Answer(Response::PostFailed(e)) && e@
                == "Internal error, please try again later."@,
        },
        match stored {
            Ok(()) => after_reply matches Show::Thread { thread_id: t, to_end, notice, viewer } && t
                == thread_id && to_end && viewer == Some(user_id) && (notice matches Some(n) && n@
                == "Posted."@),
            Err(DbError::NotFound) => after_reply matches Show::Answer(Response::PostFailed(e))
                && e@ == "That "@ + "thread"@ + " no longer exists."@,
            Err(DbError::LimitReached) => after_reply matches Show::Answer(Response::PostFailed(e))
                && e@ == "This thread is full ("@ + chars::decimal(200)
                + " posts). Please start a new one."@,
            Err(_) => after_reply matches Show::Answer(Response::PostFailed(e)) && e@
                == "Internal error, please try again later."@,
        },
{
}

// ------------------------------------------------------------------- reading

/// The board list shows every board that is stored, in the order of storage,
/// each with its own name, description and counts.
pub proof fn law_boards_are_listed(records: Vec<BoardRecord>, r: Response)
    requires
        call_ensures(boards::list_boards, (Ok(records),), r),
    ensures
        r matches Response::Boards { boards: shown, notice } && notice is None && shown@.len()
            == records@.len() && forall|i: int|
            0 <= i < records@.len() ==> (#[trigger] shown@[i]).id == records@[i].id && shown@[i].name
                == records@[i].name && shown@[i].description == records@[i].description
                && shown@[i].thread_count == records@[i].thread_count && shown@[i].unread_threads
                == records@[i].unread_threads,
{
}

/// A thread list shows every thread that is stored, in the order of storage,
/// each with its own title, author and counts, under the board's name.
pub proof fn law_threads_are_listed(
    board_id: i64,
    said: Option<String>,
    name: String,
    records: Vec<ThreadRecord>,
    r: Response,
)
    requires
        call_ensures(boards::list_threads, (board_id, said, Ok(Some((name, records)))), r),
    ensures
        r matches Response::Threads {
            board_id: id,
            board_name,
            threads,
            notice,
            page,
            pages,
            total,
        } && id == board_id && board_name == name && notice == said && page == 0 && pages == 1
            && total == records@.len() && threads@.len() == records@.len() && forall|i: int|
            0 <= i < records@.len() ==> (#[trigger] threads@[i]).id == records@[i].id
                && threads@[i].title == records@[i].title && threads@[i].author
                == records@[i].author && threads@[i].post_count == records@[i].post_count
                && threads@[i].last_post == records@[i].last_post && threads@[i].unread
                == records@[i].unread,
{
}

/// A thread shows every post that is stored, in the order of storage, each
/// with its own author, text and time, under the thread's and the board's
/// name.
pub proof fn law_posts_are_listed(
    at_end: bool,
    said: Option<String>,
    head: ThreadHead,
    records: Vec<PostRecord>,
    r: Response,
)
    requires
        call_ensures(boards::open_thread, (at_end, said, Ok(Some((head, records)))), r),
    ensures
        r matches Response::Thread { detail, to_end, notice } && to_end == at_end && notice == said
            && detail.id == head.id && detail.board_id == head.board_id && detail.board_name
            == head.board_name && detail.title == head.title && detail.page == 0 && detail.pages
            == 1 && detail.total == records@.len() && detail.posts@.len() == records@.len()
            && forall|i: int|
            0 <= i < records@.len() ==> (#[trigger] detail.posts@[i]).id == records@[i].id
                && detail.posts@[i].author == records@[i].author
                && detail.posts@[i].author_is_sysop == records@[i].author_is_sysop
                && detail.posts@[i].body == records@[i].body && detail.posts@[i].created
                == records@[i].created && detail.posts@[i].unread == records@[i].unread,
{
}

/// What isn't there, or can't be read, is answered with a message.
pub proof fn law_missing_boards_and_threads(
    board_id: i64,
    to_end: bool,
    said: Option<String>,
    e: DbError,
    r: Response,
)
    ensures
        call_ensures(boards::list_boards, (Err(e),), r) ==> says(
            r,
            "Internal error, please try again later."@,
        ),
        call_ensures(boards::list_threads, (board_id, said, Ok(None)), r) ==> says(
            r,
            "That board doesn't exist."@,
        ),
        call_ensures(boards::list_threads, (board_id, said, Err(e)), r) ==> says(
            r,
            "Internal error, please try again later."@,
        ),
        call_ensures(boards::open_thread, (to_end, said, Ok(None)), r) ==> says(
            r,
            "That thread doesn't exist."@,
        ),
        call_ensures(boards::open_thread, (to_end, said, Err(e)), r) ==> says(
            r,
            "Internal error, please try again later."@,
        ),
{
}

/// The answer is that message.
pub open spec fn says(r: Response, text: Seq<char>) -> bool {
    r matches Response::Error(e) && e@ == text
}

/// A thread is opened at its end exactly when the last page is asked for, or
/// when one comes to a page from behind; the count of unread threads is what
/// was read, and none if nothing could be read.
pub proof fn law_reading_helpers(
    target: &PageTarget,
    found: Result<i64, DbError>,
    to_end: bool,
    unread: i64,
)
    ensures
        call_ensures(boards::opens_at_end, (target,), to_end) ==> (to_end <==> (*target is Last
            || *target is PageEnd)),
        call_ensures(boards::unread_total, (found,), unread) ==> (found matches Ok(n) ==> unread
            == n) && (found is Err ==> unread == 0),
{
}

// ---------------------------------------------------------------- moderating

/// The account that counts is the one that is stored now: it is used exactly
/// when the session is a user's and the account is there and not suspended.
pub proof fn law_stored_accounts_count(
    identity: &Identity,
    found: Result<Option<Account>, DbError>,
    r: Result<Account, String>,
)
    requires
        call_ensures(boards::live_account, (identity, found), r),
    ensures
        r matches Ok(a) ==> found == Ok::<Option<Account>, DbError>(Some(a)) && !a.banned
            && *identity is User,
        r is Ok <==> *identity is User && (found matches Ok(Some(a)) && !a.banned),
        r matches Err(e) ==> e@ == match (*identity, found) {
            (Identity::Guest, _) => "Guests can't do that. Register an account first."@,
            (_, Ok(Some(_))) => "Your account has been suspended."@,
            (_, Ok(None)) => "Your account no longer exists."@,
            (_, Err(_)) => "Internal error, please try again later."@,
        },
{
    assert(boards::account_outcome(r) == boards::account_of(*identity, found));
}

/// Threads and posts are deleted for those, and for all those, whose account
/// is a sysop's and not suspended.
pub proof fn law_sysops_may_delete(
    identity: &Identity,
    found: Result<Option<Account>, DbError>,
    asked: Result<(), String>,
    r: Result<(), Response>,
)
    requires
        call_ensures(boards::require_sysop, (identity, found), asked),
        call_ensures(boards::may_delete, (identity, found), r),
    ensures
        r is Ok <==> *identity is User && (found matches Ok(Some(a)) && a.role == Role::Sysop
            && !a.banned),
        asked is Ok <==> r is Ok,
        asked matches Err(e) ==> (r matches Err(Response::Error(why)) && why@ == e@),
        *identity is User && (found matches Ok(Some(a)) && a.role == Role::User && !a.banned) ==> (
        r matches Err(Response::Error(why)) && why@ == "Only sysops can do that."@),
{
    assert(crate::auth::verdict(asked) == boards::moderation(*identity, found));
}

/// Once a thread is deleted its board is shown; once a post is deleted its
/// thread is, or its board if the thread went with it.
pub proof fn law_after_deleting(
    identity: &Identity,
    thread: Result<i64, DbError>,
    post: Result<PostDeletion, DbError>,
    after_thread: Show,
    after_post: Show,
)
    requires
        call_ensures(boards::delete_thread, (identity, thread), after_thread),
        call_ensures(boards::delete_post, (identity, post), after_post),
    ensures
        match thread {
            Ok(id) => after_thread matches Show::Threads { board_id, notice, viewer } && board_id
                == id && viewer == identity.account_id() && (notice matches Some(n) && n@
                == "Thread deleted."@),
            Err(DbError::NotFound) => after_thread matches Show::Answer(r) && says(
                r,
                "That "@ + "thread"@ + " no longer exists."@,
            ),
            Err(_) => after_thread matches Show::Answer(r) && says(
                r,
                "Internal error, please try again later."@,
            ),
        },
        match post {
            Ok(d) => if d.thread_deleted {
                after_post matches Show::Threads { board_id, notice, viewer } && board_id
                    == d.board_id && viewer == identity.account_id() && (notice matches Some(n)
                    && n@ == "Post deleted; the thread is gone too."@)
            } else {
                after_post matches Show::Thread { thread_id, to_end, notice, viewer } && thread_id
                    == d.thread_id && !to_end && viewer == identity.account_id() && (
                notice matches Some(n) && n@ == "Post deleted."@)
            },
            Err(DbError::NotFound) => after_post matches Show::Answer(r) && says(
                r,
                "That "@ + "post"@ + " no longer exists."@,
            ),
            Err(_) => after_post matches Show::Answer(r) && says(
                r,
                "Internal error, please try again later."@,
            ),
        },
{
}

/// Read markers are the user's own, and guests have none; once they are set
/// the same board is shown again.
pub proof fn law_marking_a_board(
    identity: &Identity,
    board_id: i64,
    user_id: i64,
    result: Result<(), DbError>,
    who: Result<i64, Response>,
    shown: Show,
)
    requires
        call_ensures(boards::mark_board_read, (identity,), who),
        call_ensures(boards::board_marked, (board_id, user_id, result), shown),
    ensures
        match *identity {
            Identity::Guest => who matches Err(r) && says(
                r,
                "Guests don't have read markers. Register an account first."@,
            ),
            Identity::User { id, .. } => who matches Ok(n) && n == id,
        },
        match result {
            Ok(()) => shown matches Show::Threads { board_id: b, notice, viewer } && b == board_id
                && viewer == Some(user_id) && (notice matches Some(n) && n@
                == "Marked everything in this board as read."@),
            Err(_) => shown matches Show::Answer(r) && says(
                r,
                "Internal error, please try again later."@,
            ),
        },
{
}

} // verus!
