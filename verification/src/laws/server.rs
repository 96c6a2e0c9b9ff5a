//! Laws of what the server lets whom do.

use vstd::prelude::*;

use crate::admin;
use crate::auth;
use crate::boards;
use crate::content;
use crate::db::{Account, DbError, Role, UserRecord};
use crate::laws::content as clean;
use crate::laws::state as limits;
use crate::mail;
use crate::server;
use crate::server::{Attempt, Connection};
use crate::state;
use crate::state::{Event, Identity, Limits, Subject};
use crate::sysop;

verus! {

// --------------------------------------------------------------- permissions

/// Only registered users whose account exists and is not suspended can post,
/// and only while they are under the limit; they all can.
pub proof fn law_only_members_post(
    l: Limits,
    identity: Identity,
    found: Result<Option<Account>, DbError>,
    thread_start: bool,
    now: u64,
)
    ensures
        boards::posting(l, identity, found, thread_start, now) matches Ok(id) ==> {
            &&& identity is User
            &&& found matches Ok(Some(account)) && account.id == id && !account.banned
            &&& l.under_limit(Subject::User(id), Event::Post, now)
            &&& thread_start ==> l.under_limit(Subject::User(id), Event::NewThread, now)
        },
        identity is User && (found matches Ok(Some(account)) && !account.banned && l.under_limit(
            Subject::User(account.id),
            Event::Post,
            now,
        ) && (thread_start ==> l.under_limit(Subject::User(account.id), Event::NewThread, now)))
            ==> boards::posting(l, identity, found, thread_start, now) is Ok,
{
}

/// Only somebody whose account is a sysop's at that moment can moderate,
/// whatever the session was told when it logged in.
pub proof fn law_only_sysops_moderate(identity: Identity, found: Result<Option<Account>, DbError>)
    ensures
        boards::moderation(identity, found) is Ok <==> identity is User && (found matches Ok(
            Some(account),
        ) && account.role == Role::Sysop && !account.banned),
{
}

/// A suspended user can neither log in nor do anything.
pub proof fn law_suspended_users_do_nothing(
    l: Limits,
    identity: Identity,
    account: Account,
    record: UserRecord,
    thread_start: bool,
    now: u64,
)
    requires
        account.banned,
        record.banned,
    ensures
        boards::account_of(identity, Ok(Some(account))) is Err,
        boards::posting(l, identity, Ok(Some(account)), thread_start, now) is Err,
        boards::moderation(identity, Ok(Some(account))) is Err,
        mail::membership(identity, Ok(Some(account))) is Err,
        server::password_identity(Some(record), true) is None,
        server::key_identity(Ok(Some(account))) is None,
{
}

/// Guests can't write anything: no post, no mail, no message of the day.
pub proof fn law_guests_write_nothing(
    l: Limits,
    found: Result<Option<Account>, DbError>,
    a: Seq<char>,
    b: Seq<char>,
    c: Seq<char>,
    now: u64,
)
    ensures
        boards::thread_request(l, Identity::Guest, found, a, b, now) is Err,
        boards::reply_request(l, Identity::Guest, found, b, now) is Err,
        mail::letter_request(Identity::Guest, found, a, b, c) is Err,
        sysop::motd_request(Identity::Guest, found, a) is Err,
{
}

// ---------------------------------------------------------------------- text

/// Whatever a client sends, what is stored of a thread is clean, and would
/// be stored the same way again.
pub proof fn law_stored_threads_are_clean(
    l: Limits,
    identity: Identity,
    found: Result<Option<Account>, DbError>,
    title: Seq<char>,
    body: Seq<char>,
    now: u64,
)
    ensures
        boards::thread_request(l, identity, found, title, body, now) matches Ok((_, t, b)) ==> {
            &&& clean::clean(t)
            &&& clean::clean_text(b)
            &&& content::title_of(t) == Ok::<Seq<char>, Seq<char>>(t)
            &&& content::body_of(b) == Ok::<Seq<char>, Seq<char>>(b)
        },
{
    clean::law_single_line_is_clean(title);
    clean::law_lines_are_clean(body);
    clean::law_accepted_lines_are_stable(title);
    clean::law_accepted_texts_are_stable(body);
}

/// The same of replies, letters and the message of the day.
pub proof fn law_stored_texts_are_clean(
    l: Limits,
    identity: Identity,
    found: Result<Option<Account>, DbError>,
    to: Seq<char>,
    subject: Seq<char>,
    body: Seq<char>,
    now: u64,
)
    ensures
        boards::reply_request(l, identity, found, body, now) matches Ok((_, b)) ==> {
            &&& clean::clean_text(b)
            &&& content::body_of(b) == Ok::<Seq<char>, Seq<char>>(b)
        },
        mail::letter_request(identity, found, to, subject, body) matches Ok((_, _, s, b)) ==> {
            &&& clean::clean(s)
            &&& clean::clean_text(b)
            &&& content::subject_of(s) == Ok::<Seq<char>, Seq<char>>(s)
            &&& content::body_of(b) == Ok::<Seq<char>, Seq<char>>(b)
        },
        sysop::motd_request(identity, found, body) matches Ok((t, _)) ==> {
            &&& clean::clean_text(t)
            &&& content::motd_of(t) == Ok::<Seq<char>, Seq<char>>(t)
        },
{
    clean::law_single_line_is_clean(subject);
    clean::law_lines_are_clean(body);
    clean::law_accepted_lines_are_stable(subject);
    clean::law_accepted_texts_are_stable(body);
}

// -------------------------------------------------------------------- limits

/// A user never has more posts, or more new threads, within the time that
/// is looked at than the limits allow.
pub proof fn law_posting_limits_hold(
    l: Limits,
    identity: Identity,
    found: Result<Option<Account>, DbError>,
    thread_start: bool,
    now: u64,
)
    ensures
        boards::posting(l, identity, found, thread_start, now) matches Ok(id) ==> {
            let after = boards::counted(l, id, thread_start, now);
            let subject = Subject::User(id);
            &&& state::live(
                after.hits_of(subject, Event::Post),
                now,
                Event::Post.window(),
            ).len() <= Event::Post.max()
            &&& thread_start ==> state::live(
                after.hits_of(subject, Event::NewThread),
                now,
                Event::NewThread.window(),
            ).len() <= Event::NewThread.max()
        },
{
    if let Ok(id) = boards::posting(l, identity, found, thread_start, now) {
        let subject = Subject::User(id);
        let post = l.recorded(subject, Event::Post, now);
        limits::law_limit_is_never_exceeded(l, subject, Event::Post, now);
        if thread_start {
            limits::law_limits_are_independent(
                l,
                subject,
                Event::Post,
                now,
                subject,
                Event::NewThread,
                now,
            );
            limits::law_limit_is_never_exceeded(post, subject, Event::NewThread, now);
            limits::law_limits_are_independent(
                post,
                subject,
                Event::NewThread,
                now,
                subject,
                Event::Post,
                now,
            );
        }
    }
}

// --------------------------------------------------------------------- logins

/// An address that has failed too often is refused, with the right password
/// too, and one with too many connections is dropped.
pub proof fn law_throttled_addresses_are_refused(
    connection: Connection,
    l: Limits,
    guest_password: Option<Seq<char>>,
    user: Seq<char>,
    password: Seq<char>,
    now: u64,
)
    requires
        connection.over_limit || connection.throttled(l, now),
    ensures
        ({
            let attempt = connection.password_attempt(l, guest_password, user, password, now);
            if connection.over_limit {
                attempt is Drop
            } else {
                attempt is Reject
            }
        }),
        ({
            let attempt = connection.key_attempt(l, user, now);
            if connection.over_limit {
                attempt is Drop
            } else {
                attempt is Reject
            }
        }),
{
}

/// Where the guest account is disabled nobody gets in as a guest, and nobody
/// ever does with a key.
pub proof fn law_disabled_guests_stay_out(
    connection: Connection,
    l: Limits,
    guest_password: Option<Seq<char>>,
    user: Seq<char>,
    password: Seq<char>,
    now: u64,
)
    ensures
        connection.password_attempt(l, None, user, password, now) != Attempt::Decided(
            Some(Identity::Guest),
        ),
        connection.key_attempt(l, user, now) matches Attempt::Decided(identity) ==> identity
            is None,
        connection.password_attempt(l, guest_password, user, password, now) matches Attempt::Decided(
            Some(identity),
        ) ==> identity is Guest && guest_password == Some(password),
{
}

/// Guests can register, but nobody else; no name that is reserved or
/// malformed, no password that is too short, too long or their name, and no
/// more accounts from one address than the limit allows.
pub proof fn law_registered_names_are_valid(
    connection: Connection,
    l: Limits,
    username: Seq<char>,
    password: Seq<char>,
    now: u64,
)
    ensures
        connection.registration(l, username, password, now) is Ok <==> {
            &&& auth::username_format(username) is Ok
            &&& !auth::reserved(username)
            &&& auth::password_verdict(username, password) is Ok
            &&& connection.identity == Some(Identity::Guest)
            &&& connection.peer_ip matches Some(ip) ==> l.under_limit(
                Subject::Ip(ip.bucketed()),
                Event::Registration,
                now,
            )
        },
{
}

// ---------------------------------------------------------------------- admin

/// A first line has no more characters than asked for, but for the ellipsis.
pub proof fn law_first_lines_are_short(text: Seq<char>, max: int)
    requires
        max >= 0,
    ensures
        admin::first_line_of(text, max).len() <= max + 1,
{
    reveal_strlit("…");
}

} // verus!
