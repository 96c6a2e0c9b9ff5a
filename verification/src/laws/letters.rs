//! Laws of private mail: what the functions of `mail` and `sysop` answer,
//! whoever asks and whatever is stored.

use vstd::prelude::*;

use crate::chars;
use crate::content;
use crate::db::{Account, DbError, Folder, MailError, MailItem, MailMessage, Role};
use crate::laws::content as clean;
use crate::mail;
use crate::mail::{Letter, MailNotice, Show};
use crate::state::{Event, Identity, Limiter, Subject};
use crate::sysop;
use crate::sysop::NewMotd;
use crate::ui::protocol::Response;

verus! {

/// The request is turned down, with these words.
pub open spec fn denied<T>(r: Result<T, Response>, why: Seq<char>) -> bool {
    r matches Err(Response::Error(e)) && e@ == why
}

/// The letter is turned down, with these words.
pub open spec fn returned<T>(r: Result<T, Response>, why: Seq<char>) -> bool {
    r matches Err(Response::MailFailed(e)) && e@ == why
}

/// The answer is that message.
pub open spec fn answers(r: Response, text: Seq<char>) -> bool {
    r matches Response::Error(e) && e@ == text
}

// --------------------------------------------------------------------- writing

/// A member whose subject is a line of 1 to 80 printable characters, and
/// whose text is well set and of at most 2000, sends a letter of their own
/// with just that subject and that text.
pub proof fn law_letters_are_sent_as_written(
    identity: &Identity,
    account: Account,
    to: String,
    subject: String,
    lines: Seq<Seq<char>>,
    body: String,
    r: Result<Letter, Response>,
)
    requires
        call_ensures(mail::draft, (identity, Ok(Some(account)), to, subject, body), r),
        identity is User,
        !account.banned,
        clean::clean(subject@),
        clean::evenly_spaced(subject@),
        1 <= subject@.len() <= 80,
        clean::well_set(lines),
        body@ == chars::joined(lines, "\n"@),
        body@.len() <= 2000,
    ensures
        r matches Ok(letter) && letter.sender == account && letter.subject@ == subject@
            && letter.body@ == body@,
        r matches Ok(letter) && (to@.len() > 0 ==> !chars::whitespace(to@[0])
            && !chars::whitespace(to@[to@.len() - 1])) ==> r->Ok_0.to@ == to@,
{
    clean::lemma_well_set(lines);
    clean::law_clean_texts_are_kept(lines);
    clean::law_clean_lines_are_kept(subject@);
}

/// The subject and the text of a letter are what cleaning makes of those that
/// were written, each by itself; what cleaning refuses is refused with the
/// same words, the subject first.
pub proof fn law_letters_are_cleaned(
    identity: &Identity,
    account: Account,
    to: String,
    heading: &str,
    text: &str,
    subject: String,
    body: String,
    cleaned_subject: Result<String, String>,
    cleaned: Result<String, String>,
    r: Result<Letter, Response>,
)
    requires
        call_ensures(mail::draft, (identity, Ok(Some(account)), to, subject, body), r),
        call_ensures(content::clean_subject, (heading,), cleaned_subject),
        call_ensures(content::clean_body, (text,), cleaned),
        subject@ == heading@,
        body@ == text@,
        identity is User,
        !account.banned,
    ensures
        match (cleaned_subject, cleaned) {
            (Ok(h), Ok(t)) => r matches Ok(letter) && letter.sender == account && letter.subject@
                == h@ && letter.body@ == t@,
            (Err(e), _) => returned(r, e@),
            (_, Err(e)) => returned(r, e@),
        },
{
    assert(content::outcome(cleaned_subject) == content::subject_of(heading@));
    assert(content::outcome(cleaned) == content::body_of(text@));
}

/// An empty text is refused, whatever the subject.
pub proof fn law_empty_letters_are_refused(
    identity: &Identity,
    found: Result<Option<Account>, DbError>,
    to: String,
    subject: String,
    body: String,
    r: Result<Letter, Response>,
)
    requires
        call_ensures(mail::draft, (identity, found, to, subject, body), r),
        forall|i: int| 0 <= i < body@.len() ==> #[trigger] body@[i] == ' ' || body@[i] == '\n',
    ensures
        r is Err,
{
    clean::lemma_blank_text(body@);
}

/// Only members write: guests, suspended users and users whose account is
/// gone are told so.
pub proof fn law_who_may_not_write(
    identity: &Identity,
    found: Result<Option<Account>, DbError>,
    to: String,
    subject: String,
    body: String,
    r: Result<Letter, Response>,
    reading: Result<Account, Response>,
)
    requires
        call_ensures(mail::draft, (identity, found, to, subject, body), r),
        call_ensures(mail::may_read, (identity, found), reading),
    ensures
        match (*identity, found) {
            (Identity::Guest, _) => returned(
                r,
                "Mail is for registered users. Register an account first."@,
            ) && denied(reading, "Mail is for registered users. Register an account first."@),
            (_, Ok(None)) => returned(r, "Your account no longer exists."@) && denied(
                reading,
                "Your account no longer exists."@,
            ),
            (_, Err(_)) => returned(r, "Internal error, please try again later."@) && denied(
                reading,
                "Internal error, please try again later."@,
            ),
            (_, Ok(Some(account))) => if account.banned {
                returned(r, "Your account has been suspended."@) && denied(
                    reading,
                    "Your account has been suspended."@,
                )
            } else {
                reading == Ok::<Account, Response>(account)
            },
        },
{
}

/// A letter goes to whoever the database has under the name, if the sender is
/// under the limit, and then counts as one letter of the sender; otherwise
/// the sender is told why, and nothing is counted.
pub proof fn law_letters_go_to_their_recipient(
    limiter: &mut Limiter,
    letter: &Letter,
    found: Result<Option<Account>, DbError>,
    now: u64,
    r: Result<Account, Response>,
)
    requires
        call_ensures(mail::send, (limiter, letter, found, now), r),
    ensures
        match found {
            Ok(Some(account)) => if old(limiter)@.under_limit(
                Subject::User(letter.sender.id),
                Event::MailSend,
                now,
            ) {
                r == Ok::<Account, Response>(account) && final(limiter)@ == old(limiter)@.recorded(
                    Subject::User(letter.sender.id),
                    Event::MailSend,
                    now,
                )
            } else {
                returned(r, "You're sending mail too fast. Please wait a few minutes."@)
                    && final(limiter)@ == old(limiter)@
            },
            Ok(None) => returned(r, "There is no user called \""@ + letter.to@ + "\"."@)
                && final(limiter)@ == old(limiter)@,
            Err(_) => returned(r, "Internal error, please try again later."@) && final(limiter)@
                == old(limiter)@,
        },
{
}

/// Once a letter is delivered the recipient, and nobody else, is told who it
/// is from, unless they wrote it themselves; if it is not, nobody is told
/// but the sender, who is told why.
pub proof fn law_recipients_are_told(
    sender: &Account,
    recipient: &Account,
    result: Result<(), MailError>,
    r: (Option<MailNotice>, Show),
)
    requires
        call_ensures(mail::sent, (sender, recipient, result), r),
    ensures
        result is Ok && sender.id != recipient.id ==> (r.0 matches Some(told) && told.to_user_id
            == recipient.id && told.from == sender.username),
        result is Err || sender.id == recipient.id ==> r.0 is None,
        result is Ok ==> (r.1 matches Show::Mailbox { folder, notice } && folder == Folder::Inbox
            && (notice matches Some(n) && n@ == "Message sent to "@ + recipient.username@ + "."@)),
        result matches Err(e) ==> (r.1 matches Show::Answer(Response::MailFailed(why)) && why@
            == match e {
            MailError::Blocked => "You can't send messages to that user."@,
            MailError::RecipientFull => recipient.username@ + "'s mailbox is full."@,
            MailError::SentFull => "Your sent folder is full. Delete some old messages first."@,
            MailError::TooFast => "You've sent "@ + recipient.username@
                + " several messages recently. Please wait a few minutes."@,
            MailError::Db(_) => "Internal error, please try again later."@,
        }),
{
}

// --------------------------------------------------------------------- reading

/// A mailbox shows what is stored in it, a message is shown as it is stored,
/// and the blocked users are those that are stored.
pub proof fn law_mail_is_shown_as_stored(
    folder: Folder,
    said: Option<String>,
    items: Vec<MailItem>,
    unread: i64,
    message: MailMessage,
    names: Vec<String>,
    r: Response,
)
    ensures
        call_ensures(mail::open_mailbox, (folder, said, Ok((items, unread))), r) ==> (
        r matches Response::Mailbox { folder: f, items: shown, unread: n, notice } && f == folder
            && shown == items && n == unread && notice == said),
        call_ensures(mail::read_message, (Ok((Some(message), unread)),), r) ==> (
        r matches Response::Message { message: shown, unread: n } && shown == message && n
            == unread),
        call_ensures(mail::list_blocks, (said, Ok(names)), r) ==> (r matches Response::Blocks {
            names: shown,
            notice,
        } && shown == names && notice == said),
{
}

/// What isn't there, or can't be read, is answered with a message.
pub proof fn law_missing_mail(
    folder: Folder,
    said: Option<String>,
    unread: i64,
    e: DbError,
    count: Result<i64, DbError>,
    n: i64,
    r: Response,
)
    ensures
        call_ensures(mail::open_mailbox, (folder, said, Err(e)), r) ==> answers(
            r,
            "Internal error, please try again later."@,
        ),
        call_ensures(mail::read_message, (Ok((None, unread)),), r) ==> answers(
            r,
            "That message doesn't exist any more."@,
        ),
        call_ensures(mail::read_message, (Err(e),), r) ==> answers(
            r,
            "Internal error, please try again later."@,
        ),
        call_ensures(mail::list_blocks, (said, Err(e)), r) ==> answers(
            r,
            "Internal error, please try again later."@,
        ),
        call_ensures(mail::unread_count, (count,), n) ==> (count matches Ok(k) ==> n == k) && (
        count is Err ==> n == 0),
{
}

/// Once a message is deleted the same folder is shown again.
pub proof fn law_after_deleting_mail(folder: Folder, result: Result<(), DbError>, r: Show)
    requires
        call_ensures(mail::delete_message, (folder, result), r),
    ensures
        match result {
            Ok(()) => r matches Show::Mailbox { folder: f, notice } && f == folder && (
            notice matches Some(n) && n@ == "Message deleted."@),
            Err(DbError::NotFound) => r matches Show::Answer(a) && answers(
                a,
                "That message doesn't exist any more."@,
            ),
            Err(_) => r matches Show::Answer(a) && answers(
                a,
                "Internal error, please try again later."@,
            ),
        },
{
}

// -------------------------------------------------------------------- blocking

/// Everybody who exists can be blocked, but oneself; and unblocked.
pub proof fn law_others_can_be_blocked(
    me: i64,
    name: &str,
    found: Result<Option<Account>, DbError>,
    blocked: Result<Account, Response>,
    unblocked: Result<Account, Response>,
)
    requires
        call_ensures(mail::block, (me, name, found), blocked),
        call_ensures(mail::unblock, (name, found), unblocked),
    ensures
        match found {
            Ok(Some(account)) => unblocked == Ok::<Account, Response>(account) && (if account.id
                == me {
                denied(blocked, "You can't block yourself."@)
            } else {
                blocked == Ok::<Account, Response>(account)
            }),
            Ok(None) => denied(blocked, "There is no user called \""@ + name@ + "\"."@) && denied(
                unblocked,
                "There is no user called \""@ + name@ + "\"."@,
            ),
            Err(_) => denied(blocked, "Internal error, please try again later."@) && denied(
                unblocked,
                "Internal error, please try again later."@,
            ),
        },
{
}

/// Once somebody is blocked or unblocked, it is said who.
pub proof fn law_after_blocking(
    target: &Account,
    result: Result<(), DbError>,
    blocked: Show,
    unblocked: Show,
)
    requires
        call_ensures(mail::blocked, (target, result), blocked),
        call_ensures(mail::unblocked, (target, result), unblocked),
    ensures
        match result {
            Ok(()) => (blocked matches Show::Mailbox { folder, notice } && folder == Folder::Inbox
                && (notice matches Some(n) && n@ == "Blocked "@ + target.username@
                + ". They can no longer send you mail (see B in the mailbox)."@)) && (
            unblocked matches Show::Blocks { notice } && (notice matches Some(n) && n@
                == "Unblocked "@ + target.username@ + "."@)),
            Err(_) => (blocked matches Show::Answer(a) && answers(
                a,
                "Internal error, please try again later."@,
            )) && (unblocked matches Show::Answer(a) && answers(
                a,
                "Internal error, please try again later."@,
            )),
        },
{
}

// --------------------------------------------------------- message of the day

/// The sysop request is turned down, with these words.
pub open spec fn barred<T>(r: Result<T, Response>, why: Seq<char>) -> bool {
    r matches Err(Response::SysopActionFailed(e)) && e@ == why
}

/// A sysop's message of the day is stored as cleaning makes it, under their
/// name; an empty one clears it. Nobody else can set one.
pub proof fn law_sysops_set_the_motd(
    identity: &Identity,
    found: Result<Option<Account>, DbError>,
    words: &str,
    text: String,
    cleaned: Result<String, String>,
    r: Result<NewMotd, Response>,
)
    requires
        call_ensures(sysop::set_motd, (identity, found, text), r),
        call_ensures(content::clean_motd, (words,), cleaned),
        text@ == words@,
    ensures
        r is Ok <==> cleaned is Ok && *identity is User && (found matches Ok(Some(a)) && a.role
            == Role::Sysop && !a.banned),
        r matches Ok(motd) ==> (*identity matches Identity::User { id, .. } && motd.user_id == id)
            && (cleaned matches Ok(t) && motd.text@ == t@ && motd.notice@ == (if t@.len() == 0 {
            "MOTD cleared."@
        } else {
            "MOTD saved."@
        })),
        *identity is User && (found matches Ok(Some(a)) && a.role == Role::Sysop && !a.banned)
            && cleaned is Err ==> barred(r, cleaned->Err_0@),
        *identity is Guest ==> barred(r, "Only sysops can do that."@),
{
    assert(content::outcome(cleaned) == content::motd_of(words@));
}

/// A message of the day that is well set is stored as it was written.
pub proof fn law_motds_are_stored_as_written(
    identity: &Identity,
    account: Account,
    lines: Seq<Seq<char>>,
    text: String,
    r: Result<NewMotd, Response>,
)
    requires
        call_ensures(sysop::set_motd, (identity, Ok(Some(account)), text), r),
        identity is User,
        account.role == Role::Sysop,
        !account.banned,
        clean::well_set(lines),
        text@ == chars::joined(lines, "\n"@),
        text@.len() <= 4000,
    ensures
        r matches Ok(motd) && motd.text@ == text@ && motd.user_id == identity->User_id,
{
    clean::lemma_well_set(lines);
    clean::law_clean_texts_are_kept(lines);
}

/// The message of the day is read by sysops, as it is stored; and what went
/// wrong is said.
pub proof fn law_sysops_read_the_motd(
    identity: &Identity,
    found: Result<Option<Account>, DbError>,
    text: String,
    said: Option<String>,
    e: DbError,
    stored: Result<(), DbError>,
    asked: Result<(), Response>,
    saved: Result<(), Response>,
    r: Response,
)
    ensures
        call_ensures(sysop::get_motd, (identity, found), asked) ==> (asked is Ok <==> *identity is User
            && (found matches Ok(Some(a)) && a.role == Role::Sysop && !a.banned)),
        call_ensures(sysop::fetch_motd, (Ok(text), said), r) ==> (r matches Response::Motd {
            text: t,
            notice,
        } && t == text && notice == said),
        call_ensures(sysop::fetch_motd, (Err(e), said), r) ==> (
        r matches Response::SysopActionFailed(why) && why@
            == "Internal error, please try again later."@),
        call_ensures(sysop::motd_stored, (stored,), saved) ==> (saved is Ok <==> stored is Ok),
        call_ensures(sysop::motd_stored, (stored,), saved) && stored is Err ==> barred(
            saved,
            "Internal error, please try again later."@,
        ),
{
}

} // verus!
