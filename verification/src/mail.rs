//! Server-side handling of private mail: permission checks, validation,
//! rate limiting, delivery and the live "new mail" notice. What the database
//! has answered comes in as an argument.

use vstd::prelude::*;

use crate::boards;
use crate::boards::{live_account, INTERNAL_ERROR};
use crate::chars;
use crate::chars::{cat2, cat3, trim_text};
use crate::content;
use crate::content::{clean_body, clean_subject};
use crate::db::{Account, DbError, Folder, MailError, MailItem, MailMessage};
use crate::state::{Event, Identity, Limiter, Limits, Subject};
use crate::ui::protocol;
use crate::ui::protocol::{Refusal, Response};

verus! {

/// Sent to every session when mail is delivered; the recipient's sessions
/// pick it up and show "New mail from ...".
#[derive(Debug)]
pub struct MailNotice {
    pub to_user_id: i64,
    pub from: String,
}

impl Clone for MailNotice {
    fn clone(&self) -> (r: MailNotice)
        ensures
            r == *self,
    {
        MailNotice { to_user_id: self.to_user_id, from: self.from.clone() }
    }
}

// -------------------------------------------------------------- permissions

/// Mail is for registered, non-suspended users: their account, or what they
/// are told.
pub open spec fn membership(
    identity: Identity,
    found: Result<Option<Account>, DbError>,
) -> Result<Account, Seq<char>> {
    match identity {
        Identity::Guest => Err("Mail is for registered users. Register an account first."@),
        _ => boards::account_of(identity, found),
    }
}

/// Mail is for registered, non-suspended users. Returns their live account.
fn member(identity: &Identity, found: Result<Option<Account>, DbError>) -> (r: Result<
    Account,
    String,
>)
    ensures
        boards::account_outcome(r) == membership(*identity, found),
{
    match identity {
        Identity::Guest => Err(
            "Mail is for registered users. Register an account first.".to_owned(),
        ),
        Identity::User { .. } => live_account(identity, found),
    }
}

/// May this session use the mailbox? `found` is the lookup of its account.
pub fn may_read(identity: &Identity, found: Result<Option<Account>, DbError>) -> (r: Result<
    Account,
    Response,
>)
    ensures
        match membership(*identity, found) {
            Ok(account) => r matches Ok(a) && a == account,
            Err(e) => r matches Err(response) && response.refusal() == Refusal::Error(e),
        },
{
    match member(identity, found) {
        Ok(account) => Ok(account),
        Err(e) => Err(Response::Error(e)),
    }
}

// ------------------------------------------------------------------ reading

pub fn unread_count(found: Result<i64, DbError>) -> (r: i64)
    ensures
        r == match found {
            Ok(n) => n,
            Err(_) => 0,
        },
{
    match found {
        Ok(n) => n,
        Err(_) => 0,
    }
}

/// Shows a folder: its messages and the number of unread ones in the inbox.
pub fn open_mailbox(
    folder: Folder,
    notice: Option<String>,
    found: Result<(Vec<MailItem>, i64), DbError>,
) -> (r: Response)
    ensures
        match found {
            Ok((items, unread)) => r == (Response::Mailbox { folder, items, unread, notice }),
            Err(_) => r.refusal() == Refusal::Error(INTERNAL_ERROR@),
        },
{
    match found {
        Ok((items, unread)) => Response::Mailbox { folder, items, unread, notice },
        Err(_) => Response::Error(INTERNAL_ERROR.to_owned()),
    }
}

/// Shows a message. Opening marks it read; the count was taken afterwards so
/// the menu reflects that.
pub fn read_message(found: Result<(Option<MailMessage>, i64), DbError>) -> (r: Response)
    ensures
        match found {
            Ok((Some(message), unread)) => r == (Response::Message { message, unread }),
            Ok((None, _)) => r.refusal() == Refusal::Error("That message doesn't exist any more."@),
            Err(_) => r.refusal() == Refusal::Error(INTERNAL_ERROR@),
        },
{
    match found {
        Ok((Some(message), unread)) => Response::Message { message, unread },
        Ok((None, _)) => Response::Error("That message doesn't exist any more.".to_owned()),
        Err(_) => Response::Error(INTERNAL_ERROR.to_owned()),
    }
}

/// The names a user has blocked.
pub fn list_blocks(notice: Option<String>, found: Result<Vec<String>, DbError>) -> (r: Response)
    ensures
        match found {
            Ok(names) => r == (Response::Blocks { names, notice }),
            Err(_) => r.refusal() == Refusal::Error(INTERNAL_ERROR@),
        },
{
    match found {
        Ok(names) => Response::Blocks { names, notice },
        Err(_) => Response::Error(INTERNAL_ERROR.to_owned()),
    }
}

// ------------------------------------------------------------------ sending

/// A message that is ready but for its recipient's account.
pub struct Letter {
    pub sender: Account,
    /// The recipient's name as the sender wrote it.
    pub to: String,
    pub subject: String,
    pub body: String,
}

/// The sender, recipient's name, subject and body of a message, or why there
/// is none. Permission comes first; only then is the text looked at.
pub open spec fn letter_request(
    identity: Identity,
    found: Result<Option<Account>, DbError>,
    to: Seq<char>,
    subject: Seq<char>,
    body: Seq<char>,
) -> Result<(Account, Seq<char>, Seq<char>, Seq<char>), Seq<char>> {
    match membership(identity, found) {
        Err(e) => Err(e),
        Ok(sender) => match (content::subject_of(subject), content::body_of(body)) {
            (Ok(s), Ok(b)) => Ok((sender, chars::trim(to), s, b)),
            (Err(e), _) => Err(e),
            (_, Err(e)) => Err(e),
        },
    }
}

/// A user wants to send a message. `found` is the lookup of their account;
/// the recipient's is looked up next.
pub fn draft(
    identity: &Identity,
    found: Result<Option<Account>, DbError>,
    to: String,
    subject: String,
    body: String,
) -> (r: Result<Letter, Response>)
    ensures
        match letter_request(*identity, found, to@, subject@, body@) {
            Ok((sender, name, clean_subject, clean_body)) => r matches Ok(letter) && letter.sender
                == sender && letter.to@ == name && letter.subject@ == clean_subject && letter.body@
                == clean_body,
            Err(e) => r matches Err(response) && response.refusal() == Refusal::Mail(e),
        },
{
    let sender = match member(identity, found) {
        Ok(account) => account,
        Err(e) => return Err(Response::MailFailed(e)),
    };
    let subject = match clean_subject(&subject) {
        Ok(subject) => subject,
        Err(e) => return Err(Response::MailFailed(e)),
    };
    let body = match clean_body(&body) {
        Ok(body) => body,
        Err(e) => return Err(Response::MailFailed(e)),
    };
    Ok(Letter { sender, to: trim_text(&to), subject, body })
}

/// What somebody is told who named a user that doesn't exist.
pub open spec fn no_such_user(name: Seq<char>) -> Seq<char> {
    "There is no user called \""@ + name + "\"."@
}

/// The account a name stands for, or what is said instead.
pub open spec fn named_account(
    name: Seq<char>,
    found: Result<Option<Account>, DbError>,
) -> Result<Account, Seq<char>> {
    match found {
        Ok(Some(account)) => Ok(account),
        Ok(None) => Err(no_such_user(name)),
        Err(_) => Err(INTERNAL_ERROR@),
    }
}

fn look_up(name: &str, found: Result<Option<Account>, DbError>) -> (r: Result<Account, String>)
    ensures
        boards::account_outcome(r) == named_account(name@, found),
{
    match found {
        Ok(Some(account)) => Ok(account),
        Ok(None) => Err(cat3("There is no user called \"", name, "\".")),
        Err(_) => Err(INTERNAL_ERROR.to_owned()),
    }
}

/// Who a message goes to, or why it is not sent.
pub open spec fn recipient_of(
    limits: Limits,
    sender_id: i64,
    name: Seq<char>,
    found: Result<Option<Account>, DbError>,
    now: u64,
) -> Result<Account, Seq<char>> {
    match named_account(name, found) {
        Err(e) => Err(e),
        Ok(recipient) => if limits.under_limit(Subject::User(sender_id), Event::MailSend, now) {
            Ok(recipient)
        } else {
            Err("You're sending mail too fast. Please wait a few minutes."@)
        },
    }
}

/// The recipient has been looked up: the message may go out, unless the
/// sender is too fast.
pub fn send(
    limiter: &mut Limiter,
    letter: &Letter,
    found: Result<Option<Account>, DbError>,
    now: u64,
) -> (r: Result<Account, Response>)
    requires
        old(limiter).wf(),
    ensures
        match recipient_of(old(limiter)@, letter.sender.id, letter.to@, found, now) {
            Ok(recipient) => r matches Ok(a) && a == recipient && final(limiter)@ == old(
                limiter,
            )@.recorded(Subject::User(letter.sender.id), Event::MailSend, now),
            Err(e) => r matches Err(response) && response.refusal() == Refusal::Mail(e)
                && final(limiter)@ == old(limiter)@,
        },
        final(limiter).wf(),
{
    let recipient = match look_up(&letter.to, found) {
        Ok(account) => account,
        Err(e) => return Err(Response::MailFailed(e)),
    };
    let subject = Subject::User(letter.sender.id);
    if !limiter.allowed(subject, Event::MailSend, now) {
        return Err(
            Response::MailFailed(
                "You're sending mail too fast. Please wait a few minutes.".to_owned(),
            ),
        );
    }
    limiter.record(subject, Event::MailSend, now);
    Ok(recipient)
}

/// What is shown once the database has done its part.
pub enum Show {
    Mailbox { folder: Folder, notice: Option<String> },
    Blocks { notice: Option<String> },
    Answer(Response),
}

/// A `Show` over the texts themselves.
pub enum Shown {
    Mailbox { folder: Folder, notice: Option<Seq<char>> },
    Blocks { notice: Option<Seq<char>> },
    Refused(Refusal),
}

impl View for Show {
    type V = Shown;

    open spec fn view(&self) -> Shown {
        match self {
            Show::Mailbox { folder, notice } => Shown::Mailbox {
                folder: *folder,
                notice: protocol::text_of(*notice),
            },
            Show::Blocks { notice } => Shown::Blocks { notice: protocol::text_of(*notice) },
            Show::Answer(response) => Shown::Refused(response.refusal()),
        }
    }
}

/// Why the database did not deliver a message to `recipient`.
pub open spec fn delivery_failure(err: MailError, recipient: Seq<char>) -> Seq<char> {
    match err {
        MailError::Blocked => "You can't send messages to that user."@,
        MailError::RecipientFull => recipient + "'s mailbox is full."@,
        MailError::SentFull => "Your sent folder is full. Delete some old messages first."@,
        MailError::TooFast => "You've sent "@ + recipient
            + " several messages recently. Please wait a few minutes."@,
        MailError::Db(_) => INTERNAL_ERROR@,
    }
}

fn delivery_error(err: MailError, recipient: &str) -> (r: String)
    ensures
        r@ == delivery_failure(err, recipient@),
{
    match err {
        MailError::Blocked => "You can't send messages to that user.".to_owned(),
        MailError::RecipientFull => cat2(recipient, "'s mailbox is full."),
        MailError::SentFull => "Your sent folder is full. Delete some old messages first.".to_owned(),
        MailError::TooFast => cat3(
            "You've sent ",
            recipient,
            " several messages recently. Please wait a few minutes.",
        ),
        MailError::Db(_) => INTERNAL_ERROR.to_owned(),
    }
}

/// The database has tried to deliver a message. The recipient's sessions are
/// told, unless somebody wrote to themselves; nobody listening is fine, as it
/// will be in their inbox.
pub fn sent(sender: &Account, recipient: &Account, result: Result<(), MailError>) -> (r: (
    Option<MailNotice>,
    Show,
))
    ensures
        match result {
            Ok(()) => r.1@ == (Shown::Mailbox {
                folder: Folder::Inbox,
                notice: Some("Message sent to "@ + recipient.username@ + "."@),
            }) && if sender.id == recipient.id {
                r.0 is None
            } else {
                r.0 matches Some(told) && told.to_user_id == recipient.id && told.from
                    == sender.username
            },
            Err(e) => r.0 is None && r.1@ == Shown::Refused(
                Refusal::Mail(delivery_failure(e, recipient.username@)),
            ),
        },
{
    match result {
        Ok(()) => {
            let told = if sender.id != recipient.id {
                Some(MailNotice { to_user_id: recipient.id, from: sender.username.clone() })
            } else {
                None
            };
            let notice = cat3("Message sent to ", &recipient.username, ".");
            (told, Show::Mailbox { folder: Folder::Inbox, notice: Some(notice) })
        },
        Err(e) => (
            None,
            Show::Answer(Response::MailFailed(delivery_error(e, &recipient.username))),
        ),
    }
}

/// The database has tried to delete a message.
pub fn delete_message(folder: Folder, result: Result<(), DbError>) -> (r: Show)
    ensures
        r@ == match result {
            Ok(()) => Shown::Mailbox { folder, notice: Some("Message deleted."@) },
            Err(DbError::NotFound) => Shown::Refused(
                Refusal::Error("That message doesn't exist any more."@),
            ),
            Err(_) => Shown::Refused(Refusal::Error(INTERNAL_ERROR@)),
        },
{
    match result {
        Ok(()) => Show::Mailbox { folder, notice: Some("Message deleted.".to_owned()) },
        Err(DbError::NotFound) => Show::Answer(
            Response::Error("That message doesn't exist any more.".to_owned()),
        ),
        Err(_) => Show::Answer(Response::Error(INTERNAL_ERROR.to_owned())),
    }
}

// ----------------------------------------------------------------- blocking

/// Whom `me` may block, or why not.
pub open spec fn blockable(
    me: i64,
    name: Seq<char>,
    found: Result<Option<Account>, DbError>,
) -> Result<Account, Seq<char>> {
    match named_account(name, found) {
        Err(e) => Err(e),
        Ok(target) => if target.id == me {
            Err("You can't block yourself."@)
        } else {
            Ok(target)
        },
    }
}

/// `me` wants to block the user called `name`, whose lookup is `found`.
pub fn block(me: i64, name: &str, found: Result<Option<Account>, DbError>) -> (r: Result<
    Account,
    Response,
>)
    ensures
        match blockable(me, name@, found) {
            Ok(target) => r matches Ok(a) && a == target,
            Err(e) => r matches Err(response) && response.refusal() == Refusal::Error(e),
        },
{
    match look_up(name, found) {
        Ok(target) => if target.id == me {
            Err(Response::Error("You can't block yourself.".to_owned()))
        } else {
            Ok(target)
        },
        Err(e) => Err(Response::Error(e)),
    }
}

/// The database has tried to block a user; returns to the inbox.
pub fn blocked(target: &Account, result: Result<(), DbError>) -> (r: Show)
    ensures
        r@ == match result {
            Ok(()) => Shown::Mailbox {
                folder: Folder::Inbox,
                notice: Some(
                    "Blocked "@ + target.username@
                        + ". They can no longer send you mail (see B in the mailbox)."@,
                ),
            },
            Err(_) => Shown::Refused(Refusal::Error(INTERNAL_ERROR@)),
        },
{
    match result {
        Ok(()) => Show::Mailbox {
            folder: Folder::Inbox,
            notice: Some(
                cat3(
                    "Blocked ",
                    &target.username,
                    ". They can no longer send you mail (see B in the mailbox).",
                ),
            ),
        },
        Err(_) => Show::Answer(Response::Error(INTERNAL_ERROR.to_owned())),
    }
}

/// Somebody wants to unblock the user called `name`, whose lookup is `found`.
pub fn unblock(name: &str, found: Result<Option<Account>, DbError>) -> (r: Result<
    Account,
    Response,
>)
    ensures
        match named_account(name@, found) {
            Ok(target) => r matches Ok(a) && a == target,
            Err(e) => r matches Err(response) && response.refusal() == Refusal::Error(e),
        },
{
    match look_up(name, found) {
        Ok(target) => Ok(target),
        Err(e) => Err(Response::Error(e)),
    }
}

/// The database has tried to unblock a user.
pub fn unblocked(target: &Account, result: Result<(), DbError>) -> (r: Show)
    ensures
        r@ == match result {
            Ok(()) => Shown::Blocks { notice: Some("Unblocked "@ + target.username@ + "."@) },
            Err(_) => Shown::Refused(Refusal::Error(INTERNAL_ERROR@)),
        },
{
    match result {
        Ok(()) => Show::Blocks { notice: Some(cat3("Unblocked ", &target.username, ".")) },
        Err(_) => Show::Answer(Response::Error(INTERNAL_ERROR.to_owned())),
    }
}

} // verus!
