//! What is stored: the records, the limits, and the decisions that storage
//! takes on the values it has read. The statements themselves run elsewhere.

use vstd::prelude::*;

use crate::chars::same;

verus! {

pub const MAX_KEYS_PER_USER: usize = 10;

pub const MAX_THREADS_LISTED: usize = 100;

pub const MAX_POSTS_PER_THREAD: usize = 200;

/// Posts on one page of a thread.
pub const POSTS_PER_PAGE: usize = 25;

#[derive(Clone, Copy, Debug, PartialEq, Eq, Structural)]
pub enum Role {
    User,
    Sysop,
}

impl Role {
    /// The role's name in the database.
    pub open spec fn name(self) -> Seq<char> {
        match self {
            Role::User => "user"@,
            Role::Sysop => "sysop"@,
        }
    }

    pub fn as_str(self) -> (r: &'static str)
        ensures
            r@ == self.name(),
    {
        match self {
            Role::User => "user",
            Role::Sysop => "sysop",
        }
    }

    pub open spec fn parsed(s: Seq<char>) -> Option<Role> {
        if s == Role::User.name() {
            Some(Role::User)
        } else if s == Role::Sysop.name() {
            Some(Role::Sysop)
        } else {
            None
        }
    }

    pub fn parse(s: &str) -> (r: Option<Role>)
        ensures
            r == Role::parsed(s@),
    {
        if same(s, "user") {
            Some(Role::User)
        } else if same(s, "sysop") {
            Some(Role::Sysop)
        } else {
            None
        }
    }

    /// Anything unrecognised in the database is treated as an ordinary user,
    /// never as a privileged one.
    pub fn from_db(s: &str) -> (r: Role)
        ensures
            r == Role::Sysop <==> s@ == "sysop"@,
    {
        proof {
            reveal_strlit("user");
            reveal_strlit("sysop");
            assert("user"@.len() != "sysop"@.len());
        }
        match Role::parse(s) {
            Some(role) => role,
            None => Role::User,
        }
    }
}

pub struct UserRecord {
    pub id: i64,
    /// Username with the capitalisation it was registered with.
    pub username: String,
    pub password_hash: String,
    pub role: Role,
    pub banned: bool,
}

/// What the server needs to know about a user to decide whether they may
/// log in or act. Always read fresh, so changes made by the admin tool take
/// effect immediately.
pub struct Account {
    pub id: i64,
    pub username: String,
    pub role: Role,
    pub banned: bool,
}

pub struct UserSummary {
    pub id: i64,
    pub username: String,
    pub role: Role,
    pub banned: bool,
    pub ban_reason: Option<String>,
    pub created: String,
    pub posts: i64,
    pub keys: i64,
}

pub struct Stats {
    pub users: i64,
    pub sysops: i64,
    pub banned: i64,
    pub boards: i64,
    pub threads: i64,
    pub posts: i64,
    pub keys: i64,
}

#[derive(Debug, Clone, Copy, PartialEq, Eq, Structural)]
pub struct PostDeletion {
    pub thread_id: i64,
    pub board_id: i64,
    /// The thread had no other posts left, so it was removed too.
    pub thread_deleted: bool,
}

pub struct BoardRecord {
    pub id: i64,
    pub name: String,
    pub description: String,
    pub position: i64,
    pub thread_count: i64,
    /// Threads with posts the viewer hasn't read.
    pub unread_threads: i64,
}

pub struct ThreadRecord {
    pub id: i64,
    pub title: String,
    pub author: String,
    pub post_count: i64,
    /// UTC, already formatted for display.
    pub last_post: String,
    /// Posts in the thread the viewer hasn't read.
    pub unread: i64,
}

pub struct ThreadHead {
    pub id: i64,
    pub board_id: i64,
    pub board_name: String,
    pub title: String,
}

pub struct PostRecord {
    pub id: i64,
    pub author: String,
    pub author_is_sysop: bool,
    pub body: String,
    pub created: String,
    pub unread: bool,
}

pub struct KeyRecord {
    pub id: i64,
    pub fingerprint: String,
    pub comment: String,
}

/// The two sides of a mailbox.
#[derive(Clone, Copy, Debug, PartialEq, Eq, Structural)]
pub enum Folder {
    Inbox,
    Sent,
}

/// One line of a mailbox.
pub struct MailItem {
    pub id: i64,
    /// The sender in the inbox, the recipient in the sent folder.
    pub other: String,
    pub subject: String,
    pub created: String,
    pub unread: bool,
}

/// A message as one of its two owners holds it.
pub struct MailMessage {
    pub id: i64,
    pub from: String,
    pub to: String,
    pub subject: String,
    pub body: String,
    pub created: String,
    /// This is the recipient's copy.
    pub is_recipient: bool,
}

#[derive(Debug, Clone, Copy, PartialEq, Eq, Structural)]
pub enum DbError {
    /// A UNIQUE constraint was violated (username or key fingerprint).
    Duplicate,
    LimitReached,
    /// A referenced row (board, thread, user) doesn't exist.
    NotFound,
    /// Refused because the thing still contains data (e.g. a board with threads).
    NotEmpty,
    Other,
}

/// Why a message was not delivered.
#[derive(Debug, Clone, Copy, PartialEq, Eq, Structural)]
pub enum MailError {
    /// The recipient blocks the sender.
    Blocked,
    RecipientFull,
    SentFull,
    /// Too many messages to one recipient.
    TooFast,
    Db(DbError),
}

/// SQLITE_CONSTRAINT_UNIQUE.
pub const CONSTRAINT_UNIQUE: i32 = 2067;

/// SQLITE_CONSTRAINT_PRIMARYKEY.
pub const CONSTRAINT_PRIMARYKEY: i32 = 1555;

/// SQLITE_CONSTRAINT_FOREIGNKEY.
pub const CONSTRAINT_FOREIGNKEY: i32 = 787;

impl DbError {
    pub open spec fn message(self) -> Seq<char> {
        match self {
            DbError::Duplicate => "already exists"@,
            DbError::LimitReached => "limit reached"@,
            DbError::NotFound => "not found"@,
            DbError::NotEmpty => "not empty"@,
            DbError::Other => "database error"@,
        }
    }

    /// The error in words.
    pub fn text(self) -> (r: &'static str)
        ensures
            r@ == self.message(),
    {
        match self {
            DbError::Duplicate => "already exists",
            DbError::LimitReached => "limit reached",
            DbError::NotFound => "not found",
            DbError::NotEmpty => "not empty",
            DbError::Other => "database error",
        }
    }

    /// What SQLite's extended result code means here, if it gave one.
    pub fn from_code(code: Option<i32>) -> (r: DbError)
        ensures
            r == DbError::Duplicate <==> (code == Some(CONSTRAINT_UNIQUE) || code == Some(
                CONSTRAINT_PRIMARYKEY,
            )),
            r == DbError::NotFound <==> code == Some(CONSTRAINT_FOREIGNKEY),
            r == DbError::Duplicate || r == DbError::NotFound || r == DbError::Other,
    {
        match code {
            Some(n) => if n == CONSTRAINT_UNIQUE || n == CONSTRAINT_PRIMARYKEY {
                DbError::Duplicate
            } else if n == CONSTRAINT_FOREIGNKEY {
                DbError::NotFound
            } else {
                DbError::Other
            },
            None => DbError::Other,
        }
    }
}

/// Whether a user with `count` keys may store another.
pub fn check_key_slot(count: i64) -> (r: Result<(), DbError>)
    ensures
        r == (if count >= MAX_KEYS_PER_USER {
            Err::<(), DbError>(DbError::LimitReached)
        } else {
            Ok(())
        }),
{
    if count >= MAX_KEYS_PER_USER as i64 {
        Err(DbError::LimitReached)
    } else {
        Ok(())
    }
}

/// Whether a thread takes another post; `count` is its number of posts, if
/// there is such a thread.
pub fn check_post_slot(count: Option<i64>) -> (r: Result<(), DbError>)
    ensures
        r == match count {
            None => Err::<(), DbError>(DbError::NotFound),
            Some(n) => if n >= MAX_POSTS_PER_THREAD {
                Err(DbError::LimitReached)
            } else {
                Ok(())
            },
        },
{
    match count {
        None => Err(DbError::NotFound),
        Some(n) => if n >= MAX_POSTS_PER_THREAD as i64 {
            Err(DbError::LimitReached)
        } else {
            Ok(())
        },
    }
}

/// An update that changed no row had nothing to change.
pub fn check_changed(rows: usize) -> (r: Result<(), DbError>)
    ensures
        r == (if rows == 0 {
            Err::<(), DbError>(DbError::NotFound)
        } else {
            Ok(())
        }),
{
    if rows == 0 {
        Err(DbError::NotFound)
    } else {
        Ok(())
    }
}

/// What to do with the thread of a post that was deleted.
#[derive(Debug, Clone, Copy, PartialEq, Eq, Structural)]
pub enum ThreadUpdate {
    /// It has no posts left.
    Delete,
    /// Its count and last-activity time are recomputed.
    Recount { posts: i64 },
}

/// One post of `thread_id` was deleted and `remaining` are left. If it was
/// the last post the thread goes too; otherwise the thread's post count and
/// last-activity time are recomputed.
pub fn after_post_deleted(thread_id: i64, board_id: i64, remaining: i64) -> (r: (
    PostDeletion,
    ThreadUpdate,
))
    ensures
        r.0 == (PostDeletion { thread_id, board_id, thread_deleted: remaining == 0 }),
        r.1 == (if remaining == 0 {
            ThreadUpdate::Delete
        } else {
            ThreadUpdate::Recount { posts: remaining }
        }),
{
    let thread_deleted = remaining == 0;
    (
        PostDeletion { thread_id, board_id, thread_deleted },
        if thread_deleted {
            ThreadUpdate::Delete
        } else {
            ThreadUpdate::Recount { posts: remaining }
        },
    )
}

/// Whether a board may be deleted: it must exist, and one that still has
/// threads is only deleted with `force`.
pub fn check_board_deletion(boards: i64, threads: i64, force: bool) -> (r: Result<(), DbError>)
    ensures
        r == (if boards == 0 {
            Err::<(), DbError>(DbError::NotFound)
        } else if threads > 0 && !force {
            Err(DbError::NotEmpty)
        } else {
            Ok(())
        }),
{
    if boards == 0 {
        Err(DbError::NotFound)
    } else if threads > 0 && !force {
        Err(DbError::NotEmpty)
    } else {
        Ok(())
    }
}

} // verus!
