//! What the UI and the server say to each other.

use vstd::prelude::*;

use crate::chat::ChatSnapshot;
use crate::db::{Folder, MailItem, MailMessage};
use crate::state::Identity;

verus! {

/// Which page of a thread to show.
#[derive(Clone, Copy, Debug, PartialEq, Eq, Structural)]
pub enum PageTarget {
    /// The page with the first unread post, or the first page.
    Smart,
    /// A specific page, shown from its top.
    Page(usize),
    /// A specific page, scrolled to its bottom (paging backwards).
    PageEnd(usize),
    /// The last page, scrolled to the bottom.
    Last,
}

/// Work the UI needs the server to do (database, hashing, ...). The UI itself
/// is synchronous; the SSH handler runs the request and feeds the answer back
/// through `App::on_response`.
#[derive(Debug)]
pub enum Request {
    Register { username: String, password: String },
    ListKeys,
    AddKey(String),
    DeleteKey(i64),
    ListBoards,
    WhoIsOnline,
    /// Members only: mark every thread in the board as read.
    MarkBoardRead {
        board_id: i64,
        /// Thread-list page to show afterwards.
        page: usize,
    },
    /// One page (0-based) of a board's thread list.
    ListThreads { board_id: i64, page: usize },
    /// Sysop-only; the server checks. `page` is the list page to return to.
    DeleteThread { thread_id: i64, page: usize },
    /// Sysop-only; the server checks. `page` is the thread page to stay on.
    DeletePost { post_id: i64, page: usize },
    OpenThread { thread_id: i64, target: PageTarget },
    /// `title` and `body` are already sanitised by the UI, and are
    /// sanitised again by the server.
    CreateThread { board_id: i64, title: String, body: String },
    Reply { thread_id: i64, body: String },
    /// Members only. Needs the current password; on success the user's other
    /// sessions are signed out.
    ChangePassword { current: String, new: String },
    OpenMailbox { folder: Folder },
    ReadMessage { id: i64 },
    SendMail { to: String, subject: String, body: String },
    DeleteMessage {
        id: i64,
        /// Folder to show afterwards.
        folder: Folder,
    },
    ListBlocks,
    BlockUser { name: String },
    UnblockUser { name: String },
    /// Sysop-only; the server checks.
    CreateBoard { name: String, description: String },
    /// Sysop-only; the server checks.
    UpdateBoardDescription { board_id: i64, description: String },
    /// Sysop-only; the server checks.
    GetMotd,
    /// Sysop-only; the server checks. Empty text clears the MOTD.
    SetMotd { text: String },
    /// Members only: enter the chat room. Answered with a snapshot.
    JoinChat,
    LeaveChat,
    /// `action` is a `/me` line. The message itself comes back through the
    /// room's announcements like everyone else's.
    ChatSay { text: String, action: bool },
}

/// A `Request` over the texts themselves.
pub enum Ask {
    Register { username: Seq<char>, password: Seq<char> },
    ListKeys,
    AddKey(Seq<char>),
    DeleteKey(i64),
    ListBoards,
    WhoIsOnline,
    MarkBoardRead { board_id: i64, page: usize },
    ListThreads { board_id: i64, page: usize },
    DeleteThread { thread_id: i64, page: usize },
    DeletePost { post_id: i64, page: usize },
    OpenThread { thread_id: i64, target: PageTarget },
    CreateThread { board_id: i64, title: Seq<char>, body: Seq<char> },
    Reply { thread_id: i64, body: Seq<char> },
    ChangePassword { current: Seq<char>, new: Seq<char> },
    OpenMailbox { folder: Folder },
    ReadMessage { id: i64 },
    SendMail { to: Seq<char>, subject: Seq<char>, body: Seq<char> },
    DeleteMessage { id: i64, folder: Folder },
    ListBlocks,
    BlockUser { name: Seq<char> },
    UnblockUser { name: Seq<char> },
    CreateBoard { name: Seq<char>, description: Seq<char> },
    UpdateBoardDescription { board_id: i64, description: Seq<char> },
    GetMotd,
    SetMotd { text: Seq<char> },
    JoinChat,
    LeaveChat,
    ChatSay { text: Seq<char>, action: bool },
}

impl View for Request {
    type V = Ask;

    open spec fn view(&self) -> Ask {
        match self {
            Request::Register { username, password } => Ask::Register {
                username: username@,
                password: password@,
            },
            Request::ListKeys => Ask::ListKeys,
            Request::AddKey(line) => Ask::AddKey(line@),
            Request::DeleteKey(id) => Ask::DeleteKey(*id),
            Request::ListBoards => Ask::ListBoards,
            Request::WhoIsOnline => Ask::WhoIsOnline,
            Request::MarkBoardRead { board_id, page } => Ask::MarkBoardRead {
                board_id: *board_id,
                page: *page,
            },
            Request::ListThreads { board_id, page } => Ask::ListThreads {
                board_id: *board_id,
                page: *page,
            },
            Request::DeleteThread { thread_id, page } => Ask::DeleteThread {
                thread_id: *thread_id,
                page: *page,
            },
            Request::DeletePost { post_id, page } => Ask::DeletePost {
                post_id: *post_id,
                page: *page,
            },
            Request::OpenThread { thread_id, target } => Ask::OpenThread {
                thread_id: *thread_id,
                target: *target,
            },
            Request::CreateThread { board_id, title, body } => Ask::CreateThread {
                board_id: *board_id,
                title: title@,
                body: body@,
            },
            Request::Reply { thread_id, body } => Ask::Reply {
                thread_id: *thread_id,
                body: body@,
            },
            Request::ChangePassword { current, new } => Ask::ChangePassword {
                current: current@,
                new: new@,
            },
            Request::OpenMailbox { folder } => Ask::OpenMailbox { folder: *folder },
            Request::ReadMessage { id } => Ask::ReadMessage { id: *id },
            Request::SendMail { to, subject, body } => Ask::SendMail {
                to: to@,
                subject: subject@,
                body: body@,
            },
            Request::DeleteMessage { id, folder } => Ask::DeleteMessage {
                id: *id,
                folder: *folder,
            },
            Request::ListBlocks => Ask::ListBlocks,
            Request::BlockUser { name } => Ask::BlockUser { name: name@ },
            Request::UnblockUser { name } => Ask::UnblockUser { name: name@ },
            Request::CreateBoard { name, description } => Ask::CreateBoard {
                name: name@,
                description: description@,
            },
            Request::UpdateBoardDescription { board_id, description } => {
                Ask::UpdateBoardDescription { board_id: *board_id, description: description@ }
            },
            Request::GetMotd => Ask::GetMotd,
            Request::SetMotd { text } => Ask::SetMotd { text: text@ },
            Request::JoinChat => Ask::JoinChat,
            Request::LeaveChat => Ask::LeaveChat,
            Request::ChatSay { text, action } => Ask::ChatSay { text: text@, action: *action },
        }
    }
}

#[allow(inconsistent_fields)]
pub enum Response {
    Registered(Result<Identity, String>),
    Keys {
        keys: Vec<KeyInfo>,
        /// Outcome of the add/delete that triggered this refresh, if any.
        notice: Option<Result<String, String>>,
    },
    Boards { boards: Vec<BoardInfo>, notice: Option<String> },
    Threads {
        board_id: i64,
        board_name: String,
        threads: Vec<ThreadInfo>,
        notice: Option<String>,
        /// 0-based page shown, number of pages, threads on the whole board.
        page: usize,
        pages: usize,
        total: usize,
    },
    /// `to_end` scrolls to the newest post (used after posting).
    Thread { detail: ThreadDetail, to_end: bool, notice: Option<String> },
    Online { users: Vec<OnlineInfo>, guests: usize },
    Mailbox {
        folder: Folder,
        items: Vec<MailItem>,
        /// Unread messages in the inbox (whichever folder is shown).
        unread: i64,
        notice: Option<String>,
    },
    Message { message: MailMessage, unread: i64 },
    /// A message was refused; the compose screen stays open.
    MailFailed(String),
    Blocks { names: Vec<String>, notice: Option<String> },
    /// Outcome of a password change: a confirmation, or why it was refused.
    PasswordChanged(Result<String, String>),
    ChatJoined(ChatSnapshot),
    /// A chat message was refused (rate limit, suspended, ...).
    ChatRejected(String),
    /// The request needs no visible answer.
    Nothing,
    /// A post was rejected; the compose screen stays open.
    PostFailed(String),
    /// A sysop-only board or MOTD action was rejected.
    SysopActionFailed(String),
    Motd { text: String, notice: Option<String> },
    /// Something couldn't be loaded.
    Error(String),
}

pub struct BoardInfo {
    pub id: i64,
    pub name: String,
    pub description: String,
    pub thread_count: i64,
    /// Threads with posts the viewer hasn't read.
    pub unread_threads: i64,
}

pub struct ThreadInfo {
    pub id: i64,
    pub title: String,
    pub author: String,
    pub post_count: i64,
    pub last_post: String,
    /// Posts in the thread the viewer hasn't read.
    pub unread: i64,
}

pub struct OnlineInfo {
    pub user_id: i64,
    pub name: String,
    pub is_sysop: bool,
    /// Seconds since the oldest session began.
    pub connected: u64,
    pub activity: &'static str,
    pub sessions: usize,
}

pub struct PostInfo {
    pub id: i64,
    pub author: String,
    pub author_is_sysop: bool,
    pub body: String,
    pub created: String,
    pub unread: bool,
}

pub struct ThreadDetail {
    pub id: i64,
    pub board_id: i64,
    pub board_name: String,
    pub title: String,
    pub posts: Vec<PostInfo>,
    /// 0-based page of the thread shown, number of pages, total posts.
    pub page: usize,
    pub pages: usize,
    pub total: usize,
}

pub struct KeyInfo {
    pub id: i64,
    pub fingerprint: String,
    pub comment: String,
}

#[derive(Debug)]
pub enum Action {
    Quit,
    Request(Request),
}

/// An `Action` over the texts themselves.
pub enum Step {
    Quit,
    Ask(Ask),
}

impl View for Action {
    type V = Step;

    open spec fn view(&self) -> Step {
        match self {
            Action::Quit => Step::Quit,
            Action::Request(r) => Step::Ask(r@),
        }
    }
}

/// How a response turns a request down, if it does, and the text it gives.
pub enum Refusal {
    Post(Seq<char>),
    Mail(Seq<char>),
    Sysop(Seq<char>),
    Error(Seq<char>),
    /// It does not.
    Answered(Response),
}

impl Response {
    pub open spec fn refusal(self) -> Refusal {
        match self {
            Response::PostFailed(text) => Refusal::Post(text@),
            Response::MailFailed(text) => Refusal::Mail(text@),
            Response::SysopActionFailed(text) => Refusal::Sysop(text@),
            Response::Error(text) => Refusal::Error(text@),
            _ => Refusal::Answered(self),
        }
    }
}

/// The texts of an optional message.
pub open spec fn text_of(t: Option<String>) -> Option<Seq<char>> {
    match t {
        Some(s) => Some(s@),
        None => None,
    }
}

} // verus!
