//! The session's UI: one screen at a time, driven by keys and answers.

use std::collections::VecDeque;

use vstd::prelude::*;

use crate::chars;
use crate::chars::{cat2, cat3, cat4, count, int_text, size_text};
use crate::chat;
use crate::chat::{ChatEvent, ChatSnapshot};
use crate::db::Folder;
use crate::mail::MailNotice;
use crate::state::Identity;
use crate::ui::boards::{
    append_if, BoardList, Boards, BoardsEvent, BoardsWish, Reading, ThreadEvent, ThreadList,
    ThreadView, ThreadWish, Threads, ThreadsEvent,
};
use crate::ui::boards;
use crate::ui::chat::{ChatAction, ChatScreen, ChatWish, Chatting};
use crate::ui::compose;
use crate::ui::compose::{Compose, ComposeEvent, Composed, Draft};
use crate::ui::input;
use crate::ui::input::{Key, KeyParser, KeyParserState};
use crate::ui::keys::{Keys, KeysEvent, KeysScreen, KeysWish};
use crate::ui::mail::{
    Blocked, BlocksEvent, BlocksScreen, BlocksWish, Letter, MailCompose, MailComposeEvent,
    MailComposed, Mailbox, MailboxEvent, MailboxScreen, MessageEvent, MessageScreen, MessageWish,
};
use crate::ui::mail;
use crate::ui::online::{OnlineEvent, OnlineScreen, Present};
use crate::ui::paint;
use crate::ui::paint::{line1, span, text_line, Color, Line, ListPane, Listing, Rect, Style};
use crate::ui::password::{PasswordEvent, PasswordForm, PasswordWish, Passwords};
use crate::ui::protocol;
use crate::ui::protocol::{Action, Ask, BoardInfo, PageTarget, Request, Response, Step};
use crate::ui::register::{FormEvent, FormWish, RegisterForm, Registration};
use crate::ui::sysop::{Motd, MotdEditor, MotdEvent, MotdWish, SysopMenu, SysopMenuEvent};
use crate::ui::text;
use crate::ui::text::{wrap, Counter};

verus! {

/// Cap on buffered, not-yet-processed keystrokes.
pub const MAX_QUEUED_KEYS: usize = 4096;

// -------------------------------------------------------------------- menu

#[derive(Clone, Copy, Debug, PartialEq, Eq, Structural)]
pub enum MenuItem {
    Board,
    Chat,
    Mail,
    Online,
    Register,
    Keys,
    Password,
    SysopTools,
    About,
    LogOff,
}

impl MenuItem {
    pub open spec fn label_spec(self, unread_threads: i64, unread_mail: i64) -> Seq<char> {
        match self {
            MenuItem::Board => if unread_threads > 0 {
                "Message boards ("@ + chars::decimal_int(unread_threads as int) + " unread)"@
            } else {
                "Message boards"@
            },
            MenuItem::Chat => "Chat"@,
            MenuItem::Mail => if unread_mail > 0 {
                "Mail ("@ + chars::decimal_int(unread_mail as int) + " unread)"@
            } else {
                "Mail"@
            },
            MenuItem::Online => "Who's online"@,
            MenuItem::Register => "Register an account"@,
            MenuItem::Keys => "SSH keys"@,
            MenuItem::Password => "Change password"@,
            MenuItem::SysopTools => "Sysop tools"@,
            MenuItem::About => "About this BBS"@,
            MenuItem::LogOff => "Log off"@,
        }
    }

    pub fn label(self, unread_threads: i64, unread_mail: i64) -> (r: String)
        ensures
            r@ == self.label_spec(unread_threads, unread_mail),
    {
        match self {
            MenuItem::Board => if unread_threads > 0 {
                cat3("Message boards (", &int_text(unread_threads), " unread)")
            } else {
                "Message boards".to_owned()
            },
            MenuItem::Chat => "Chat".to_owned(),
            MenuItem::Mail => if unread_mail > 0 {
                cat3("Mail (", &int_text(unread_mail), " unread)")
            } else {
                "Mail".to_owned()
            },
            MenuItem::Online => "Who's online".to_owned(),
            MenuItem::Register => "Register an account".to_owned(),
            MenuItem::Keys => "SSH keys".to_owned(),
            MenuItem::Password => "Change password".to_owned(),
            MenuItem::SysopTools => "Sysop tools".to_owned(),
            MenuItem::About => "About this BBS".to_owned(),
            MenuItem::LogOff => "Log off".to_owned(),
        }
    }
}

/// What the main menu offers to whom.
pub open spec fn menu_of(identity: Identity) -> Seq<MenuItem> {
    match identity {
        Identity::Guest => seq![
            MenuItem::Board,
            MenuItem::Chat,
            MenuItem::Online,
            MenuItem::Register,
            MenuItem::About,
            MenuItem::LogOff,
        ],
        Identity::User { .. } => if identity.sysop() {
            seq![
                MenuItem::Board,
                MenuItem::Chat,
                MenuItem::Mail,
                MenuItem::Online,
                MenuItem::Keys,
                MenuItem::Password,
                MenuItem::SysopTools,
                MenuItem::About,
                MenuItem::LogOff,
            ]
        } else {
            seq![
                MenuItem::Board,
                MenuItem::Chat,
                MenuItem::Mail,
                MenuItem::Online,
                MenuItem::Keys,
                MenuItem::Password,
                MenuItem::About,
                MenuItem::LogOff,
            ]
        },
    }
}

// ----------------------------------------------------------------- screens

pub enum Screen {
    Menu,
    About,
    Register(RegisterForm),
    Keys(KeysScreen),
    Boards(BoardList),
    Threads(ThreadList),
    Thread(ThreadView),
    Compose(Box<ComposeScreen>),
    Online(OnlineScreen),
    Chat(ChatScreen),
    Password(PasswordForm),
    Mailbox(MailboxScreen),
    Message(MessageScreen),
    MailCompose(Box<MailComposeScreen>),
    Blocks(BlocksScreen),
    SysopMenu(SysopMenu),
    MotdEditor(MotdEditor),
}

/// Like `ComposeScreen`: remembers where to return if cancelled.
pub struct MailComposeScreen {
    pub form: MailCompose,
    pub back: Screen,
}

/// The compose screen remembers what to return to if it's cancelled.
pub struct ComposeScreen {
    pub compose: Compose,
    pub back: Screen,
}

/// The contents of a `Screen`.
pub enum Scene {
    Menu,
    About,
    Register(Registration),
    Keys(Keys),
    Boards(Boards),
    Threads(Threads),
    Thread(Reading),
    Compose(Draft, Box<Scene>),
    Online(Present),
    Chat(Chatting),
    Password(Passwords),
    Mailbox(Mailbox),
    Message(MessageScreen),
    MailCompose(Letter, Box<Scene>),
    Blocks(Blocked),
    SysopMenu(SysopMenu),
    MotdEditor(Motd),
}

impl Screen {
    pub open spec fn scene(self) -> Scene
        decreases self,
    {
        match self {
            Screen::Menu => Scene::Menu,
            Screen::About => Scene::About,
            Screen::Register(form) => Scene::Register(form@),
            Screen::Keys(screen) => Scene::Keys(screen@),
            Screen::Boards(list) => Scene::Boards(list@),
            Screen::Threads(list) => Scene::Threads(list@),
            Screen::Thread(view) => Scene::Thread(view@),
            Screen::Compose(screen) => Scene::Compose(
                screen.compose@,
                Box::new(screen.back.scene()),
            ),
            Screen::Online(screen) => Scene::Online(screen@),
            Screen::Chat(chat) => Scene::Chat(chat@),
            Screen::Password(form) => Scene::Password(form@),
            Screen::Mailbox(mailbox) => Scene::Mailbox(mailbox@),
            Screen::Message(message) => Scene::Message(message),
            Screen::MailCompose(screen) => Scene::MailCompose(
                screen.form@,
                Box::new(screen.back.scene()),
            ),
            Screen::Blocks(blocks) => Scene::Blocks(blocks@),
            Screen::SysopMenu(menu) => Scene::SysopMenu(menu),
            Screen::MotdEditor(editor) => Scene::MotdEditor(editor@),
        }
    }
}

impl Scene {
    pub open spec fn wf(self) -> bool
        decreases self,
    {
        match self {
            Scene::Register(form) => form.wf(),
            Scene::Keys(keys) => keys.wf(),
            Scene::Boards(list) => list.wf(),
            Scene::Thread(view) => view.wf(),
            Scene::Compose(draft, back) => draft.wf() && back.wf(),
            Scene::Chat(chat) => chat.wf(),
            Scene::Password(form) => form.wf(),
            Scene::MailCompose(letter, back) => letter.wf() && back.wf(),
            Scene::SysopMenu(menu) => menu.wf(),
            Scene::MotdEditor(editor) => editor.wf(),
            _ => true,
        }
    }

    /// What the session is doing, for the who's-online list.
    pub open spec fn activity(self) -> Seq<char> {
        match self {
            Scene::Menu | Scene::About => "Main menu"@,
            Scene::Register(_) => "Registering"@,
            Scene::Keys(_) => "Managing SSH keys"@,
            Scene::Boards(_) => "Browsing boards"@,
            Scene::Threads(_) => "Browsing threads"@,
            Scene::Thread(_) => "Reading a thread"@,
            Scene::Compose(_, _) => "Writing a post"@,
            Scene::Online(_) => "Checking who's online"@,
            Scene::Chat(_) => "Chatting"@,
            Scene::Password(_) => "Account settings"@,
            Scene::Mailbox(_) | Scene::Message(_) | Scene::Blocks(_) => "Reading mail"@,
            Scene::MailCompose(_, _) => "Writing mail"@,
            Scene::SysopMenu(_) | Scene::MotdEditor(_) => "Sysop tools"@,
        }
    }
}

// ------------------------------------------------------------- the session

pub struct Status {
    pub text: String,
    pub is_error: bool,
}

/// The line at the bottom, over the text itself.
pub struct Say {
    pub text: Seq<char>,
    pub is_error: bool,
}

/// What a session shows and knows.
pub struct Session {
    pub identity: Identity,
    pub scene: Scene,
    pub selected: int,
    pub status: Option<Say>,
    pub unread_threads: i64,
    pub unread_mail: i64,
    pub motd: Option<Seq<char>>,
}

/// The unread threads of all boards.
pub open spec fn total_unread(boards: Seq<BoardInfo>) -> int
    decreases boards.len(),
{
    if boards.len() == 0 {
        0
    } else {
        total_unread(boards.drop_last()) + boards.last().unread_threads
    }
}

/// The unread threads can be added up, from the first board on.
pub open spec fn total_fits(boards: Seq<BoardInfo>) -> bool {
    forall|n: int|
        0 <= n <= boards.len() ==> i64::MIN <= total_unread(#[trigger] boards.take(n)) <= i64::MAX
}

impl Session {
    pub open spec fn wf(self) -> bool {
        &&& self.scene.wf()
        &&& 0 <= self.selected < menu_of(self.identity).len()
    }

    pub open spec fn fresh(identity: Identity) -> Session {
        Session {
            identity,
            scene: Scene::Menu,
            selected: 0,
            status: Some(
                Say {
                    text: "Use ↑/↓ and Enter, or press a number. 'q' logs off."@,
                    is_error: false,
                },
            ),
            unread_threads: 0,
            unread_mail: 0,
            motd: None,
        }
    }

    pub open spec fn at(self, scene: Scene) -> Session {
        Session { scene, ..self }
    }

    pub open spec fn saying(self, text: Seq<char>, is_error: bool) -> Session {
        Session { status: Some(Say { text, is_error }), ..self }
    }

    /// With a notice, if there is one.
    pub open spec fn noting(self, notice: Option<String>) -> Session {
        match notice {
            Some(text) => self.saying(text@, false),
            None => self,
        }
    }

    pub open spec fn member(self) -> bool {
        self.identity.account_id() is Some
    }

    // ---- keys

    /// Opens the editor on top of the current screen. Guests can read but
    /// not post.
    pub open spec fn composing(self, draft: Draft) -> (Session, Option<Step>) {
        (
            if self.identity is Guest {
                self.saying(
                    "Guests can't post. Register an account from the main menu first."@,
                    true,
                )
            } else {
                self.at(Scene::Compose(draft, Box::new(self.scene)))
            },
            None,
        )
    }

    pub open spec fn writing_mail(self, letter: Letter) -> (Session, Option<Step>) {
        (self.at(Scene::MailCompose(letter, Box::new(self.scene))), None)
    }

    pub open spec fn activated(self) -> (Session, Option<Step>) {
        match menu_of(self.identity)[self.selected] {
            MenuItem::Board => (
                self.at(Scene::Boards(Boards::empty(self.identity.sysop()))),
                Some(Step::Ask(Ask::ListBoards)),
            ),
            MenuItem::Chat => if self.identity is Guest {
                (
                    self.saying(
                        "The chat is for registered users. Register an account first."@,
                        true,
                    ),
                    None,
                )
            } else {
                (
                    self.at(Scene::Chat(Chatting::empty(self.identity.shown_name()))),
                    Some(Step::Ask(Ask::JoinChat)),
                )
            },
            MenuItem::Online => (
                self.at(Scene::Online(Present::empty())),
                Some(Step::Ask(Ask::WhoIsOnline)),
            ),
            MenuItem::Register => (self.at(Scene::Register(Registration::empty())), None),
            MenuItem::Mail => (
                self.at(Scene::Mailbox(Mailbox::empty(Folder::Inbox))),
                Some(Step::Ask(Ask::OpenMailbox { folder: Folder::Inbox })),
            ),
            MenuItem::Password => (
                self.at(Scene::Password(Passwords::empty(self.identity.shown_name()))),
                None,
            ),
            MenuItem::Keys => (
                self.at(Scene::Keys(Keys::empty())),
                Some(Step::Ask(Ask::ListKeys)),
            ),
            MenuItem::SysopTools => (self.at(Scene::SysopMenu(SysopMenu { selected: 0 })), None),
            MenuItem::About => (self.at(Scene::About), None),
            MenuItem::LogOff => (self, Some(Step::Quit)),
        }
    }

    pub open spec fn after_menu(self, key: Key) -> (Session, Option<Step>) {
        let count = menu_of(self.identity).len() as int;
        match key {
            Key::Char('q') => (self, Some(Step::Quit)),
            Key::Up | Key::Char('k') => (
                Session { selected: (self.selected + count - 1) % count, ..self },
                None,
            ),
            Key::Down | Key::Char('j') => (
                Session { selected: (self.selected + 1) % count, ..self },
                None,
            ),
            Key::Enter => self.activated(),
            Key::Char(c) => if '1' <= c && c <= '9' && (c as u32 - '1' as u32) < count {
                Session { selected: c as u32 - '1' as u32, ..self }.activated()
            } else {
                (self, None)
            },
            _ => (self, None),
        }
    }

    pub open spec fn after_register(self, form: Registration, key: Key) -> (Session, Option<Step>) {
        let (next, wish) = form.after(key);
        match wish {
            FormWish::Nothing => (self.at(Scene::Register(next)), None),
            FormWish::Cancel => (self.at(Scene::Menu), None),
            FormWish::Submit { username, password } => (
                self.at(Scene::Register(next)),
                Some(Step::Ask(Ask::Register { username, password })),
            ),
        }
    }

    pub open spec fn after_boards(self, list: Boards, key: Key) -> (Session, Option<Step>) {
        let (next, wish) = list.after(key);
        let here = self.at(Scene::Boards(next));
        match wish {
            BoardsWish::Nothing => (here, None),
            BoardsWish::Back => (self.at(Scene::Menu), None),
            BoardsWish::Open(board_id) => (
                self.at(
                    Scene::Threads(
                        Threads::loading(board_id, self.identity.sysop(), self.member()),
                    ),
                ),
                Some(Step::Ask(Ask::ListThreads { board_id, page: 0 })),
            ),
            BoardsWish::CreateBoard { name, description } => (
                here,
                Some(Step::Ask(Ask::CreateBoard { name, description })),
            ),
            BoardsWish::UpdateDescription { board_id, description } => (
                here,
                Some(Step::Ask(Ask::UpdateBoardDescription { board_id, description })),
            ),
        }
    }

    pub open spec fn after_threads(self, list: Threads, key: Key) -> (Session, Option<Step>) {
        let (next, event) = list.after(key);
        let here = self.at(Scene::Threads(next));
        match event {
            ThreadsEvent::Nothing => (here, None),
            ThreadsEvent::MarkBoardRead { board_id, page } => (
                here,
                Some(Step::Ask(Ask::MarkBoardRead { board_id, page })),
            ),
            ThreadsEvent::DeleteThread { thread_id, page } => (
                here,
                Some(Step::Ask(Ask::DeleteThread { thread_id, page })),
            ),
            ThreadsEvent::Page { board_id, page } => (
                here,
                Some(Step::Ask(Ask::ListThreads { board_id, page })),
            ),
            ThreadsEvent::Back => (
                self.at(Scene::Boards(Boards::empty(self.identity.sysop()))),
                Some(Step::Ask(Ask::ListBoards)),
            ),
            ThreadsEvent::Open { board_id, thread_id, list_page } => (
                self.at(
                    Scene::Thread(
                        Reading::loading(
                            board_id,
                            thread_id,
                            self.identity.sysop(),
                            list_page,
                        ),
                    ),
                ),
                Some(Step::Ask(Ask::OpenThread { thread_id, target: PageTarget::Smart })),
            ),
            ThreadsEvent::New { board_id } => here.composing(Draft::new_thread(board_id)),
        }
    }

    pub open spec fn after_thread(self, view: Reading, key: Key) -> (Session, Option<Step>) {
        let (next, wish) = view.after(key);
        let here = self.at(Scene::Thread(next));
        match wish {
            ThreadWish::Nothing => (here, None),
            ThreadWish::DeletePost { post_id, page } => (
                here,
                Some(Step::Ask(Ask::DeletePost { post_id, page })),
            ),
            ThreadWish::Goto { thread_id, target } => (
                here,
                Some(Step::Ask(Ask::OpenThread { thread_id, target })),
            ),
            ThreadWish::Back { board_id, list_page } => (
                self.at(
                    Scene::Threads(
                        Threads::loading(board_id, self.identity.sysop(), self.member()),
                    ),
                ),
                Some(Step::Ask(Ask::ListThreads { board_id, page: list_page })),
            ),
            ThreadWish::Reply { thread_id, title, quote } => here.composing(
                Draft::reply(
                    thread_id,
                    title,
                    match quote {
                        Some(q) => Some(compose::quotation(q.0, q.1, q.2)),
                        None => None,
                    },
                ),
            ),
        }
    }

    pub open spec fn after_compose(self, draft: Draft, back: Scene, key: Key) -> (
        Session,
        Option<Step>,
    ) {
        let (next, wish) = draft.after(key);
        match wish {
            Composed::Nothing => (self.at(Scene::Compose(next, Box::new(back))), None),
            Composed::Cancel => (self.at(back), None),
            Composed::Submit(ask) => (
                self.at(Scene::Compose(next, Box::new(back))),
                Some(Step::Ask(ask)),
            ),
        }
    }

    pub open spec fn after_mailbox(self, mailbox: Mailbox, key: Key) -> (Session, Option<Step>) {
        let (next, event) = mailbox.after(key);
        let here = self.at(Scene::Mailbox(next));
        match event {
            MailboxEvent::Nothing => (here, None),
            MailboxEvent::Back => (self.at(Scene::Menu), None),
            MailboxEvent::Open(id) => (here, Some(Step::Ask(Ask::ReadMessage { id }))),
            MailboxEvent::Delete(id) => (
                here,
                Some(Step::Ask(Ask::DeleteMessage { id, folder: next.folder })),
            ),
            MailboxEvent::Refresh => (
                here,
                Some(Step::Ask(Ask::OpenMailbox { folder: next.folder })),
            ),
            MailboxEvent::Compose => here.writing_mail(Letter::new(None, None)),
            MailboxEvent::Switch(folder) => (
                self.at(Scene::Mailbox(Mailbox::empty(folder))),
                Some(Step::Ask(Ask::OpenMailbox { folder })),
            ),
            MailboxEvent::Blocks => (
                self.at(Scene::Blocks(Blocked::empty())),
                Some(Step::Ask(Ask::ListBlocks)),
            ),
        }
    }

    pub open spec fn after_message(self, message: MessageScreen, key: Key) -> (
        Session,
        Option<Step>,
    ) {
        let (next, wish) = message.after(key);
        let here = self.at(Scene::Message(next));
        match wish {
            MessageWish::Nothing => (here, None),
            MessageWish::Back(folder) => (
                self.at(Scene::Mailbox(Mailbox::empty(folder))),
                Some(Step::Ask(Ask::OpenMailbox { folder })),
            ),
            MessageWish::Reply { to, subject } => here.writing_mail(
                Letter::new(Some(to), Some(subject)),
            ),
            MessageWish::Delete(id) => (
                here,
                Some(
                    Step::Ask(Ask::DeleteMessage { id, folder: mail::folder_of(next.message) }),
                ),
            ),
            MessageWish::Block(name) => (here, Some(Step::Ask(Ask::BlockUser { name }))),
        }
    }

    pub open spec fn after_mail_compose(self, letter: Letter, back: Scene, key: Key) -> (
        Session,
        Option<Step>,
    ) {
        let (next, wish) = letter.after(key);
        match wish {
            MailComposed::Nothing => (self.at(Scene::MailCompose(next, Box::new(back))), None),
            MailComposed::Cancel => (self.at(back), None),
            MailComposed::Submit { to, subject, body } => (
                self.at(Scene::MailCompose(next, Box::new(back))),
                Some(Step::Ask(Ask::SendMail { to, subject, body })),
            ),
        }
    }

    pub open spec fn after_blocks(self, blocks: Blocked, key: Key) -> (Session, Option<Step>) {
        let (next, wish) = blocks.after(key);
        match wish {
            BlocksWish::Nothing => (self.at(Scene::Blocks(next)), None),
            BlocksWish::Back => (
                self.at(Scene::Mailbox(Mailbox::empty(Folder::Inbox))),
                Some(Step::Ask(Ask::OpenMailbox { folder: Folder::Inbox })),
            ),
            BlocksWish::Unblock(name) => (
                self.at(Scene::Blocks(next)),
                Some(Step::Ask(Ask::UnblockUser { name })),
            ),
        }
    }

    pub open spec fn after_password(self, form: Passwords, key: Key) -> (Session, Option<Step>) {
        let (next, wish) = form.after(key);
        match wish {
            PasswordWish::Nothing => (self.at(Scene::Password(next)), None),
            PasswordWish::Cancel => (self.at(Scene::Menu), None),
            PasswordWish::Submit { current, new } => (
                self.at(Scene::Password(next)),
                Some(Step::Ask(Ask::ChangePassword { current, new })),
            ),
        }
    }

    pub open spec fn after_chat(self, chat: Chatting, key: Key) -> (Session, Option<Step>) {
        let (next, wish) = chat.after(key);
        match wish {
            ChatWish::Nothing => (self.at(Scene::Chat(next)), None),
            ChatWish::Leave => (self.at(Scene::Menu), Some(Step::Ask(Ask::LeaveChat))),
            ChatWish::Say { text, action } => (
                self.at(Scene::Chat(next)),
                Some(Step::Ask(Ask::ChatSay { text, action })),
            ),
        }
    }

    pub open spec fn after_online(self, key: Key) -> (Session, Option<Step>) {
        match OnlineScreen::answer(key) {
            OnlineEvent::Nothing => (self, None),
            OnlineEvent::Back => (self.at(Scene::Menu), None),
            OnlineEvent::Refresh => (self, Some(Step::Ask(Ask::WhoIsOnline))),
        }
    }

    pub open spec fn after_keys(self, keys: Keys, key: Key) -> (Session, Option<Step>) {
        let (next, wish) = keys.after(key);
        match wish {
            KeysWish::Nothing => (self.at(Scene::Keys(next)), None),
            KeysWish::Back => (self.at(Scene::Menu), None),
            KeysWish::Add(line) => (
                self.at(Scene::Keys(next)),
                Some(Step::Ask(Ask::AddKey(line))),
            ),
            KeysWish::Delete(id) => (
                self.at(Scene::Keys(next)),
                Some(Step::Ask(Ask::DeleteKey(id))),
            ),
        }
    }

    pub open spec fn after_sysop_menu(self, menu: SysopMenu, key: Key) -> (Session, Option<Step>) {
        let (next, event) = menu.after(key);
        match event {
            SysopMenuEvent::Nothing => (self.at(Scene::SysopMenu(next)), None),
            SysopMenuEvent::Back => (self.at(Scene::Menu), None),
            SysopMenuEvent::EditMotd => (
                self.at(Scene::MotdEditor(Motd::loading())),
                Some(Step::Ask(Ask::GetMotd)),
            ),
        }
    }

    pub open spec fn after_motd_editor(self, editor: Motd, key: Key) -> (Session, Option<Step>) {
        let (next, wish) = editor.after(key);
        match wish {
            MotdWish::Nothing => (self.at(Scene::MotdEditor(next)), None),
            MotdWish::Cancel => (self.at(Scene::SysopMenu(SysopMenu { selected: 0 })), None),
            MotdWish::Save(text) => (
                self.at(Scene::MotdEditor(next)),
                Some(Step::Ask(Ask::SetMotd { text })),
            ),
        }
    }

    /// The key goes to the screen that is showing.
    pub open spec fn after_screen(self, key: Key) -> (Session, Option<Step>) {
        match self.scene {
            Scene::Menu => self.after_menu(key),
            Scene::About => (self.at(Scene::Menu), None),
            Scene::Register(form) => self.after_register(form, key),
            Scene::Keys(keys) => self.after_keys(keys, key),
            Scene::Boards(list) => self.after_boards(list, key),
            Scene::Threads(list) => self.after_threads(list, key),
            Scene::Thread(view) => self.after_thread(view, key),
            Scene::Compose(draft, back) => self.after_compose(draft, *back, key),
            Scene::Online(_) => self.after_online(key),
            Scene::Chat(chat) => self.after_chat(chat, key),
            Scene::Password(form) => self.after_password(form, key),
            Scene::Mailbox(mailbox) => self.after_mailbox(mailbox, key),
            Scene::Message(message) => self.after_message(message, key),
            Scene::MailCompose(letter, back) => self.after_mail_compose(letter, *back, key),
            Scene::Blocks(blocks) => self.after_blocks(blocks, key),
            Scene::SysopMenu(menu) => self.after_sysop_menu(menu, key),
            Scene::MotdEditor(editor) => self.after_motd_editor(editor, key),
        }
    }

    /// The session after `key`, and what it asks for. Only Enter dismisses
    /// the message of the day; every other key is swallowed while it's up
    /// rather than reaching whatever screen is underneath.
    pub open spec fn after_key(self, key: Key) -> (Session, Option<Step>) {
        let quiet = Session { status: None, ..self };
        if quiet.motd is Some {
            (
                if key == Key::Enter {
                    Session { motd: None, ..quiet }
                } else {
                    quiet
                },
                None,
            )
        } else {
            quiet.after_screen(key)
        }
    }

    /// Keys one after the other until one needs the server to act; the last
    /// part is what is left of them.
    pub open spec fn pumped(self, keys: Seq<Key>) -> (Session, Option<Step>, Seq<Key>)
        decreases keys.len(),
    {
        if keys.len() == 0 {
            (self, None, keys)
        } else {
            let rest = keys.drop_first();
            if keys[0] == Key::Ctrl('c') {
                (self, Some(Step::Quit), rest)
            } else {
                let (next, step) = self.after_key(keys[0]);
                match step {
                    Some(s) => (next, Some(s), rest),
                    None => next.pumped(rest),
                }
            }
        }
    }

    // ---- answers

    pub open spec fn welcomed(self, identity: Identity) -> Session {
        let name = identity.shown_name();
        Session { identity, scene: Scene::Menu, selected: 0, ..self }.saying(
            "Welcome, "@ + name + "! Your account is ready. Next time connect as '"@ + name
                + "' (ssh "@ + name
                + "@<this host>) with your password, or add an SSH key."@,
            false,
        )
    }

    pub open spec fn after_response(self, response: Response) -> Session {
        match response {
            Response::Registered(result) => match result {
                Ok(identity) => self.welcomed(identity),
                Err(message) => match self.scene {
                    Scene::Register(form) => self.at(Scene::Register(form.failed(message@))),
                    _ => self,
                },
            },
            Response::Boards { boards, notice } => Session {
                unread_threads: total_unread(boards@) as i64,
                scene: match self.scene {
                    Scene::Boards(list) => Scene::Boards(list.with(boards@)),
                    _ => self.scene,
                },
                ..self
            }.noting(notice),
            Response::Threads { board_id, board_name, threads, notice, page, pages, total } => {
                self.at(
                    Scene::Threads(
                        Threads::loading(
                            board_id,
                            self.identity.sysop(),
                            self.member(),
                        ).with(board_name@, threads@, page, pages, total),
                    ),
                ).noting(notice)
            },
            Response::Thread { detail, to_end, notice } => self.at(
                Scene::Thread(
                    Reading::of(
                        detail,
                        to_end,
                        self.identity.sysop(),
                        match self.scene {
                            Scene::Thread(view) => view.list_page,
                            _ => 0,
                        },
                    ),
                ),
            ).noting(notice),
            Response::Online { users, guests } => match self.scene {
                Scene::Online(_) => self.at(
                    Scene::Online(Present { users: users@, guests, loaded: true }),
                ),
                _ => self,
            },
            Response::Mailbox { folder, items, unread, notice } => Session {
                unread_mail: unread,
                scene: Scene::Mailbox(Mailbox::empty(folder).with(items@, unread)),
                ..self
            }.noting(notice),
            Response::Message { message, unread } => Session {
                unread_mail: unread,
                scene: Scene::Message(
                    MessageScreen {
                        message,
                        confirm: None,
                        scroll: Counter { value: 0 },
                        total_lines: Counter { value: 0 },
                        page_height: Counter { value: 10 },
                    },
                ),
                ..self
            },
            Response::MailFailed(message) => match self.scene {
                Scene::MailCompose(letter, back) => self.at(
                    Scene::MailCompose(letter.failed(message@), back),
                ),
                _ => self,
            },
            Response::Blocks { names, notice } => self.at(
                Scene::Blocks(Blocked::empty().with(names@)),
            ).noting(notice),
            Response::PasswordChanged(result) => match result {
                Ok(notice) => self.at(Scene::Menu).saying(notice@, false),
                Err(message) => match self.scene {
                    Scene::Password(form) => self.at(Scene::Password(form.failed(message@))),
                    _ => self,
                },
            },
            Response::ChatJoined(snapshot) => self.with_snapshot(snapshot@),
            Response::ChatRejected(message) => match self.scene {
                Scene::Chat(chat) => self.at(Scene::Chat(chat.noticed(message@))),
                _ => self,
            },
            Response::Nothing => self,
            Response::PostFailed(message) => match self.scene {
                Scene::Compose(draft, back) => self.at(
                    Scene::Compose(draft.failed(message@), back),
                ),
                _ => self,
            },
            Response::SysopActionFailed(message) => match self.scene {
                Scene::Boards(list) => self.at(Scene::Boards(list.failed(message@))),
                Scene::MotdEditor(editor) => self.at(Scene::MotdEditor(editor.failed(message@))),
                _ => self.saying(message@, true),
            },
            Response::Motd { text, notice } => self.at(
                match self.scene {
                    Scene::MotdEditor(editor) => Scene::MotdEditor(editor.with_text(text@)),
                    _ => self.scene,
                },
            ).noting(notice),
            Response::Error(message) => self.saying(message@, true),
            Response::Keys { keys, notice } => {
                let ok = match notice {
                    Some(result) => result is Ok,
                    None => true,
                };
                let updated = self.at(
                    match self.scene {
                        Scene::Keys(list) => Scene::Keys(list.updated(keys@, ok)),
                        _ => self.scene,
                    },
                );
                match notice {
                    Some(result) => match result {
                        Ok(text) => updated.saying(text@, false),
                        Err(text) => updated.saying(text@, true),
                    },
                    None => updated,
                }
            },
        }
    }

    pub open spec fn with_snapshot(self, snapshot: chat::Snapshot) -> Session {
        match self.scene {
            Scene::Chat(chat) => self.at(Scene::Chat(chat.with_snapshot(snapshot))),
            _ => self,
        }
    }

    pub open spec fn with_chat_event(self, event: chat::Entry) -> Session {
        match self.scene {
            Scene::Chat(chat) => self.at(Scene::Chat(chat.after_event(event))),
            _ => self,
        }
    }

    /// Mail has come for somebody; noted if it is for this user.
    pub open spec fn with_mail(self, notice: MailNotice) -> Session {
        if self.identity.account_id() == Some(notice.to_user_id) {
            Session { unread_mail: (self.unread_mail + 1) as i64, ..self }.saying(
                "New mail from "@ + notice.from@ + "."@ + boards::opt(
                    self.scene is Mailbox,
                    " Press r to refresh."@,
                ),
                false,
            )
        } else {
            self
        }
    }

    // ---- drawing

    pub open spec fn header(self) -> Seq<char> {
        "rust-bbs — welcome, "@ + match self.identity {
            Identity::Guest => "guest (register to get your own account)"@,
            Identity::User { name, .. } => name@,
        }
    }

    pub open spec fn menu_line(self, i: int) -> Seq<char> {
        "["@ + chars::decimal((i + 1) as nat) + "] "@ + menu_of(self.identity)[i].label_spec(
            self.unread_threads,
            self.unread_mail,
        )
    }

    /// The main menu as it is drawn.
    pub open spec fn menu_drawn(self) -> Listing {
        Listing {
            title: "Main menu"@,
            items: Seq::new(
                menu_of(self.identity).len(),
                |i: int| paint::plain_line(self.menu_line(i)),
            ),
            selected: Some(self.selected as usize),
            help: seq![paint::run(Seq::empty(), Style::plain())],
        }
    }

    pub open spec fn status_line(self) -> (Seq<char>, Color) {
        match self.status {
            Some(say) => (
                say.text,
                if say.is_error {
                    Color::Red
                } else {
                    Color::Yellow
                },
            ),
            None => (Seq::empty(), Color::Yellow),
        }
    }
}

// ----------------------------------------------------------------- the app

/// Everything of an `App`: the session, and the input that it has not
/// seen yet.
pub struct AppModel {
    pub session: Session,
    pub parser: KeyParserState,
    pub queue: Seq<Key>,
}

impl AppModel {
    pub open spec fn wf(self) -> bool {
        self.session.wf() && self.queue.len() <= MAX_QUEUED_KEYS
    }

    /// Input that arrived; keys beyond the cap are dropped.
    pub open spec fn with_input(self, data: Seq<u8>) -> AppModel {
        let p = input::parsed(self.parser.pending + data, self.parser.after_cr);
        let all = self.queue + p.keys;
        AppModel {
            parser: KeyParserState { pending: p.rest, after_cr: p.after_cr },
            queue: if all.len() > MAX_QUEUED_KEYS {
                all.take(MAX_QUEUED_KEYS as int)
            } else {
                all
            },
            ..self
        }
    }
}

pub struct App {
    pub identity: Identity,
    pub screen: Screen,
    pub selected: usize,
    pub status: Option<Status>,
    pub parser: KeyParser,
    pub queue: VecDeque<Key>,
    /// Threads with unread posts, shown on the main menu.
    pub unread_threads: i64,
    /// Unread messages in the inbox, shown on the main menu.
    pub unread_mail: i64,
    /// The message of the day, shown as a popup over whatever screen is
    /// current (in practice always the menu, right after login) until Enter
    /// dismisses it. Deliberately not a `Screen`: unlike every other
    /// screen it overlays rather than replaces what's underneath.
    pub motd_popup: Option<String>,
}

pub open spec fn say_of(status: Option<Status>) -> Option<Say> {
    match status {
        Some(s) => Some(Say { text: s.text@, is_error: s.is_error }),
        None => None,
    }
}

impl App {
    pub open spec fn session(self) -> Session {
        Session {
            identity: self.identity,
            scene: self.screen.scene(),
            selected: self.selected as int,
            status: say_of(self.status),
            unread_threads: self.unread_threads,
            unread_mail: self.unread_mail,
            motd: protocol::text_of(self.motd_popup),
        }
    }
}

impl View for App {
    type V = AppModel;

    open spec fn view(&self) -> AppModel {
        AppModel { session: self.session(), parser: self.parser@, queue: self.queue@ }
    }
}

// ------------------------------------------------------ the app's methods

/// Adds up the unread threads of all boards, if the sum can be held.
pub fn sum_unread(boards: &Vec<BoardInfo>) -> (r: Option<i64>)
    ensures
        match r {
            Some(n) => total_fits(boards@) && n == total_unread(boards@),
            None => !total_fits(boards@),
        },
{
    let mut sum: i64 = 0;
    let mut i: usize = 0;
    assert(boards@.take(0) =~= Seq::empty());
    while i < boards.len()
        invariant
            i <= boards@.len(),
            sum == total_unread(boards@.take(i as int)),
            forall|n: int|
                0 <= n <= i ==> i64::MIN <= total_unread(#[trigger] boards@.take(n)) <= i64::MAX,
        decreases boards@.len() - i,
    {
        assert(boards@.take(i + 1).drop_last() =~= boards@.take(i as int));
        match sum.checked_add(boards[i].unread_threads) {
            Some(n) => {
                sum = n;
            },
            None => {
                assert(!(i64::MIN <= total_unread(boards@.take(i + 1)) <= i64::MAX));
                return None;
            },
        }
        i += 1;
    }
    assert(boards@.take(i as int) =~= boards@);
    Some(sum)
}

/// What a response has to satisfy: counts that can be added up.
pub open spec fn response_fits(response: Response) -> bool {
    response matches Response::Boards { boards, .. } ==> total_fits(boards@)
}

impl App {
    pub open spec fn wf(&self) -> bool {
        self@.wf()
    }

    pub fn new(identity: Identity) -> (r: App)
        ensures
            r@ == (AppModel {
                session: Session::fresh(identity),
                parser: KeyParserState { pending: Seq::empty(), after_cr: false },
                queue: Seq::empty(),
            }),
            r.wf(),
    {
        App {
            identity,
            screen: Screen::Menu,
            selected: 0,
            status: Some(
                Status {
                    text: "Use ↑/↓ and Enter, or press a number. 'q' logs off.".to_owned(),
                    is_error: false,
                },
            ),
            parser: KeyParser::default(),
            queue: VecDeque::new(),
            unread_threads: 0,
            unread_mail: 0,
            motd_popup: None,
        }
    }

    pub fn set_unread_threads(&mut self, count: i64)
        ensures
            final(self)@ == (AppModel {
                session: Session { unread_threads: count, ..old(self)@.session },
                ..old(self)@
            }),
    {
        self.unread_threads = count;
    }

    pub fn set_unread_mail(&mut self, count: i64)
        ensures
            final(self)@ == (AppModel {
                session: Session { unread_mail: count, ..old(self)@.session },
                ..old(self)@
            }),
    {
        self.unread_mail = count;
    }

    /// If a message of the day is set, shows it as a popup. Called once,
    /// right after construction.
    pub fn set_motd(&mut self, text: Option<String>)
        ensures
            final(self)@ == (AppModel {
                session: Session {
                    motd: match text {
                        Some(t) => if t@.len() > 0 {
                            Some(t@)
                        } else {
                            None
                        },
                        None => None,
                    },
                    ..old(self)@.session
                },
                ..old(self)@
            }),
    {
        self.motd_popup = match text {
            Some(t) => if count(&t) > 0 {
                Some(t)
            } else {
                None
            },
            None => None,
        };
    }

    /// Mail was delivered somewhere. If it's for this user, note it. Returns
    /// whether the screen changed.
    pub fn on_mail_notice(&mut self, notice: MailNotice) -> (r: bool)
        requires
            old(self).wf(),
            old(self).identity.account_id() == Some(notice.to_user_id) ==> old(self).unread_mail
                < i64::MAX,
        ensures
            final(self)@ == (AppModel {
                session: old(self)@.session.with_mail(notice),
                ..old(self)@
            }),
            r == (old(self)@.session.identity.account_id() == Some(notice.to_user_id)),
            final(self).wf(),
    {
        let mine = match self.identity.user_id() {
            Some(id) => id == notice.to_user_id,
            None => false,
        };
        if !mine {
            return false;
        }
        self.unread_mail += 1;
        let on_mailbox = match self.screen {
            Screen::Mailbox(_) => true,
            _ => false,
        };
        let mut text = cat3("New mail from ", &notice.from, ".");
        append_if(&mut text, on_mailbox, " Press r to refresh.");
        self.set_status(text, false);
        true
    }

    /// What the session is doing, for the who's-online list.
    pub fn activity(&self) -> (r: &'static str)
        ensures
            r@ == (if self@.session.motd is Some {
                "Reading the message of the day"@
            } else {
                self@.session.scene.activity()
            }),
    {
        if self.motd_popup.is_some() {
            return "Reading the message of the day";
        }
        match self.screen {
            Screen::Menu | Screen::About => "Main menu",
            Screen::Register(_) => "Registering",
            Screen::Keys(_) => "Managing SSH keys",
            Screen::Boards(_) => "Browsing boards",
            Screen::Threads(_) => "Browsing threads",
            Screen::Thread(_) => "Reading a thread",
            Screen::Compose(_) => "Writing a post",
            Screen::Online(_) => "Checking who's online",
            Screen::Chat(_) => "Chatting",
            Screen::Password(_) => "Account settings",
            Screen::Mailbox(_) | Screen::Message(_) | Screen::Blocks(_) => "Reading mail",
            Screen::MailCompose(_) => "Writing mail",
            Screen::SysopMenu(_) | Screen::MotdEditor(_) => "Sysop tools",
        }
    }

    /// A live event from the chat room. Returns whether the screen changed
    /// (and so needs redrawing). Ignored unless the chat screen is open.
    pub fn on_chat_event(&mut self, event: ChatEvent) -> (r: bool)
        requires
            old(self).wf(),
        ensures
            final(self)@ == (AppModel {
                session: old(self)@.session.with_chat_event(event@),
                ..old(self)@
            }),
            r == match old(self)@.session.scene {
                Scene::Chat(chat) => chat.loaded && event.seq > chat.last_seq,
                _ => false,
            },
            final(self).wf(),
    {
        match &mut self.screen {
            Screen::Chat(chat) => chat.on_event(event),
            _ => false,
        }
    }

    /// A fresh snapshot after the listener fell behind.
    pub fn on_chat_snapshot(&mut self, snapshot: ChatSnapshot) -> (r: bool)
        requires
            old(self).wf(),
        ensures
            final(self)@ == (AppModel {
                session: old(self)@.session.with_snapshot(snapshot@),
                ..old(self)@
            }),
            r == (old(self)@.session.scene is Chat),
            final(self).wf(),
    {
        match &mut self.screen {
            Screen::Chat(chat) => {
                chat.set_snapshot(snapshot);
                true
            },
            _ => false,
        }
    }

    pub fn menu_items(&self) -> (r: Vec<MenuItem>)
        ensures
            r@ == menu_of(self.identity),
    {
        let mut items: Vec<MenuItem> = Vec::new();
        items.push(MenuItem::Board);
        items.push(MenuItem::Chat);
        match self.identity {
            Identity::Guest => {
                items.push(MenuItem::Online);
                items.push(MenuItem::Register);
            },
            Identity::User { .. } => {
                items.push(MenuItem::Mail);
                items.push(MenuItem::Online);
                items.push(MenuItem::Keys);
                items.push(MenuItem::Password);
                if self.identity.is_sysop() {
                    items.push(MenuItem::SysopTools);
                }
            },
        }
        items.push(MenuItem::About);
        items.push(MenuItem::LogOff);
        assert(items@ =~= menu_of(self.identity));
        items
    }

    /// Buffers raw bytes from the SSH channel. Call `pump` afterwards.
    pub fn push_input(&mut self, data: &[u8])
        requires
            old(self).wf(),
        ensures
            final(self)@ == old(self)@.with_input(data@),
            final(self).wf(),
    {
        let keys = self.parser.feed(data);
        let ghost all = self.queue@ + keys@;
        let mut i: usize = 0;
        assert(self.queue@ =~= all.take(self.queue@.len() as int));
        while i < keys.len() && self.queue.len() < MAX_QUEUED_KEYS
            invariant
                i <= keys@.len(),
                all == old(self).queue@ + keys@,
                self.queue@ == all.take(old(self).queue@.len() + i),
                self.queue@.len() <= MAX_QUEUED_KEYS,
                self.session() == old(self).session(),
                self.parser@ == old(self)@.with_input(data@).parser,
            decreases keys@.len() - i,
        {
            self.queue.push_back(keys[i]);
            assert(self.queue@ =~= all.take(old(self).queue@.len() + i + 1));
            i += 1;
        }
        assert(self.queue@ =~= old(self)@.with_input(data@).queue);
    }

    /// Processes buffered keys until one needs the server to act.
    /// Remaining keys stay queued until the response has been delivered.
    pub fn pump(&mut self) -> (r: Option<Action>)
        requires
            old(self).wf(),
        ensures
            ({
                let (session, step, rest) = old(self)@.session.pumped(old(self)@.queue);
                &&& final(self)@ == (AppModel { session, queue: rest, ..old(self)@ })
                &&& match r {
                    Some(action) => step == Some(action@),
                    None => step is None,
                }
            }),
            final(self).wf(),
    {
        loop
            invariant
                self.wf(),
                self.parser@ == old(self).parser@,
                self@.session.pumped(self@.queue) == old(self)@.session.pumped(old(self)@.queue),
            decreases self.queue@.len(),
        {
            let ghost before = self@;
            match self.queue.pop_front() {
                None => {
                    assert(before.queue =~= self.queue@);
                    return None;
                },
                Some(key) => {
                    assert(self.queue@ =~= before.queue.drop_first());
                    if key == Key::Ctrl('c') {
                        return Some(Action::Quit);
                    }
                    if let Some(action) = self.handle_key(key) {
                        return Some(action);
                    }
                },
            }
        }
    }

    fn set_status(&mut self, text: String, is_error: bool)
        ensures
            final(self)@ == (AppModel {
                session: old(self)@.session.saying(text@, is_error),
                ..old(self)@
            }),
    {
        self.status = Some(Status { text, is_error });
    }

    fn set_notice(&mut self, notice: Option<String>)
        ensures
            final(self)@ == (AppModel {
                session: old(self)@.session.noting(notice),
                ..old(self)@
            }),
    {
        if let Some(text) = notice {
            self.set_status(text, false);
        }
    }
}

/// What an optional action asks for.
pub open spec fn step_of(r: Option<Action>) -> Option<Step> {
    match r {
        Some(action) => Some(action@),
        None => None,
    }
}

/// The app went on to a session and asks for something; its input is as it
/// was.
pub open spec fn stepped(
    before: AppModel,
    after: AppModel,
    r: Option<Action>,
    to: (Session, Option<Step>),
) -> bool {
    after == (AppModel { session: to.0, ..before }) && step_of(r) == to.1
}

impl App {

    fn key_register(&mut self, key: Key) -> (r: Option<Action>)
        requires
            old(self).wf(),
            old(self).screen is Register,
        ensures
            stepped(
                old(self)@,
                final(self)@,
                r,
                old(self)@.session.after_register(old(self)@.session.scene->Register_0, key),
            ),
            final(self).wf(),
    {
        match &mut self.screen {
            Screen::Register(form) => match form.handle(key) {
                FormEvent::Nothing => None,
                FormEvent::Cancel => {
                    self.screen = Screen::Menu;
                    None
                },
                FormEvent::Submit { username, password } => Some(
                    Action::Request(Request::Register { username, password }),
                ),
            },
            _ => None,
        }
    }

    fn key_boards(&mut self, key: Key) -> (r: Option<Action>)
        requires
            old(self).wf(),
            old(self).screen is Boards,
        ensures
            stepped(
                old(self)@,
                final(self)@,
                r,
                old(self)@.session.after_boards(old(self)@.session.scene->Boards_0, key),
            ),
            final(self).wf(),
    {
        match &mut self.screen {
            Screen::Boards(list) => match list.handle(key) {
                BoardsEvent::Nothing => None,
                BoardsEvent::Back => {
                    self.screen = Screen::Menu;
                    None
                },
                BoardsEvent::Open(board_id) => {
                    let (sysop, member) = self.powers();
                    self.screen = Screen::Threads(ThreadList::loading(board_id, sysop, member));
                    Some(Action::Request(Request::ListThreads { board_id, page: 0 }))
                },
                BoardsEvent::CreateBoard { name, description } => Some(
                    Action::Request(Request::CreateBoard { name, description }),
                ),
                BoardsEvent::UpdateDescription { board_id, description } => Some(
                    Action::Request(Request::UpdateBoardDescription { board_id, description }),
                ),
            },
            _ => None,
        }
    }

    fn key_threads(&mut self, key: Key) -> (r: Option<Action>)
        requires
            old(self).wf(),
            old(self).screen is Threads,
        ensures
            stepped(
                old(self)@,
                final(self)@,
                r,
                old(self)@.session.after_threads(old(self)@.session.scene->Threads_0, key),
            ),
            final(self).wf(),
    {
        match &mut self.screen {
            Screen::Threads(list) => match list.handle(key) {
                ThreadsEvent::Nothing => None,
                ThreadsEvent::MarkBoardRead { board_id, page } => Some(
                    Action::Request(Request::MarkBoardRead { board_id, page }),
                ),
                ThreadsEvent::DeleteThread { thread_id, page } => Some(
                    Action::Request(Request::DeleteThread { thread_id, page }),
                ),
                // The list stays up until the requested page arrives.
                ThreadsEvent::Page { board_id, page } => Some(
                    Action::Request(Request::ListThreads { board_id, page }),
                ),
                ThreadsEvent::Back => {
                    self.screen = Screen::Boards(BoardList::new(self.identity.is_sysop()));
                    Some(Action::Request(Request::ListBoards))
                },
                ThreadsEvent::Open { board_id, thread_id, list_page } => {
                    let sysop = self.identity.is_sysop();
                    self.screen =
                    Screen::Thread(ThreadView::loading(board_id, thread_id, sysop, list_page));
                    Some(
                        Action::Request(
                            Request::OpenThread { thread_id, target: PageTarget::Smart },
                        ),
                    )
                },
                ThreadsEvent::New { board_id } => self.start_compose(Compose::new_thread(board_id)),
            },
            _ => None,
        }
    }

    fn key_thread(&mut self, key: Key) -> (r: Option<Action>)
        requires
            old(self).wf(),
            old(self).screen is Thread,
        ensures
            stepped(
                old(self)@,
                final(self)@,
                r,
                old(self)@.session.after_thread(old(self)@.session.scene->Thread_0, key),
            ),
            final(self).wf(),
    {
        match &mut self.screen {
            Screen::Thread(view) => match view.handle(key) {
                ThreadEvent::Nothing => None,
                ThreadEvent::DeletePost { post_id, page } => Some(
                    Action::Request(Request::DeletePost { post_id, page }),
                ),
                // The current page stays up until the new one arrives.
                ThreadEvent::Goto { thread_id, target } => Some(
                    Action::Request(Request::OpenThread { thread_id, target }),
                ),
                ThreadEvent::Back { board_id, list_page } => {
                    let (sysop, member) = self.powers();
                    self.screen = Screen::Threads(ThreadList::loading(board_id, sysop, member));
                    Some(Action::Request(Request::ListThreads { board_id, page: list_page }))
                },
                ThreadEvent::Reply { thread_id, title, quote } => {
                    let compose = match &quote {
                        Some((author, created, body)) => Compose::reply(
                            thread_id,
                            &title,
                            Some((author.as_str(), created.as_str(), body.as_str())),
                        ),
                        None => Compose::reply(thread_id, &title, None),
                    };
                    self.start_compose(compose)
                },
            },
            _ => None,
        }
    }

    fn key_compose(&mut self, key: Key) -> (r: Option<Action>)
        requires
            old(self).wf(),
            old(self).screen is Compose,
        ensures
            stepped(
                old(self)@,
                final(self)@,
                r,
                old(self)@.session.after_compose(old(self)@.session.scene->Compose_0, *old(self)@.session.scene->Compose_1, key),
            ),
            final(self).wf(),
    {
        match &mut self.screen {
            Screen::Compose(screen) => match screen.compose.handle(key) {
                ComposeEvent::Nothing => None,
                ComposeEvent::Cancel => {
                    let mut old_screen = Screen::Menu;
                    std::mem::swap(&mut old_screen, &mut self.screen);
                    if let Screen::Compose(screen) = old_screen {
                        let ComposeScreen { back, .. } = *screen;
                        self.screen = back;
                    }
                    None
                },
                ComposeEvent::Submit(request) => Some(Action::Request(request)),
            },
            _ => None,
        }
    }

    fn key_mailbox(&mut self, key: Key) -> (r: Option<Action>)
        requires
            old(self).wf(),
            old(self).screen is Mailbox,
        ensures
            stepped(
                old(self)@,
                final(self)@,
                r,
                old(self)@.session.after_mailbox(old(self)@.session.scene->Mailbox_0, key),
            ),
            final(self).wf(),
    {
        match &mut self.screen {
            Screen::Mailbox(mailbox) => match mailbox.handle(key) {
                MailboxEvent::Nothing => None,
                MailboxEvent::Back => {
                    self.screen = Screen::Menu;
                    None
                },
                // The mailbox stays up until the message arrives.
                MailboxEvent::Open(id) => Some(Action::Request(Request::ReadMessage { id })),
                MailboxEvent::Delete(id) => {
                    let folder = mailbox.folder();
                    Some(Action::Request(Request::DeleteMessage { id, folder }))
                },
                MailboxEvent::Refresh => {
                    let folder = mailbox.folder();
                    Some(Action::Request(Request::OpenMailbox { folder }))
                },
                MailboxEvent::Compose => self.start_mail_compose(MailCompose::new(None, None)),
                MailboxEvent::Switch(folder) => {
                    self.screen = Screen::Mailbox(MailboxScreen::new(folder));
                    Some(Action::Request(Request::OpenMailbox { folder }))
                },
                MailboxEvent::Blocks => {
                    self.screen = Screen::Blocks(BlocksScreen::new());
                    Some(Action::Request(Request::ListBlocks))
                },
            },
            _ => None,
        }
    }

    fn key_message(&mut self, key: Key) -> (r: Option<Action>)
        requires
            old(self).wf(),
            old(self).screen is Message,
        ensures
            stepped(
                old(self)@,
                final(self)@,
                r,
                old(self)@.session.after_message(old(self)@.session.scene->Message_0, key),
            ),
            final(self).wf(),
    {
        match &mut self.screen {
            Screen::Message(message) => match message.handle(key) {
                MessageEvent::Nothing => None,
                MessageEvent::Back(folder) => {
                    self.screen = Screen::Mailbox(MailboxScreen::new(folder));
                    Some(Action::Request(Request::OpenMailbox { folder }))
                },
                MessageEvent::Reply { to, subject } => self.start_mail_compose(
                    MailCompose::new(Some(to.as_str()), Some(subject.as_str())),
                ),
                MessageEvent::Delete(id) => {
                    let folder = message.folder();
                    Some(Action::Request(Request::DeleteMessage { id, folder }))
                },
                MessageEvent::Block(name) => Some(Action::Request(Request::BlockUser { name })),
            },
            _ => None,
        }
    }

    fn key_mail_compose(&mut self, key: Key) -> (r: Option<Action>)
        requires
            old(self).wf(),
            old(self).screen is MailCompose,
        ensures
            stepped(
                old(self)@,
                final(self)@,
                r,
                old(self)@.session.after_mail_compose(old(self)@.session.scene->MailCompose_0, *old(self)@.session.scene->MailCompose_1, key),
            ),
            final(self).wf(),
    {
        match &mut self.screen {
            Screen::MailCompose(screen) => match screen.form.handle(key) {
                MailComposeEvent::Nothing => None,
                MailComposeEvent::Cancel => {
                    let mut old_screen = Screen::Menu;
                    std::mem::swap(&mut old_screen, &mut self.screen);
                    if let Screen::MailCompose(screen) = old_screen {
                        let MailComposeScreen { back, .. } = *screen;
                        self.screen = back;
                    }
                    None
                },
                MailComposeEvent::Submit { to, subject, body } => Some(
                    Action::Request(Request::SendMail { to, subject, body }),
                ),
            },
            _ => None,
        }
    }

    fn key_blocks(&mut self, key: Key) -> (r: Option<Action>)
        requires
            old(self).wf(),
            old(self).screen is Blocks,
        ensures
            stepped(
                old(self)@,
                final(self)@,
                r,
                old(self)@.session.after_blocks(old(self)@.session.scene->Blocks_0, key),
            ),
            final(self).wf(),
    {
        match &mut self.screen {
            Screen::Blocks(blocks) => match blocks.handle(key) {
                BlocksEvent::Nothing => None,
                BlocksEvent::Back => {
                    self.screen = Screen::Mailbox(MailboxScreen::new(Folder::Inbox));
                    Some(Action::Request(Request::OpenMailbox { folder: Folder::Inbox }))
                },
                BlocksEvent::Unblock(name) => Some(
                    Action::Request(Request::UnblockUser { name }),
                ),
            },
            _ => None,
        }
    }

    fn key_password(&mut self, key: Key) -> (r: Option<Action>)
        requires
            old(self).wf(),
            old(self).screen is Password,
        ensures
            stepped(
                old(self)@,
                final(self)@,
                r,
                old(self)@.session.after_password(old(self)@.session.scene->Password_0, key),
            ),
            final(self).wf(),
    {
        match &mut self.screen {
            Screen::Password(form) => match form.handle(key) {
                PasswordEvent::Nothing => None,
                PasswordEvent::Cancel => {
                    self.screen = Screen::Menu;
                    None
                },
                PasswordEvent::Submit { current, new } => Some(
                    Action::Request(Request::ChangePassword { current, new }),
                ),
            },
            _ => None,
        }
    }

    fn key_chat(&mut self, key: Key) -> (r: Option<Action>)
        requires
            old(self).wf(),
            old(self).screen is Chat,
        ensures
            stepped(
                old(self)@,
                final(self)@,
                r,
                old(self)@.session.after_chat(old(self)@.session.scene->Chat_0, key),
            ),
            final(self).wf(),
    {
        match &mut self.screen {
            Screen::Chat(chat) => match chat.handle(key) {
                ChatAction::Nothing => None,
                ChatAction::Leave => {
                    self.screen = Screen::Menu;
                    Some(Action::Request(Request::LeaveChat))
                },
                ChatAction::Say { text, action } => Some(
                    Action::Request(Request::ChatSay { text, action }),
                ),
            },
            _ => None,
        }
    }

    fn key_online(&mut self, key: Key) -> (r: Option<Action>)
        requires
            old(self).wf(),
            old(self).screen is Online,
        ensures
            stepped(
                old(self)@,
                final(self)@,
                r,
                old(self)@.session.after_online(key),
            ),
            final(self).wf(),
    {
        match &mut self.screen {
            Screen::Online(screen) => match screen.handle(key) {
                OnlineEvent::Nothing => None,
                OnlineEvent::Back => {
                    self.screen = Screen::Menu;
                    None
                },
                OnlineEvent::Refresh => Some(Action::Request(Request::WhoIsOnline)),
            },
            _ => None,
        }
    }

    fn key_keys(&mut self, key: Key) -> (r: Option<Action>)
        requires
            old(self).wf(),
            old(self).screen is Keys,
        ensures
            stepped(
                old(self)@,
                final(self)@,
                r,
                old(self)@.session.after_keys(old(self)@.session.scene->Keys_0, key),
            ),
            final(self).wf(),
    {
        match &mut self.screen {
            Screen::Keys(screen) => match screen.handle(key) {
                KeysEvent::Nothing => None,
                KeysEvent::Back => {
                    self.screen = Screen::Menu;
                    None
                },
                KeysEvent::Add(line) => Some(Action::Request(Request::AddKey(line))),
                KeysEvent::Delete(id) => Some(Action::Request(Request::DeleteKey(id))),
            },
            _ => None,
        }
    }

    fn key_sysop_menu(&mut self, key: Key) -> (r: Option<Action>)
        requires
            old(self).wf(),
            old(self).screen is SysopMenu,
        ensures
            stepped(
                old(self)@,
                final(self)@,
                r,
                old(self)@.session.after_sysop_menu(old(self)@.session.scene->SysopMenu_0, key),
            ),
            final(self).wf(),
    {
        match &mut self.screen {
            Screen::SysopMenu(menu) => match menu.handle(key) {
                SysopMenuEvent::Nothing => None,
                SysopMenuEvent::Back => {
                    self.screen = Screen::Menu;
                    None
                },
                SysopMenuEvent::EditMotd => {
                    self.screen = Screen::MotdEditor(MotdEditor::loading());
                    Some(Action::Request(Request::GetMotd))
                },
            },
            _ => None,
        }
    }

    fn key_motd_editor(&mut self, key: Key) -> (r: Option<Action>)
        requires
            old(self).wf(),
            old(self).screen is MotdEditor,
        ensures
            stepped(
                old(self)@,
                final(self)@,
                r,
                old(self)@.session.after_motd_editor(old(self)@.session.scene->MotdEditor_0, key),
            ),
            final(self).wf(),
    {
        match &mut self.screen {
            Screen::MotdEditor(editor) => match editor.handle(key) {
                MotdEvent::Nothing => None,
                MotdEvent::Cancel => {
                    self.screen = Screen::SysopMenu(SysopMenu::new());
                    None
                },
                MotdEvent::Save(text) => Some(Action::Request(Request::SetMotd { text })),
            },
            _ => None,
        }
    }

    /// Whether the session is a sysop's, and whether it is a user's at all.
    fn powers(&self) -> (r: (bool, bool))
        ensures
            r == (self.identity.sysop(), self.identity.account_id() is Some),
    {
        (self.identity.is_sysop(), self.identity.user_id().is_some())
    }

    pub fn handle_key(&mut self, key: Key) -> (r: Option<Action>)
        requires
            old(self).wf(),
        ensures
            stepped(old(self)@, final(self)@, r, old(self)@.session.after_key(key)),
            final(self).wf(),
    {
        self.status = None;
        // Only Enter dismisses the popup; every other key is swallowed while
        // it's up rather than reaching whatever screen is underneath.
        if self.motd_popup.is_some() {
            if key == Key::Enter {
                self.motd_popup = None;
            }
            return None;
        }
        match &self.screen {
            Screen::Menu => self.handle_menu_key(key),
            Screen::About => {
                self.screen = Screen::Menu;
                None
            },
            Screen::Register(_) => self.key_register(key),
            Screen::Keys(_) => self.key_keys(key),
            Screen::Boards(_) => self.key_boards(key),
            Screen::Threads(_) => self.key_threads(key),
            Screen::Thread(_) => self.key_thread(key),
            Screen::Compose(_) => self.key_compose(key),
            Screen::Online(_) => self.key_online(key),
            Screen::Chat(_) => self.key_chat(key),
            Screen::Password(_) => self.key_password(key),
            Screen::Mailbox(_) => self.key_mailbox(key),
            Screen::Message(_) => self.key_message(key),
            Screen::MailCompose(_) => self.key_mail_compose(key),
            Screen::Blocks(_) => self.key_blocks(key),
            Screen::SysopMenu(_) => self.key_sysop_menu(key),
            Screen::MotdEditor(_) => self.key_motd_editor(key),
        }
    }

    /// Opens the editor on top of the current screen. Guests can read but
    /// not post.
    fn start_compose(&mut self, compose: Compose) -> (r: Option<Action>)
        requires
            old(self).wf(),
            compose.wf(),
        ensures
            stepped(old(self)@, final(self)@, r, old(self)@.session.composing(compose@)),
            final(self).wf(),
    {
        let guest = match self.identity {
            Identity::Guest => true,
            Identity::User { .. } => false,
        };
        if guest {
            self.set_status(
                "Guests can't post. Register an account from the main menu first.".to_owned(),
                true,
            );
            return None;
        }
        let mut back = Screen::Menu;
        std::mem::swap(&mut back, &mut self.screen);
        self.screen = Screen::Compose(Box::new(ComposeScreen { compose, back }));
        None
    }

    fn start_mail_compose(&mut self, form: MailCompose) -> (r: Option<Action>)
        requires
            old(self).wf(),
            form.wf(),
        ensures
            stepped(old(self)@, final(self)@, r, old(self)@.session.writing_mail(form@)),
            final(self).wf(),
    {
        let mut back = Screen::Menu;
        std::mem::swap(&mut back, &mut self.screen);
        self.screen = Screen::MailCompose(Box::new(MailComposeScreen { form, back }));
        None
    }

    fn handle_menu_key(&mut self, key: Key) -> (r: Option<Action>)
        requires
            old(self).wf(),
            old(self).screen is Menu,
        ensures
            stepped(old(self)@, final(self)@, r, old(self)@.session.after_menu(key)),
            final(self).wf(),
    {
        let count: usize = self.menu_items().len();
        assert(6 <= count <= 9);
        match key {
            Key::Char('q') => {
                return Some(Action::Quit);
            },
            Key::Up | Key::Char('k') => {
                self.selected = (self.selected + count - 1) % count;
            },
            Key::Down | Key::Char('j') => {
                self.selected = (self.selected + 1) % count;
            },
            Key::Enter => {
                return self.activate();
            },
            Key::Char(c) => {
                if '1' <= c && c <= '9' {
                    let index: usize = c as usize - '1' as usize;
                    if index < count {
                        self.selected = index;
                        return self.activate();
                    }
                }
            },
            _ => {},
        }
        None
    }

    fn activate(&mut self) -> (r: Option<Action>)
        requires
            old(self).wf(),
            old(self).screen is Menu,
        ensures
            stepped(old(self)@, final(self)@, r, old(self)@.session.activated()),
            final(self).wf(),
    {
        let items = self.menu_items();
        match items[self.selected] {
            MenuItem::Board => {
                self.screen = Screen::Boards(BoardList::new(self.identity.is_sysop()));
                return Some(Action::Request(Request::ListBoards));
            },
            MenuItem::Chat => {
                let guest = match self.identity {
                    Identity::Guest => true,
                    Identity::User { .. } => false,
                };
                if guest {
                    self.set_status(
                        "The chat is for registered users. Register an account first.".to_owned(),
                        true,
                    );
                } else {
                    self.screen = Screen::Chat(ChatScreen::new(self.identity.display_name()));
                    return Some(Action::Request(Request::JoinChat));
                }
            },
            MenuItem::Online => {
                self.screen = Screen::Online(OnlineScreen::new());
                return Some(Action::Request(Request::WhoIsOnline));
            },
            MenuItem::Register => {
                self.screen = Screen::Register(RegisterForm::new());
            },
            MenuItem::Mail => {
                self.screen = Screen::Mailbox(MailboxScreen::new(Folder::Inbox));
                return Some(Action::Request(Request::OpenMailbox { folder: Folder::Inbox }));
            },
            MenuItem::Password => {
                self.screen = Screen::Password(PasswordForm::new(self.identity.display_name()));
            },
            MenuItem::Keys => {
                self.screen = Screen::Keys(KeysScreen::new());
                return Some(Action::Request(Request::ListKeys));
            },
            MenuItem::SysopTools => {
                self.screen = Screen::SysopMenu(SysopMenu::new());
            },
            MenuItem::About => {
                self.screen = Screen::About;
            },
            MenuItem::LogOff => {
                return Some(Action::Quit);
            },
        }
        None
    }
}

impl App {
    pub fn on_response(&mut self, response: Response)
        requires
            old(self).wf(),
            response_fits(response),
        ensures
            final(self)@ == (AppModel {
                session: old(self)@.session.after_response(response),
                ..old(self)@
            }),
            final(self).wf(),
    {
        match response {
            Response::Registered(Ok(identity)) => self.welcome(identity),
            Response::Registered(Err(message)) => {
                if let Screen::Register(form) = &mut self.screen {
                    form.fail(message);
                }
            },
            Response::Boards { boards, notice } => {
                // The board list is refreshed whenever you come back to it,
                // so it doubles as the source for the main-menu count.
                if let Some(n) = sum_unread(&boards) {
                    self.unread_threads = n;
                }
                if let Screen::Boards(list) = &mut self.screen {
                    list.set(boards);
                }
                self.set_notice(notice);
            },
            Response::Threads { board_id, board_name, threads, notice, page, pages, total } => {
                // Replaces whatever is showing: this also answers a deleted
                // post that took its whole thread with it.
                let (sysop, member) = self.powers();
                let mut list = ThreadList::loading(board_id, sysop, member);
                list.set(board_name, threads, page, pages, total);
                self.screen = Screen::Threads(list);
                self.set_notice(notice);
            },
            Response::Thread { detail, to_end, notice } => {
                // Also arrives after a successful post, when the compose
                // screen is still up; the thread replaces it. Moving between
                // pages of the same thread keeps the list page we came from.
                let list_page: usize = match &self.screen {
                    Screen::Thread(view) => view.list_page(),
                    _ => 0,
                };
                let sysop = self.identity.is_sysop();
                self.screen =
                Screen::Thread(ThreadView::from_detail(detail, to_end, sysop, list_page));
                self.set_notice(notice);
            },
            Response::Online { users, guests } => {
                if let Screen::Online(screen) = &mut self.screen {
                    screen.set(users, guests);
                }
            },
            Response::Mailbox { folder, items, unread, notice } => {
                self.unread_mail = unread;
                let mut mailbox = MailboxScreen::new(folder);
                mailbox.set(items, unread);
                self.screen = Screen::Mailbox(mailbox);
                self.set_notice(notice);
            },
            Response::Message { message, unread } => {
                self.unread_mail = unread;
                self.screen = Screen::Message(MessageScreen::new(message));
            },
            Response::MailFailed(message) => {
                if let Screen::MailCompose(screen) = &mut self.screen {
                    screen.form.fail(message);
                }
            },
            Response::Blocks { names, notice } => {
                let mut blocks = BlocksScreen::new();
                blocks.set(names);
                self.screen = Screen::Blocks(blocks);
                self.set_notice(notice);
            },
            Response::PasswordChanged(Ok(notice)) => {
                self.screen = Screen::Menu;
                self.set_status(notice, false);
            },
            Response::PasswordChanged(Err(message)) => {
                if let Screen::Password(form) = &mut self.screen {
                    form.fail(message);
                }
            },
            Response::ChatJoined(snapshot) => {
                if let Screen::Chat(chat) = &mut self.screen {
                    chat.set_snapshot(snapshot);
                }
            },
            Response::ChatRejected(message) => {
                if let Screen::Chat(chat) = &mut self.screen {
                    chat.add_system(message);
                }
            },
            Response::Nothing => {},
            Response::PostFailed(message) => {
                if let Screen::Compose(screen) = &mut self.screen {
                    screen.compose.fail(message);
                }
            },
            Response::SysopActionFailed(message) => self.sysop_failed(message),
            Response::Motd { text, notice } => {
                if let Screen::MotdEditor(editor) = &mut self.screen {
                    editor.set_text(&text);
                }
                self.set_notice(notice);
            },
            Response::Error(message) => self.set_status(message, true),
            Response::Keys { keys, notice } => {
                let ok = match &notice {
                    Some(result) => result.is_ok(),
                    None => true,
                };
                if let Screen::Keys(screen) = &mut self.screen {
                    screen.update(keys, ok);
                }
                match notice {
                    Some(Ok(text)) => self.set_status(text, false),
                    Some(Err(text)) => self.set_status(text, true),
                    None => {},
                }
            },
        }
    }

    /// A guest has registered.
    fn welcome(&mut self, identity: Identity)
        requires
            old(self).wf(),
        ensures
            final(self)@ == (AppModel {
                session: old(self)@.session.welcomed(identity),
                ..old(self)@
            }),
            final(self).wf(),
    {
        let name = identity.display_name().to_owned();
        self.identity = identity;
        self.screen = Screen::Menu;
        self.selected = 0;
        let mut text = cat4(
            "Welcome, ",
            &name,
            "! Your account is ready. Next time connect as '",
            &name,
        );
        text.append("' (ssh ");
        text.append(&name);
        text.append("@<this host>) with your password, or add an SSH key.");
        self.set_status(text, false);
    }

    /// A board or MOTD action was refused.
    fn sysop_failed(&mut self, message: String)
        requires
            old(self).wf(),
        ensures
            final(self)@ == (AppModel {
                session: old(self)@.session.after_response(Response::SysopActionFailed(message)),
                ..old(self)@
            }),
            final(self).wf(),
    {
        match &mut self.screen {
            Screen::Boards(list) => list.fail(message),
            Screen::MotdEditor(editor) => editor.fail(message),
            _ => self.set_status(message, true),
        }
    }

    // ---------------------------------------------------------- drawing

    /// The text in the box at the top.
    pub fn header(&self) -> (r: String)
        ensures
            r@ == self@.session.header(),
    {
        match &self.identity {
            Identity::Guest => cat2(
                "rust-bbs — welcome, ",
                "guest (register to get your own account)",
            ),
            Identity::User { name, .. } => cat2("rust-bbs — welcome, ", name),
        }
    }

    /// The main menu.
    pub fn draw_menu(&self) -> (r: ListPane)
        requires
            self.wf(),
        ensures
            r@ == self@.session.menu_drawn(),
    {
        let menu = self.menu_items();
        let mut items: Vec<Line> = Vec::new();
        let mut i: usize = 0;
        while i < menu.len()
            invariant
                i <= menu@.len(),
                menu@ == menu_of(self.identity),
                menu@.len() <= 9,
                items@.len() == i,
                forall|j: int|
                    0 <= j < i ==> (#[trigger] items@[j])@ == paint::plain_line(
                        self@.session.menu_line(j),
                    ),
            decreases menu@.len() - i,
        {
            let label = menu[i].label(self.unread_threads, self.unread_mail);
            items.push(text_line(cat4("[", &size_text(i + 1), "] ", &label)));
            i += 1;
        }
        let none = String::new();
        assert(none@ =~= Seq::empty());
        let r = ListPane {
            title: "Main menu".to_owned(),
            items,
            selected: Some(self.selected),
            help: line1(span(none, Style::plain())),
        };
        assert(r@.items =~= self@.session.menu_drawn().items);
        r
    }

    /// The line at the bottom and its colour.
    pub fn status_line(&self) -> (r: (String, Color))
        ensures
            (r.0@, r.1) == self@.session.status_line(),
    {
        match &self.status {
            Some(status) => (
                status.text.clone(),
                if status.is_error {
                    Color::Red
                } else {
                    Color::Yellow
                },
            ),
            None => {
                let none = String::new();
                assert(none@ =~= Seq::empty());
                (none, Color::Yellow)
            },
        }
    }
}

/// The larger of two sizes.
pub open spec fn most(a: int, b: int) -> int {
    if a >= b {
        a
    } else {
        b
    }
}

/// The width of the message of the day on a screen `full` columns wide: four
/// fifths, but at least 50 columns if there are that many, and with two
/// columns free on both sides if possible.
pub open spec fn popup_width(full: int) -> int {
    boards::least(
        most(full * 4 / 5, boards::least(50, full)),
        most(boards::at_least_zero(full - 4), 1),
    )
}

/// The height of a message of `lines` lines on a screen `full` rows high:
/// room for the borders and the hint, at least 12 rows and at most four
/// fifths of the screen.
pub open spec fn popup_height(lines: int, full: int) -> int {
    boards::least(
        boards::least(most(lines + 3, boards::least(12, full)), most(full * 4 / 5, 1)),
        full,
    )
}

/// Where the message of the day is shown on the screen: centered, sized to
/// the message (within reasonable bounds) rather than a fixed fraction of the
/// screen, so a one-line message doesn't look like an oversized empty box.
pub fn motd_popup(text: &str, full: Rect) -> (r: Rect)
    requires
        full.wf(),
    ensures
        r.width == popup_width(full.width as int),
        r.height == popup_height(
            text::wrapped(
                text@,
                boards::at_least_zero(popup_width(full.width as int) - 2),
            ).len() as int,
            full.height as int,
        ),
        r.x == full.x + boards::at_least_zero(full.width - r.width) / 2,
        r.y == full.y + (full.height - r.height) / 2,
{
    let w: u32 = full.width as u32;
    let h: u32 = full.height as u32;
    let fifths: u32 = w * 4 / 5;
    let least: u32 = if w < 50 {
        w
    } else {
        50
    };
    let wanted: u32 = if fifths >= least {
        fifths
    } else {
        least
    };
    let limit: u32 = if w > 5 {
        w - 4
    } else {
        1
    };
    let width: u32 = if wanted <= limit {
        wanted
    } else {
        limit
    };
    let inner: usize = if width > 2 {
        width as usize - 2
    } else {
        0
    };
    let lines = wrap(text, inner);
    assert(chars::string_texts(lines@).len() == lines@.len());
    let shown: u32 = if lines.len() > 65535 {
        65535
    } else {
        lines.len() as u32
    };
    let low: u32 = if h < 12 {
        h
    } else {
        12
    };
    let tall: u32 = if shown + 3 >= low {
        shown + 3
    } else {
        low
    };
    let high: u32 = if h * 4 / 5 >= 1 {
        h * 4 / 5
    } else {
        1
    };
    let fitting: u32 = if tall <= high {
        tall
    } else {
        high
    };
    let height: u32 = if fitting <= h {
        fitting
    } else {
        h
    };
    let left: u32 = if w > width {
        (w - width) / 2
    } else {
        0
    };
    Rect {
        x: full.x + left as u16,
        y: full.y + ((h - height) / 2) as u16,
        width: width as u16,
        height: height as u16,
    }
}

} // verus!
