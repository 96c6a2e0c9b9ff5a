//! Laws of the way from a screen to the server: what a screen asks for is
//! what the server is asked, and where a screen leads the session goes.

use vstd::prelude::*;

use crate::db::Folder;
use crate::ui::app::{App, Scene, Screen, Session};
use crate::ui::boards::{
    BoardList, BoardsEvent, ThreadEvent, ThreadList, ThreadView, ThreadsEvent,
};
use crate::ui::compose::Kind;
use crate::ui::input::Key;
use crate::ui::mail::{
    BlocksEvent, BlocksScreen, MailboxEvent, MailboxScreen, MessageEvent, MessageScreen,
};
use crate::ui::online::{OnlineEvent, OnlineScreen};
use crate::ui::protocol::{Action, PageTarget, Request, Step};
use crate::ui::sysop::{SysopMenu, SysopMenuEvent};

verus! {

/// From the list of boards.
pub proof fn law_boards_ask_for_what_they_say(
    app: &mut App,
    list: &mut BoardList,
    key: Key,
    event: BoardsEvent,
    r: Option<Action>,
)
    requires
        call_ensures(App::handle_key, (app, key), r),
        call_ensures(BoardList::handle, (list, key), event),
        old(app).motd_popup is None,
        old(app).screen is Boards,
        old(list)@ == old(app).screen->Boards_0@,
    ensures
        match event {
            BoardsEvent::Nothing => r is None && final(app).screen is Boards && final(app).screen->Boards_0@ == final(list)@,
            BoardsEvent::Back => r is None && final(app).screen is Menu,
            BoardsEvent::Open(id) => r == Some(
                Action::Request(Request::ListThreads { board_id: id, page: 0 }),
            ) && final(app).screen is Threads && final(app).screen->Threads_0.board_id == id,
            BoardsEvent::CreateBoard { name, description } => r matches Some(
                Action::Request(Request::CreateBoard { name: n, description: d }),
            ) && n@ == name@ && d@ == description@ && final(app).screen is Boards,
            BoardsEvent::UpdateDescription { board_id, description } => r matches Some(
                Action::Request(Request::UpdateBoardDescription { board_id: b, description: d }),
            ) && b == board_id && d@ == description@ && final(app).screen is Boards,
        },
{
    assert(final(app).screen.scene() == final(app)@.session.scene);
}

/// From the list of threads.
pub proof fn law_threads_ask_for_what_they_say(
    app: &mut App,
    list: &mut ThreadList,
    key: Key,
    event: ThreadsEvent,
    r: Option<Action>,
)
    requires
        call_ensures(App::handle_key, (app, key), r),
        call_ensures(ThreadList::handle, (list, key), event),
        old(app).motd_popup is None,
        old(app).screen is Threads,
        old(list)@ == old(app).screen->Threads_0@,
    ensures
        match event {
            ThreadsEvent::Nothing => r is None && final(app).screen is Threads && final(app).screen->Threads_0@ == final(list)@,
            ThreadsEvent::Back => r == Some(Action::Request(Request::ListBoards)) && final(app).screen is Boards,
            ThreadsEvent::Open { board_id, thread_id, list_page } => r == Some(
                Action::Request(Request::OpenThread { thread_id, target: PageTarget::Smart }),
            ) && final(app).screen is Thread && final(app).screen->Thread_0.thread_id == thread_id
                && final(app).screen->Thread_0.board_id == board_id && final(app).screen->Thread_0.list_page == list_page,
            ThreadsEvent::Page { board_id, page } => r == Some(
                Action::Request(Request::ListThreads { board_id, page }),
            ) && final(app).screen is Threads,
            ThreadsEvent::MarkBoardRead { board_id, page } => r == Some(
                Action::Request(Request::MarkBoardRead { board_id, page }),
            ) && final(app).screen is Threads,
            ThreadsEvent::DeleteThread { thread_id, page } => r == Some(
                Action::Request(Request::DeleteThread { thread_id, page }),
            ) && final(app).screen is Threads,
            ThreadsEvent::New { .. } => r is None,
        },
{
    assert(final(app).screen.scene() == final(app)@.session.scene);
}

/// From a thread.
#[verifier::rlimit(50)]
pub proof fn law_a_thread_asks_for_what_it_says(
    app: &mut App,
    view: &mut ThreadView,
    key: Key,
    event: ThreadEvent,
    r: Option<Action>,
)
    requires
        call_ensures(App::handle_key, (app, key), r),
        call_ensures(ThreadView::handle, (view, key), event),
        old(app).motd_popup is None,
        old(app).screen is Thread,
        old(view)@ == old(app).screen->Thread_0@,
    ensures
        match event {
            ThreadEvent::Nothing => r is None && final(app).screen is Thread && final(app).screen->Thread_0@ == final(view)@,
            ThreadEvent::Back { board_id, list_page } => r == Some(
                Action::Request(Request::ListThreads { board_id, page: list_page }),
            ) && final(app).screen is Threads && final(app).screen->Threads_0.board_id == board_id,
            ThreadEvent::Goto { thread_id, target } => r == Some(
                Action::Request(Request::OpenThread { thread_id, target }),
            ) && final(app).screen is Thread,
            ThreadEvent::DeletePost { post_id, page } => r == Some(
                Action::Request(Request::DeletePost { post_id, page }),
            ) && final(app).screen is Thread,
            ThreadEvent::Reply { thread_id, title, .. } => r is None && (old(app).identity is User
                ==> final(app).screen is Compose && final(app).screen->Compose_0.compose.kind
                == Kind::Reply { thread_id } && final(app).screen->Compose_0.compose.heading@
                == "Reply to: "@ + title@),
        },
{
    reveal_with_fuel(Screen::scene, 2);
    let to = final(app).screen;
    assert(to.scene() == final(app)@.session.scene);
    if to is Compose {
        assert(to.scene() == Scene::Compose(
            to->Compose_0.compose@,
            Box::new(to->Compose_0.back.scene()),
        ));
    }
}

/// From the mailbox.
#[verifier::rlimit(50)]
pub proof fn law_the_mailbox_asks_for_what_it_says(
    app: &mut App,
    mailbox: &mut MailboxScreen,
    key: Key,
    event: MailboxEvent,
    r: Option<Action>,
)
    requires
        call_ensures(App::handle_key, (app, key), r),
        call_ensures(MailboxScreen::handle, (mailbox, key), event),
        old(app).motd_popup is None,
        old(app).screen is Mailbox,
        old(mailbox)@ == old(app).screen->Mailbox_0@,
    ensures
        match event {
            MailboxEvent::Nothing => r is None && final(app).screen is Mailbox && final(app).screen->Mailbox_0@ == final(mailbox)@,
            MailboxEvent::Back => r is None && final(app).screen is Menu,
            MailboxEvent::Open(id) => r == Some(Action::Request(Request::ReadMessage { id })),
            MailboxEvent::Delete(id) => r == Some(
                Action::Request(Request::DeleteMessage { id, folder: old(mailbox).folder }),
            ),
            MailboxEvent::Refresh => r == Some(
                Action::Request(Request::OpenMailbox { folder: old(mailbox).folder }),
            ),
            MailboxEvent::Switch(folder) => r == Some(
                Action::Request(Request::OpenMailbox { folder }),
            ) && final(app).screen is Mailbox && final(app).screen->Mailbox_0.folder == folder,
            MailboxEvent::Blocks => r == Some(Action::Request(Request::ListBlocks)) && final(app).screen is Blocks,
            MailboxEvent::Compose => r is None && final(app).screen is MailCompose && final(app).screen->MailCompose_0.form.to@.text.len() == 0 && final(app).screen->MailCompose_0.form.subject@.text.len() == 0,
        },
{
    reveal_with_fuel(Screen::scene, 2);
    let to = final(app).screen;
    assert(to.scene() == final(app)@.session.scene);
    if to is MailCompose {
        assert(to.scene() == Scene::MailCompose(
            to->MailCompose_0.form@,
            Box::new(to->MailCompose_0.back.scene()),
        ));
    }
}

/// From a message.
pub proof fn law_a_message_asks_for_what_it_says(
    app: &mut App,
    message: &mut MessageScreen,
    key: Key,
    event: MessageEvent,
    r: Option<Action>,
)
    requires
        call_ensures(App::handle_key, (app, key), r),
        call_ensures(MessageScreen::handle, (message, key), event),
        old(app).motd_popup is None,
        old(app).screen is Message,
        *old(message) == old(app).screen->Message_0,
    ensures
        match event {
            MessageEvent::Nothing => r is None && final(app).screen is Message && final(app).screen->Message_0 == *final(message),
            MessageEvent::Back(folder) => r == Some(
                Action::Request(Request::OpenMailbox { folder }),
            ) && final(app).screen is Mailbox && final(app).screen->Mailbox_0.folder == folder,
            MessageEvent::Delete(id) => r matches Some(
                Action::Request(Request::DeleteMessage { id: i, folder }),
            ) && i == id && (folder is Inbox) == old(message).message.is_recipient,
            MessageEvent::Block(name) => r matches Some(
                Action::Request(Request::BlockUser { name: n }),
            ) && n@ == name@,
            MessageEvent::Reply { to, subject } => r is None && final(app).screen is MailCompose
                && final(app).screen->MailCompose_0.form.focus == 2,
        },
{
    reveal_with_fuel(Screen::scene, 2);
    let to = final(app).screen;
    assert(to.scene() == final(app)@.session.scene);
    if to is MailCompose {
        assert(to.scene() == Scene::MailCompose(
            to->MailCompose_0.form@,
            Box::new(to->MailCompose_0.back.scene()),
        ));
    }
}

/// A reply to a message is addressed to its sender.
pub proof fn law_replies_are_begun_to_the_sender(app: &mut App, r: Option<Action>)
    requires
        call_ensures(App::handle_key, (app, Key::Char('r')), r),
        old(app).motd_popup is None,
        old(app).screen is Message,
        old(app).screen->Message_0.confirm is None,
        old(app).screen->Message_0.message.is_recipient,
        old(app).screen->Message_0.message.from@.len() <= 16,
        forall|i: int|
            0 <= i < old(app).screen->Message_0.message.from@.len() ==> !crate::chars::control(
                #[trigger] old(app).screen->Message_0.message.from@[i],
            ),
    ensures
        final(app).screen is MailCompose,
        final(app).screen->MailCompose_0.form.to@.text == old(app).screen->Message_0.message.from@,
        final(app).screen->MailCompose_0.form.body@.lines == seq![Seq::<char>::empty()],
{
    reveal_with_fuel(Screen::scene, 2);
    let to = final(app).screen;
    assert(to.scene() == final(app)@.session.scene);
    crate::laws::editing::lemma_typed(16, false, old(app).screen->Message_0.message.from@);
    assert(to.scene() == Scene::MailCompose(
        to->MailCompose_0.form@,
        Box::new(to->MailCompose_0.back.scene()),
    ));
}

/// From the blocked, from who is online and from the tools of sysops.
#[verifier::rlimit(50)]
pub proof fn law_lists_ask_for_what_they_say(
    app: &mut App,
    blocks: &mut BlocksScreen,
    online: &mut OnlineScreen,
    menu: &mut SysopMenu,
    key: Key,
    blocked: BlocksEvent,
    present: OnlineEvent,
    tool: SysopMenuEvent,
    r: Option<Action>,
)
    requires
        call_ensures(App::handle_key, (app, key), r),
        call_ensures(BlocksScreen::handle, (blocks, key), blocked),
        call_ensures(OnlineScreen::handle, (online, key), present),
        call_ensures(SysopMenu::handle, (menu, key), tool),
        old(app).motd_popup is None,
    ensures
        old(app).screen is Blocks && old(blocks)@ == old(app).screen->Blocks_0@ ==> match blocked {
            BlocksEvent::Nothing => r is None && final(app).screen is Blocks && final(app).screen->Blocks_0@ == final(blocks)@,
            BlocksEvent::Back => r == Some(
                Action::Request(Request::OpenMailbox { folder: Folder::Inbox }),
            ) && final(app).screen is Mailbox,
            BlocksEvent::Unblock(name) => r matches Some(
                Action::Request(Request::UnblockUser { name: n }),
            ) && n@ == name@,
        },
        old(app).screen is Online ==> match present {
            OnlineEvent::Nothing => r is None && final(app).screen is Online,
            OnlineEvent::Back => r is None && final(app).screen is Menu,
            OnlineEvent::Refresh => r == Some(Action::Request(Request::WhoIsOnline)),
        },
        old(app).screen is SysopMenu && *old(menu) == old(app).screen->SysopMenu_0 ==> match tool {
            SysopMenuEvent::Nothing => r is None && final(app).screen is SysopMenu,
            SysopMenuEvent::Back => r is None && final(app).screen is Menu,
            SysopMenuEvent::EditMotd => r == Some(Action::Request(Request::GetMotd)) && final(app).screen is MotdEditor && !final(app).screen->MotdEditor_0.loaded,
        },
        old(app).screen is About ==> r is None && final(app).screen is Menu,
{
    assert(final(app).screen.scene() == final(app)@.session.scene);
}

/// The session is the same user's and has its counts, and a request goes out
/// without anything being said.
spec fn keeps(s: Session, t: (Session, Option<Step>)) -> bool {
    &&& t.0.identity == s.identity
    &&& t.0.unread_mail == s.unread_mail
    &&& t.0.unread_threads == s.unread_threads
    &&& t.1 is Some ==> t.0.status is None
}

proof fn lemma_lists_keep(s: Session, key: Key)
    requires
        s.status is None,
        s.scene is Boards || s.scene is Threads || s.scene is Thread,
    ensures
        keeps(s, s.after_screen(key)),
{
    match s.scene {
        Scene::Boards(x) => {
            assert(keeps(s, s.after_boards(x, key)));
        },
        Scene::Threads(x) => {
            assert(keeps(s, s.after_threads(x, key)));
        },
        Scene::Thread(x) => {
            assert(keeps(s, s.after_thread(x, key)));
        },
        _ => {},
    }
}

proof fn lemma_mail_keep(s: Session, key: Key)
    requires
        s.status is None,
        s.scene is Mailbox || s.scene is Message || s.scene is Blocks,
    ensures
        keeps(s, s.after_screen(key)),
{
    match s.scene {
        Scene::Mailbox(x) => {
            assert(keeps(s, s.after_mailbox(x, key)));
        },
        Scene::Message(x) => {
            assert(keeps(s, s.after_message(x, key)));
        },
        Scene::Blocks(x) => {
            assert(keeps(s, s.after_blocks(x, key)));
        },
        _ => {},
    }
}

proof fn lemma_forms_keep(s: Session, key: Key)
    requires
        s.status is None,
        s.scene is Register || s.scene is Keys || s.scene is Password || s.scene is SysopMenu || s.scene is MotdEditor || s.scene is Chat,
    ensures
        keeps(s, s.after_screen(key)),
{
    match s.scene {
        Scene::Register(x) => {
            assert(keeps(s, s.after_register(x, key)));
        },
        Scene::Keys(x) => {
            assert(keeps(s, s.after_keys(x, key)));
        },
        Scene::Password(x) => {
            assert(keeps(s, s.after_password(x, key)));
        },
        Scene::SysopMenu(x) => {
            assert(keeps(s, s.after_sysop_menu(x, key)));
        },
        Scene::MotdEditor(x) => {
            assert(keeps(s, s.after_motd_editor(x, key)));
        },
        Scene::Chat(x) => {
            assert(keeps(s, s.after_chat(x, key)));
        },
        _ => {},
    }
}

proof fn lemma_editors_keep(s: Session, key: Key)
    requires
        s.status is None,
        s.scene is Compose || s.scene is MailCompose,
    ensures
        keeps(s, s.after_screen(key)),
{
    match s.scene {
        Scene::Compose(draft, back) => {
            assert(keeps(s, s.after_compose(draft, *back, key)));
        },
        Scene::MailCompose(letter, back) => {
            assert(keeps(s, s.after_mail_compose(letter, *back, key)));
        },
        _ => {},
    }
}

proof fn lemma_menu_keeps(s: Session, key: Key)
    requires
        s.status is None,
        s.scene is Menu || s.scene is About || s.scene is Online,
    ensures
        keeps(s, s.after_screen(key)),
{
    match s.scene {
        Scene::Menu => {
            assert(keeps(s, s.after_menu(key)));
        },
        Scene::Online(_) => {
            assert(keeps(s, s.after_online(key)));
        },
        _ => {},
    }
}

/// Whatever key is pressed, the session stays that of the same user and keeps
/// its counts, and what was said last is said no longer unless it is said
/// anew.
#[verifier::rlimit(50)]
pub proof fn law_keys_change_no_identity(app: &mut App, key: Key, r: Option<Action>)
    requires
        call_ensures(App::handle_key, (app, key), r),
    ensures
        final(app).identity == old(app).identity,
        final(app).unread_mail == old(app).unread_mail,
        final(app).unread_threads == old(app).unread_threads,
        final(app).queue@ == old(app).queue@,
        r is Some ==> final(app).status is None,
{
    let before = old(app)@.session;
    let quiet = Session { status: None, ..before };
    match before.scene {
        Scene::Boards(_) | Scene::Threads(_) | Scene::Thread(_) => lemma_lists_keep(quiet, key),
        Scene::Mailbox(_) | Scene::Message(_) | Scene::Blocks(_) => lemma_mail_keep(quiet, key),
        Scene::Compose(..) | Scene::MailCompose(..) => lemma_editors_keep(quiet, key),
        Scene::Menu | Scene::About | Scene::Online(_) => lemma_menu_keeps(quiet, key),
        _ => lemma_forms_keep(quiet, key),
    }
    assert(keeps(before, before.after_key(key)));
}

} // verus!
