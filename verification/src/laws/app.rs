//! Laws of the whole interface: which screen a key leads to, what is asked of
//! the server for it, and where the answers go.

use vstd::prelude::*;

use crate::chars;
use crate::db::{Folder, MailItem, MailMessage};
use crate::laws::talking;
use crate::mail::MailNotice;
use crate::state::Identity;
use crate::ui::app;
use crate::ui::app::{App, MenuItem};
use crate::ui::input::Key;

use crate::ui::paint;
use crate::ui::paint::{Color, ListPane};
use crate::ui::protocol::{
    Action, BoardInfo, KeyInfo, OnlineInfo, PageTarget, Request, Response, ThreadDetail, ThreadInfo,
};

verus! {

/// No popup is up.
pub open spec fn clear(app: App) -> bool {
    app.motd_popup is None
}

/// A request goes out.
pub open spec fn requests(r: Option<Action>) -> bool {
    r matches Some(Action::Request(_))
}

pub open spec fn request(r: Option<Action>) -> Request {
    r->Some_0->Request_0
}

// --------------------------------------------------------------------- the menu

/// What an item of the menu leads to: its own screen, empty, and the request
/// that fills it.
pub open spec fn leads(item: MenuItem, who: Identity, to: App, r: Option<Action>) -> bool {
    match item {
        MenuItem::Board => to.screen is Boards && requests(r) && request(r) is ListBoards,
        MenuItem::Chat => if who is Guest {
            to.screen is Menu && r is None && to.status is Some && to.status->Some_0.is_error
        } else {
            to.screen is Chat && requests(r) && request(r) is JoinChat
                && to.screen->Chat_0.me@ == who->User_name@
        },
        MenuItem::Mail => to.screen is Mailbox && to.screen->Mailbox_0.folder is Inbox && requests(
            r,
        ) && request(r) is OpenMailbox && request(r)->OpenMailbox_folder is Inbox,
        MenuItem::Online => to.screen is Online && requests(r) && request(r) is WhoIsOnline,
        MenuItem::Register => to.screen is Register && r is None,
        MenuItem::Keys => to.screen is Keys && requests(r) && request(r) is ListKeys,
        MenuItem::Password => to.screen is Password && r is None,
        MenuItem::SysopTools => to.screen is SysopMenu && r is None,
        MenuItem::About => to.screen is About && r is None,
        MenuItem::LogOff => to.screen is Menu && r == Some(Action::Quit),
    }
}

/// Enter opens the item of the menu that is selected, and a digit the item
/// that it numbers.
#[verifier::rlimit(50)]
pub proof fn law_menu_items_open(
    app: &mut App,
    key: Key,
    items: Vec<MenuItem>,
    k: int,
    r: Option<Action>,
)
    requires
        call_ensures(App::handle_key, (app, key), r),
        call_ensures(App::menu_items, (old(app),), items),
        clear(*old(app)),
        old(app).screen is Menu,
        0 <= k < items@.len(),
        key == Key::Enter && k == old(app).selected || key == Key::Char((0x31 + k) as char) && k < 9,
    ensures
        leads(items@[k], old(app).identity, *final(app), r),
        final(app).selected == k,
        final(app).identity == old(app).identity,
        final(app).unread_threads == old(app).unread_threads,
        final(app).unread_mail == old(app).unread_mail,
{
    if key != Key::Enter {
        let c = (0x31 + k) as char;
        assert(c as u32 == 0x31 + k);
    }
}

/// Everyone finds what is for them on the menu, each item once, with the
/// boards first and logging off last.
pub proof fn law_menus_hold_what_is_allowed(app: &App, items: Vec<MenuItem>, i: int, j: int)
    requires
        call_ensures(App::menu_items, (app,), items),
    ensures
        items@.first() == MenuItem::Board,
        items@.last() == MenuItem::LogOff,
        items@.contains(MenuItem::Chat),
        items@.contains(MenuItem::Online),
        items@.contains(MenuItem::About),
        items@.contains(MenuItem::Register) == (app.identity is Guest),
        items@.contains(MenuItem::Mail) == (app.identity is User),
        items@.contains(MenuItem::Keys) == (app.identity is User),
        items@.contains(MenuItem::Password) == (app.identity is User),
        items@.contains(MenuItem::SysopTools) == (app.identity is User
            && app.identity->User_role is Sysop),
        0 <= i < j < items@.len() ==> items@[i] != items@[j],
        items@.len() <= 9,
{
    let s = items@;
    assert(s[1] == MenuItem::Chat);
    match app.identity {
        Identity::Guest => {
            assert(s[2] == MenuItem::Online);
            assert(s[3] == MenuItem::Register);
            assert(s[4] == MenuItem::About);
        },
        Identity::User { .. } => {
            assert(s[2] == MenuItem::Mail);
            assert(s[3] == MenuItem::Online);
            assert(s[4] == MenuItem::Keys);
            assert(s[5] == MenuItem::Password);
            if app.identity.sysop() {
                assert(s[6] == MenuItem::SysopTools);
                assert(s[7] == MenuItem::About);
            } else {
                assert(s[6] == MenuItem::About);
            }
        },
    }
}

/// Up and Down move over the menu one item at a time, round its ends.
pub proof fn law_moving_over_the_menu(
    app: &mut App,
    key: Key,
    items: Vec<MenuItem>,
    r: Option<Action>,
)
    requires
        call_ensures(App::handle_key, (app, key), r),
        call_ensures(App::menu_items, (old(app),), items),
        clear(*old(app)),
        old(app).screen is Menu,
        old(app).selected < items@.len(),
        key == Key::Up || key == Key::Down,
    ensures
        r is None,
        final(app).screen is Menu,
        key == Key::Up ==> final(app).selected == if old(app).selected > 0 {
            old(app).selected - 1
        } else {
            items@.len() - 1
        },
        key == Key::Down ==> final(app).selected == if old(app).selected + 1 < items@.len() {
            old(app).selected + 1
        } else {
            0
        },
{
    let count = items@.len() as int;
    let at = old(app).selected as int;
    assert(count == 6 || count == 8 || count == 9);
    if count == 6 {
        assert((at + 5) % 6 == if at > 0 { at - 1 } else { 5 });
        assert((at + 1) % 6 == if at + 1 < 6 { at + 1 } else { 0 });
    } else if count == 8 {
        assert((at + 7) % 8 == if at > 0 { at - 1 } else { 7 });
        assert((at + 1) % 8 == if at + 1 < 8 { at + 1 } else { 0 });
    } else {
        assert((at + 8) % 9 == if at > 0 { at - 1 } else { 8 });
        assert((at + 1) % 9 == if at + 1 < 9 { at + 1 } else { 0 });
    }
}

/// The menu is drawn with its items numbered in their order, with the selected
/// one marked.
pub proof fn law_the_menu_is_drawn(app: &App, items: Vec<MenuItem>, i: int, label: String, r: ListPane)
    requires
        call_ensures(App::draw_menu, (app,), r),
        call_ensures(App::menu_items, (app,), items),
        0 <= i < items@.len(),
        call_ensures(MenuItem::label, (items@[i], app.unread_threads, app.unread_mail), label),
    ensures
        r.items@.len() == items@.len(),
        r.items@[i].spans@.len() == 1,
        r.items@[i].spans@[0].text@ == seq!['[', (0x31 + i) as char, ']', ' '] + label@,
        r.selected == Some(app.selected),
{
    assert(items@.len() <= 9);
    let shown = paint::line_models(r.items@);
    assert(shown.len() == r.items@.len());
    assert(shown[i] == r.items@[i]@);
    assert(r.items@[i]@.len() == r.items@[i].spans@.len());
    assert(r.items@[i]@[0] == r.items@[i].spans@[0]@);
    reveal_strlit("[");
    reveal_strlit("] ");
    assert(chars::decimal((i + 1) as nat) == seq![(0x31 + i) as char]);
    assert("["@ + chars::decimal((i + 1) as nat) + "] "@ =~= seq!['[', (0x31 + i) as char, ']', ' ']);
}

/// The items are called what they lead to, and tell how much is unread.
pub proof fn law_menu_items_are_named(item: MenuItem, threads: i64, mail: i64, r: String)
    requires
        call_ensures(MenuItem::label, (item, threads, mail), r),
    ensures
        match item {
            MenuItem::Board => if threads > 0 {
                r@ == "Message boards ("@ + chars::decimal_int(threads as int) + " unread)"@
            } else {
                r@ == "Message boards"@
            },
            MenuItem::Mail => if mail > 0 {
                r@ == "Mail ("@ + chars::decimal_int(mail as int) + " unread)"@
            } else {
                r@ == "Mail"@
            },
            MenuItem::Chat => r@ == "Chat"@,
            MenuItem::Online => r@ == "Who's online"@,
            MenuItem::Register => r@ == "Register an account"@,
            MenuItem::Keys => r@ == "SSH keys"@,
            MenuItem::Password => r@ == "Change password"@,
            MenuItem::SysopTools => r@ == "Sysop tools"@,
            MenuItem::About => r@ == "About this BBS"@,
            MenuItem::LogOff => r@ == "Log off"@,
        },
{
}

/// The header greets the user by name, and the status line says what is to be
/// said, in red where it is an error.
pub proof fn law_who_and_what_is_shown(app: &App, header: String, status: (String, Color))
    ensures
        call_ensures(App::header, (app,), header) && app.identity is User
            ==> app.identity->User_name@.is_suffix_of(header@),
        call_ensures(App::status_line, (app,), status) ==> match app.status {
            Some(s) => status.0@ == s.text@ && (status.1 is Red) == s.is_error,
            None => status.0@.len() == 0,
        },
{
    if call_ensures(App::header, (app,), header) && app.identity is User {
        let name = app.identity->User_name@;
        assert(name =~= header@.subrange(header@.len() - name.len(), header@.len() as int));
    }
}

// ----------------------------------------------------------------- the boards

/// Enter in the list of boards opens the list of threads of the selected
/// board, from its first page.
pub proof fn law_enter_lists_the_boards_threads(app: &mut App, r: Option<Action>)
    requires
        call_ensures(App::handle_key, (app, Key::Enter), r),
        clear(*old(app)),
        old(app).screen is Boards,
        old(app).screen->Boards_0.mode is List,
        old(app).screen->Boards_0.selected < old(app).screen->Boards_0.boards@.len(),
    ensures
        ({
            let list = old(app).screen->Boards_0;
            let id = list.boards@[list.selected as int].id;
            &&& requests(r)
            &&& request(r) == Request::ListThreads { board_id: id, page: 0 }
            &&& final(app).screen is Threads
            &&& final(app).screen->Threads_0.board_id == id
        }),
{
}

/// Enter in the list of threads opens the selected thread where it is unread.
pub proof fn law_enter_opens_the_thread(app: &mut App, r: Option<Action>)
    requires
        call_ensures(App::handle_key, (app, Key::Enter), r),
        clear(*old(app)),
        old(app).screen is Threads,
        !old(app).screen->Threads_0.confirm_delete,
        old(app).screen->Threads_0.selected < old(app).screen->Threads_0.threads@.len(),
    ensures
        ({
            let list = old(app).screen->Threads_0;
            let id = list.threads@[list.selected as int].id;
            &&& requests(r)
            &&& request(r) == Request::OpenThread { thread_id: id, target: PageTarget::Smart }
            &&& final(app).screen is Thread
            &&& final(app).screen->Thread_0.thread_id == id
            &&& final(app).screen->Thread_0.board_id == list.board_id
            &&& final(app).screen->Thread_0.list_page == list.page
        }),
{
}

/// What was typed in the chat is what the server is asked to say.
pub proof fn law_what_is_typed_is_sent(app: &mut App, r: Option<Action>)
    requires
        call_ensures(App::handle_key, (app, Key::Enter), r),
        clear(*old(app)),
        old(app).screen is Chat,
        talking::snug(old(app).screen->Chat_0.input@.text),
        old(app).screen->Chat_0.input@.text[0] != '/',
    ensures
        requests(r),
        request(r) matches Request::ChatSay { text, action } && text@
            == old(app).screen->Chat_0.input@.text && !action,
        final(app).screen is Chat,
{
}

/// Esc in the chat leaves it, for the menu.
pub proof fn law_leaving_the_chat(app: &mut App, r: Option<Action>)
    requires
        call_ensures(App::handle_key, (app, Key::Esc), r),
        clear(*old(app)),
        old(app).screen is Chat,
    ensures
        requests(r),
        request(r) is LeaveChat,
        final(app).screen is Menu,
{
}

// ---------------------------------------------------------------- the answers

/// A notice that comes with an answer is said, and is no error.
pub open spec fn noted(notice: Option<String>, from: App, to: App) -> bool {
    match notice {
        Some(text) => to.status is Some && to.status->Some_0.text@ == text@
            && !to.status->Some_0.is_error,
        None => app::say_of(to.status) == app::say_of(from.status),
    }
}

/// Boards that arrive are listed, where the list of boards is up, and the
/// menu counts what is unread in them.
pub proof fn law_boards_that_arrive_are_listed(
    app: &mut App,
    boards: Vec<BoardInfo>,
    notice: Option<String>,
)
    requires
        call_ensures(App::on_response, (app, Response::Boards { boards, notice }), ()),
        app::total_fits(boards@),
    ensures
        final(app).unread_threads == app::total_unread(boards@),
        old(app).screen is Boards ==> final(app).screen is Boards
            && final(app).screen->Boards_0.boards@ == boards@ && final(app).screen->Boards_0.loaded,
        noted(notice, *old(app), *final(app)),
        final(app).identity == old(app).identity,
{
    assert(boards@.take(boards@.len() as int) =~= boards@);
}

/// Threads that arrive are listed under their board, from the top.
pub proof fn law_threads_that_arrive_are_listed(
    app: &mut App,
    board_id: i64,
    board_name: String,
    threads: Vec<ThreadInfo>,
    notice: Option<String>,
    page: usize,
    pages: usize,
    total: usize,
)
    requires
        call_ensures(
            App::on_response,
            (
                app,
                Response::Threads { board_id, board_name, threads, notice, page, pages, total },
            ),
            (),
        ),
    ensures
        final(app).screen is Threads,
        final(app).screen->Threads_0.board_id == board_id,
        final(app).screen->Threads_0.board_name@ == board_name@,
        final(app).screen->Threads_0.threads@ == threads@,
        final(app).screen->Threads_0.page == page,
        final(app).screen->Threads_0.pages == pages,
        final(app).screen->Threads_0.total == total,
        final(app).screen->Threads_0.selected == 0,
        final(app).screen->Threads_0.loaded,
        noted(notice, *old(app), *final(app)),
{
}

/// A thread that arrives is shown, and leads back to the page of the list
/// that it was opened from.
pub proof fn law_a_thread_that_arrives_is_shown(
    app: &mut App,
    detail: ThreadDetail,
    to_end: bool,
    notice: Option<String>,
)
    requires
        call_ensures(App::on_response, (app, Response::Thread { detail, to_end, notice }), ()),
    ensures
        final(app).screen is Thread,
        final(app).screen->Thread_0.thread_id == detail.id,
        final(app).screen->Thread_0.board_id == detail.board_id,
        final(app).screen->Thread_0.posts@ == detail.posts@,
        final(app).screen->Thread_0.title@ == detail.title@,
        final(app).screen->Thread_0.page == detail.page,
        final(app).screen->Thread_0.pages == detail.pages,
        old(app).screen is Thread ==> final(app).screen->Thread_0.list_page
            == old(app).screen->Thread_0.list_page,
        noted(notice, *old(app), *final(app)),
{
}

/// Mail that arrives is listed in its folder, a message is shown as it is, and
/// both tell how much is unread.
pub proof fn law_mail_that_arrives_is_shown(
    app: &mut App,
    folder: Folder,
    items: Vec<MailItem>,
    message: MailMessage,
    unread: i64,
    notice: Option<String>,
)
    ensures
        call_ensures(
            App::on_response,
            (app, Response::Mailbox { folder, items, unread, notice }),
            (),
        ) ==> final(app).screen is Mailbox && final(app).screen->Mailbox_0.folder == folder
            && final(app).screen->Mailbox_0.items@ == items@ && final(app).screen->Mailbox_0.selected == 0 && final(app).unread_mail == unread && noted(
            notice,
            *old(app),
            *final(app),
        ),
        call_ensures(App::on_response, (app, Response::Message { message, unread }), ()) ==> final(app).screen is Message && final(app).screen->Message_0.message == message && final(app).screen->Message_0.confirm is None && final(app).unread_mail == unread,
{
}

/// Errors are said in so many words, on the screen that is up.
pub proof fn law_errors_are_said(app: &mut App, text: String)
    requires
        call_ensures(App::on_response, (app, Response::Error(text)), ()),
    ensures
        final(app).status is Some,
        final(app).status->Some_0.text@ == text@,
        final(app).status->Some_0.is_error,
        final(app).screen.scene() == old(app).screen.scene(),
        final(app).identity == old(app).identity,
        final(app).unread_mail == old(app).unread_mail,
        final(app).unread_threads == old(app).unread_threads,
{
}

/// Names that are blocked, keys and people online that arrive are listed on
/// their screens.
pub proof fn law_lists_that_arrive_are_shown(
    app: &mut App,
    names: Vec<String>,
    keys: Vec<KeyInfo>,
    users: Vec<OnlineInfo>,
    guests: usize,
    notice: Option<String>,
    outcome: Option<Result<String, String>>,
)
    ensures
        call_ensures(App::on_response, (app, Response::Blocks { names, notice }), ()) ==> final(app).screen is Blocks && final(app).screen->Blocks_0.names@ == names@ && noted(
            notice,
            *old(app),
            *final(app),
        ),
        call_ensures(App::on_response, (app, Response::Keys { keys, notice: outcome }), ()) && old(app).screen is Keys ==> final(app).screen is Keys && final(app).screen->Keys_0.keys@ == keys@
            && match outcome {
            Some(Ok(text)) => final(app).status is Some && final(app).status->Some_0.text@ == text@
                && !final(app).status->Some_0.is_error,
            Some(Err(text)) => final(app).status is Some && final(app).status->Some_0.text@
                == text@ && final(app).status->Some_0.is_error,
            None => true,
        },
        call_ensures(App::on_response, (app, Response::Online { users, guests }), ()) && old(app).screen is Online ==> final(app).screen is Online && final(app).screen->Online_0.users@ == users@ && final(app).screen->Online_0.guests == guests,
{
}

/// A user who has registered is logged in from then on, under their name, at
/// the menu, and is told so. One who could not stays in the form and is told
/// why.
pub proof fn law_registering_logs_in(app: &mut App, who: Identity, why: String)
    ensures
        call_ensures(App::on_response, (app, Response::Registered(Ok(who))), ()) ==> final(app).identity == who && final(app).screen is Menu && final(app).selected == 0 && final(app).status is Some && !final(app).status->Some_0.is_error,
        call_ensures(App::on_response, (app, Response::Registered(Err(why))), ()) && old(app).screen is Register ==> final(app).identity == old(app).identity && final(app).screen is Register && final(app).screen->Register_0.error is Some && final(app).screen->Register_0.error->Some_0@ == why@ && !final(app).screen->Register_0.busy,
{
}

/// Mail for this user is counted and its sender named; mail for others is not
/// noticed.
pub proof fn law_new_mail_is_noticed(app: &mut App, notice: MailNotice, r: bool)
    requires
        call_ensures(App::on_mail_notice, (app, notice), r),
        old(app).unread_mail < i64::MAX,
    ensures
        r == (old(app).identity matches Identity::User { id, .. } && id == notice.to_user_id),
        r ==> final(app).unread_mail == old(app).unread_mail + 1 && final(app).status is Some
            && !final(app).status->Some_0.is_error && ("New mail from "@ + notice.from@
            + "."@).is_prefix_of(final(app).status->Some_0.text@),
        !r ==> final(app)@ == old(app)@,
        final(app).screen.scene() == old(app).screen.scene(),
        final(app).identity == old(app).identity,
{
    if r {
        let said = "New mail from "@ + notice.from@ + "."@;
        let shown = final(app).status->Some_0.text@;
        assert(said =~= shown.subrange(0, said.len() as int));
    }
}

/// A session begins at the menu, with a hint at the keys and nothing unread.
pub proof fn law_sessions_begin_at_the_menu(who: Identity, app: App)
    requires
        call_ensures(App::new, (who,), app),
    ensures
        app.identity == who,
        app.screen is Menu,
        app.selected == 0,
        app.status is Some,
        !app.status->Some_0.is_error,
        app.motd_popup is None,
        app.unread_mail == 0,
        app.unread_threads == 0,
        app.queue@.len() == 0,
{
    assert(app::say_of(app.status) is Some);
}

/// A message of the day is up, as it was written, until Enter; until then no
/// key does anything else but Ctrl-C.
pub proof fn law_the_message_of_the_day(app: &mut App, text: String, key: Key, r: Option<Action>)
    ensures
        call_ensures(App::set_motd, (app, Some(text)), ()) && text@.len() > 0
            ==> final(app).motd_popup is Some && final(app).motd_popup->Some_0@ == text@,
        call_ensures(App::set_motd, (app, None), ()) ==> final(app).motd_popup is None,
        call_ensures(App::handle_key, (app, key), r) && old(app).motd_popup is Some ==> r is None
            && final(app).screen.scene() == old(app).screen.scene() && final(app).motd_popup
            is Some == (key != Key::Enter),
{
}

} // verus!
