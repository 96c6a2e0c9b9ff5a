//! Laws of a session as it runs: how input becomes keys and keys become
//! requests, where live events and refusals go, and what the fields show.

use vstd::prelude::*;

use crate::chars;
use crate::chat;
use crate::chat::{ChatEvent, ChatKind, ChatSnapshot, Entry, Happening};
use crate::laws::compose as typing;
use crate::laws::editing;
use crate::ui::app;
use crate::ui::app::{App, Scene, Screen};
use crate::ui::boards::{
    BoardList, EditBoardForm, FormOutcome, Mode, NewBoardForm, ThreadList, ThreadView,
};
use crate::ui::chat as screen;
use crate::ui::chat::{ChatLine, ChatScreen, Saying};
use crate::ui::compose::{Compose, TextArea};
use crate::ui::input::{FieldView, Key, KeyParser, TextInput};
use crate::ui::mail::MailCompose;
use crate::ui::paint::{Color, Rect};
use crate::ui::password::PasswordForm;
use crate::ui::protocol::{Action, BoardInfo, Response};
use crate::ui::register::RegisterForm;
use crate::ui::sysop::MotdEditor;

verus! {

// ------------------------------------------------------------------------- keys

/// What is typed waits its turn: its keys come behind those that wait
/// already, in order, and nothing else changes.
pub proof fn law_input_waits_its_turn(
    app: &mut App,
    parser: &mut KeyParser,
    data: &[u8],
    keys: Vec<Key>,
)
    requires
        call_ensures(App::push_input, (app, data), ()),
        call_ensures(KeyParser::feed, (parser, data), keys),
        old(parser)@ == old(app).parser@,
    ensures
        old(app).queue@.len() + keys@.len() <= 4096 ==> final(app).queue@ == old(app).queue@
            + keys@,
        final(app).queue@.len() <= 4096 || old(app).queue@.len() > 4096,
        final(app).parser@ == final(parser)@,
        final(app).session() == old(app).session(),
{
}

/// The keys that wait are taken one by one, from the first on, until one asks
/// for something; the keys behind it go on waiting. Ctrl-C logs off.
pub proof fn law_keys_are_taken_in_turn(
    app: &mut App,
    first: &mut App,
    then: &mut App,
    r: Option<Action>,
    one: Option<Action>,
    rest: Option<Action>,
)
    requires
        call_ensures(App::pump, (app,), r),
        old(app).queue@.len() > 0,
        call_ensures(App::handle_key, (first, old(app).queue@[0]), one),
        old(first).session() == old(app).session(),
        call_ensures(App::pump, (then,), rest),
        old(then).session() == final(first).session(),
        old(then).queue@ == old(app).queue@.drop_first(),
    ensures
        old(app).queue@[0] == Key::Ctrl('c') ==> r == Some(Action::Quit) && final(app).queue@
            == old(app).queue@.drop_first() && final(app).session() == old(app).session(),
        old(app).queue@[0] != Key::Ctrl('c') && one is Some ==> r is Some && r->Some_0@
            == one->Some_0@ && final(app).session() == final(first).session() && final(app).queue@
            == old(app).queue@.drop_first(),
        old(app).queue@[0] != Key::Ctrl('c') && one is None ==> app::step_of(r) == app::step_of(
            rest,
        ) && final(app).session() == final(then).session() && final(app).queue@
            == final(then).queue@,
{
    assert(app::stepped(
        old(first)@,
        final(first)@,
        one,
        old(first)@.session.after_key(old(app).queue@[0]),
    ));
}

/// Without keys nothing happens.
pub proof fn law_no_keys_no_change(app: &mut App, r: Option<Action>)
    requires
        call_ensures(App::pump, (app,), r),
        old(app).queue@.len() == 0,
    ensures
        r is None,
        final(app)@ == old(app)@,
{
}

// ------------------------------------------------------------------------ events

/// Live events and snapshots go to the chat, where it is up, and nowhere else.
#[verifier::rlimit(50)]
pub proof fn law_chat_events_go_to_the_chat(
    app: &mut App,
    chat: &mut ChatScreen,
    event: ChatEvent,
    snapshot: ChatSnapshot,
    r: bool,
    shown: bool,
)
    ensures
        old(app).screen is Chat && old(app).screen->Chat_0@ == old(chat)@ && call_ensures(
            App::on_chat_event,
            (app, event),
            r,
        ) && call_ensures(ChatScreen::on_event, (chat, event), shown) ==> r == shown && final(app).screen is Chat && final(app).screen->Chat_0@ == final(chat)@,
        old(app).screen is Chat && old(app).screen->Chat_0@ == old(chat)@ && call_ensures(
            App::on_chat_snapshot,
            (app, snapshot),
            r,
        ) && call_ensures(ChatScreen::set_snapshot, (chat, snapshot), ()) ==> r && final(app).screen is Chat && final(app).screen->Chat_0@ == final(chat)@,
        old(app).screen is Chat && old(app).screen->Chat_0@ == old(chat)@ && call_ensures(
            App::on_response,
            (app, Response::ChatJoined(snapshot)),
            (),
        ) && call_ensures(ChatScreen::set_snapshot, (chat, snapshot), ()) ==> final(app).screen is Chat && final(app).screen->Chat_0@ == final(chat)@,
        !(old(app).screen is Chat) && call_ensures(App::on_chat_event, (app, event), r) ==> !r
            && final(app)@ == old(app)@,
        !(old(app).screen is Chat) && call_ensures(App::on_chat_snapshot, (app, snapshot), r)
            ==> !r && final(app)@ == old(app)@,
{
    let to = final(app).screen;
    assert(to.scene() == final(app)@.session.scene);
}

/// What is refused is said where it was asked for, and what was written there
/// stays.
#[verifier::rlimit(50)]
pub proof fn law_refusals_go_to_their_forms(app: &mut App, why: String)
    ensures
        call_ensures(App::on_response, (app, Response::PostFailed(why)), ()) && old(app).screen is Compose ==> final(app).screen is Compose && ({
            let before = old(app).screen->Compose_0.compose;
            let after = final(app).screen->Compose_0.compose;
            &&& after@.error == Some(why@)
            &&& !after.busy
            &&& after@.body == before@.body
            &&& after@.title == before@.title
            &&& after.kind == before.kind
        }),
        call_ensures(App::on_response, (app, Response::MailFailed(why)), ()) && old(app).screen is MailCompose ==> final(app).screen is MailCompose && ({
            let before = old(app).screen->MailCompose_0.form;
            let after = final(app).screen->MailCompose_0.form;
            &&& after@.error == Some(why@)
            &&& !after.busy
            &&& after@.body == before@.body
            &&& after@.subject == before@.subject
            &&& after@.to == before@.to
        }),
        call_ensures(App::on_response, (app, Response::PasswordChanged(Err(why))), ()) && old(app).screen is Password ==> final(app).screen is Password && final(app).screen->Password_0@.error == Some(why@) && !final(app).screen->Password_0.busy,
        call_ensures(App::on_response, (app, Response::PasswordChanged(Ok(why))), ()) ==> final(app).screen is Menu && final(app).status is Some && final(app).status->Some_0.text@ == why@
            && !final(app).status->Some_0.is_error,
        call_ensures(App::on_response, (app, Response::ChatRejected(why)), ()) && old(app).screen is Chat ==> final(app).screen is Chat && final(app).screen->Chat_0@.lines.len() > 0 && final(app).screen->Chat_0@.lines.last()
            == Saying::System(why@),
        call_ensures(App::on_response, (app, Response::SysopActionFailed(why)), ()) && old(app).screen is MotdEditor ==> final(app).screen is MotdEditor && final(app).screen->MotdEditor_0@.error == Some(why@) && final(app).screen->MotdEditor_0@.body
            == old(app).screen->MotdEditor_0@.body,
        call_ensures(App::on_response, (app, Response::Nothing), ()) ==> final(app)@ == old(app)@,
{
    reveal_with_fuel(Screen::scene, 2);
    let to = final(app).screen;
    assert(to.scene() == final(app)@.session.scene);
    if to is Compose {
        assert(to.scene() == Scene::Compose(
            to->Compose_0.compose@,
            Box::new(to->Compose_0.back.scene()),
        ));
    }
    if to is MailCompose {
        assert(to.scene() == Scene::MailCompose(
            to->MailCompose_0.form@,
            Box::new(to->MailCompose_0.back.scene()),
        ));
    }
}

/// The message of the day goes to its editor, as far as that is up; what is
/// refused to a sysop is said in the form it was asked from, or else on the
/// status line.
pub proof fn law_answers_to_sysops(
    app: &mut App,
    editor: &mut MotdEditor,
    list: &mut BoardList,
    words: &str,
    text: String,
    why: String,
    notice: Option<String>,
)
    ensures
        old(app).screen is MotdEditor && old(app).screen->MotdEditor_0@ == old(editor)@ && text@
            == words@ && call_ensures(App::on_response, (app, Response::Motd { text, notice }), ())
            && call_ensures(MotdEditor::set_text, (editor, words), ()) ==> final(app).screen is MotdEditor && final(app).screen->MotdEditor_0@ == final(editor)@,
        old(app).screen is Boards && old(app).screen->Boards_0@ == old(list)@ && call_ensures(
            App::on_response,
            (app, Response::SysopActionFailed(why)),
            (),
        ) && call_ensures(BoardList::fail, (list, why), ()) ==> final(app).screen is Boards
            && final(app).screen->Boards_0@ == final(list)@,
        !(old(app).screen is Boards) && !(old(app).screen is MotdEditor) && call_ensures(
            App::on_response,
            (app, Response::SysopActionFailed(why)),
            (),
        ) ==> final(app).status is Some && final(app).status->Some_0.text@ == why@ && final(app).status->Some_0.is_error,
{
    assert(final(app).screen.scene() == final(app)@.session.scene);
}

/// A refused form about a board says why and keeps what was typed.
pub proof fn law_refused_boards_say_why(list: &mut BoardList, why: String)
    requires
        call_ensures(BoardList::fail, (list, why), ()),
    ensures
        match old(list).mode {
            Mode::New(form) => final(list).mode matches Mode::New(now) && now@.error == Some(why@)
                && !now.busy && now@.name == form@.name && now@.description == form@.description,
            Mode::Edit(form) => final(list).mode matches Mode::Edit(now) && now@.error == Some(
                why@,
            ) && !now.busy && now@.description == form@.description && now.board_id
                == form.board_id,
            Mode::List => final(list).mode is List,
        },
        final(list).boards@ == old(list).boards@,
        final(list).selected == old(list).selected,
{
    assert(final(list)@.mode == final(list).mode@);
    assert(old(list)@.mode == old(list).mode@);
}

/// What one is doing is told by the screen that is up.
pub proof fn law_what_one_is_doing(app: &App, r: &'static str)
    requires
        call_ensures(App::activity, (app,), r),
    ensures
        app.motd_popup is Some ==> r@ == "Reading the message of the day"@,
        app.motd_popup is None ==> match app.screen {
            Screen::Menu | Screen::About => r@ == "Main menu"@,
            Screen::Register(_) => r@ == "Registering"@,
            Screen::Keys(_) => r@ == "Managing SSH keys"@,
            Screen::Boards(_) => r@ == "Browsing boards"@,
            Screen::Threads(_) => r@ == "Browsing threads"@,
            Screen::Thread(_) => r@ == "Reading a thread"@,
            Screen::Compose(_) => r@ == "Writing a post"@,
            Screen::Online(_) => r@ == "Checking who's online"@,
            Screen::Chat(_) => r@ == "Chatting"@,
            Screen::Password(_) => r@ == "Account settings"@,
            Screen::Mailbox(_) | Screen::Message(_) | Screen::Blocks(_) => r@ == "Reading mail"@,
            Screen::MailCompose(_) => r@ == "Writing mail"@,
            Screen::SysopMenu(_) | Screen::MotdEditor(_) => r@ == "Sysop tools"@,
        },
{
}

/// The counts on the menu are those that were given, and the unread threads
/// of all boards are added up.
pub proof fn law_counts(app: &mut App, n: i64, boards: &Vec<BoardInfo>, sum: Option<i64>)
    ensures
        call_ensures(App::set_unread_threads, (app, n), ()) ==> final(app).unread_threads == n
            && final(app).unread_mail == old(app).unread_mail,
        call_ensures(App::set_unread_mail, (app, n), ()) ==> final(app).unread_mail == n && final(app).unread_threads == old(app).unread_threads,
        call_ensures(app::sum_unread, (boards,), sum) && boards@.len() == 0 ==> sum == Some(0i64),
        call_ensures(app::sum_unread, (boards,), sum) && boards@.len() == 1 ==> sum == Some(
            boards@[0].unread_threads,
        ),
        call_ensures(app::sum_unread, (boards,), sum) && boards@.len() == 2 && i64::MIN
            <= boards@[0].unread_threads + boards@[1].unread_threads <= i64::MAX ==> (
        sum matches Some(s) && s == boards@[0].unread_threads + boards@[1].unread_threads),
{
    if call_ensures(app::sum_unread, (boards,), sum) {
        reveal_with_fuel(app::total_unread, 3);
        assert(boards@.take(0) =~= Seq::<BoardInfo>::empty());
        if boards@.len() == 1 {
            assert(boards@.take(1) =~= boards@);
            assert(boards@.drop_last() =~= Seq::<BoardInfo>::empty());
        }
        if boards@.len() == 2 {
            assert(boards@.take(2) =~= boards@);
            assert(boards@.drop_last() =~= boards@.take(1));
            assert(boards@.take(1).drop_last() =~= Seq::<BoardInfo>::empty());
            assert(boards@.take(1).last() == boards@[0]);
        }
        assert forall|n: int| 0 <= n <= boards@.len() && boards@.len() <= 2 && (boards@.len() < 2
            || i64::MIN <= boards@[0].unread_threads + boards@[1].unread_threads
            <= i64::MAX) implies i64::MIN <= app::total_unread(#[trigger] boards@.take(n))
            <= i64::MAX by {
            if n == 1 {
                assert(boards@.take(1).drop_last() =~= Seq::<BoardInfo>::empty());
            }
        }
    }
}

/// The message of the day lies in the middle of the screen and inside it.
#[verifier::rlimit(50)]
pub proof fn law_the_popup_is_in_the_middle(text: &str, full: Rect, r: Rect)
    requires
        call_ensures(app::motd_popup, (text, full), r),
        full.wf(),
        full.width >= 1,
        full.height >= 1,
    ensures
        full.x <= r.x,
        r.x + r.width <= full.x + full.width,
        full.y <= r.y,
        r.y + r.height <= full.y + full.height,
        1 <= r.width,
        1 <= r.height,
        full.width >= 54 ==> r.width >= 50,
        ({
            let left = r.x - full.x;
            let right = full.x + full.width - r.x - r.width;
            let above = r.y - full.y;
            let below = full.y + full.height - r.y - r.height;
            right - 1 <= left <= right && below - 1 <= above <= below
        }),
{
}

// ------------------------------------------------------------------ the snapshot

/// A line of the chat tells of an event.
pub open spec fn tells(line: ChatLine, event: ChatEvent) -> bool {
    match event.kind {
        ChatKind::Message { from, is_sysop, text, action } => line
            matches ChatLine::Message {
            at,
            from: shown,
            is_sysop: sysop,
            text: said,
            action: acted,
        } && at == event.at && shown@ == from@ && sysop == is_sysop && said@ == text@ && acted
            == action,
        ChatKind::Join { name, .. } => line matches ChatLine::Join {
            at,
            name: shown,
        } && at == event.at && shown@ == name@,
        ChatKind::Leave { name } => line matches ChatLine::Leave {
            at,
            name: shown,
        } && at == event.at && shown@ == name@,
    }
}

/// What a line says of an event.
pub open spec fn said_of(e: Entry) -> Saying {
    match e.kind {
        Happening::Message { from, is_sysop, text, action } => Saying::Message {
            at: e.at,
            from,
            is_sysop,
            text,
            action,
        },
        Happening::Join { name, .. } => Saying::Join { at: e.at, name },
        Happening::Leave { name } => Saying::Leave { at: e.at, name },
    }
}

proof fn lemma_applied_lines(chat: screen::Chatting, events: Seq<Entry>)
    requires
        chat.lines.len() == 0,
        events.len() <= 500,
    ensures
        chat.applied_all(events).lines.len() == events.len(),
        forall|i: int|
            0 <= i < events.len() ==> #[trigger] chat.applied_all(events).lines[i] == said_of(
                events[i],
            ),
    decreases events.len(),
{
    if events.len() > 0 {
        let front = events.drop_last();
        lemma_applied_lines(chat, front);
        let before = chat.applied_all(front);
        let after = chat.applied_all(events);
        assert(after.lines == before.lines.push(said_of(events.last())));
        assert forall|i: int| 0 <= i < events.len() implies #[trigger] after.lines[i] == said_of(
            events[i],
        ) by {
            if i < front.len() {
                assert(front[i] == events[i]);
                assert(after.lines[i] == before.lines[i]);
            }
        }
    }
}

/// On joining, the chat shows what had been said, line by line and in order,
/// and is ready for what comes next.
pub proof fn law_the_history_is_shown(screen: &mut ChatScreen, snapshot: ChatSnapshot, i: int)
    requires
        call_ensures(ChatScreen::set_snapshot, (screen, snapshot), ()),
        old(screen).pending@.len() == 0,
        snapshot.history@.len() <= 500,
    ensures
        final(screen).lines@.len() == snapshot.history@.len(),
        0 <= i < snapshot.history@.len() ==> tells(final(screen).lines@[i], snapshot.history@[i]),
        final(screen).loaded,
        final(screen).last_seq == snapshot.seq,
        final(screen).offset == 0,
{
    let events = chat::entries(snapshot.history@);
    let cleared = screen::Chatting {
        lines: Seq::empty(),
        members: chat::people(snapshot.members@),
        last_seq: 0,
        offset: 0,
        ..old(screen)@
    };
    lemma_applied_lines(cleared, events);
    lemma_offset_stays(cleared, events);
    let after = final(screen)@;
    assert(after.lines == cleared.applied_all(events).lines);
    assert(screen::sayings(final(screen).lines@) == after.lines);
    assert(after.lines.len() == final(screen).lines@.len());
    if 0 <= i < snapshot.history@.len() {
        assert(after.lines[i] == final(screen).lines@[i]@);
        assert(events[i] == snapshot.history@[i]@);
    }
}

proof fn lemma_offset_stays(chat: screen::Chatting, events: Seq<Entry>)
    requires
        chat.offset == 0,
    ensures
        chat.applied_all(events).offset == 0,
    decreases events.len(),
{
    if events.len() > 0 {
        lemma_offset_stays(chat, events.drop_last());
    }
}

/// The chat begins empty and under one's own name, and a notice is its newest
/// line.
pub proof fn law_the_chat_begins_empty(
    me: &str,
    fresh: ChatScreen,
    screen: &mut ChatScreen,
    notice: String,
    width: u16,
    beside: bool,
)
    ensures
        call_ensures(ChatScreen::new, (me,), fresh) ==> fresh.me@ == me@ && fresh.lines@.len() == 0
            && fresh.members@.len() == 0 && !fresh.loaded && fresh.input@.text.len() == 0,
        call_ensures(ChatScreen::add_system, (screen, notice), ()) ==> final(screen).lines@.len() > 0 && (final(screen).lines@.last() matches ChatLine::System(text) && text@
            == notice@) && final(screen)@.members == old(screen)@.members,
        call_ensures(screen::shows_members, (width,), beside) ==> beside == (width >= 60),
{
    if call_ensures(ChatScreen::new, (me,), fresh) {
        assert(screen::sayings(fresh.lines@).len() == fresh.lines@.len());
        assert(chat::people(fresh.members@).len() == fresh.members@.len());
    }
    if call_ensures(ChatScreen::add_system, (screen, notice), ()) {
        let lines = final(screen).lines@;
        assert(screen::sayings(lines).len() == lines.len());
        assert(screen::sayings(lines).last() == Saying::System(notice@));
        assert(screen::sayings(lines).last() == lines.last()@);
    }
}

// --------------------------------------------------------------------- the fields

/// A text that fits its field is shown whole, with the cursor where it is;
/// what is masked shows as that many stars. Of a longer text, the part with
/// the cursor is shown.
pub proof fn law_fields_show_their_text(field: &TextInput, area: Rect, focused: bool, r: FieldView)
    requires
        call_ensures(TextInput::render, (field, area, focused), r),
        field@.wf(),
        area.width > 2,
        area.height > 2,
    ensures
        r.focused == focused,
        r.text@.len() <= area.width - 2,
        field@.text.len() < area.width - 2 && !field@.masked ==> r.text@ == field@.text,
        field@.text.len() < area.width - 2 && field@.masked ==> r.text@ == Seq::new(
            field@.text.len(),
            |i: int| '*',
        ),
        field@.text.len() < area.width - 2 && focused ==> (r.cursor matches Some(at) && at.0
            == area.x + 1 + field@.cursor && at.1 == area.y + 1),
        !focused ==> r.cursor is None,
        focused ==> (r.cursor matches Some(at) && area.x < at.0 < area.x + area.width - 1),
        focused && !field@.masked && field@.cursor < field@.text.len() ==> (r.cursor matches Some(
            at,
        ) && r.text@[at.0 - area.x - 1] == field@.text[field@.cursor]),
{
    let width = area.width - 2;
    if field@.text.len() < width {
        assert(field@.text.skip(0) =~= field@.text);
        assert(field@.shown(width) =~= if field@.masked {
            Seq::new(field@.text.len(), |i: int| '*')
        } else {
            field@.text
        });
    }
}

/// A text whose lines fit the editor is shown as it is, with the cursor where
/// it is.
pub proof fn law_editors_show_their_text(area: &TextArea, place: Rect, focused: bool, r: FieldView)
    requires
        call_ensures(TextArea::render, (area, place, focused), r),
        area@.wf(),
        place.width > 2,
        place.height > 2,
        area@.lines.len() < place.height - 2,
        forall|i: int| 0 <= i < area@.lines.len() ==> (#[trigger] area@.lines[i]).len() < place.width - 2,
    ensures
        r.text@ == chars::joined(area@.lines, "\n"@),
        r.focused == focused,
        focused ==> (r.cursor matches Some(at) && at.0 == place.x + 1 + area@.col && at.1 == place.y
            + 1 + area@.row),
        !focused ==> r.cursor is None,
{
    assert(area@.lines[area@.row].len() < place.width - 2);
    let shown = area@.shown(place.width - 2, place.height - 2);
    assert(shown =~= area@.lines) by {
        assert forall|i: int| 0 <= i < shown.len() implies shown[i] == area@.lines[i] by {
            assert(shown[i] =~= area@.lines[i]);
        }
    }
}

// ---------------------------------------------------------------------- the forms

/// Forms begin empty, and those about something name it.
pub proof fn law_forms_begin(
    registration: RegisterForm,
    password: PasswordForm,
    name: &str,
    board: NewBoardForm,
    edit: EditBoardForm,
    id: i64,
    title: String,
    text: &str,
    label: String,
)
    ensures
        call_ensures(RegisterForm::new, (), registration) ==> registration.username@.text.len() == 0
            && registration.password@.text.len() == 0 && registration.password@.masked
            && registration.confirm@.masked && registration.focus == 0 && !registration.busy,
        call_ensures(PasswordForm::new, (name,), password) ==> password.username@ == name@
            && password.current@.text.len() == 0 && password.current@.masked
            && password.new@.masked && password.confirm@.masked && password.focus == 0
            && !password.busy,
        call_ensures(NewBoardForm::new, (), board) ==> board.name@.text.len() == 0
            && board.description@.text.len() == 0 && board.focus == 0 && !board.busy,
        call_ensures(EditBoardForm::new, (id, title, text), edit) && text@.len() <= 80 && (
        forall|i: int| 0 <= i < text@.len() ==> !chars::control(#[trigger] text@[i]))
            ==> edit.board_id == id && edit.board_name@ == title@ && edit.description@.text == text@
            && !edit.busy,
        call_ensures(EditBoardForm::label, (&edit,), label) ==> label@ == "Description of \""@
            + edit.board_name@ + "\""@,
{
    if text@.len() <= 80 && (forall|i: int|
        0 <= i < text@.len() ==> !chars::control(#[trigger] text@[i])) {
        editing::lemma_typed(80, false, text@);
    }
}

/// A refused form says why. What was typed stays, but passwords are wiped.
pub proof fn law_refused_forms_say_why(
    registration: &mut RegisterForm,
    password: &mut PasswordForm,
    letter: &mut MailCompose,
    motd: &mut MotdEditor,
    board: &mut NewBoardForm,
    edit: &mut EditBoardForm,
    why: String,
)
    ensures
        call_ensures(RegisterForm::fail, (registration, why), ()) ==> final(registration)@.error
            == Some(why@) && !final(registration).busy && final(registration)@.username == old(registration)@.username && final(registration)@.password.text.len() == 0 && final(registration)@.confirm.text.len() == 0,
        call_ensures(PasswordForm::fail, (password, why), ()) ==> final(password)@.error == Some(
            why@,
        ) && !final(password).busy && final(password)@.current.text.len() == 0 && final(password)@.new.text.len() == 0 && final(password)@.confirm.text.len() == 0,
        call_ensures(MailCompose::fail, (letter, why), ()) ==> final(letter)@.error == Some(why@)
            && !final(letter).busy && final(letter)@.to == old(letter)@.to && final(letter)@.subject
            == old(letter)@.subject && final(letter)@.body == old(letter)@.body,
        call_ensures(MotdEditor::fail, (motd, why), ()) ==> final(motd)@.error == Some(why@)
            && !final(motd).busy && final(motd)@.body == old(motd)@.body,
        call_ensures(NewBoardForm::fail, (board, why), ()) ==> final(board)@.error == Some(why@)
            && !final(board).busy && final(board)@.name == old(board)@.name && final(board)@.description == old(board)@.description,
        call_ensures(EditBoardForm::fail, (edit, why), ()) ==> final(edit)@.error == Some(why@)
            && !final(edit).busy && final(edit)@.description == old(edit)@.description,
{
}

/// Below the forms stands why they were refused, in red.
pub proof fn law_refusals_are_shown(
    letter: &MailCompose,
    motd: &MotdEditor,
    board: &NewBoardForm,
    edit: &EditBoardForm,
    r: (String, Color),
)
    ensures
        call_ensures(MailCompose::status, (letter,), r) && !letter.busy && letter.error is Some
            ==> r.0@ == letter.error->Some_0@ && r.1 is Red,
        call_ensures(MotdEditor::status, (motd,), r) && motd.loaded && !motd.busy
            && motd.error is Some ==> r.0@ == motd.error->Some_0@ && r.1 is Red,
        call_ensures(NewBoardForm::status, (board,), r) && !board.busy && board.error is Some
            ==> r.0@ == board.error->Some_0@ && r.1 is Red,
        call_ensures(EditBoardForm::status, (edit,), r) && !edit.busy && edit.error is Some
            ==> r.0@ == edit.error->Some_0@ && r.1 is Red,
{
}

/// A message of the day that is to be edited stands in the editor, but that
/// long lines are wrapped at spaces.
pub proof fn law_the_motd_is_edited(editor: &mut MotdEditor, text: &str)
    requires
        call_ensures(MotdEditor::set_text, (editor, text), ()),
        typing::typable(text@),
        text@.len() <= 4000,
    ensures
        final(editor).loaded,
        !final(editor).busy,
        typing::flat(chars::joined(final(editor).body@.lines, "\n"@))
            == typing::flat(text@),
{
    typing::law_typing_keeps_the_text(4000, text@);
}

/// Lists and threads that are being loaded know what they are of, and hold
/// nothing yet.
pub proof fn law_lists_begin(
    sysop: bool,
    member: bool,
    board_id: i64,
    thread_id: i64,
    page: usize,
    boards: BoardList,
    threads: ThreadList,
    view: ThreadView,
    of: usize,
)
    ensures
        call_ensures(BoardList::new, (sysop,), boards) ==> boards.sysop == sysop
            && boards.boards@.len() == 0 && !boards.loaded && boards.mode is List,
        call_ensures(ThreadList::loading, (board_id, sysop, member), threads) ==> threads.board_id
            == board_id && threads.sysop == sysop && threads.member == member
            && threads.threads@.len() == 0 && !threads.loaded && !threads.confirm_delete,
        call_ensures(ThreadView::loading, (board_id, thread_id, sysop, page), view)
            ==> view.board_id == board_id && view.thread_id == thread_id && view.sysop == sysop
            && view.list_page == page && !view.loaded,
        call_ensures(ThreadView::list_page, (&view,), of) ==> of == view.list_page,
{
}

/// The forms about boards take what is typed where the focus is, Esc gives up
/// and Enter goes on.
pub proof fn law_the_forms_of_boards(
    board: &mut NewBoardForm,
    edit: &mut EditBoardForm,
    key: Key,
    r: FormOutcome,
)
    ensures
        call_ensures(NewBoardForm::handle, (board, key), r) && !old(board).busy ==> {
            &&& key == Key::Esc ==> r is Cancel
            &&& key == Key::Enter && old(board).focus == 0 ==> r is Nothing && final(board).focus
                == 1
            &&& r is Submit ==> key == Key::Enter && old(board).focus == 1
            &&& old(board).focus != 0 ==> final(board)@.name == old(board)@.name
            &&& old(board).focus != 1 ==> final(board)@.description == old(board)@.description
            &&& old(board).focus == 0 && key is Char && !chars::control(key->Char_0)
                && old(board)@.name.text.len() < old(board)@.name.max_len ==> final(board)@.name.text
                == old(board)@.name.text.insert(old(board)@.name.cursor, key->Char_0)
        },
        call_ensures(EditBoardForm::handle, (edit, key), r) && !old(edit).busy ==> {
            &&& key == Key::Esc ==> r is Cancel
            &&& key == Key::Enter <==> r is Submit
            &&& final(edit).board_id == old(edit).board_id
            &&& key is Char && !chars::control(key->Char_0) && old(edit)@.description.text.len()
                < old(edit)@.description.max_len ==> final(edit)@.description.text == old(edit)@.description.text.insert(old(edit)@.description.cursor, key->Char_0)
        },
{
}

} // verus!
