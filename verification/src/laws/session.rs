//! Laws of a session as a whole.

use vstd::prelude::*;

use crate::state::Identity;
use crate::ui::app;
use crate::ui::app::{AppModel, Scene, Session};
use crate::ui::boards::{Boards, Reading, Threads};
use crate::ui::chat::Chatting;
use crate::ui::compose::Draft;
use crate::ui::input::Key;
use crate::ui::keys::Keys;
use crate::ui::mail::{Blocked, Letter, Mailbox, MessageScreen};
use crate::ui::password::Passwords;
use crate::ui::protocol::{Ask, Response, Step};
use crate::ui::register::Registration;
use crate::ui::sysop::{Motd, SysopMenu};

verus! {

// ---------------------------------------------------------------------- keys

/// Ctrl-C logs off from anywhere, before anything else looks at it.
pub proof fn law_ctrl_c_logs_off(session: Session, keys: Seq<Key>)
    requires
        keys.len() > 0,
        keys[0] == Key::Ctrl('c'),
    ensures
        session.pumped(keys) == (session, Some(Step::Quit), keys.drop_first()),
{
}

/// While the message of the day is up, no key but Enter does anything to
/// what is underneath, and Enter does no more than to dismiss it.
pub proof fn law_motd_keeps_keys_away(session: Session, key: Key)
    requires
        session.motd is Some,
    ensures
        session.after_key(key).1 is None,
        session.after_key(key).0 == (Session {
            status: None,
            motd: if key == Key::Enter {
                None
            } else {
                session.motd
            },
            ..session
        }),
{
}

/// Keys are taken one after the other until one needs the server; the rest
/// waits, in order. Without such a key nothing is left.
pub proof fn law_typed_ahead_keys_wait(session: Session, keys: Seq<Key>)
    ensures
        ({
            let (_, step, rest) = session.pumped(keys);
            &&& rest.len() <= keys.len()
            &&& rest == keys.skip(keys.len() - rest.len())
            &&& step is None ==> rest.len() == 0
            &&& step is Some ==> rest.len() < keys.len()
        }),
    decreases keys.len(),
{
    if keys.len() > 0 {
        let tail = keys.drop_first();
        let (next, step) = session.after_key(keys[0]);
        if keys[0] != Key::Ctrl('c') && step is None {
            law_typed_ahead_keys_wait(next, tail);
            let rest = next.pumped(tail).2;
            assert(tail.skip(tail.len() - rest.len()) =~= keys.skip(keys.len() - rest.len()));
        } else {
            assert(tail =~= keys.skip(1));
        }
    } else {
        assert(keys =~= keys.skip(0));
    }
}

/// However much is typed ahead, no more is kept than the cap.
pub proof fn law_queue_is_capped(model: AppModel, data: Seq<u8>)
    requires
        model.queue.len() <= app::MAX_QUEUED_KEYS,
    ensures
        model.with_input(data).queue.len() <= app::MAX_QUEUED_KEYS,
        model.queue.is_prefix_of(model.with_input(data).queue),
{
    let queue = model.with_input(data).queue;
    assert(queue.subrange(0, model.queue.len() as int) =~= model.queue);
}

// ---------------------------------------------------------------- permission

/// A scene shows nothing that whoever acts may not see, and offers nothing
/// that they may not do.
pub open spec fn proper(identity: Identity, scene: Scene) -> bool
    decreases scene,
{
    let member = identity.account_id() is Some;
    let sysop = identity.sysop();
    match scene {
        Scene::Menu | Scene::About | Scene::Register(_) | Scene::Online(_) => true,
        Scene::Boards(list) => list.sysop == sysop && (sysop || list.mode is List),
        Scene::Threads(list) => list.sysop == sysop && list.member == member && (sysop
            || !list.confirm_delete),
        Scene::Thread(view) => view.sysop == sysop && (sysop || view.delete_prompt is None),
        Scene::Compose(_, back) => member && proper(identity, *back),
        Scene::MailCompose(_, back) => member && proper(identity, *back),
        Scene::Keys(_)
        | Scene::Chat(_)
        | Scene::Password(_)
        | Scene::Mailbox(_)
        | Scene::Message(_)
        | Scene::Blocks(_) => member,
        Scene::SysopMenu(_) | Scene::MotdEditor(_) => sysop,
    }
}

/// What guests, members and sysops may ask of the server. Everyone can read;
/// only registered users can post, and only sysops moderate.
pub open spec fn permitted(identity: Identity, ask: Ask) -> bool {
    match ask {
        Ask::Register { .. }
        | Ask::ListBoards
        | Ask::WhoIsOnline
        | Ask::ListThreads { .. }
        | Ask::OpenThread { .. } => true,
        Ask::DeleteThread { .. }
        | Ask::DeletePost { .. }
        | Ask::CreateBoard { .. }
        | Ask::UpdateBoardDescription { .. }
        | Ask::GetMotd
        | Ask::SetMotd { .. } => identity.sysop(),
        _ => identity.account_id() is Some,
    }
}

/// What comes of a key is in order: whoever acts is still the same, on a
/// screen for them, asking for no more than they may.
pub open spec fn in_order(identity: Identity, outcome: (Session, Option<Step>)) -> bool {
    &&& outcome.0.identity == identity
    &&& proper(identity, outcome.0.scene)
    &&& outcome.1 matches Some(Step::Ask(ask)) ==> permitted(identity, ask)
}

proof fn lemma_activated(session: Session)
    requires
        session.wf(),
        session.scene is Menu,
    ensures
        in_order(session.identity, session.activated()),
{
}

proof fn lemma_menu(session: Session, key: Key)
    requires
        session.wf(),
        session.scene is Menu,
    ensures
        in_order(session.identity, session.after_menu(key)),
{
    let menu = app::menu_of(session.identity);
    match key {
        Key::Enter => lemma_activated(session),
        Key::Char(c) => if '1' <= c && c <= '9' && (c as u32 - '1' as u32) < menu.len() {
            lemma_activated(Session { selected: c as u32 - '1' as u32, ..session });
        },
        _ => {},
    }
}

proof fn lemma_boards(session: Session, list: Boards, key: Key)
    requires
        session.scene == Scene::Boards(list),
        proper(session.identity, session.scene),
    ensures
        in_order(session.identity, session.after_boards(list, key)),
{
}

proof fn lemma_threads(session: Session, list: Threads, key: Key)
    requires
        session.scene == Scene::Threads(list),
        proper(session.identity, session.scene),
    ensures
        in_order(session.identity, session.after_threads(list, key)),
{
}

proof fn lemma_thread(session: Session, view: Reading, key: Key)
    requires
        session.scene == Scene::Thread(view),
        proper(session.identity, session.scene),
    ensures
        in_order(session.identity, session.after_thread(view, key)),
{
}

proof fn lemma_compose(session: Session, draft: Draft, back: Scene, key: Key)
    requires
        session.scene == Scene::Compose(draft, Box::new(back)),
        proper(session.identity, session.scene),
    ensures
        in_order(session.identity, session.after_compose(draft, back, key)),
{
}

proof fn lemma_mail_compose(session: Session, letter: Letter, back: Scene, key: Key)
    requires
        session.scene == Scene::MailCompose(letter, Box::new(back)),
        proper(session.identity, session.scene),
    ensures
        in_order(session.identity, session.after_mail_compose(letter, back, key)),
{
}

proof fn lemma_mailbox(session: Session, mailbox: Mailbox, key: Key)
    requires
        session.scene == Scene::Mailbox(mailbox),
        proper(session.identity, session.scene),
    ensures
        in_order(session.identity, session.after_mailbox(mailbox, key)),
{
}

proof fn lemma_message(session: Session, message: MessageScreen, key: Key)
    requires
        session.scene == Scene::Message(message),
        proper(session.identity, session.scene),
    ensures
        in_order(session.identity, session.after_message(message, key)),
{
}

proof fn lemma_blocks(session: Session, blocks: Blocked, key: Key)
    requires
        session.scene == Scene::Blocks(blocks),
        proper(session.identity, session.scene),
    ensures
        in_order(session.identity, session.after_blocks(blocks, key)),
{
}

proof fn lemma_password(session: Session, form: Passwords, key: Key)
    requires
        session.scene == Scene::Password(form),
        proper(session.identity, session.scene),
    ensures
        in_order(session.identity, session.after_password(form, key)),
{
}

proof fn lemma_register(session: Session, form: Registration, key: Key)
    requires
        session.scene == Scene::Register(form),
        proper(session.identity, session.scene),
    ensures
        in_order(session.identity, session.after_register(form, key)),
{
}

proof fn lemma_chat(session: Session, chat: Chatting, key: Key)
    requires
        session.scene == Scene::Chat(chat),
        proper(session.identity, session.scene),
    ensures
        in_order(session.identity, session.after_chat(chat, key)),
{
}

proof fn lemma_keys(session: Session, keys: Keys, key: Key)
    requires
        session.scene == Scene::Keys(keys),
        proper(session.identity, session.scene),
    ensures
        in_order(session.identity, session.after_keys(keys, key)),
{
}

proof fn lemma_sysop_menu(session: Session, menu: SysopMenu, key: Key)
    requires
        session.scene == Scene::SysopMenu(menu),
        proper(session.identity, session.scene),
    ensures
        in_order(session.identity, session.after_sysop_menu(menu, key)),
{
}

proof fn lemma_motd_editor(session: Session, editor: Motd, key: Key)
    requires
        session.scene == Scene::MotdEditor(editor),
        proper(session.identity, session.scene),
    ensures
        in_order(session.identity, session.after_motd_editor(editor, key)),
{
}

/// Whoever acts, the UI only asks for what they may have: no key makes a
/// guest post or a member moderate.
pub proof fn law_requests_are_permitted(session: Session, key: Key)
    requires
        session.wf(),
        proper(session.identity, session.scene),
    ensures
        in_order(session.identity, session.after_key(key)),
{
    let quiet = Session { status: None, ..session };
    match session.scene {
        Scene::Menu => lemma_menu(quiet, key),
        Scene::Boards(list) => lemma_boards(quiet, list, key),
        Scene::Threads(list) => lemma_threads(quiet, list, key),
        Scene::Thread(view) => lemma_thread(quiet, view, key),
        Scene::Compose(draft, back) => lemma_compose(quiet, draft, *back, key),
        Scene::MailCompose(letter, back) => lemma_mail_compose(quiet, letter, *back, key),
        Scene::Mailbox(mailbox) => lemma_mailbox(quiet, mailbox, key),
        Scene::Message(message) => lemma_message(quiet, message, key),
        Scene::Blocks(blocks) => lemma_blocks(quiet, blocks, key),
        Scene::Password(form) => lemma_password(quiet, form, key),
        Scene::Register(form) => lemma_register(quiet, form, key),
        Scene::Chat(chat) => lemma_chat(quiet, chat, key),
        Scene::Keys(keys) => lemma_keys(quiet, keys, key),
        Scene::SysopMenu(menu) => lemma_sysop_menu(quiet, menu, key),
        Scene::MotdEditor(editor) => lemma_motd_editor(quiet, editor, key),
        Scene::About => {},
        Scene::Online(_) => {},
    }
}

/// An answer that the server gives only to those who may have it.
pub open spec fn due(identity: Identity, response: Response) -> bool {
    match response {
        Response::Mailbox { .. } | Response::Message { .. } | Response::Blocks { .. } => {
            identity.account_id() is Some
        },
        _ => true,
    }
}

/// No answer puts a session on a screen that is not for it.
pub proof fn law_answers_keep_sessions_in_their_place(session: Session, response: Response)
    requires
        proper(session.identity, session.scene),
        due(session.identity, response),
    ensures
        ({
            let next = session.after_response(response);
            proper(next.identity, next.scene)
        }),
{
}

/// A new session is in its place.
pub proof fn law_sessions_start_in_their_place(identity: Identity)
    ensures
        proper(identity, Session::fresh(identity).scene),
        Session::fresh(identity).wf(),
{
}

// ------------------------------------------------------------------- editing

/// Whoever gives up writing is back where they were.
pub proof fn law_cancelling_returns(session: Session, draft: Draft, letter: Letter)
    requires
        session.motd is None,
        session.identity is User,
        !draft.busy,
        !letter.busy,
    ensures
        session.composing(draft).0.after_key(Key::Esc).0 == (Session { status: None, ..session }),
        session.writing_mail(letter).0.after_key(Key::Esc).0 == (Session {
            status: None,
            ..session
        }),
{
}

/// A post that is refused is not lost: the editor stays open with the text
/// as it was, and says why.
pub proof fn law_refused_posts_are_kept(
    session: Session,
    draft: Draft,
    back: Box<Scene>,
    message: String,
)
    requires
        session.scene == Scene::Compose(draft, back),
    ensures
        session.after_response(Response::PostFailed(message)).scene == Scene::Compose(
            Draft { busy: false, error: Some(message@), ..draft },
            back,
        ),
{
}

/// So is a letter.
pub proof fn law_refused_letters_are_kept(
    session: Session,
    letter: Letter,
    back: Box<Scene>,
    message: String,
)
    requires
        session.scene == Scene::MailCompose(letter, back),
    ensures
        session.after_response(Response::MailFailed(message)).scene == Scene::MailCompose(
            Letter { busy: false, error: Some(message@), ..letter },
            back,
        ),
{
}

/// Once registered, the session goes on as the new user, without connecting
/// again.
pub proof fn law_registering_changes_the_session(session: Session, identity: Identity)
    ensures
        ({
            let next = session.after_response(Response::Registered(Ok(identity)));
            &&& next.identity == identity
            &&& next.scene is Menu
            &&& next.selected == 0
        }),
{
}

} // verus!
