//! Laws of the forms and lists.

use vstd::prelude::*;

use crate::auth;
use crate::chars;
use crate::content;
use crate::db::Role;
use crate::laws::content as clean;
use crate::ui::boards;
use crate::ui::boards::{EditBoard, FormOutcome, NewBoard, Reading, ThreadWish, Threads, ThreadsEvent};
use crate::ui::compose::Draft;
use crate::ui::input;
use crate::ui::input::{Field, Key};
use crate::ui::mail;
use crate::ui::mail::{
    Letter, MailComposed, Mailbox, MailboxEvent, MessageScreen, MessageWish,
};
use crate::ui::password::{PasswordWish, Passwords};
use crate::ui::protocol::PageTarget;
use crate::ui::register::{FormWish, Registration};

verus! {

// -------------------------------------------------------------------- fields

/// Backspace takes back what was typed.
pub proof fn law_backspace_undoes_typing(field: Field, c: char)
    requires
        field.wf(),
        !chars::control(c),
        field.text.len() < field.max_len,
    ensures
        field.after(Key::Char(c)).after(Key::Backspace) == field,
{
    let typed = field.after(Key::Char(c));
    assert(input::types(Key::Char(c)));
    assert(typed.text.remove(typed.cursor - 1) =~= field.text);
}

/// A full field takes nothing more, and no key makes a field longer than it
/// may be.
pub proof fn law_fields_keep_their_limit(field: Field, key: Key)
    requires
        field.wf(),
    ensures
        field.after(key).text.len() <= field.max_len,
        field.text.len() == field.max_len && input::types(key) ==> field.after(key) == field,
{
}

/// A masked field shows how much was typed and nothing else: two fields with
/// texts of one length look alike.
pub proof fn law_masked_fields_hide_their_text(a: Field, b: Field, width: int)
    requires
        a.wf(),
        b.wf(),
        a.masked,
        b.masked,
        a.text.len() == b.text.len(),
        a.cursor == b.cursor,
        width >= 0,
    ensures
        a.shown(width) == b.shown(width),
{
    assert(a.shown(width) =~= b.shown(width));
}

// --------------------------------------------------------------------- lists

/// Whatever the key, the selection stays on the list.
pub proof fn law_selection_stays_on_the_list(selected: int, len: int, key: Key)
    requires
        0 <= selected,
        selected < len || selected == 0,
        0 <= len,
    ensures
        0 <= boards::moved(selected, len, key),
        boards::moved(selected, len, key) < len || boards::moved(selected, len, key) == 0,
{
}

/// A thread list asks only for pages that exist, and not for the one it
/// shows.
pub proof fn law_thread_list_pages_exist(list: Threads, key: Key)
    ensures
        list.after(key).1 matches ThreadsEvent::Page { board_id, page } ==> board_id
            == list.board_id && page < list.pages && page != list.page,
{
}

/// A thread asks only for pages that exist, and not for the one it shows.
pub proof fn law_thread_pages_exist(view: Reading, key: Key)
    requires
        view.page < view.pages,
    ensures
        view.after(key).1 matches ThreadWish::Goto { thread_id, target } ==> thread_id
            == view.thread_id && match target {
            PageTarget::Page(page) => page < view.pages && page != view.page,
            PageTarget::PageEnd(page) => page < view.pages && page != view.page,
            PageTarget::Last => view.page + 1 < view.pages,
            PageTarget::Smart => false,
        },
{
}

/// Threads are deleted by sysops only, and only after a yes; any other key is
/// a no. It is the selected one that goes.
pub proof fn law_deleting_a_thread_needs_a_yes(list: Threads, key: Key)
    ensures
        list.after(key).1 matches ThreadsEvent::DeleteThread { thread_id, page } ==> list.confirm_delete
            && key == Key::Char('y') && page == list.page && (list.current() matches Some(thread)
            && thread.id == thread_id),
        list.confirm_delete && key != Key::Char('y') ==> list.after(key) == (
            Threads { confirm_delete: false, ..list },
            ThreadsEvent::Nothing,
        ),
        list.after(key).0.confirm_delete ==> list.sysop && key == Key::Char('x')
            && !list.confirm_delete,
{
}

/// The delete prompt of a thread only ever names a post that is on the page
/// shown, by its number in the whole thread.
pub proof fn law_deleting_a_post_names_one_on_the_page(view: Reading, key: Key)
    ensures
        view.after(key).1 matches ThreadWish::DeletePost { post_id, page } ==> page == view.page
            && view.delete_prompt is Some && exists|i: int|
            0 <= i < view.posts.len() && (#[trigger] view.posts[i]).id == post_id && view.first_index()
                + i + 1 == chars::number(view.delete_prompt->Some_0),
        view.delete_prompt is None ==> (view.after(key).0.delete_prompt is Some ==> view.sysop),
{
    if let ThreadWish::DeletePost { post_id, page } = view.after(key).1 {
        let n = chars::number(view.delete_prompt->Some_0) as int;
        let i = n - 1 - view.first_index();
        assert(view.posts[i].id == post_id);
    }
}

/// Messages are deleted only after a yes; any other key is a no.
pub proof fn law_deleting_mail_needs_a_yes(mailbox: Mailbox, message: MessageScreen, key: Key)
    ensures
        mailbox.after(key).1 matches MailboxEvent::Delete(id) ==> mailbox.confirm_delete && key
            == Key::Char('y') && (mailbox.current() matches Some(item) && item.id == id),
        mailbox.confirm_delete ==> !mailbox.after(key).0.confirm_delete,
        mailbox.confirm_delete && key != Key::Char('y') ==> mailbox.after(key).1 is Nothing,
        message.after(key).1 matches MessageWish::Delete(id) ==> message.confirm == Some(
            mail::Confirm::Delete,
        ) && key == Key::Char('y') && id == message.message.id,
        message.confirm is Some ==> message.after(key).0.confirm is None,
        message.confirm is Some && key != Key::Char('y') ==> message.after(key).1 is Nothing,
{
}

/// Only a copy that was received can be answered, and only its sender can be
/// blocked.
pub proof fn law_only_received_mail_is_answered(screen: MessageScreen, key: Key)
    ensures
        screen.after(key).1 matches MessageWish::Reply { to, .. } ==> screen.message.is_recipient
            && to == screen.message.from@,
        screen.after(key).1 matches MessageWish::Block(name) ==> screen.confirm == Some(
            mail::Confirm::Block,
        ) && key == Key::Char('y') && name == screen.message.from@,
        screen.confirm is None ==> (screen.after(key).0.confirm == Some(mail::Confirm::Block)
            ==> mail::can_block(screen.message)),
{
}

// --------------------------------------------------------------------- forms

/// While a form waits for the server, keys do nothing.
pub proof fn law_waiting_forms_ignore_keys(
    passwords: Passwords,
    registration: Registration,
    letter: Letter,
    new_board: NewBoard,
    edit_board: EditBoard,
    key: Key,
)
    ensures
        passwords.busy ==> passwords.after(key) == (passwords, PasswordWish::Nothing),
        registration.busy ==> registration.after(key) == (registration, FormWish::Nothing),
        letter.busy ==> letter.after(key) == (letter, MailComposed::Nothing),
        new_board.busy ==> new_board.after(key) == (new_board, FormOutcome::Nothing),
        edit_board.busy ==> edit_board.after(key) == (edit_board, FormOutcome::Nothing),
{
}

/// What is submitted is submitted once: the form then waits.
pub proof fn law_forms_are_submitted_once(
    passwords: Passwords,
    registration: Registration,
    letter: Letter,
    draft: Draft,
    new_board: NewBoard,
    edit_board: EditBoard,
    key: Key,
)
    ensures
        passwords.after(key).1 is Submit ==> passwords.after(key).0.busy,
        registration.after(key).1 is Submit ==> registration.after(key).0.busy,
        letter.after(key).1 is Submit ==> letter.after(key).0.busy,
        draft.after(key).1 is Submit ==> draft.after(key).0.busy,
        new_board.after(key).1 is Submit ==> new_board.after(key).0.busy,
        edit_board.after(key).1 is Submit ==> edit_board.after(key).0.busy,
{
}

/// Passwords that were refused are wiped from the form.
pub proof fn law_refused_passwords_are_wiped(
    passwords: Passwords,
    registration: Registration,
    message: Seq<char>,
)
    ensures
        passwords.failed(message).current.text.len() == 0,
        passwords.failed(message).new.text.len() == 0,
        passwords.failed(message).confirm.text.len() == 0,
        !passwords.failed(message).busy,
        registration.failed(message).password.text.len() == 0,
        registration.failed(message).confirm.text.len() == 0,
        !registration.failed(message).busy,
{
}

/// A registration that is sent off passes the server's own checks.
pub proof fn law_sent_registrations_are_valid(form: Registration, key: Key)
    ensures
        form.after(key).1 matches FormWish::Submit { username, password } ==> auth::username_verdict(
            username,
        ) is Ok && auth::password_verdict(username, password) is Ok,
{
}

/// A new password that is sent off is valid, differs from the current one
/// and was typed the same twice.
pub proof fn law_sent_passwords_are_valid(form: Passwords, key: Key)
    ensures
        form.after(key).1 matches PasswordWish::Submit { current, new } ==> current.len() > 0
            && auth::password_verdict(form.username, new) is Ok && new != current && new
            == form.confirm.text,
{
}

/// A message that is sent off has a recipient, and its texts pass the
/// server's checks unchanged.
pub proof fn law_sent_letters_are_clean(letter: Letter, key: Key)
    ensures
        letter.after(key).1 matches MailComposed::Submit { to, subject, body } ==> to.len() > 0
            && content::subject_of(subject) == Ok::<Seq<char>, Seq<char>>(subject)
            && content::body_of(body) == Ok::<Seq<char>, Seq<char>>(body),
{
    clean::law_accepted_lines_are_stable(letter.subject.text);
    clean::law_accepted_texts_are_stable(letter.body.value());
}

/// Replying to a reply adds no further "Re:", and the subject stays within
/// its limit.
pub proof fn law_reply_subjects_dont_stack(subject: Seq<char>)
    ensures
        mail::replied_subject(mail::replied_subject(subject)) == mail::replied_subject(subject),
        mail::replied_subject(subject).len() <= content::SUBJECT_MAX,
        "Re: "@.is_prefix_of(mail::replied_subject(subject)),
{
    reveal_strlit("Re: ");
    let re = "Re: "@;
    let full = re + mail::base_subject(subject);
    let once = mail::replied_subject(subject);
    assert(once.subrange(0, 4) =~= re);
    assert(re + once.skip(4) =~= once);
}

/// A role survives being stored and read back.
pub proof fn law_roles_survive_storage(role: Role)
    ensures
        Role::parsed(role.name()) == Some(role),
{
    reveal_strlit("user");
    reveal_strlit("sysop");
    assert("user"@.len() != "sysop"@.len());
}

} // verus!
