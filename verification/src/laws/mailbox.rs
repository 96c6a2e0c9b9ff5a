//! Laws of the mail screens: which message a key is about, what is sent of
//! what was typed, and what is shown.

use vstd::prelude::*;

use crate::chars;
use crate::db::{Folder, MailItem};
use crate::laws::browsing;
use crate::laws::content as clean;
use crate::laws::talking;
use crate::ui::app::App;
use crate::ui::input::Key;
use crate::ui::mail;
use crate::ui::mail::{
    BlocksEvent, BlocksScreen, Confirm, MailCompose, MailComposeEvent, MailboxEvent, MailboxScreen,
    MessageEvent, MessageScreen,
};
use crate::ui::paint::{ListPane, TextPane};
use crate::ui::protocol::{Action, Request};
use crate::ui::text;

verus! {

// ----------------------------------------------------------------- the mailbox

/// Enter opens the message that is selected.
pub proof fn law_enter_opens_the_selected_message(mailbox: &mut MailboxScreen, r: MailboxEvent)
    requires
        call_ensures(MailboxScreen::handle, (mailbox, Key::Enter), r),
        !old(mailbox).confirm_delete,
    ensures
        old(mailbox).selected < old(mailbox).items@.len() ==> r == MailboxEvent::Open(
            old(mailbox).items@[old(mailbox).selected as int].id,
        ),
        old(mailbox).selected >= old(mailbox).items@.len() ==> r is Nothing,
        final(mailbox)@ == old(mailbox)@,
{
}

/// Deleting asks first. A yes deletes the message that is selected, any other
/// key nothing.
pub proof fn law_deleting_the_selected_message(
    mailbox: &mut MailboxScreen,
    key: Key,
    r: MailboxEvent,
)
    requires
        call_ensures(MailboxScreen::handle, (mailbox, key), r),
        old(mailbox).selected < old(mailbox).items@.len(),
    ensures
        !old(mailbox).confirm_delete && (key == Key::Char('d') || key == Key::Delete)
            ==> r is Nothing && final(mailbox).confirm_delete && final(mailbox).selected
            == old(mailbox).selected,
        old(mailbox).confirm_delete && key == Key::Char('y') ==> r == MailboxEvent::Delete(
            old(mailbox).items@[old(mailbox).selected as int].id,
        ),
        old(mailbox).confirm_delete && key != Key::Char('y') ==> r is Nothing,
        old(mailbox).confirm_delete ==> !final(mailbox).confirm_delete,
        r is Delete ==> old(mailbox).confirm_delete,
        final(mailbox).items@ == old(mailbox).items@,
        final(mailbox).folder == old(mailbox).folder,
{
}

/// The other keys: what goes where, and that the selection goes where the key
/// takes it.
pub proof fn law_mailbox_commands(mailbox: &mut MailboxScreen, key: Key, r: MailboxEvent)
    requires
        call_ensures(MailboxScreen::handle, (mailbox, key), r),
        !old(mailbox).confirm_delete,
    ensures
        key == Key::Esc || key == Key::Char('q') ==> r is Back,
        key == Key::Char('c') ==> r is Compose,
        key == Key::Char('r') ==> r is Refresh,
        key == Key::Char('B') ==> r is Blocks,
        key == Key::Tab && old(mailbox).folder is Inbox ==> r == MailboxEvent::Switch(Folder::Sent),
        key == Key::Tab && old(mailbox).folder is Sent ==> r == MailboxEvent::Switch(Folder::Inbox),
        key == Key::Up || key == Key::Down || key == Key::Home || key == Key::End || key
            == Key::PageUp || key == Key::PageDown ==> r is Nothing && browsing::goes(
            old(mailbox).selected as int,
            final(mailbox).selected as int,
            old(mailbox).items@.len() as int,
            key,
        ),
        final(mailbox).items@ == old(mailbox).items@,
        final(mailbox).folder == old(mailbox).folder,
{
}

/// A mailbox holds the messages it was given, and keeps the selection on
/// them.
pub proof fn law_mail_arrives(
    mailbox: &mut MailboxScreen,
    items: Vec<MailItem>,
    unread: i64,
    folder: Folder,
    fresh: MailboxScreen,
)
    ensures
        call_ensures(MailboxScreen::set, (mailbox, items, unread), ()) ==> final(mailbox).items@
            == items@ && final(mailbox).unread == unread && final(mailbox).loaded && final(mailbox).folder == old(mailbox).folder && final(mailbox).selected == (if old(mailbox).selected
            < items@.len() {
            old(mailbox).selected as int
        } else if items@.len() > 0 {
            items@.len() - 1
        } else {
            0
        }),
        call_ensures(MailboxScreen::new, (folder,), fresh) ==> fresh.folder == folder
            && fresh.items@.len() == 0 && fresh.selected == 0 && !fresh.loaded
            && !fresh.confirm_delete,
{
}

/// Each message is listed by whom it is from or to, its subject and its date,
/// in order, and the selected one is marked; unread ones bear a star.
pub proof fn law_mail_is_listed(mailbox: &MailboxScreen, i: int, r: ListPane)
    requires
        call_ensures(MailboxScreen::draw, (mailbox,), r),
        mailbox.loaded,
        0 <= i < mailbox.items@.len(),
    ensures
        r.items@.len() == mailbox.items@.len(),
        r.items@[i].spans@.len() == 4,
        browsing::part(r.items@, i, 0) == (if mailbox.items@[i].unread {
            "* "@
        } else {
            "  "@
        }),
        browsing::part(r.items@, i, 1) == chars::padded(mailbox.items@[i].other@, 16),
        browsing::part(r.items@, i, 2) == mailbox.items@[i].subject@,
        browsing::part(r.items@, i, 3) == "  "@ + mailbox.items@[i].created@,
        r.selected == Some(mailbox.selected),
{
    let models = mailbox@.drawn().items;
    assert(models[i] == mail::mail_line(mailbox.items@[i]));
    browsing::lemma_part(r.items@, models, i, 0);
    browsing::lemma_part(r.items@, models, i, 1);
    browsing::lemma_part(r.items@, models, i, 2);
    browsing::lemma_part(r.items@, models, i, 3);
}

// ----------------------------------------------------------------- a message

/// r answers the sender of a message that was received, under its subject.
/// Sent mail is not answered.
pub proof fn law_replies_go_to_the_sender(screen: &mut MessageScreen, r: MessageEvent)
    requires
        call_ensures(MessageScreen::handle, (screen, Key::Char('r')), r),
        old(screen).confirm is None,
    ensures
        old(screen).message.is_recipient ==> (r matches MessageEvent::Reply { to, subject } && to@
            == old(screen).message.from@ && "Re: "@.is_prefix_of(subject@) && (
        !"Re: "@.is_prefix_of(old(screen).message.subject@) && old(screen).message.subject@.len()
            <= 76 ==> subject@ == "Re: "@ + old(screen).message.subject@) && ("Re: "@.is_prefix_of(
            old(screen).message.subject@,
        ) && old(screen).message.subject@.len() <= 80 ==> subject@
            == old(screen).message.subject@)),
        !old(screen).message.is_recipient ==> r is Nothing,
        *final(screen) == *old(screen),
{
    reveal_strlit("Re: ");
    let s = old(screen).message.subject@;
    let full = mail::replied_subject(s);
    assert("Re: "@ =~= full.subrange(0, 4));
    if "Re: "@.is_prefix_of(s) {
        assert("Re: "@ + s.skip(4) =~= s);
    }
}

/// Deleting and blocking ask first. A yes deletes this message, or blocks its
/// sender, as was asked; any other key does neither. Nobody blocks themselves
/// or for mail that they sent.
pub proof fn law_message_commands(screen: &mut MessageScreen, key: Key, r: MessageEvent)
    requires
        call_ensures(MessageScreen::handle, (screen, key), r),
    ensures
        final(screen).message == old(screen).message,
        match old(screen).confirm {
            Some(Confirm::Delete) => final(screen).confirm is None && if key == Key::Char('y') {
                r == MessageEvent::Delete(old(screen).message.id)
            } else {
                r is Nothing
            },
            Some(Confirm::Block) => final(screen).confirm is None && if key == Key::Char('y') {
                r matches MessageEvent::Block(name) && name@ == old(screen).message.from@
            } else {
                r is Nothing
            },
            None => {
                &&& key == Key::Char('d') || key == Key::Delete ==> r is Nothing && final(screen).confirm == Some(Confirm::Delete)
                &&& key == Key::Char('b') ==> r is Nothing && final(screen).confirm == (if old(screen).message.is_recipient && old(screen).message.from@ != old(screen).message.to@ {
                    Some(Confirm::Block)
                } else {
                    None
                })
                &&& key == Key::Esc || key == Key::Char('q') ==> (r matches MessageEvent::Back(
                    folder,
                ) && (folder is Inbox) == old(screen).message.is_recipient)
                &&& !(r is Delete) && !(r is Block)
            },
        },
{
}

/// Up, Down and the keys for pages scroll a message, as far as there is
/// anything to see; Home and End go to either end.
pub proof fn law_scrolling_a_message(screen: &mut MessageScreen, key: Key, r: MessageEvent)
    requires
        call_ensures(MessageScreen::handle, (screen, key), r),
        old(screen).confirm is None,
        old(screen).page_height.value > 2,
        old(screen).total_lines.value >= old(screen).page_height.value,
        old(screen).scroll.value <= old(screen).total_lines.value - old(screen).page_height.value,
    ensures
        ({
            let from = old(screen).scroll.value as int;
            let to = final(screen).scroll.value as int;
            let most = old(screen).total_lines.value - old(screen).page_height.value;
            let page = old(screen).page_height.value - 1;
            &&& key == Key::Up ==> r is Nothing && to == if from > 0 {
                from - 1
            } else {
                0
            }
            &&& key == Key::Down ==> r is Nothing && to == if from < most {
                from + 1
            } else {
                most
            }
            &&& key == Key::PageUp ==> r is Nothing && to == if from > page {
                from - page
            } else {
                0
            }
            &&& key == Key::PageDown ==> r is Nothing && to == if from + page < most {
                from + page
            } else {
                most
            }
            &&& key == Key::Home ==> r is Nothing && to == 0
            &&& key == Key::End ==> r is Nothing && to >= most
        }),
{
}

/// What is drawn of a message starts at the line it is scrolled to, or at the
/// last screenful.
pub proof fn law_messages_are_drawn_from_there(
    screen: &mut MessageScreen,
    width: usize,
    height: usize,
    r: TextPane,
)
    requires
        call_ensures(MessageScreen::draw, (screen, width, height), r),
        height <= r.lines@.len(),
    ensures
        r.scroll == if old(screen).scroll.value + height <= r.lines@.len() {
            old(screen).scroll.value as int
        } else {
            r.lines@.len() - height
        },
        final(screen).scroll.value == r.scroll,
        final(screen).page_height.value == height,
{
    let models = mail::message_lines(old(screen).message, width as int);
    assert(r@.lines == models);
    assert(r@.lines.len() == r.lines@.len());
}

/// A message is shown with its sender, recipient, date and subject, and its
/// text below them.
pub proof fn law_messages_are_shown(
    screen: &mut MessageScreen,
    width: usize,
    height: usize,
    body: &str,
    wrapped: Vec<String>,
    i: int,
    r: TextPane,
)
    requires
        call_ensures(MessageScreen::draw, (screen, width, height), r),
        call_ensures(text::wrap, (body, width), wrapped),
        body@ == old(screen).message.body@,
        0 <= i < wrapped@.len(),
    ensures
        r.lines@.len() == 5 + wrapped@.len(),
        browsing::part(r.lines@, 0, 1) == old(screen).message.from@,
        browsing::part(r.lines@, 1, 1) == old(screen).message.to@,
        browsing::part(r.lines@, 2, 1) == old(screen).message.created@,
        browsing::part(r.lines@, 3, 1) == old(screen).message.subject@,
        browsing::part(r.lines@, 5 + i, 0) == wrapped@[i]@,
        final(screen).message == old(screen).message,
{
    let models = mail::message_lines(old(screen).message, width as int);
    assert(chars::string_texts(wrapped@).len() == wrapped@.len());
    assert(chars::string_texts(wrapped@)[i] == wrapped@[i]@);
    browsing::lemma_part(r.lines@, models, 0, 1);
    browsing::lemma_part(r.lines@, models, 1, 1);
    browsing::lemma_part(r.lines@, models, 2, 1);
    browsing::lemma_part(r.lines@, models, 3, 1);
    browsing::lemma_part(r.lines@, models, 5 + i, 0);
}

// ----------------------------------------------------------------- writing mail

/// Ctrl-D sends the letter to whom was named, with the subject and the text
/// that were typed, where these are clean.
pub proof fn law_letters_are_sent_as_typed(
    form: &mut MailCompose,
    lines: Seq<Seq<char>>,
    r: MailComposeEvent,
)
    requires
        call_ensures(MailCompose::handle, (form, Key::Ctrl('d')), r),
        !old(form).busy,
        talking::snug(old(form).to@.text),
        clean::clean(old(form).subject@.text),
        clean::evenly_spaced(old(form).subject@.text),
        1 <= old(form).subject@.text.len() <= 80,
        clean::well_set(lines),
        old(form).body@.lines == lines,
        chars::joined(lines, "\n"@).len() <= 2000,
    ensures
        r matches MailComposeEvent::Submit { to, subject, body } && to@ == old(form).to@.text
            && subject@ == old(form).subject@.text && body@ == chars::joined(lines, "\n"@),
        final(form).busy,
        final(form).error is None,
        final(form)@.body == old(form)@.body,
{
    clean::lemma_well_set(lines);
    clean::law_clean_texts_are_kept(lines);
    clean::law_clean_lines_are_kept(old(form).subject@.text);
    assert(final(form)@.error is None);
}

/// Without a recipient nothing is sent, Esc gives up, and no other key sends.
pub proof fn law_unaddressed_letters_stay(
    form: &mut MailCompose,
    key: Key,
    r: MailComposeEvent,
)
    requires
        call_ensures(MailCompose::handle, (form, key), r),
    ensures
        r is Submit ==> key == Key::Ctrl('d') && !old(form).busy && old(form).to@.text.len() > 0,
        key == Key::Esc && !old(form).busy ==> r is Cancel,
        old(form).busy ==> r is Nothing && final(form)@ == old(form)@,
        key == Key::Ctrl('d') && old(form).to@.text.len() == 0 && !old(form).busy ==> r is Nothing
            && final(form).focus == 0 && final(form)@.error == Some("Who should this go to?"@)
            && final(form)@.body == old(form)@.body && final(form)@.subject == old(form)@.subject,
{
}

/// What is typed goes to the field that has the focus, and to no other.
pub proof fn law_typing_goes_to_the_focus(
    form: &mut MailCompose,
    c: char,
    r: MailComposeEvent,
)
    requires
        call_ensures(MailCompose::handle, (form, Key::Char(c)), r),
        !old(form).busy,
        old(form)@.wf(),
        !chars::control(c),
    ensures
        r is Nothing,
        final(form).focus == old(form).focus,
        old(form).focus != 0 ==> final(form)@.to == old(form)@.to,
        old(form).focus != 1 ==> final(form)@.subject == old(form)@.subject,
        old(form).focus != 2 ==> final(form)@.body == old(form)@.body,
        old(form).focus == 0 && old(form)@.to.text.len() < old(form)@.to.max_len ==> final(form)@.to.text == old(form)@.to.text.insert(old(form)@.to.cursor, c),
        old(form).focus == 1 && old(form)@.subject.text.len() < old(form)@.subject.max_len ==> final(form)@.subject.text == old(form)@.subject.text.insert(old(form)@.subject.cursor, c),
{
}

/// A reply starts with the recipient and the subject filled in and the cursor
/// in the text.
pub proof fn law_replies_are_addressed(
    to: &str,
    subject: &str,
    r: MailCompose,
    blank: MailCompose,
)
    requires
        call_ensures(MailCompose::new, (Some(to), Some(subject)), r),
        call_ensures(MailCompose::new, (None::<&str>, None::<&str>), blank),
        to@.len() <= 16,
        subject@.len() <= 80,
        forall|i: int| 0 <= i < to@.len() ==> !chars::control(#[trigger] to@[i]),
        forall|i: int| 0 <= i < subject@.len() ==> !chars::control(#[trigger] subject@[i]),
    ensures
        r.to@.text == to@,
        r.subject@.text == subject@,
        r.focus == 2,
        !r.busy,
        blank.to@.text.len() == 0,
        blank.subject@.text.len() == 0,
        blank.focus == 0,
{
    crate::laws::editing::lemma_typed(16, false, to@);
    crate::laws::editing::lemma_typed(80, false, subject@);
}

// ----------------------------------------------------------------- the blocked

/// x unblocks the name that is selected.
pub proof fn law_the_selected_name_is_unblocked(
    screen: &mut BlocksScreen,
    key: Key,
    r: BlocksEvent,
)
    requires
        call_ensures(BlocksScreen::handle, (screen, key), r),
    ensures
        (key == Key::Char('x') || key == Key::Char('u') || key == Key::Delete) && old(screen).selected < old(screen).names@.len() ==> (r matches BlocksEvent::Unblock(name) && name@
            == old(screen).names@[old(screen).selected as int]@),
        key == Key::Esc || key == Key::Char('q') ==> r is Back,
        key == Key::Up || key == Key::Down ==> r is Nothing && browsing::goes(
            old(screen).selected as int,
            final(screen).selected as int,
            old(screen).names@.len() as int,
            key,
        ),
        r is Unblock ==> key == Key::Char('x') || key == Key::Char('u') || key == Key::Delete,
        final(screen).names@ == old(screen).names@,
{
}

/// The blocked are listed by name, in order.
pub proof fn law_the_blocked_are_listed(
    screen: &mut BlocksScreen,
    shown: &BlocksScreen,
    names: Vec<String>,
    i: int,
    r: ListPane,
)
    ensures
        call_ensures(BlocksScreen::set, (screen, names), ()) ==> final(screen).names@ == names@
            && final(screen).loaded,
        call_ensures(BlocksScreen::draw, (shown,), r) && shown.loaded && 0 <= i < shown.names@.len()
            ==> r.items@.len() == shown.names@.len() && browsing::part(r.items@, i, 0)
            == shown.names@[i]@ && r.selected == Some(shown.selected),
{
    if call_ensures(BlocksScreen::draw, (shown,), r) && shown.loaded && 0 <= i < shown.names@.len() {
        browsing::lemma_part(r.items@, shown@.drawn().items, i, 0);
    }
}

// ----------------------------------------------------------------- in the app

/// In the mailbox, Enter asks for the message that is selected, and a yes to
/// deleting asks for that to be deleted; the folder is shown again then.
pub proof fn law_the_selected_message_is_asked_for(app: &mut App, key: Key, r: Option<Action>)
    requires
        call_ensures(App::handle_key, (app, key), r),
        old(app).motd_popup is None,
        old(app).screen is Mailbox,
        old(app).screen->Mailbox_0.selected < old(app).screen->Mailbox_0.items@.len(),
    ensures
        ({
            let mailbox = old(app).screen->Mailbox_0;
            let id = mailbox.items@[mailbox.selected as int].id;
            &&& !mailbox.confirm_delete && key == Key::Enter ==> r == Some(
                Action::Request(Request::ReadMessage { id }),
            )
            &&& mailbox.confirm_delete && key == Key::Char('y') ==> r == Some(
                Action::Request(Request::DeleteMessage { id, folder: mailbox.folder }),
            )
            &&& final(app).screen is Mailbox || key == Key::Esc || key == Key::Char('q') || key
                == Key::Char('c') || key == Key::Char('B')
        }),
{
}

/// On a message, a yes asks for that message to be deleted or its sender to
/// be blocked.
pub proof fn law_the_shown_message_is_meant(app: &mut App, r: Option<Action>)
    requires
        call_ensures(App::handle_key, (app, Key::Char('y')), r),
        old(app).motd_popup is None,
        old(app).screen is Message,
    ensures
        old(app).screen->Message_0.confirm == Some(Confirm::Delete) ==> (r matches Some(
            Action::Request(Request::DeleteMessage { id, folder }),
        ) && id == old(app).screen->Message_0.message.id && (folder is Inbox)
            == old(app).screen->Message_0.message.is_recipient),
        old(app).screen->Message_0.confirm == Some(Confirm::Block) ==> (r matches Some(
            Action::Request(Request::BlockUser { name }),
        ) && name@ == old(app).screen->Message_0.message.from@),
{
}

/// What is written in a letter is what the server is asked to send.
pub proof fn law_letters_are_handed_on(
    app: &mut App,
    form: &mut MailCompose,
    key: Key,
    sent: MailComposeEvent,
    r: Option<Action>,
)
    requires
        call_ensures(App::handle_key, (app, key), r),
        call_ensures(MailCompose::handle, (form, key), sent),
        old(app).motd_popup is None,
        old(app).screen is MailCompose,
        old(form)@ == old(app).screen->MailCompose_0.form@,
    ensures
        sent matches MailComposeEvent::Submit { to, subject, body } ==> (r matches Some(
            Action::Request(Request::SendMail { to: t, subject: s, body: b }),
        ) && t@ == to@ && s@ == subject@ && b@ == body@),
        sent is Nothing ==> r is None && final(app).screen is MailCompose,
        sent is Cancel ==> r is None && final(app).screen.scene()
            == old(app).screen->MailCompose_0.back.scene(),
{
}

} // verus!
