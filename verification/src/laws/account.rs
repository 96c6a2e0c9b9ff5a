//! Laws of the forms and lists of an account: registering, changing the
//! password, SSH keys, who is online, and the tools of sysops.

use vstd::prelude::*;

use crate::auth;
use crate::chars;
use crate::laws::browsing;
use crate::laws::talking;
use crate::ui::app::App;
use crate::ui::input::Key;
use crate::ui::keys;
use crate::ui::keys::{KeysEvent, KeysScreen};
use crate::ui::online;
use crate::ui::online::{OnlineEvent, OnlineScreen};
use crate::ui::paint::{Color, ListPane};
use crate::ui::password::{PasswordEvent, PasswordForm};
use crate::ui::protocol::{Action, KeyInfo, OnlineInfo, Request};
use crate::ui::register::{FormEvent, RegisterForm};
use crate::ui::sysop::{MotdEditor, MotdEvent, SysopMenu, SysopMenuEvent};

verus! {

// ----------------------------------------------------------------- registering

/// Enter in the last field sends the name and the password as they were
/// typed, if both are valid and the password was typed twice; else it says
/// what is wrong and leads to the field that is.
pub proof fn law_registrations_are_sent_as_typed(
    form: &mut RegisterForm,
    name: &str,
    password: &str,
    name_ok: Result<(), String>,
    password_ok: Result<(), String>,
    r: FormEvent,
)
    requires
        call_ensures(RegisterForm::handle, (form, Key::Enter), r),
        call_ensures(auth::validate_username, (name,), name_ok),
        call_ensures(auth::validate_password, (name, password), password_ok),
        name@ == old(form).username@.text,
        password@ == old(form).password@.text,
        !old(form).busy,
        old(form).focus == 2,
    ensures
        match (name_ok, password_ok) {
            (Err(e), _) => r is Nothing && final(form).focus == 0 && final(form)@.error == Some(e@),
            (_, Err(e)) => r is Nothing && final(form).focus == 1 && final(form)@.error == Some(e@),
            _ => if old(form).password@.text == old(form).confirm@.text {
                &&& r matches FormEvent::Submit { username, password: p } && username@ == name@
                    && p@ == password@
                &&& final(form).busy
                &&& final(form)@.error is None
            } else {
                r is Nothing && final(form).focus == 2 && final(form)@.error is Some
            },
        },
        final(form)@.username == old(form)@.username,
        final(form)@.password == old(form)@.password,
        final(form)@.confirm == old(form)@.confirm,
{
    assert(auth::verdict(name_ok) == auth::username_verdict(name@));
    assert(auth::verdict(password_ok) == auth::password_verdict(name@, password@));
}

/// In the other fields Enter goes on to the next, Tab goes round, Esc gives
/// up, and what is typed goes to the field that has the focus.
pub proof fn law_the_register_form(form: &mut RegisterForm, key: Key, r: FormEvent)
    requires
        call_ensures(RegisterForm::handle, (form, key), r),
        !old(form).busy,
        old(form)@.wf(),
    ensures
        key == Key::Enter && old(form).focus < 2 ==> final(form).focus == old(form).focus + 1,
        key == Key::Tab ==> final(form).focus == if old(form).focus < 2 {
            old(form).focus + 1
        } else {
            0
        },
        key == Key::BackTab ==> final(form).focus == if old(form).focus > 0 {
            old(form).focus - 1
        } else {
            2
        },
        key == Key::Esc ==> r is Cancel,
        r is Submit ==> key == Key::Enter && old(form).focus == 2,
        old(form).focus != 0 ==> final(form)@.username == old(form)@.username,
        old(form).focus != 1 ==> final(form)@.password == old(form)@.password,
        old(form).focus != 2 ==> final(form)@.confirm == old(form)@.confirm,
        key is Char && !chars::control(key->Char_0) && old(form).focus == 0 && old(form)@.username.text.len() < old(form)@.username.max_len ==> final(form)@.username.text == old(form)@.username.text.insert(old(form)@.username.cursor, key->Char_0),
        key is Char && !chars::control(key->Char_0) && old(form).focus == 1 && old(form)@.password.text.len() < old(form)@.password.max_len ==> final(form)@.password.text == old(form)@.password.text.insert(old(form)@.password.cursor, key->Char_0),
        key is Char && !chars::control(key->Char_0) && old(form).focus == 2 && old(form)@.confirm.text.len() < old(form)@.confirm.max_len ==> final(form)@.confirm.text == old(form)@.confirm.text.insert(old(form)@.confirm.cursor, key->Char_0),
{
}

/// What was sent is asked for.
pub proof fn law_registrations_are_handed_on(
    app: &mut App,
    form: &mut RegisterForm,
    key: Key,
    sent: FormEvent,
    r: Option<Action>,
)
    requires
        call_ensures(App::handle_key, (app, key), r),
        call_ensures(RegisterForm::handle, (form, key), sent),
        old(app).motd_popup is None,
        old(app).screen is Register,
        old(form)@ == old(app).screen->Register_0@,
    ensures
        sent matches FormEvent::Submit { username, password } ==> (r matches Some(
            Action::Request(Request::Register { username: u, password: p }),
        ) && u@ == username@ && p@ == password@),
        sent is Nothing ==> r is None && final(app).screen is Register,
        sent is Cancel ==> r is None && final(app).screen is Menu,
{
}

// ----------------------------------------------------------------- the password

/// Enter in the last field sends the current and the new password as they
/// were typed, if the current one is there and the new one is valid, another
/// one, and typed twice; else it says what is wrong and leads to the field
/// that is.
pub proof fn law_passwords_are_sent_as_typed(
    form: &mut PasswordForm,
    name: &str,
    new: &str,
    new_ok: Result<(), String>,
    r: PasswordEvent,
)
    requires
        call_ensures(PasswordForm::handle, (form, Key::Enter), r),
        call_ensures(auth::validate_password, (name, new), new_ok),
        name@ == old(form).username@,
        new@ == old(form).new@.text,
        !old(form).busy,
        old(form).focus == 2,
    ensures
        old(form).current@.text.len() == 0 ==> r is Nothing && final(form).focus == 0 && final(form)@.error is Some,
        old(form).current@.text.len() > 0 ==> match new_ok {
            Err(e) => r is Nothing && final(form).focus == 1 && final(form)@.error == Some(e@),
            Ok(()) => if old(form).new@.text == old(form).current@.text {
                r is Nothing && final(form).focus == 1 && final(form)@.error is Some
            } else if old(form).new@.text != old(form).confirm@.text {
                r is Nothing && final(form).focus == 2 && final(form)@.error is Some
            } else {
                &&& r matches PasswordEvent::Submit { current, new: n } && current@
                    == old(form).current@.text && n@ == new@
                &&& final(form).busy
                &&& final(form)@.error is None
            },
        },
{
    assert(auth::verdict(new_ok) == auth::password_verdict(name@, new@));
}

/// The focus goes round as in any form, and what is typed goes to the field
/// that has it.
pub proof fn law_the_password_form(form: &mut PasswordForm, key: Key, r: PasswordEvent)
    requires
        call_ensures(PasswordForm::handle, (form, key), r),
        !old(form).busy,
        old(form)@.wf(),
    ensures
        key == Key::Enter && old(form).focus < 2 ==> final(form).focus == old(form).focus + 1,
        key == Key::Tab ==> final(form).focus == if old(form).focus < 2 {
            old(form).focus + 1
        } else {
            0
        },
        key == Key::Esc ==> r is Cancel,
        r is Submit ==> key == Key::Enter && old(form).focus == 2,
        final(form).username@ == old(form).username@,
        old(form).focus != 0 ==> final(form)@.current == old(form)@.current,
        old(form).focus != 1 ==> final(form)@.new == old(form)@.new,
        old(form).focus != 2 ==> final(form)@.confirm == old(form)@.confirm,
        key is Char && !chars::control(key->Char_0) && old(form).focus == 0 && old(form)@.current.text.len() < old(form)@.current.max_len ==> final(form)@.current.text == old(form)@.current.text.insert(old(form)@.current.cursor, key->Char_0),
        key is Char && !chars::control(key->Char_0) && old(form).focus == 1 && old(form)@.new.text.len() < old(form)@.new.max_len ==> final(form)@.new.text == old(form)@.new.text.insert(old(form)@.new.cursor, key->Char_0),
        key is Char && !chars::control(key->Char_0) && old(form).focus == 2 && old(form)@.confirm.text.len() < old(form)@.confirm.max_len ==> final(form)@.confirm.text == old(form)@.confirm.text.insert(old(form)@.confirm.cursor, key->Char_0),
{
}

/// What was sent is asked for.
pub proof fn law_passwords_are_handed_on(
    app: &mut App,
    form: &mut PasswordForm,
    key: Key,
    sent: PasswordEvent,
    r: Option<Action>,
)
    requires
        call_ensures(App::handle_key, (app, key), r),
        call_ensures(PasswordForm::handle, (form, key), sent),
        old(app).motd_popup is None,
        old(app).screen is Password,
        old(form)@ == old(app).screen->Password_0@,
    ensures
        sent matches PasswordEvent::Submit { current, new } ==> (r matches Some(
            Action::Request(Request::ChangePassword { current: c, new: n }),
        ) && c@ == current@ && n@ == new@),
        sent is Nothing ==> r is None && final(app).screen is Password,
        sent is Cancel ==> r is None && final(app).screen is Menu,
{
}

/// Below a form stands what it is doing, or in red why it was refused.
pub proof fn law_forms_say_why(
    registration: &RegisterForm,
    password: &PasswordForm,
    r: Option<(String, Color)>,
)
    ensures
        call_ensures(RegisterForm::status, (registration,), r) && !registration.busy ==> match (
            registration.error,
            r,
        ) {
            (Some(e), Some((text, color))) => text@ == e@ && color is Red,
            (None, None) => true,
            _ => false,
        },
        call_ensures(PasswordForm::status, (password,), r) && !password.busy ==> match (
            password.error,
            r,
        ) {
            (Some(e), Some((text, color))) => text@ == e@ && color is Red,
            (None, None) => true,
            _ => false,
        },
{
}

// ---------------------------------------------------------------------- the keys

/// Enter saves the key as it was pasted; a yes to deleting deletes the key
/// that is selected, any other key none.
pub proof fn law_keys_are_added_and_deleted(screen: &mut KeysScreen, key: Key, r: KeysEvent)
    requires
        call_ensures(KeysScreen::handle, (screen, key), r),
        old(screen)@.wf(),
    ensures
        final(screen).keys@ == old(screen).keys@,
        match old(screen).mode {
            keys::Mode::Adding(input) => {
                &&& key == Key::Enter && input@.text.len() > 0 ==> (r matches KeysEvent::Add(line)
                    && line@ == input@.text)
                &&& key == Key::Esc ==> r is Nothing && final(screen).mode is List
                &&& (r is Add ==> key == Key::Enter) && !(r is Delete) && !(r is Back)
                &&& key is Char && !chars::control(key->Char_0) && input@.text.len()
                    < input@.max_len ==> (final(screen).mode matches keys::Mode::Adding(now)
                    && now@.text == input@.text.insert(input@.cursor, key->Char_0))
            },
            keys::Mode::ConfirmDelete => {
                &&& final(screen).mode is List
                &&& old(screen).selected < old(screen).keys@.len() && key == Key::Char('y') ==> r
                    == KeysEvent::Delete(old(screen).keys@[old(screen).selected as int].id)
                &&& key != Key::Char('y') ==> r is Nothing
            },
            keys::Mode::List => {
                &&& key == Key::Esc || key == Key::Char('q') ==> r is Back
                &&& key == Key::Up || key == Key::Down ==> r is Nothing && browsing::goes(
                    old(screen).selected as int,
                    final(screen).selected as int,
                    old(screen).keys@.len() as int,
                    key,
                )
                &&& key == Key::Char('a') ==> r is Nothing && (
                final(screen).mode matches keys::Mode::Adding(input) && input@.text.len() == 0)
                &&& key == Key::Char('d') && old(screen).keys@.len() > 0 ==> r is Nothing && final(screen).mode is ConfirmDelete && final(screen).selected == old(screen).selected
                &&& !(r is Delete) && !(r is Add)
            },
        },
{
    assert(final(screen)@.mode == final(screen).mode@);
    assert(old(screen)@.mode == old(screen).mode@);
}

/// The keys that arrive are listed by fingerprint and comment, in order.
pub proof fn law_keys_are_shown(
    screen: &mut KeysScreen,
    shown: &KeysScreen,
    list: Vec<KeyInfo>,
    ok: bool,
    i: int,
    r: ListPane,
)
    ensures
        call_ensures(KeysScreen::update, (screen, list, ok), ()) ==> final(screen).keys@ == list@,
        call_ensures(KeysScreen::update, (screen, list, true), ()) ==> final(screen).mode is List,
        call_ensures(KeysScreen::draw, (shown,), r) && 0 <= i < shown.keys@.len() ==> {
            &&& r.items@.len() == shown.keys@.len()
            &&& shown.keys@[i].comment@.len() > 0 ==> browsing::part(r.items@, i, 0)
                == shown.keys@[i].fingerprint@ + "  "@ + shown.keys@[i].comment@
            &&& shown.keys@[i].comment@.len() == 0 ==> browsing::part(r.items@, i, 0)
                == shown.keys@[i].fingerprint@ + "  -"@
            &&& r.selected == Some(shown.selected)
        },
{
    assert(final(screen)@.mode == final(screen).mode@);
    if call_ensures(KeysScreen::draw, (shown,), r) && 0 <= i < shown.keys@.len() {
        browsing::lemma_part(r.items@, shown@.drawn().items, i, 0);
        reveal_strlit("  -");
        reveal_strlit("  ");
        reveal_strlit("-");
        let f = shown.keys@[i].fingerprint@;
        assert(f + "  "@ + "-"@ =~= f + "  -"@);
    }
}

/// What is added or deleted is asked for.
pub proof fn law_keys_are_handed_on(
    app: &mut App,
    screen: &mut KeysScreen,
    key: Key,
    event: KeysEvent,
    r: Option<Action>,
)
    requires
        call_ensures(App::handle_key, (app, key), r),
        call_ensures(KeysScreen::handle, (screen, key), event),
        old(app).motd_popup is None,
        old(app).screen is Keys,
        old(screen)@ == old(app).screen->Keys_0@,
    ensures
        match event {
            KeysEvent::Nothing => r is None && final(app).screen is Keys,
            KeysEvent::Back => r is None && final(app).screen is Menu,
            KeysEvent::Add(line) => r matches Some(Action::Request(Request::AddKey(l))) && l@
                == line@,
            KeysEvent::Delete(id) => r == Some(Action::Request(Request::DeleteKey(id))),
        },
{
}

// ----------------------------------------------------------------- who is online

/// Everyone online is listed, in order, by name, with the sysops marked, and
/// the guests are counted below them.
#[verifier::rlimit(50)]
pub proof fn law_people_online_are_listed(screen: &OnlineScreen, i: int, r: ListPane)
    requires
        call_ensures(OnlineScreen::draw, (screen,), r),
        screen.loaded,
    ensures
        0 <= i < screen.users@.len() ==> {
            &&& browsing::part(r.items@, i, 0) == chars::padded(screen.users@[i].name@, 16)
            &&& (browsing::part(r.items@, i, 1) == "[sysop] "@) == screen.users@[i].is_sysop
            &&& chars::padded(screen.users@[i].activity@, 24).is_prefix_of(
                browsing::part(r.items@, i, 2),
            )
        },
        screen.guests > 0 ==> r.items@.len() == screen.users@.len() + 1 && (
        "+ "@ + chars::decimal(screen.guests as nat)).is_prefix_of(
            browsing::part(r.items@, screen.users@.len() as int, 0),
        ),
        screen.guests == 0 && screen.users@.len() > 0 ==> r.items@.len() == screen.users@.len(),
{
    let models = screen@.items();
    if 0 <= i < screen.users@.len() {
        let u = screen.users@[i];
        assert(models[i] == online::user_line(u));
        browsing::lemma_part(r.items@, models, i, 0);
        browsing::lemma_part(r.items@, models, i, 1);
        browsing::lemma_part(r.items@, models, i, 2);
        reveal_strlit("[sysop] ");
        reveal_strlit("        ");
        assert("[sysop] "@[0] != "        "@[0]);
        let activity = chars::padded(u.activity@, 24);
        let shown = browsing::part(r.items@, i, 2);
        assert(activity =~= shown.subrange(0, activity.len() as int));
    }
    if screen.guests > 0 {
        let last = screen.users@.len() as int;
        browsing::lemma_part(r.items@, models, last, 0);
        let count = "+ "@ + chars::decimal(screen.guests as nat);
        let shown = browsing::part(r.items@, last, 0);
        assert(count =~= shown.subrange(0, count.len() as int));
    } else if screen.users@.len() > 0 {
        browsing::lemma_part(r.items@, models, 0, 0);
    }
}

/// The list is what was sent; r asks for it anew, and Esc goes back.
pub proof fn law_the_list_of_who_is_online(
    screen: &mut OnlineScreen,
    users: Vec<OnlineInfo>,
    guests: usize,
    key: Key,
    r: OnlineEvent,
)
    ensures
        call_ensures(OnlineScreen::set, (screen, users, guests), ()) ==> final(screen).users@
            == users@ && final(screen).guests == guests && final(screen).loaded,
        call_ensures(OnlineScreen::handle, (screen, key), r) ==> (r is Refresh) == (key
            == Key::Char('r')) && (r is Back) == (key == Key::Esc || key == Key::Char('q')),
{
}

/// How long somebody has been here: the minutes, and the hours from one hour
/// on.
#[verifier::rlimit(50)]
pub proof fn law_lengths_of_time(secs: u64, r: String)
    requires
        call_ensures(online::format_duration, (secs,), r),
    ensures
        secs < 60 ==> r@ == "just now"@,
        60 <= secs < 3600 ==> r@.last() == 'm' && chars::number(r@.drop_last()) * 60 <= secs
            < chars::number(r@.drop_last()) * 60 + 60,
        secs >= 3600 ==> r@.len() >= 6 && r@.last() == 'm' && r@[r@.len() - 5] == 'h' && ({
            let hours = chars::number(r@.take(r@.len() - 5));
            let minutes = chars::number(r@.subrange(r@.len() - 3, r@.len() - 1));
            minutes < 60 && hours * 3600 + minutes * 60 <= secs < hours * 3600 + minutes * 60 + 60
        }),
{
    reveal_strlit("m");
    reveal_strlit("h ");
    if 60 <= secs < 3600 {
        let m = (secs / 60) as nat;
        talking::law_numbers_read_back(m);
        assert(r@.drop_last() =~= chars::decimal(m));
    } else if secs >= 3600 {
        let h = (secs / 3600) as nat;
        let m = (secs % 3600 / 60) as nat;
        talking::law_numbers_read_back(h);
        talking::lemma_two_digits(m);
        assert(r@.take(r@.len() - 5) =~= chars::decimal(h));
        assert(r@.subrange(r@.len() - 3, r@.len() - 1) =~= chars::two_digits(m));
    }
}

// ------------------------------------------------------------------- sysop tools

/// Enter in the tools edits the message of the day, and Esc goes back.
pub proof fn law_the_sysop_tools(menu: &mut SysopMenu, key: Key, r: SysopMenuEvent)
    requires
        call_ensures(SysopMenu::handle, (menu, key), r),
    ensures
        (r is EditMotd) == (key == Key::Enter),
        (r is Back) == (key == Key::Esc || key == Key::Char('q')),
{
}

/// Ctrl-D saves what stands in the editor, line by line; Esc gives up; until
/// the text is there and while it is being saved no key does anything.
pub proof fn law_the_editor_saves_what_it_holds(editor: &mut MotdEditor, key: Key, r: MotdEvent)
    requires
        call_ensures(MotdEditor::handle, (editor, key), r),
    ensures
        !old(editor).loaded || old(editor).busy ==> r is Nothing && final(editor)@ == old(editor)@,
        old(editor).loaded && !old(editor).busy ==> {
            &&& key == Key::Ctrl('d') ==> (r matches MotdEvent::Save(text) && text@
                == chars::joined(old(editor).body@.lines, "\n"@)) && final(editor).busy
            &&& key == Key::Esc ==> r is Cancel
            &&& key != Key::Esc && key != Key::Ctrl('d') ==> r is Nothing
        },
{
}

/// What is saved is asked for, and leaving the editor leads to the tools.
pub proof fn law_the_motd_is_handed_on(
    app: &mut App,
    editor: &mut MotdEditor,
    key: Key,
    event: MotdEvent,
    r: Option<Action>,
)
    requires
        call_ensures(App::handle_key, (app, key), r),
        call_ensures(MotdEditor::handle, (editor, key), event),
        old(app).motd_popup is None,
        old(app).screen is MotdEditor,
        old(editor)@ == old(app).screen->MotdEditor_0@,
    ensures
        match event {
            MotdEvent::Nothing => r is None && final(app).screen is MotdEditor,
            MotdEvent::Cancel => r is None && final(app).screen is SysopMenu,
            MotdEvent::Save(text) => r matches Some(Action::Request(Request::SetMotd { text: t }))
                && t@ == text@,
        },
{
}

} // verus!
