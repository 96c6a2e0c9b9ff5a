//! The form that changes a password.

use vstd::prelude::*;

use crate::auth;
use crate::chars::same;
use crate::ui::input::{Field, Key, TextInput};
use crate::ui::paint::Color;
use crate::ui::protocol;

verus! {

#[derive(Debug)]
pub enum PasswordEvent {
    Nothing,
    Cancel,
    Submit { current: String, new: String },
}

/// A `PasswordEvent`, over the texts themselves.
pub enum PasswordWish {
    Nothing,
    Cancel,
    Submit { current: Seq<char>, new: Seq<char> },
}

impl View for PasswordEvent {
    type V = PasswordWish;

    open spec fn view(&self) -> PasswordWish {
        match self {
            PasswordEvent::Nothing => PasswordWish::Nothing,
            PasswordEvent::Cancel => PasswordWish::Cancel,
            PasswordEvent::Submit { current, new } => PasswordWish::Submit {
                current: current@,
                new: new@,
            },
        }
    }
}

/// "Change password": current password, new password, repeat.
pub struct PasswordForm {
    pub username: String,
    pub current: TextInput,
    pub new: TextInput,
    pub confirm: TextInput,
    pub focus: usize,
    pub error: Option<String>,
    /// True while a submitted change is being processed.
    pub busy: bool,
}

/// The contents of a `PasswordForm`.
pub struct Passwords {
    pub username: Seq<char>,
    pub current: Field,
    pub new: Field,
    pub confirm: Field,
    pub focus: int,
    pub error: Option<Seq<char>>,
    pub busy: bool,
}

impl View for PasswordForm {
    type V = Passwords;

    open spec fn view(&self) -> Passwords {
        Passwords {
            username: self.username@,
            current: self.current@,
            new: self.new@,
            confirm: self.confirm@,
            focus: self.focus as int,
            error: protocol::text_of(self.error),
            busy: self.busy,
        }
    }
}

/// A field with nothing in it.
pub open spec fn cleared(f: Field) -> Field {
    Field::empty(f.max_len, f.masked)
}

/// What is shown below a form while it is busy or has failed.
pub open spec fn note(busy: bool, error: Option<Seq<char>>, doing: Seq<char>) -> Option<
    (Seq<char>, Color),
> {
    if busy {
        Some((doing, Color::Yellow))
    } else {
        match error {
            Some(e) => Some((e, Color::Red)),
            None => None,
        }
    }
}

pub(crate) fn form_note(busy: bool, error: &Option<String>, doing: &str) -> (r: Option<
    (String, Color),
>)
    ensures
        match r {
            Some((text, color)) => note(busy, protocol::text_of(*error), doing@) == Some(
                (text@, color),
            ),
            None => note(busy, protocol::text_of(*error), doing@) is None,
        },
{
    if busy {
        Some((doing.to_owned(), Color::Yellow))
    } else {
        match error {
            Some(e) => Some((e.clone(), Color::Red)),
            None => None,
        }
    }
}

impl Passwords {
    pub open spec fn empty(username: Seq<char>) -> Passwords {
        let field = Field::empty(auth::PASSWORD_MAX as nat, true);
        Passwords {
            username,
            current: field,
            new: field,
            confirm: field,
            focus: 0,
            error: None,
            busy: false,
        }
    }

    pub open spec fn wf(self) -> bool {
        self.current.wf() && self.new.wf() && self.confirm.wf() && 0 <= self.focus <= 2
    }

    pub open spec fn failed(self, message: Seq<char>) -> Passwords {
        Passwords {
            busy: false,
            error: Some(message),
            current: cleared(self.current),
            new: cleared(self.new),
            confirm: cleared(self.confirm),
            focus: 0,
            ..self
        }
    }

    /// What can be told to be wrong without the server: the field, and why.
    pub open spec fn problem(self) -> Option<(int, Seq<char>)> {
        if self.current.text.len() == 0 {
            Some((0, "Enter your current password."@))
        } else {
            match auth::password_verdict(self.username, self.new.text) {
                Err(e) => Some((1, e)),
                Ok(()) => if self.new.text == self.current.text {
                    Some((1, "The new password must differ from the current one."@))
                } else if self.new.text != self.confirm.text {
                    Some((2, "The two new passwords don't match."@))
                } else {
                    None
                },
            }
        }
    }

    pub open spec fn submitted(self) -> (Passwords, PasswordWish) {
        match self.problem() {
            None => (
                Passwords { error: None, busy: true, ..self },
                PasswordWish::Submit { current: self.current.text, new: self.new.text },
            ),
            Some((focus, message)) => (
                Passwords { focus, error: Some(message), ..self },
                PasswordWish::Nothing,
            ),
        }
    }

    pub open spec fn after(self, key: Key) -> (Passwords, PasswordWish) {
        let still = PasswordWish::Nothing;
        if self.busy {
            (self, still)
        } else {
            match key {
                Key::Esc => (self, PasswordWish::Cancel),
                Key::Tab | Key::Down => (Passwords { focus: (self.focus + 1) % 3, ..self }, still),
                Key::BackTab | Key::Up => (
                    Passwords { focus: (self.focus + 2) % 3, ..self },
                    still,
                ),
                Key::Enter => if self.focus < 2 {
                    (Passwords { focus: self.focus + 1, ..self }, still)
                } else {
                    self.submitted()
                },
                _ => if self.focus == 0 {
                    (Passwords { current: self.current.after(key), ..self }, still)
                } else if self.focus == 1 {
                    (Passwords { new: self.new.after(key), ..self }, still)
                } else {
                    (Passwords { confirm: self.confirm.after(key), ..self }, still)
                },
            }
        }
    }
}

impl PasswordForm {
    pub open spec fn wf(&self) -> bool {
        self@.wf()
    }

    pub fn new(username: &str) -> (r: PasswordForm)
        ensures
            r@ == Passwords::empty(username@),
            r.wf(),
    {
        PasswordForm {
            username: username.to_owned(),
            current: TextInput::new(auth::PASSWORD_MAX, true),
            new: TextInput::new(auth::PASSWORD_MAX, true),
            confirm: TextInput::new(auth::PASSWORD_MAX, true),
            focus: 0,
            error: None,
            busy: false,
        }
    }

    /// The server refused the change. Nothing typed is kept, so a rejected
    /// attempt doesn't leave passwords sitting in the fields.
    pub fn fail(&mut self, message: String)
        ensures
            final(self)@ == old(self)@.failed(message@),
            final(self).wf(),
    {
        self.busy = false;
        self.error = Some(message);
        self.current.clear();
        self.new.clear();
        self.confirm.clear();
        self.focus = 0;
    }

    pub fn handle(&mut self, key: Key) -> (r: PasswordEvent)
        requires
            old(self).wf(),
        ensures
            (final(self)@, r@) == old(self)@.after(key),
            final(self).wf(),
    {
        if self.busy {
            return PasswordEvent::Nothing;
        }
        match key {
            Key::Esc => {
                return PasswordEvent::Cancel;
            },
            Key::Tab | Key::Down => {
                self.focus = (self.focus + 1) % 3;
            },
            Key::BackTab | Key::Up => {
                self.focus = (self.focus + 2) % 3;
            },
            Key::Enter => {
                if self.focus < 2 {
                    self.focus += 1;
                } else {
                    return self.submit();
                }
            },
            _ => {
                if self.focus == 0 {
                    self.current.handle(key);
                } else if self.focus == 1 {
                    self.new.handle(key);
                } else {
                    self.confirm.handle(key);
                }
            },
        }
        PasswordEvent::Nothing
    }

    /// Checks everything that doesn't need the server, so obvious mistakes
    /// don't cost a round trip (or a rate-limited attempt).
    fn check(&self) -> (r: Result<(), (usize, String)>)
        ensures
            match r {
                Ok(()) => self@.problem() is None,
                Err((focus, message)) => self@.problem() == Some((focus as int, message@)),
            },
            r matches Err((focus, _)) ==> focus <= 2,
    {
        if self.current.is_empty() {
            return Err((0, "Enter your current password.".to_owned()));
        }
        let new = self.new.value();
        if let Err(e) = auth::validate_password(&self.username, &new) {
            return Err((1, e));
        }
        if same(&new, &self.current.value()) {
            return Err((1, "The new password must differ from the current one.".to_owned()));
        }
        if !same(&new, &self.confirm.value()) {
            return Err((2, "The two new passwords don't match.".to_owned()));
        }
        Ok(())
    }

    fn submit(&mut self) -> (r: PasswordEvent)
        requires
            old(self).wf(),
        ensures
            (final(self)@, r@) == old(self)@.submitted(),
            final(self).wf(),
    {
        match self.check() {
            Ok(()) => {
                self.error = None;
                self.busy = true;
                PasswordEvent::Submit { current: self.current.value(), new: self.new.value() }
            },
            Err((focus, message)) => {
                self.focus = focus;
                self.error = Some(message);
                PasswordEvent::Nothing
            },
        }
    }

    pub open spec fn hint_spec() -> Seq<char> {
        "Enter your current password, then a new one (8-128 characters).\nYour other sessions will be signed out. Tab/Enter: next field · Esc: cancel"@
    }

    /// What is said above the fields.
    pub fn hint(&self) -> (r: &'static str)
        ensures
            r@ == PasswordForm::hint_spec(),
    {
        "Enter your current password, then a new one (8-128 characters).\nYour other sessions will be signed out. Tab/Enter: next field · Esc: cancel"
    }

    /// What is said below the fields, if anything.
    pub fn status(&self) -> (r: Option<(String, Color)>)
        ensures
            match r {
                Some((text, color)) => note(self.busy, self@.error, "Changing password…"@) == Some(
                    (text@, color),
                ),
                None => note(self.busy, self@.error, "Changing password…"@) is None,
            },
    {
        form_note(self.busy, &self.error, "Changing password…")
    }
}

} // verus!
