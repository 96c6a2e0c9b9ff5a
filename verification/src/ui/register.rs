//! The form that registers an account.

use vstd::prelude::*;

use crate::auth;
use crate::chars::same;
use crate::ui::input::{Field, Key, TextInput};
use crate::ui::paint::Color;
use crate::ui::password;
use crate::ui::password::form_note;
use crate::ui::protocol;

verus! {

#[derive(Debug)]
pub enum FormEvent {
    Nothing,
    Cancel,
    Submit { username: String, password: String },
}

/// A `FormEvent`, over the texts themselves.
pub enum FormWish {
    Nothing,
    Cancel,
    Submit { username: Seq<char>, password: Seq<char> },
}

impl View for FormEvent {
    type V = FormWish;

    open spec fn view(&self) -> FormWish {
        match self {
            FormEvent::Nothing => FormWish::Nothing,
            FormEvent::Cancel => FormWish::Cancel,
            FormEvent::Submit { username, password } => FormWish::Submit {
                username: username@,
                password: password@,
            },
        }
    }
}

pub struct RegisterForm {
    pub username: TextInput,
    pub password: TextInput,
    pub confirm: TextInput,
    pub focus: usize,
    pub error: Option<String>,
    /// True while a submitted registration is being processed.
    pub busy: bool,
}

/// The contents of a `RegisterForm`.
pub struct Registration {
    pub username: Field,
    pub password: Field,
    pub confirm: Field,
    pub focus: int,
    pub error: Option<Seq<char>>,
    pub busy: bool,
}

impl View for RegisterForm {
    type V = Registration;

    open spec fn view(&self) -> Registration {
        Registration {
            username: self.username@,
            password: self.password@,
            confirm: self.confirm@,
            focus: self.focus as int,
            error: protocol::text_of(self.error),
            busy: self.busy,
        }
    }
}

impl Registration {
    pub open spec fn empty() -> Registration {
        Registration {
            username: Field::empty(auth::USERNAME_MAX as nat, false),
            password: Field::empty(auth::PASSWORD_MAX as nat, true),
            confirm: Field::empty(auth::PASSWORD_MAX as nat, true),
            focus: 0,
            error: None,
            busy: false,
        }
    }

    pub open spec fn wf(self) -> bool {
        self.username.wf() && self.password.wf() && self.confirm.wf() && 0 <= self.focus <= 2
    }

    pub open spec fn failed(self, message: Seq<char>) -> Registration {
        Registration {
            busy: false,
            error: Some(message),
            password: password::cleared(self.password),
            confirm: password::cleared(self.confirm),
            focus: 1,
            ..self
        }
    }

    /// What can be told to be wrong without the server: the field, and why.
    pub open spec fn problem(self) -> Option<(int, Seq<char>)> {
        match auth::username_verdict(self.username.text) {
            Err(e) => Some((0, e)),
            Ok(()) => match auth::password_verdict(self.username.text, self.password.text) {
                Err(e) => Some((1, e)),
                Ok(()) => if self.password.text == self.confirm.text {
                    None
                } else {
                    Some((2, "The two passwords don't match."@))
                },
            },
        }
    }

    pub open spec fn submitted(self) -> (Registration, FormWish) {
        match self.problem() {
            None => (
                Registration { error: None, busy: true, ..self },
                FormWish::Submit { username: self.username.text, password: self.password.text },
            ),
            Some((focus, message)) => (
                Registration { focus, error: Some(message), ..self },
                FormWish::Nothing,
            ),
        }
    }

    pub open spec fn after(self, key: Key) -> (Registration, FormWish) {
        let still = FormWish::Nothing;
        if self.busy {
            (self, still)
        } else {
            match key {
                Key::Esc => (self, FormWish::Cancel),
                Key::Tab | Key::Down => (
                    Registration { focus: (self.focus + 1) % 3, ..self },
                    still,
                ),
                Key::BackTab | Key::Up => (
                    Registration { focus: (self.focus + 2) % 3, ..self },
                    still,
                ),
                Key::Enter => if self.focus < 2 {
                    (Registration { focus: self.focus + 1, ..self }, still)
                } else {
                    self.submitted()
                },
                _ => if self.focus == 0 {
                    (Registration { username: self.username.after(key), ..self }, still)
                } else if self.focus == 1 {
                    (Registration { password: self.password.after(key), ..self }, still)
                } else {
                    (Registration { confirm: self.confirm.after(key), ..self }, still)
                },
            }
        }
    }
}

impl RegisterForm {
    pub open spec fn wf(&self) -> bool {
        self@.wf()
    }

    pub fn new() -> (r: RegisterForm)
        ensures
            r@ == Registration::empty(),
            r.wf(),
    {
        RegisterForm {
            username: TextInput::new(auth::USERNAME_MAX, false),
            password: TextInput::new(auth::PASSWORD_MAX, true),
            confirm: TextInput::new(auth::PASSWORD_MAX, true),
            focus: 0,
            error: None,
            busy: false,
        }
    }

    /// Called when the server rejected the registration.
    pub fn fail(&mut self, message: String)
        requires
            old(self).wf(),
        ensures
            final(self)@ == old(self)@.failed(message@),
            final(self).wf(),
    {
        self.busy = false;
        self.error = Some(message);
        self.password.clear();
        self.confirm.clear();
        self.focus = 1;
    }

    pub fn handle(&mut self, key: Key) -> (r: FormEvent)
        requires
            old(self).wf(),
        ensures
            (final(self)@, r@) == old(self)@.after(key),
            final(self).wf(),
    {
        if self.busy {
            return FormEvent::Nothing;
        }
        match key {
            Key::Esc => {
                return FormEvent::Cancel;
            },
            Key::Tab | Key::Down => {
                self.focus = (self.focus + 1) % 3;
            },
            Key::BackTab | Key::Up => {
                self.focus = (self.focus + 2) % 3;
            },
            Key::Enter => {
                if self.focus < 2 {
                    self.focus += 1;
                } else {
                    return self.submit();
                }
            },
            _ => {
                if self.focus == 0 {
                    self.username.handle(key);
                } else if self.focus == 1 {
                    self.password.handle(key);
                } else {
                    self.confirm.handle(key);
                }
            },
        }
        FormEvent::Nothing
    }

    fn submit(&mut self) -> (r: FormEvent)
        requires
            old(self).wf(),
        ensures
            (final(self)@, r@) == old(self)@.submitted(),
            final(self).wf(),
    {
        let username = self.username.value();
        let password = self.password.value();
        if let Err(e) = auth::validate_username(&username) {
            self.focus = 0;
            self.error = Some(e);
            return FormEvent::Nothing;
        }
        if let Err(e) = auth::validate_password(&username, &password) {
            self.focus = 1;
            self.error = Some(e);
            return FormEvent::Nothing;
        }
        if !same(&password, &self.confirm.value()) {
            self.focus = 2;
            self.error = Some("The two passwords don't match.".to_owned());
            return FormEvent::Nothing;
        }
        self.error = None;
        self.busy = true;
        FormEvent::Submit { username, password }
    }

    pub open spec fn hint_spec() -> Seq<char> {
        "Pick a username (3-16 letters, digits, '_' or '-') and a password of at least 8 characters.\nTab/Enter: next field · Esc: cancel"@
    }

    /// What is said above the fields.
    pub fn hint(&self) -> (r: &'static str)
        ensures
            r@ == RegisterForm::hint_spec(),
    {
        "Pick a username (3-16 letters, digits, '_' or '-') and a password of at least 8 characters.\nTab/Enter: next field · Esc: cancel"
    }

    /// What is said below the fields, if anything.
    pub fn status(&self) -> (r: Option<(String, Color)>)
        ensures
            match r {
                Some((text, color)) => password::note(
                    self.busy,
                    self@.error,
                    "Creating account…"@,
                ) == Some((text@, color)),
                None => password::note(self.busy, self@.error, "Creating account…"@) is None,
            },
    {
        form_note(self.busy, &self.error, "Creating account…")
    }
}

} // verus!
