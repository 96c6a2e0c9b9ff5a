//! The list of SSH keys.

use vstd::prelude::*;

use crate::chars;
use crate::chars::{cat3, count, size_text};
use crate::ui::boards;
use crate::ui::boards::{clamp_to_last, dim, move_selection};
use crate::ui::input::{Field, Key, TextInput};
use crate::ui::paint;
use crate::ui::paint::{line1, span, text_line, Color, Line, ListPane, Listing, Run, Style};
use crate::ui::protocol::KeyInfo;

verus! {

/// Long enough for an RSA-4096 public key line.
pub const MAX_LINE: usize = 4096;

pub enum Mode {
    List,
    Adding(TextInput),
    ConfirmDelete,
}

/// The contents of a `Mode`.
pub enum ModeModel {
    List,
    Adding(Field),
    ConfirmDelete,
}

impl View for Mode {
    type V = ModeModel;

    open spec fn view(&self) -> ModeModel {
        match self {
            Mode::List => ModeModel::List,
            Mode::Adding(input) => ModeModel::Adding(input@),
            Mode::ConfirmDelete => ModeModel::ConfirmDelete,
        }
    }
}

#[derive(Debug)]
pub enum KeysEvent {
    Nothing,
    Back,
    Add(String),
    Delete(i64),
}

/// A `KeysEvent`, over the text itself.
pub enum KeysWish {
    Nothing,
    Back,
    Add(Seq<char>),
    Delete(i64),
}

impl View for KeysEvent {
    type V = KeysWish;

    open spec fn view(&self) -> KeysWish {
        match self {
            KeysEvent::Nothing => KeysWish::Nothing,
            KeysEvent::Back => KeysWish::Back,
            KeysEvent::Add(line) => KeysWish::Add(line@),
            KeysEvent::Delete(id) => KeysWish::Delete(*id),
        }
    }
}

pub struct KeysScreen {
    pub keys: Vec<KeyInfo>,
    pub selected: usize,
    pub mode: Mode,
}

/// The contents of a `KeysScreen`.
pub struct Keys {
    pub keys: Seq<KeyInfo>,
    pub selected: int,
    pub mode: ModeModel,
}

impl View for KeysScreen {
    type V = Keys;

    open spec fn view(&self) -> Keys {
        Keys { keys: self.keys@, selected: self.selected as int, mode: self.mode@ }
    }
}

/// A key in the list.
pub open spec fn key_line(k: KeyInfo) -> Seq<Run> {
    paint::plain_line(
        k.fingerprint@ + "  "@ + if k.comment@.len() == 0 {
            "-"@
        } else {
            k.comment@
        },
    )
}

impl Keys {
    pub open spec fn empty() -> Keys {
        Keys { keys: Seq::empty(), selected: 0, mode: ModeModel::List }
    }

    pub open spec fn wf(self) -> bool {
        self.mode matches ModeModel::Adding(input) ==> input.wf()
    }

    pub open spec fn updated(self, keys: Seq<KeyInfo>, ok: bool) -> Keys {
        Keys {
            keys,
            selected: boards::at_most_last(self.selected, keys.len() as int),
            mode: if ok {
                ModeModel::List
            } else {
                self.mode
            },
        }
    }

    pub open spec fn after(self, key: Key) -> (Keys, KeysWish) {
        let still = KeysWish::Nothing;
        match self.mode {
            ModeModel::List => match key {
                Key::Esc | Key::Char('q') => (self, KeysWish::Back),
                Key::Up | Key::Char('k') | Key::Down | Key::Char('j') => (
                    Keys {
                        selected: boards::moved(self.selected, self.keys.len() as int, key),
                        ..self
                    },
                    still,
                ),
                Key::Char('a') => (
                    Keys { mode: ModeModel::Adding(Field::empty(MAX_LINE as nat, false)), ..self },
                    still,
                ),
                Key::Char('d') | Key::Delete => if self.keys.len() > 0 {
                    (Keys { mode: ModeModel::ConfirmDelete, ..self }, still)
                } else {
                    (self, still)
                },
                _ => (self, still),
            },
            ModeModel::Adding(input) => if key == Key::Esc {
                (Keys { mode: ModeModel::List, ..self }, still)
            } else if key == Key::Enter && input.text.len() > 0 {
                (self, KeysWish::Add(input.text))
            } else {
                (Keys { mode: ModeModel::Adding(input.after(key)), ..self }, still)
            },
            ModeModel::ConfirmDelete => (
                Keys { mode: ModeModel::List, ..self },
                if key == Key::Char('y') && 0 <= self.selected < self.keys.len() {
                    KeysWish::Delete(self.keys[self.selected].id)
                } else {
                    still
                },
            ),
        }
    }

    pub open spec fn help(self) -> Run {
        match self.mode {
            ModeModel::List => paint::run(
                "a: add key · d: delete selected · ↑/↓: move · Esc: back\nKeys let you log in as your user without a password."@,
                dim(),
            ),
            ModeModel::Adding(_) => paint::run(
                "Paste public key (e.g. contents of ~/.ssh/id_ed25519.pub) · Enter: save · Esc: cancel"@,
                Style::plain(),
            ),
            ModeModel::ConfirmDelete => paint::run(
                "Delete the selected key? Press 'y' to confirm, any other key to cancel."@,
                Style::fg(Color::Yellow),
            ),
        }
    }

    /// The list as it is drawn. While a key is being added the help is the
    /// title of the field.
    pub open spec fn drawn(self) -> Listing {
        Listing {
            title: "Your SSH public keys ("@ + chars::decimal(self.keys.len()) + "/10)"@,
            items: if self.keys.len() == 0 {
                seq![paint::plain_line("(no keys yet — press 'a' to add one)"@)]
            } else {
                self.keys.map_values(|k: KeyInfo| key_line(k))
            },
            selected: if self.keys.len() == 0 {
                None
            } else {
                Some(self.selected as usize)
            },
            help: seq![self.help()],
        }
    }
}

impl KeysScreen {
    pub open spec fn wf(&self) -> bool {
        self@.wf()
    }

    pub fn new() -> (r: KeysScreen)
        ensures
            r@ == Keys::empty(),
            r.wf(),
    {
        KeysScreen { keys: Vec::new(), selected: 0, mode: Mode::List }
    }

    /// Replaces the list with fresh data from the server. `ok` is false when
    /// the last add/delete failed, in which case an open "add" box stays open
    /// so the user can correct their input.
    pub fn update(&mut self, keys: Vec<KeyInfo>, ok: bool)
        requires
            old(self).wf(),
        ensures
            final(self)@ == old(self)@.updated(keys@, ok),
            final(self).wf(),
    {
        self.keys = keys;
        self.selected = clamp_to_last(self.selected, self.keys.len());
        if ok {
            self.mode = Mode::List;
        }
    }

    pub fn handle(&mut self, key: Key) -> (r: KeysEvent)
        requires
            old(self).wf(),
        ensures
            (final(self)@, r@) == old(self)@.after(key),
            final(self).wf(),
    {
        let len: usize = self.keys.len();
        match &mut self.mode {
            Mode::List => match key {
                Key::Esc | Key::Char('q') => {
                    return KeysEvent::Back;
                },
                Key::Up | Key::Char('k') | Key::Down | Key::Char('j') => {
                    move_selection(&mut self.selected, len, key);
                },
                Key::Char('a') => {
                    self.mode = Mode::Adding(TextInput::new(MAX_LINE, false));
                },
                Key::Char('d') | Key::Delete => {
                    if len > 0 {
                        self.mode = Mode::ConfirmDelete;
                    }
                },
                _ => {},
            },
            Mode::Adding(input) => {
                if key == Key::Esc {
                    self.mode = Mode::List;
                } else if key == Key::Enter && !input.is_empty() {
                    return KeysEvent::Add(input.value());
                } else {
                    input.handle(key);
                }
            },
            Mode::ConfirmDelete => {
                self.mode = Mode::List;
                if key == Key::Char('y') && self.selected < len {
                    return KeysEvent::Delete(self.keys[self.selected].id);
                }
            },
        }
        KeysEvent::Nothing
    }

    pub fn draw(&self) -> (r: ListPane)
        ensures
            r@ == self@.drawn(),
    {
        let mut items: Vec<Line> = Vec::new();
        if self.keys.len() == 0 {
            items.push(text_line("(no keys yet — press 'a' to add one)".to_owned()));
        } else {
            let mut i: usize = 0;
            while i < self.keys.len()
                invariant
                    i <= self.keys@.len(),
                    items@.len() == i,
                    forall|j: int| 0 <= j < i ==> (#[trigger] items@[j])@ == key_line(self.keys@[j]),
                decreases self.keys@.len() - i,
            {
                let k = &self.keys[i];
                if count(&k.comment) == 0 {
                    items.push(text_line(cat3(&k.fingerprint, "  ", "-")));
                } else {
                    items.push(text_line(cat3(&k.fingerprint, "  ", &k.comment)));
                }
                i += 1;
            }
        }
        let help = match self.mode {
            Mode::List => span(
                "a: add key · d: delete selected · ↑/↓: move · Esc: back\nKeys let you log in as your user without a password.".to_owned(),
                dim(),
            ),
            Mode::Adding(_) => span(
                "Paste public key (e.g. contents of ~/.ssh/id_ed25519.pub) · Enter: save · Esc: cancel".to_owned(),
                Style::plain(),
            ),
            Mode::ConfirmDelete => span(
                "Delete the selected key? Press 'y' to confirm, any other key to cancel.".to_owned(),
                Style::fg(Color::Yellow),
            ),
        };
        let r = ListPane {
            title: cat3("Your SSH public keys (", &size_text(self.keys.len()), "/10)"),
            items,
            selected: if self.keys.len() == 0 {
                None
            } else {
                Some(self.selected)
            },
            help: line1(help),
        };
        assert(r@.items =~= self@.drawn().items);
        r
    }
}

} // verus!
