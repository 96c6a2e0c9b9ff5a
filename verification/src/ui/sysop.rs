//! The sysop tools: their menu, and the editor of the message of the day.

use vstd::prelude::*;

use crate::content;
use crate::ui::boards::{dim, form_status};
use crate::ui::compose::{Area, TextArea};
use crate::ui::input::Key;
use crate::ui::paint;
use crate::ui::paint::{line1, span, text_line, Color, Line, ListPane, Listing};
use crate::ui::protocol;

verus! {

// ------------------------------------------------------------- hub menu

/// Entries of the menu: so far only the message of the day.
pub const ITEM_COUNT: usize = 1;

#[derive(Clone, Copy, Debug, PartialEq, Eq, Structural)]
pub enum SysopMenuEvent {
    Nothing,
    Back,
    EditMotd,
}

#[derive(Clone, Copy, Debug, PartialEq, Eq, Structural)]
pub struct SysopMenu {
    pub selected: usize,
}

impl SysopMenu {
    pub open spec fn wf(self) -> bool {
        self.selected < ITEM_COUNT
    }

    pub open spec fn after(self, key: Key) -> (SysopMenu, SysopMenuEvent) {
        let still = SysopMenuEvent::Nothing;
        match key {
            Key::Esc | Key::Char('q') => (self, SysopMenuEvent::Back),
            Key::Up | Key::Char('k') => (
                SysopMenu { selected: ((self.selected + ITEM_COUNT - 1) % (ITEM_COUNT as int)) as usize },
                still,
            ),
            Key::Down | Key::Char('j') => (
                SysopMenu { selected: ((self.selected + 1) % (ITEM_COUNT as int)) as usize },
                still,
            ),
            Key::Enter => (self, SysopMenuEvent::EditMotd),
            _ => (self, still),
        }
    }

    pub open spec fn drawn(self) -> Listing {
        Listing {
            title: "Sysop tools"@,
            items: seq![paint::plain_line("Edit message of the day"@)],
            selected: Some(self.selected),
            help: seq![paint::run("Enter: open · ↑/↓: move · Esc: back"@, dim())],
        }
    }

    pub fn new() -> (r: SysopMenu)
        ensures
            r == (SysopMenu { selected: 0 }),
            r.wf(),
    {
        SysopMenu { selected: 0 }
    }

    pub fn handle(&mut self, key: Key) -> (r: SysopMenuEvent)
        requires
            old(self).wf(),
        ensures
            (*final(self), r) == old(self).after(key),
            final(self).wf(),
    {
        match key {
            Key::Esc | Key::Char('q') => {
                return SysopMenuEvent::Back;
            },
            Key::Up | Key::Char('k') => {
                self.selected = (self.selected + ITEM_COUNT - 1) % ITEM_COUNT;
            },
            Key::Down | Key::Char('j') => {
                self.selected = (self.selected + 1) % ITEM_COUNT;
            },
            Key::Enter => {
                return SysopMenuEvent::EditMotd;
            },
            _ => {},
        }
        SysopMenuEvent::Nothing
    }

    pub fn draw(&self) -> (r: ListPane)
        ensures
            r@ == self.drawn(),
    {
        let mut items: Vec<Line> = Vec::new();
        items.push(text_line("Edit message of the day".to_owned()));
        let r = ListPane {
            title: "Sysop tools".to_owned(),
            items,
            selected: Some(self.selected),
            help: line1(span("Enter: open · ↑/↓: move · Esc: back".to_owned(), dim())),
        };
        assert(r@.items =~= self.drawn().items);
        r
    }
}

// ------------------------------------------------------------ motd editor

#[derive(Debug)]
pub enum MotdEvent {
    Nothing,
    Cancel,
    Save(String),
}

/// A `MotdEvent`, over the text itself.
pub enum MotdWish {
    Nothing,
    Cancel,
    Save(Seq<char>),
}

impl View for MotdEvent {
    type V = MotdWish;

    open spec fn view(&self) -> MotdWish {
        match self {
            MotdEvent::Nothing => MotdWish::Nothing,
            MotdEvent::Cancel => MotdWish::Cancel,
            MotdEvent::Save(text) => MotdWish::Save(text@),
        }
    }
}

pub struct MotdEditor {
    pub body: TextArea,
    pub loaded: bool,
    pub error: Option<String>,
    pub busy: bool,
}

/// The contents of a `MotdEditor`.
pub struct Motd {
    pub body: Area,
    pub loaded: bool,
    pub error: Option<Seq<char>>,
    pub busy: bool,
}

impl View for MotdEditor {
    type V = Motd;

    open spec fn view(&self) -> Motd {
        Motd {
            body: self.body@,
            loaded: self.loaded,
            error: protocol::text_of(self.error),
            busy: self.busy,
        }
    }
}

impl Motd {
    pub open spec fn loading() -> Motd {
        Motd {
            body: Area::empty(content::MOTD_MAX as nat),
            loaded: false,
            error: None,
            busy: false,
        }
    }

    pub open spec fn wf(self) -> bool {
        self.body.wf()
    }

    pub open spec fn with_text(self, text: Seq<char>) -> Motd {
        Motd {
            body: Area::empty(content::MOTD_MAX as nat).typed(text),
            loaded: true,
            busy: false,
            ..self
        }
    }

    pub open spec fn failed(self, message: Seq<char>) -> Motd {
        Motd { busy: false, error: Some(message), ..self }
    }

    pub open spec fn after(self, key: Key) -> (Motd, MotdWish) {
        if !self.loaded || self.busy {
            (self, MotdWish::Nothing)
        } else if key == Key::Esc {
            (self, MotdWish::Cancel)
        } else if key == Key::Ctrl('d') {
            (Motd { error: None, busy: true, ..self }, MotdWish::Save(self.body.value()))
        } else {
            (Motd { body: self.body.after(key), ..self }, MotdWish::Nothing)
        }
    }

    /// The line below the editor.
    pub open spec fn hint(self) -> (Seq<char>, Color) {
        if !self.loaded {
            ("Loading…"@, Color::Yellow)
        } else {
            crate::ui::boards::form_hint(
                self.busy,
                self.error,
                "Saving…"@,
                "Ctrl-D: save · Esc: cancel · clear the text and save to remove the MOTD"@,
            )
        }
    }
}

impl MotdEditor {
    pub open spec fn wf(&self) -> bool {
        self@.wf()
    }

    pub fn loading() -> (r: MotdEditor)
        ensures
            r@ == Motd::loading(),
            r.wf(),
    {
        MotdEditor {
            body: TextArea::new(content::MOTD_MAX),
            loaded: false,
            error: None,
            busy: false,
        }
    }

    /// Loads the current text from the server. Called once, when it arrives.
    pub fn set_text(&mut self, text: &str)
        ensures
            final(self)@ == old(self)@.with_text(text@),
            final(self).wf(),
    {
        self.body = TextArea::new(content::MOTD_MAX);
        self.body.set_text(text);
        self.loaded = true;
        self.busy = false;
    }

    pub fn fail(&mut self, message: String)
        ensures
            final(self)@ == old(self)@.failed(message@),
    {
        self.busy = false;
        self.error = Some(message);
    }

    pub fn handle(&mut self, key: Key) -> (r: MotdEvent)
        requires
            old(self).wf(),
        ensures
            (final(self)@, r@) == old(self)@.after(key),
            final(self).wf(),
    {
        if !self.loaded || self.busy {
            return MotdEvent::Nothing;
        }
        match key {
            Key::Esc => MotdEvent::Cancel,
            Key::Ctrl('d') => {
                self.error = None;
                self.busy = true;
                MotdEvent::Save(self.body.value())
            },
            _ => {
                self.body.handle(key);
                MotdEvent::Nothing
            },
        }
    }

    pub fn status(&self) -> (r: (String, Color))
        ensures
            (r.0@, r.1) == self@.hint(),
    {
        if !self.loaded {
            ("Loading…".to_owned(), Color::Yellow)
        } else {
            form_status(
                self.busy,
                &self.error,
                "Saving…",
                "Ctrl-D: save · Esc: cancel · clear the text and save to remove the MOTD",
            )
        }
    }
}

} // verus!
