//! The list of who is online.

use vstd::prelude::*;

use crate::chars;
use crate::chars::{cat2, cat3, cat4, decimal_text, pad, size_text, two_digit_text};
use crate::ui::boards;
use crate::ui::boards::{append_if, dim};
use crate::ui::input::Key;
use crate::ui::paint;
use crate::ui::paint::{
    line1, line3, span, strong, text_line, Color, Line, ListPane, Listing, Run, Style,
};
use crate::ui::protocol::OnlineInfo;

verus! {

#[derive(Clone, Copy, Debug, PartialEq, Eq, Structural)]
pub enum OnlineEvent {
    Nothing,
    Back,
    Refresh,
}

/// A snapshot of who is connected; `r` takes a fresh one.
pub struct OnlineScreen {
    pub users: Vec<OnlineInfo>,
    pub guests: usize,
    pub loaded: bool,
}

/// The contents of an `OnlineScreen`.
pub struct Present {
    pub users: Seq<OnlineInfo>,
    pub guests: usize,
    pub loaded: bool,
}

impl View for OnlineScreen {
    type V = Present;

    open spec fn view(&self) -> Present {
        Present { users: self.users@, guests: self.guests, loaded: self.loaded }
    }
}

/// A length of time in words.
pub open spec fn duration_text(secs: u64) -> Seq<char> {
    if secs < 60 {
        "just now"@
    } else if secs < 3600 {
        chars::decimal((secs / 60) as nat) + "m"@
    } else {
        chars::decimal((secs / 3600) as nat) + "h "@ + chars::two_digits(
            (secs % 3600 / 60) as nat,
        ) + "m"@
    }
}

/// `secs` in words.
pub fn format_duration(secs: u64) -> (r: String)
    ensures
        r@ == duration_text(secs),
{
    if secs < 60 {
        "just now".to_owned()
    } else if secs < 3600 {
        cat2(&decimal_text((secs / 60) as u128), "m")
    } else {
        cat4(
            &decimal_text((secs / 3600) as u128),
            "h ",
            &two_digit_text(secs % 3600 / 60),
            "m",
        )
    }
}

/// A user in the list.
pub open spec fn user_line(u: OnlineInfo) -> Seq<Run> {
    seq![
        paint::run(chars::padded(u.name@, 16), strong()),
        if u.is_sysop {
            paint::run("[sysop] "@, Style::fg(Color::Yellow))
        } else {
            paint::run("        "@, Style::plain())
        },
        paint::run(
            chars::padded(u.activity@, 24) + duration_text(u.connected) + boards::opt(
                u.sessions > 1,
                " ("@ + chars::decimal(u.sessions as nat) + " sessions)"@,
            ),
            dim(),
        ),
    ]
}

pub open spec fn guests_line(guests: usize) -> Seq<Run> {
    seq![
        paint::run(
            "+ "@ + chars::decimal(guests as nat) + " guest"@ + boards::opt(guests != 1, "s"@)
                + " browsing"@,
            dim(),
        ),
    ]
}

impl Present {
    pub open spec fn empty() -> Present {
        Present { users: Seq::empty(), guests: 0, loaded: false }
    }

    pub open spec fn items(self) -> Seq<Seq<Run>> {
        if !self.loaded {
            seq![paint::plain_line("Loading…"@)]
        } else {
            let users = self.users.map_values(|u: OnlineInfo| user_line(u));
            if self.guests > 0 {
                users.push(guests_line(self.guests))
            } else if users.len() == 0 {
                seq![paint::plain_line("Nobody else is here."@)]
            } else {
                users
            }
        }
    }

    /// The list as it is drawn.
    pub open spec fn drawn(self) -> Listing {
        Listing {
            title: "Who's online"@,
            items: self.items(),
            selected: None,
            help: seq![paint::run("r: refresh · Esc: back"@, dim())],
        }
    }
}

impl OnlineScreen {
    pub fn new() -> (r: OnlineScreen)
        ensures
            r@ == Present::empty(),
    {
        OnlineScreen { users: Vec::new(), guests: 0, loaded: false }
    }

    pub fn set(&mut self, users: Vec<OnlineInfo>, guests: usize)
        ensures
            final(self)@ == (Present { users: users@, guests, loaded: true }),
    {
        self.users = users;
        self.guests = guests;
        self.loaded = true;
    }

    pub open spec fn answer(key: Key) -> OnlineEvent {
        match key {
            Key::Esc | Key::Char('q') => OnlineEvent::Back,
            Key::Char('r') => OnlineEvent::Refresh,
            _ => OnlineEvent::Nothing,
        }
    }

    pub fn handle(&mut self, key: Key) -> (r: OnlineEvent)
        ensures
            r == OnlineScreen::answer(key),
            *final(self) == *old(self),
    {
        match key {
            Key::Esc | Key::Char('q') => OnlineEvent::Back,
            Key::Char('r') => OnlineEvent::Refresh,
            _ => OnlineEvent::Nothing,
        }
    }

    pub fn draw(&self) -> (r: ListPane)
        ensures
            r@ == self@.drawn(),
    {
        let mut items: Vec<Line> = Vec::new();
        if !self.loaded {
            items.push(text_line("Loading…".to_owned()));
        } else {
            let mut i: usize = 0;
            while i < self.users.len()
                invariant
                    i <= self.users@.len(),
                    items@.len() == i,
                    forall|j: int| 0 <= j < i ==> (#[trigger] items@[j])@ == user_line(self.users@[j]),
                decreases self.users@.len() - i,
            {
                let user = &self.users[i];
                let badge = if user.is_sysop {
                    span("[sysop] ".to_owned(), Style::fg(Color::Yellow))
                } else {
                    span("        ".to_owned(), Style::plain())
                };
                let mut detail = cat2(&pad(user.activity, 24), &format_duration(user.connected));
                let sessions = cat3(" (", &size_text(user.sessions), " sessions)");
                append_if(&mut detail, user.sessions > 1, &sessions);
                items.push(
                    line3(span(pad(&user.name, 16), strong()), badge, span(detail, dim())),
                );
                i += 1;
            }
            if self.guests > 0 {
                let mut text = cat3("+ ", &size_text(self.guests), " guest");
                append_if(&mut text, self.guests != 1, "s");
                text.append(" browsing");
                items.push(line1(span(text, dim())));
            } else if items.len() == 0 {
                items.push(text_line("Nobody else is here.".to_owned()));
            }
        }
        let r = ListPane {
            title: "Who's online".to_owned(),
            items,
            selected: None,
            help: line1(span("r: refresh · Esc: back".to_owned(), dim())),
        };
        assert(r@.items =~= self@.drawn().items);
        r
    }
}

} // verus!
