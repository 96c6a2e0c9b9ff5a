//! The mailbox, a message, the form that mail is written in, and the
//! blocked list.

use vstd::prelude::*;

use crate::auth::USERNAME_MAX;
use crate::chars;
use crate::chars::{
    cat2, cat3, count, from_chars, int_text, pad, same, skip_chars, take_chars, to_chars,
    trim_text,
};
use crate::content;
use crate::db::{Folder, MailItem, MailMessage};
use crate::ui::boards;
use crate::ui::boards::{append_if, clamp_to_last, dim, form_status, move_selection, new_mark};
use crate::ui::compose::{Area, TextArea};
use crate::ui::input::{Field, Key, TextInput};
use crate::ui::paint;
use crate::ui::paint::{
    line1, line2, line4, span, strong, text_line, Color, Line, ListPane, Listing, Page, Run, Style,
    TextPane,
};
use crate::ui::protocol;
use crate::ui::text;
use crate::ui::text::{wrap, Counter};

verus! {

/// The subject without a "Re: " before it.
pub open spec fn base_subject(subject: Seq<char>) -> Seq<char> {
    if "Re: "@.is_prefix_of(subject) {
        subject.skip(4)
    } else {
        subject
    }
}

pub open spec fn replied_subject(subject: Seq<char>) -> Seq<char> {
    let full = "Re: "@ + base_subject(subject);
    if full.len() > content::SUBJECT_MAX {
        full.take(content::SUBJECT_MAX as int)
    } else {
        full
    }
}

/// "Re: subject", without stacking up "Re: Re: Re:" and within the limit.
pub fn reply_subject(subject: &str) -> (r: String)
    ensures
        r@ == replied_subject(subject@),
{
    proof {
        reveal_strlit("Re: ");
    }
    let cs = to_chars(subject);
    let head = from_chars(&take_chars(&cs, 4));
    let prefixed = same(&head, "Re: ");
    assert(prefixed == "Re: "@.is_prefix_of(subject@)) by {
        if subject@.len() >= 4 {
            assert(head@ =~= subject@.subrange(0, 4));
        }
    }
    let base = if prefixed {
        from_chars(&skip_chars(&cs, 4))
    } else {
        subject.to_owned()
    };
    let full = cat2("Re: ", &base);
    let fs = to_chars(&full);
    let cut = take_chars(&fs, content::SUBJECT_MAX);
    assert(cut@ =~= replied_subject(subject@));
    from_chars(&cut)
}

// --------------------------------------------------------------- mailbox

#[derive(Clone, Copy, Debug, PartialEq, Eq, Structural)]
pub enum MailboxEvent {
    Nothing,
    Back,
    Open(i64),
    Compose,
    Delete(i64),
    Refresh,
    Switch(Folder),
    Blocks,
}

pub struct MailboxScreen {
    pub folder: Folder,
    pub items: Vec<MailItem>,
    pub selected: usize,
    pub loaded: bool,
    pub unread: i64,
    pub confirm_delete: bool,
}

/// The contents of a `MailboxScreen`.
pub struct Mailbox {
    pub folder: Folder,
    pub items: Seq<MailItem>,
    pub selected: int,
    pub loaded: bool,
    pub unread: i64,
    pub confirm_delete: bool,
}

impl View for MailboxScreen {
    type V = Mailbox;

    open spec fn view(&self) -> Mailbox {
        Mailbox {
            folder: self.folder,
            items: self.items@,
            selected: self.selected as int,
            loaded: self.loaded,
            unread: self.unread,
            confirm_delete: self.confirm_delete,
        }
    }
}

/// A message in the mailbox.
pub open spec fn mail_line(m: MailItem) -> Seq<Run> {
    seq![
        paint::run(
            if m.unread {
                "* "@
            } else {
                "  "@
            },
            new_mark(),
        ),
        paint::run(
            chars::padded(m.other@, 16),
            if m.unread {
                strong()
            } else {
                Style::plain()
            },
        ),
        paint::run(m.subject@, Style::plain()),
        paint::run("  "@ + m.created@, dim()),
    ]
}

pub open spec fn other_folder(folder: Folder) -> Folder {
    match folder {
        Folder::Inbox => Folder::Sent,
        Folder::Sent => Folder::Inbox,
    }
}

impl Mailbox {
    pub open spec fn empty(folder: Folder) -> Mailbox {
        Mailbox {
            folder,
            items: Seq::empty(),
            selected: 0,
            loaded: false,
            unread: 0,
            confirm_delete: false,
        }
    }

    pub open spec fn with(self, items: Seq<MailItem>, unread: i64) -> Mailbox {
        Mailbox {
            items,
            unread,
            loaded: true,
            selected: boards::at_most_last(self.selected, items.len() as int),
            ..self
        }
    }

    /// The message under the cursor.
    pub open spec fn current(self) -> Option<MailItem> {
        if 0 <= self.selected < self.items.len() {
            Some(self.items[self.selected])
        } else {
            None
        }
    }

    pub open spec fn after(self, key: Key) -> (Mailbox, MailboxEvent) {
        let still = MailboxEvent::Nothing;
        if self.confirm_delete {
            (
                Mailbox { confirm_delete: false, ..self },
                match self.current() {
                    Some(item) => if key == Key::Char('y') {
                        MailboxEvent::Delete(item.id)
                    } else {
                        still
                    },
                    None => still,
                },
            )
        } else {
            match key {
                Key::Esc | Key::Char('q') => (self, MailboxEvent::Back),
                Key::Enter => (
                    self,
                    match self.current() {
                        Some(item) => MailboxEvent::Open(item.id),
                        None => still,
                    },
                ),
                Key::Char('c') => (self, MailboxEvent::Compose),
                Key::Char('r') => (self, MailboxEvent::Refresh),
                Key::Char('B') => (self, MailboxEvent::Blocks),
                Key::Tab => (self, MailboxEvent::Switch(other_folder(self.folder))),
                _ => if (key == Key::Char('d') || key == Key::Delete) && self.items.len() > 0 {
                    (Mailbox { confirm_delete: true, ..self }, still)
                } else {
                    (
                        Mailbox {
                            selected: boards::moved(self.selected, self.items.len() as int, key),
                            ..self
                        },
                        still,
                    )
                },
            }
        }
    }

    pub open spec fn title(self) -> Seq<char> {
        match self.folder {
            Folder::Inbox => "Mail · Inbox"@ + boards::opt(
                self.unread > 0,
                " ("@ + chars::decimal_int(self.unread as int) + " unread)"@,
            ) + "  [From · subject · date]"@,
            Folder::Sent => "Mail · Sent  [To · subject · date]"@,
        }
    }

    pub open spec fn help(self) -> Run {
        if self.confirm_delete {
            paint::run(
                "Delete \""@ + (match self.current() {
                    Some(item) => item.subject@,
                    None => Seq::empty(),
                }) + "\"? y = yes, any other key = no"@,
                Style::fg(Color::Yellow),
            )
        } else {
            paint::run(
                "Enter: read · c: compose · d: delete · Tab: inbox/sent · r: refresh · B: blocked · Esc: back"@,
                dim(),
            )
        }
    }

    /// The mailbox as it is drawn.
    pub open spec fn drawn(self) -> Listing {
        Listing {
            title: self.title(),
            items: if !self.loaded {
                seq![paint::plain_line("Loading…"@)]
            } else if self.items.len() == 0 {
                match self.folder {
                    Folder::Inbox => seq![
                        paint::plain_line("(no messages — press 'c' to write one)"@),
                    ],
                    Folder::Sent => seq![paint::plain_line("(nothing sent yet)"@)],
                }
            } else {
                self.items.map_values(|m: MailItem| mail_line(m))
            },
            selected: if self.items.len() == 0 {
                None
            } else {
                Some(self.selected as usize)
            },
            help: seq![self.help()],
        }
    }
}

impl MailboxScreen {
    pub fn new(folder: Folder) -> (r: MailboxScreen)
        ensures
            r@ == Mailbox::empty(folder),
    {
        MailboxScreen {
            folder,
            items: Vec::new(),
            selected: 0,
            loaded: false,
            unread: 0,
            confirm_delete: false,
        }
    }

    pub fn folder(&self) -> (r: Folder)
        ensures
            r == self@.folder,
    {
        self.folder
    }

    pub fn set(&mut self, items: Vec<MailItem>, unread: i64)
        ensures
            final(self)@ == old(self)@.with(items@, unread),
    {
        self.items = items;
        self.unread = unread;
        self.loaded = true;
        self.selected = clamp_to_last(self.selected, self.items.len());
    }

    pub fn handle(&mut self, key: Key) -> (r: MailboxEvent)
        ensures
            (final(self)@, r) == old(self)@.after(key),
    {
        let len: usize = self.items.len();
        if self.confirm_delete {
            self.confirm_delete = false;
            if key == Key::Char('y') && self.selected < len {
                return MailboxEvent::Delete(self.items[self.selected].id);
            }
            return MailboxEvent::Nothing;
        }
        match key {
            Key::Esc | Key::Char('q') => {
                return MailboxEvent::Back;
            },
            Key::Enter => {
                if self.selected < len {
                    return MailboxEvent::Open(self.items[self.selected].id);
                }
            },
            Key::Char('c') => {
                return MailboxEvent::Compose;
            },
            Key::Char('r') => {
                return MailboxEvent::Refresh;
            },
            Key::Char('B') => {
                return MailboxEvent::Blocks;
            },
            Key::Tab => {
                return MailboxEvent::Switch(
                    match self.folder {
                        Folder::Inbox => Folder::Sent,
                        Folder::Sent => Folder::Inbox,
                    },
                );
            },
            _ => {
                if (key == Key::Char('d') || key == Key::Delete) && len > 0 {
                    self.confirm_delete = true;
                } else {
                    move_selection(&mut self.selected, len, key);
                }
            },
        }
        MailboxEvent::Nothing
    }

    fn title(&self) -> (r: String)
        ensures
            r@ == self@.title(),
    {
        match self.folder {
            Folder::Inbox => {
                let mut s = "Mail · Inbox".to_owned();
                let unread = cat3(" (", &int_text(self.unread), " unread)");
                append_if(&mut s, self.unread > 0, &unread);
                s.append("  [From · subject · date]");
                s
            },
            Folder::Sent => "Mail · Sent  [To · subject · date]".to_owned(),
        }
    }

    fn help(&self) -> (r: Line)
        ensures
            r@ == seq![self@.help()],
    {
        if self.confirm_delete {
            let mut s = "Delete \"".to_owned();
            if self.selected < self.items.len() {
                s.append(&self.items[self.selected].subject);
            } else {
                assert(s@ + Seq::<char>::empty() =~= s@);
            }
            s.append("\"? y = yes, any other key = no");
            line1(span(s, Style::fg(Color::Yellow)))
        } else {
            line1(
                span(
                    "Enter: read · c: compose · d: delete · Tab: inbox/sent · r: refresh · B: blocked · Esc: back".to_owned(),
                    dim(),
                ),
            )
        }
    }

    pub fn draw(&self) -> (r: ListPane)
        ensures
            r@ == self@.drawn(),
    {
        let mut items: Vec<Line> = Vec::new();
        if !self.loaded {
            items.push(text_line("Loading…".to_owned()));
        } else if self.items.len() == 0 {
            let empty = match self.folder {
                Folder::Inbox => "(no messages — press 'c' to write one)",
                Folder::Sent => "(nothing sent yet)",
            };
            items.push(text_line(empty.to_owned()));
        } else {
            let mut i: usize = 0;
            while i < self.items.len()
                invariant
                    i <= self.items@.len(),
                    items@.len() == i,
                    forall|j: int| 0 <= j < i ==> (#[trigger] items@[j])@ == mail_line(self.items@[j]),
                decreases self.items@.len() - i,
            {
                let m = &self.items[i];
                let mark = if m.unread {
                    "* "
                } else {
                    "  "
                };
                let style = if m.unread {
                    strong()
                } else {
                    Style::plain()
                };
                items.push(
                    line4(
                        span(mark.to_owned(), new_mark()),
                        span(pad(&m.other, 16), style),
                        span(m.subject.clone(), Style::plain()),
                        span(cat2("  ", &m.created), dim()),
                    ),
                );
                i += 1;
            }
        }
        let r = ListPane {
            title: self.title(),
            items,
            selected: if self.items.len() == 0 {
                None
            } else {
                Some(self.selected)
            },
            help: self.help(),
        };
        assert(r@.items =~= self@.drawn().items);
        r
    }
}

// --------------------------------------------------------------- message

#[derive(Debug)]
pub enum MessageEvent {
    Nothing,
    Back(Folder),
    Reply { to: String, subject: String },
    Delete(i64),
    Block(String),
}

/// A `MessageEvent`, over the texts themselves.
pub enum MessageWish {
    Nothing,
    Back(Folder),
    Reply { to: Seq<char>, subject: Seq<char> },
    Delete(i64),
    Block(Seq<char>),
}

impl View for MessageEvent {
    type V = MessageWish;

    open spec fn view(&self) -> MessageWish {
        match self {
            MessageEvent::Nothing => MessageWish::Nothing,
            MessageEvent::Back(folder) => MessageWish::Back(*folder),
            MessageEvent::Reply { to, subject } => MessageWish::Reply {
                to: to@,
                subject: subject@,
            },
            MessageEvent::Delete(id) => MessageWish::Delete(*id),
            MessageEvent::Block(name) => MessageWish::Block(name@),
        }
    }
}

#[derive(Clone, Copy, Debug, PartialEq, Eq, Structural)]
pub enum Confirm {
    Delete,
    Block,
}

pub struct MessageScreen {
    pub message: MailMessage,
    pub confirm: Option<Confirm>,
    pub scroll: Counter,
    pub total_lines: Counter,
    pub page_height: Counter,
}

/// The folder that holds this copy of a message.
pub open spec fn folder_of(message: MailMessage) -> Folder {
    if message.is_recipient {
        Folder::Inbox
    } else {
        Folder::Sent
    }
}

/// The sender can be blocked from here: it is the recipient's copy, and the
/// sender is somebody else.
pub open spec fn can_block(message: MailMessage) -> bool {
    message.is_recipient && message.from@ != message.to@
}

pub open spec fn label_line(name: Seq<char>, value: Seq<char>) -> Seq<Run> {
    seq![paint::run(chars::padded(name, 9), dim()), paint::run(value, strong())]
}

pub open spec fn message_lines(m: MailMessage, width: int) -> Seq<Seq<Run>> {
    seq![
        label_line("From:"@, m.from@),
        label_line("To:"@, m.to@),
        label_line("Date:"@, m.created@),
        label_line("Subject:"@, m.subject@),
        Seq::empty(),
    ] + text::wrapped(m.body@, width).map_values(|l: Seq<char>| paint::plain_line(l))
}

impl MessageScreen {
    pub open spec fn max_scroll(self) -> int {
        boards::at_least_zero(self.total_lines.value - self.page_height.value)
    }

    pub open spec fn scrolled_by(self, delta: int) -> MessageScreen {
        let max = self.max_scroll();
        MessageScreen {
            scroll: Counter {
                value: boards::least(
                    boards::at_least_zero(boards::least(self.scroll.value as int, max) + delta),
                    max,
                ) as usize,
            },
            ..self
        }
    }

    /// Lines that PgUp and PgDn move by.
    pub open spec fn screenful(self) -> int {
        if self.page_height.value > 2 {
            self.page_height.value - 1
        } else {
            1
        }
    }

    pub open spec fn after(self, key: Key) -> (MessageScreen, MessageWish) {
        let still = MessageWish::Nothing;
        match self.confirm {
            Some(confirm) => (
                MessageScreen { confirm: None, ..self },
                if key == Key::Char('y') {
                    match confirm {
                        Confirm::Delete => MessageWish::Delete(self.message.id),
                        Confirm::Block => MessageWish::Block(self.message.from@),
                    }
                } else {
                    still
                },
            ),
            None => match key {
                Key::Esc | Key::Char('q') => (self, MessageWish::Back(folder_of(self.message))),
                Key::Char('r') => (
                    self,
                    if self.message.is_recipient {
                        MessageWish::Reply {
                            to: self.message.from@,
                            subject: replied_subject(self.message.subject@),
                        }
                    } else {
                        still
                    },
                ),
                Key::Char('d') | Key::Delete => (
                    MessageScreen { confirm: Some(Confirm::Delete), ..self },
                    still,
                ),
                Key::Char('b') => (
                    if can_block(self.message) {
                        MessageScreen { confirm: Some(Confirm::Block), ..self }
                    } else {
                        self
                    },
                    still,
                ),
                Key::Up | Key::Char('k') => (self.scrolled_by(-1), still),
                Key::Down | Key::Char('j') | Key::Enter => (self.scrolled_by(1), still),
                Key::PageUp => (self.scrolled_by(-self.screenful()), still),
                Key::PageDown | Key::Char(' ') => (self.scrolled_by(self.screenful()), still),
                Key::Home | Key::Char('g') => (
                    MessageScreen { scroll: Counter { value: 0 }, ..self },
                    still,
                ),
                Key::End | Key::Char('G') => (
                    MessageScreen { scroll: Counter { value: usize::MAX }, ..self },
                    still,
                ),
                _ => (self, still),
            },
        }
    }

    pub open spec fn help_spec(self) -> Run {
        match self.confirm {
            Some(Confirm::Delete) => paint::run(
                "Delete this message? y = yes, any other key = no"@,
                Style::fg(Color::Yellow),
            ),
            Some(Confirm::Block) => paint::run(
                "Block "@ + self.message.from@
                    + "? They won't be able to send you mail. y = yes, any other key = no"@,
                Style::fg(Color::Yellow),
            ),
            None => paint::run(
                "↑/↓/PgUp/PgDn: scroll"@ + boards::opt(self.message.is_recipient, " · r: reply"@)
                    + " · d: delete"@ + boards::opt(
                    can_block(self.message),
                    " · b: block sender"@,
                ) + " · Esc: back"@,
                dim(),
            ),
        }
    }

    pub open spec fn drawn(self, width: int, height: usize) -> (MessageScreen, Page) {
        let lines = message_lines(self.message, width);
        let scroll = boards::least(
            self.scroll.value as int,
            boards::at_least_zero(lines.len() - height),
        );
        (
            MessageScreen {
                total_lines: Counter { value: lines.len() as usize },
                page_height: Counter { value: height },
                scroll: Counter { value: scroll as usize },
                ..self
            },
            Page {
                title: "Message"@,
                lines,
                scroll,
                help: seq![self.help_spec()],
                cursor: None,
            },
        )
    }

    pub fn new(message: MailMessage) -> (r: MessageScreen)
        ensures
            r == (MessageScreen {
                message,
                confirm: None,
                scroll: Counter { value: 0 },
                total_lines: Counter { value: 0 },
                page_height: Counter { value: 10 },
            }),
    {
        MessageScreen {
            message,
            confirm: None,
            scroll: Counter::new(0),
            total_lines: Counter::new(0),
            page_height: Counter::new(10),
        }
    }

    /// Which folder the message was opened from.
    pub fn folder(&self) -> (r: Folder)
        ensures
            r == folder_of(self.message),
    {
        if self.message.is_recipient {
            Folder::Inbox
        } else {
            Folder::Sent
        }
    }

    fn scroll_down(&mut self, lines: usize)
        ensures
            *final(self) == old(self).scrolled_by(lines as int),
    {
        let max: usize = self.total_lines.get().saturating_sub(self.page_height.get());
        let mut now: usize = self.scroll.get();
        if now > max {
            now = max;
        }
        if lines >= max - now {
            self.scroll.set(max);
        } else {
            self.scroll.set(now + lines);
        }
    }

    fn scroll_up(&mut self, lines: usize)
        ensures
            *final(self) == old(self).scrolled_by(-(lines as int)),
    {
        let max: usize = self.total_lines.get().saturating_sub(self.page_height.get());
        let mut now: usize = self.scroll.get();
        if now > max {
            now = max;
        }
        self.scroll.set(now.saturating_sub(lines));
    }

    pub fn handle(&mut self, key: Key) -> (r: MessageEvent)
        ensures
            (*final(self), r@) == old(self).after(key),
    {
        if let Some(confirm) = self.confirm.take() {
            if key == Key::Char('y') {
                return match confirm {
                    Confirm::Delete => MessageEvent::Delete(self.message.id),
                    Confirm::Block => MessageEvent::Block(self.message.from.clone()),
                };
            }
            return MessageEvent::Nothing;
        }
        let height: usize = self.page_height.get();
        let page: usize = if height > 2 {
            height - 1
        } else {
            1
        };
        match key {
            Key::Esc | Key::Char('q') => {
                return MessageEvent::Back(self.folder());
            },
            Key::Char('r') => {
                if self.message.is_recipient {
                    return MessageEvent::Reply {
                        to: self.message.from.clone(),
                        subject: reply_subject(&self.message.subject),
                    };
                }
            },
            Key::Char('d') | Key::Delete => {
                self.confirm = Some(Confirm::Delete);
            },
            // Blocking yourself makes no sense, so it isn't offered.
            Key::Char('b') => {
                if self.message.is_recipient && !same(&self.message.from, &self.message.to) {
                    self.confirm = Some(Confirm::Block);
                }
            },
            Key::Up | Key::Char('k') => self.scroll_up(1),
            Key::Down | Key::Char('j') | Key::Enter => self.scroll_down(1),
            Key::PageUp => self.scroll_up(page),
            Key::PageDown | Key::Char(' ') => self.scroll_down(page),
            Key::Home | Key::Char('g') => self.scroll.set(0),
            Key::End | Key::Char('G') => self.scroll.set(usize::MAX),
            _ => {},
        }
        MessageEvent::Nothing
    }

    fn help(&self) -> (r: Line)
        ensures
            r@ == seq![self.help_spec()],
    {
        match self.confirm {
            Some(Confirm::Delete) => line1(
                span(
                    "Delete this message? y = yes, any other key = no".to_owned(),
                    Style::fg(Color::Yellow),
                ),
            ),
            Some(Confirm::Block) => line1(
                span(
                    cat3(
                        "Block ",
                        &self.message.from,
                        "? They won't be able to send you mail. y = yes, any other key = no",
                    ),
                    Style::fg(Color::Yellow),
                ),
            ),
            None => {
                let m = &self.message;
                let mut s = "↑/↓/PgUp/PgDn: scroll".to_owned();
                append_if(&mut s, m.is_recipient, " · r: reply");
                s.append(" · d: delete");
                append_if(
                    &mut s,
                    m.is_recipient && !same(&m.from, &m.to),
                    " · b: block sender",
                );
                s.append(" · Esc: back");
                line1(span(s, dim()))
            },
        }
    }

    /// The message in a pane of `width` columns and `height` rows. Takes
    /// down what the layout came to, for the keys that scroll.
    pub fn draw(&mut self, width: usize, height: usize) -> (r: TextPane)
        ensures
            (*final(self), r@) == old(self).drawn(width as int, height),
    {
        let m = &self.message;
        let mut lines: Vec<Line> = Vec::new();
        lines.push(label("From:", &m.from));
        lines.push(label("To:", &m.to));
        lines.push(label("Date:", &m.created));
        lines.push(label("Subject:", &m.subject));
        let blank = Line { spans: Vec::new() };
        assert(blank@ =~= Seq::empty());
        lines.push(blank);
        let ghost head = paint::line_models(lines@);
        let wrapped = wrap(&m.body, width);
        let ghost texts = text::wrapped(m.body@, width as int);
        let ghost body = texts.map_values(|l: Seq<char>| paint::plain_line(l));
        let mut i: usize = 0;
        assert(head + body.take(0) =~= head);
        while i < wrapped.len()
            invariant
                i <= wrapped@.len(),
                texts == chars::string_texts(wrapped@),
                body == texts.map_values(|l: Seq<char>| paint::plain_line(l)),
                paint::line_models(lines@) == head + body.take(i as int),
            decreases wrapped@.len() - i,
        {
            let ghost so_far = lines@;
            let line = text_line(wrapped[i].clone());
            assert(line@ == body[i as int]);
            lines.push(line);
            assert(paint::line_models(lines@) =~= paint::line_models(so_far).push(line@));
            assert(paint::line_models(lines@) =~= head + body.take(i + 1));
            i += 1;
        }
        proof {
            assert(body.take(i as int) =~= body);
            assert(head =~= seq![
                label_line("From:"@, m.from@),
                label_line("To:"@, m.to@),
                label_line("Date:"@, m.created@),
                label_line("Subject:"@, m.subject@),
                Seq::empty(),
            ]);
            assert(paint::line_models(lines@) =~= message_lines(*m, width as int));
        }
        let total: usize = lines.len();
        assert(paint::line_models(lines@).len() == total);
        let max: usize = total.saturating_sub(height);
        let scroll: usize = if self.scroll.get() <= max {
            self.scroll.get()
        } else {
            max
        };
        let help = self.help();
        self.total_lines.set(total);
        self.page_height.set(height);
        self.scroll.set(scroll);
        TextPane { title: "Message".to_owned(), lines, scroll, help, cursor: None }
    }
}

fn label(name: &str, value: &str) -> (r: Line)
    ensures
        r@ == label_line(name@, value@),
{
    line2(span(pad(name, 9), dim()), span(value.to_owned(), strong()))
}

// ---------------------------------------------------------------- compose

#[derive(Debug)]
pub enum MailComposeEvent {
    Nothing,
    Cancel,
    Submit { to: String, subject: String, body: String },
}

/// A `MailComposeEvent`, over the texts themselves.
pub enum MailComposed {
    Nothing,
    Cancel,
    Submit { to: Seq<char>, subject: Seq<char>, body: Seq<char> },
}

impl View for MailComposeEvent {
    type V = MailComposed;

    open spec fn view(&self) -> MailComposed {
        match self {
            MailComposeEvent::Nothing => MailComposed::Nothing,
            MailComposeEvent::Cancel => MailComposed::Cancel,
            MailComposeEvent::Submit { to, subject, body } => MailComposed::Submit {
                to: to@,
                subject: subject@,
                body: body@,
            },
        }
    }
}

pub struct MailCompose {
    pub to: TextInput,
    pub subject: TextInput,
    pub body: TextArea,
    /// 0 = to, 1 = subject, 2 = body
    pub focus: usize,
    pub error: Option<String>,
    pub busy: bool,
}

/// The contents of a `MailCompose`.
pub struct Letter {
    pub to: Field,
    pub subject: Field,
    pub body: Area,
    pub focus: int,
    pub error: Option<Seq<char>>,
    pub busy: bool,
}

impl View for MailCompose {
    type V = Letter;

    open spec fn view(&self) -> Letter {
        Letter {
            to: self.to@,
            subject: self.subject@,
            body: self.body@,
            focus: self.focus as int,
            error: protocol::text_of(self.error),
            busy: self.busy,
        }
    }
}

/// A field, prefilled if there is something to fill it with.
pub open spec fn prefilled(max_len: nat, text: Option<Seq<char>>) -> Field {
    match text {
        Some(t) => Field::empty(max_len, false).typed(t),
        None => Field::empty(max_len, false),
    }
}

impl Letter {
    pub open spec fn wf(self) -> bool {
        self.to.wf() && self.subject.wf() && self.body.wf() && 0 <= self.focus <= 2
    }

    pub open spec fn new(to: Option<Seq<char>>, subject: Option<Seq<char>>) -> Letter {
        Letter {
            to: prefilled(USERNAME_MAX as nat, to),
            subject: prefilled(content::SUBJECT_MAX as nat, subject),
            body: Area::empty(content::BODY_MAX as nat),
            focus: if to is Some {
                if subject is Some {
                    2
                } else {
                    1
                }
            } else {
                0
            },
            error: None,
            busy: false,
        }
    }

    pub open spec fn failed(self, message: Seq<char>) -> Letter {
        Letter { busy: false, error: Some(message), ..self }
    }

    /// Back to the field that has to be mended, with the reason.
    pub open spec fn refused(self, focus: int, why: Seq<char>) -> (Letter, MailComposed) {
        (Letter { focus, error: Some(why), ..self }, MailComposed::Nothing)
    }

    pub open spec fn submitted(self) -> (Letter, MailComposed) {
        let to = chars::trim(self.to.text);
        if to.len() == 0 {
            self.refused(0, "Who should this go to?"@)
        } else {
            match content::subject_of(self.subject.text) {
                Err(e) => self.refused(1, e),
                Ok(subject) => match content::body_of(self.body.value()) {
                    Err(e) => self.refused(2, e),
                    Ok(body) => (
                        Letter { error: None, busy: true, ..self },
                        MailComposed::Submit { to, subject, body },
                    ),
                },
            }
        }
    }

    pub open spec fn after(self, key: Key) -> (Letter, MailComposed) {
        let still = MailComposed::Nothing;
        if self.busy {
            (self, still)
        } else if key == Key::Esc {
            (self, MailComposed::Cancel)
        } else if key == Key::Ctrl('d') {
            self.submitted()
        } else if key == Key::Tab {
            (Letter { focus: (self.focus + 1) % 3, ..self }, still)
        } else if key == Key::BackTab {
            (Letter { focus: (self.focus + 2) % 3, ..self }, still)
        } else if (key == Key::Enter || key == Key::Down) && self.focus < 2 {
            (Letter { focus: self.focus + 1, ..self }, still)
        } else if key == Key::Up && self.focus == 1 {
            (Letter { focus: 0, ..self }, still)
        } else if self.focus == 0 {
            (Letter { to: self.to.after(key), ..self }, still)
        } else if self.focus == 1 {
            (Letter { subject: self.subject.after(key), ..self }, still)
        } else {
            (Letter { body: self.body.after(key), ..self }, still)
        }
    }
}

impl MailCompose {
    pub open spec fn wf(&self) -> bool {
        self@.wf()
    }

    /// `to`/`subject` prefill a reply; the cursor then starts in the body.
    pub fn new(to: Option<&str>, subject: Option<&str>) -> (r: MailCompose)
        ensures
            r@ == Letter::new(
                match to {
                    Some(t) => Some(t@),
                    None => None,
                },
                match subject {
                    Some(t) => Some(t@),
                    None => None,
                },
            ),
            r.wf(),
    {
        let mut to_field = TextInput::new(USERNAME_MAX, false);
        let mut subject_field = TextInput::new(content::SUBJECT_MAX, false);
        if let Some(to) = to {
            to_field.set(to);
        }
        if let Some(subject) = subject {
            subject_field.set(subject);
        }
        let focus: usize = if to.is_some() {
            if subject.is_some() {
                2
            } else {
                1
            }
        } else {
            0
        };
        MailCompose {
            focus,
            to: to_field,
            subject: subject_field,
            body: TextArea::new(content::BODY_MAX),
            error: None,
            busy: false,
        }
    }

    /// The server refused the message; what was typed is kept.
    pub fn fail(&mut self, message: String)
        ensures
            final(self)@ == old(self)@.failed(message@),
    {
        self.busy = false;
        self.error = Some(message);
    }

    pub fn handle(&mut self, key: Key) -> (r: MailComposeEvent)
        requires
            old(self).wf(),
        ensures
            (final(self)@, r@) == old(self)@.after(key),
            final(self).wf(),
    {
        if self.busy {
            return MailComposeEvent::Nothing;
        }
        match key {
            Key::Esc => {
                return MailComposeEvent::Cancel;
            },
            Key::Ctrl('d') => {
                return self.submit();
            },
            Key::Tab => {
                self.focus = (self.focus + 1) % 3;
            },
            Key::BackTab => {
                self.focus = (self.focus + 2) % 3;
            },
            _ => {
                if (key == Key::Enter || key == Key::Down) && self.focus < 2 {
                    self.focus += 1;
                } else if key == Key::Up && self.focus == 1 {
                    self.focus = 0;
                } else if self.focus == 0 {
                    self.to.handle(key);
                } else if self.focus == 1 {
                    self.subject.handle(key);
                } else {
                    self.body.handle(key);
                }
            },
        }
        MailComposeEvent::Nothing
    }

    fn submit(&mut self) -> (r: MailComposeEvent)
        requires
            old(self).wf(),
        ensures
            (final(self)@, r@) == old(self)@.submitted(),
            final(self).wf(),
    {
        let to = trim_text(&self.to.value());
        if count(&to) == 0 {
            self.focus = 0;
            self.error = Some("Who should this go to?".to_owned());
            return MailComposeEvent::Nothing;
        }
        let subject = match content::clean_subject(&self.subject.value()) {
            Ok(s) => s,
            Err(e) => {
                self.focus = 1;
                self.error = Some(e);
                return MailComposeEvent::Nothing;
            },
        };
        let body = match content::clean_body(&self.body.value()) {
            Ok(b) => b,
            Err(e) => {
                self.focus = 2;
                self.error = Some(e);
                return MailComposeEvent::Nothing;
            },
        };
        self.error = None;
        self.busy = true;
        MailComposeEvent::Submit { to, subject, body }
    }

    pub fn status(&self) -> (r: (String, Color))
        ensures
            (r.0@, r.1) == boards::form_hint(
                self.busy,
                self@.error,
                "Sending…"@,
                "Ctrl-D: send · Esc: cancel · Tab: next field"@,
            ),
    {
        form_status(
            self.busy,
            &self.error,
            "Sending…",
            "Ctrl-D: send · Esc: cancel · Tab: next field",
        )
    }
}

// ------------------------------------------------------------ blocked list

#[derive(Debug)]
pub enum BlocksEvent {
    Nothing,
    Back,
    Unblock(String),
}

/// A `BlocksEvent`, over the text itself.
pub enum BlocksWish {
    Nothing,
    Back,
    Unblock(Seq<char>),
}

impl View for BlocksEvent {
    type V = BlocksWish;

    open spec fn view(&self) -> BlocksWish {
        match self {
            BlocksEvent::Nothing => BlocksWish::Nothing,
            BlocksEvent::Back => BlocksWish::Back,
            BlocksEvent::Unblock(name) => BlocksWish::Unblock(name@),
        }
    }
}

pub struct BlocksScreen {
    pub names: Vec<String>,
    pub selected: usize,
    pub loaded: bool,
}

/// The contents of a `BlocksScreen`.
pub struct Blocked {
    pub names: Seq<String>,
    pub selected: int,
    pub loaded: bool,
}

impl View for BlocksScreen {
    type V = Blocked;

    open spec fn view(&self) -> Blocked {
        Blocked {
            names: self.names@,
            selected: self.selected as int,
            loaded: self.loaded,
        }
    }
}

impl Blocked {
    pub open spec fn empty() -> Blocked {
        Blocked { names: Seq::empty(), selected: 0, loaded: false }
    }

    pub open spec fn with(self, names: Seq<String>) -> Blocked {
        Blocked {
            names,
            loaded: true,
            selected: boards::at_most_last(self.selected, names.len() as int),
        }
    }

    pub open spec fn after(self, key: Key) -> (Blocked, BlocksWish) {
        let still = BlocksWish::Nothing;
        match key {
            Key::Esc | Key::Char('q') => (self, BlocksWish::Back),
            Key::Up | Key::Char('k') | Key::Down | Key::Char('j') => (
                Blocked {
                    selected: boards::moved(self.selected, self.names.len() as int, key),
                    ..self
                },
                still,
            ),
            Key::Char('x') | Key::Char('u') | Key::Delete => (
                self,
                if 0 <= self.selected < self.names.len() {
                    BlocksWish::Unblock(self.names[self.selected]@)
                } else {
                    still
                },
            ),
            _ => (self, still),
        }
    }

    /// The list as it is drawn.
    pub open spec fn drawn(self) -> Listing {
        Listing {
            title: "Blocked users (they can't send you mail)"@,
            items: if !self.loaded {
                seq![paint::plain_line("Loading…"@)]
            } else if self.names.len() == 0 {
                seq![
                    paint::plain_line(
                        "(nobody blocked — press 'b' while reading a message to block its sender)"@,
                    ),
                ]
            } else {
                self.names.map_values(|n: String| paint::plain_line(n@))
            },
            selected: if self.names.len() == 0 {
                None
            } else {
                Some(self.selected as usize)
            },
            help: seq![paint::run("x: unblock selected · ↑/↓: move · Esc: back"@, dim())],
        }
    }
}

impl BlocksScreen {
    pub fn new() -> (r: BlocksScreen)
        ensures
            r@ == Blocked::empty(),
    {
        BlocksScreen { names: Vec::new(), selected: 0, loaded: false }
    }

    pub fn set(&mut self, names: Vec<String>)
        ensures
            final(self)@ == old(self)@.with(names@),
    {
        self.names = names;
        self.loaded = true;
        self.selected = clamp_to_last(self.selected, self.names.len());
    }

    pub fn handle(&mut self, key: Key) -> (r: BlocksEvent)
        ensures
            (final(self)@, r@) == old(self)@.after(key),
    {
        let len: usize = self.names.len();
        match key {
            Key::Esc | Key::Char('q') => {
                return BlocksEvent::Back;
            },
            Key::Up | Key::Char('k') | Key::Down | Key::Char('j') => {
                move_selection(&mut self.selected, len, key);
            },
            Key::Char('x') | Key::Char('u') | Key::Delete => {
                if self.selected < len {
                    return BlocksEvent::Unblock(self.names[self.selected].clone());
                }
            },
            _ => {},
        }
        BlocksEvent::Nothing
    }

    pub fn draw(&self) -> (r: ListPane)
        ensures
            r@ == self@.drawn(),
    {
        let mut items: Vec<Line> = Vec::new();
        if !self.loaded {
            items.push(text_line("Loading…".to_owned()));
        } else if self.names.len() == 0 {
            items.push(
                text_line(
                    "(nobody blocked — press 'b' while reading a message to block its sender)".to_owned(),
                ),
            );
        } else {
            let mut i: usize = 0;
            while i < self.names.len()
                invariant
                    i <= self.names@.len(),
                    items@.len() == i,
                    forall|j: int|
                        0 <= j < i ==> (#[trigger] items@[j])@ == paint::plain_line(self.names@[j]@),
                decreases self.names@.len() - i,
            {
                items.push(text_line(self.names[i].clone()));
                i += 1;
            }
        }
        let r = ListPane {
            title: "Blocked users (they can't send you mail)".to_owned(),
            items,
            selected: if self.names.len() == 0 {
                None
            } else {
                Some(self.selected)
            },
            help: line1(span("x: unblock selected · ↑/↓: move · Esc: back".to_owned(), dim())),
        };
        assert(r@.items =~= self@.drawn().items);
        r
    }
}

} // verus!
