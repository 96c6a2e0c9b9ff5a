//! The chat screen.

use std::collections::VecDeque;

use vstd::prelude::*;

use crate::chars;
use crate::chars::{
    cat2, cat3, cat5, count, from_chars, join_strings, same, size_text, skip_chars, space_text,
    take_chars, to_chars, to_lowercase, trim_text, two_digit_text,
};
use crate::chat;
use crate::chat::{sort_members, ChatEvent, ChatKind, ChatSnapshot, Entry, Happening, Member, Person};
use crate::content::CHAT_MAX;
use crate::ui::boards;
use crate::ui::boards::dim;
use crate::ui::input::{Field, Key, TextInput};
use crate::ui::paint;
use crate::ui::paint::{line1, line2, span, text_line, Color, Line, Run, Style};
use crate::ui::text;
use crate::ui::text::{wrap, Counter};

verus! {

/// Lines kept on screen; older ones scroll away for good.
pub const MAX_LINES: usize = 500;

/// Events that arrived before the join snapshot, replayed once it lands.
pub const MAX_PENDING: usize = 256;

/// Below this width the member list is hidden.
pub const MEMBER_LIST_MIN_WIDTH: u16 = 60;

pub const MEMBER_LIST_WIDTH: u16 = 22;

#[derive(Debug)]
pub enum ChatAction {
    Nothing,
    Leave,
    Say { text: String, action: bool },
}

/// A `ChatAction`, over the text itself.
pub enum ChatWish {
    Nothing,
    Leave,
    Say { text: Seq<char>, action: bool },
}

impl View for ChatAction {
    type V = ChatWish;

    open spec fn view(&self) -> ChatWish {
        match self {
            ChatAction::Nothing => ChatWish::Nothing,
            ChatAction::Leave => ChatWish::Leave,
            ChatAction::Say { text, action } => ChatWish::Say { text: text@, action: *action },
        }
    }
}

pub enum ChatLine {
    Message { at: u64, from: String, is_sysop: bool, text: String, action: bool },
    Join { at: u64, name: String },
    Leave { at: u64, name: String },
    /// Local notice, never sent to anyone else.
    System(String),
}

/// A `ChatLine`, over the texts themselves.
pub enum Saying {
    Message { at: u64, from: Seq<char>, is_sysop: bool, text: Seq<char>, action: bool },
    Join { at: u64, name: Seq<char> },
    Leave { at: u64, name: Seq<char> },
    System(Seq<char>),
}

impl View for ChatLine {
    type V = Saying;

    open spec fn view(&self) -> Saying {
        match self {
            ChatLine::Message { at, from, is_sysop, text, action } => Saying::Message {
                at: *at,
                from: from@,
                is_sysop: *is_sysop,
                text: text@,
                action: *action,
            },
            ChatLine::Join { at, name } => Saying::Join { at: *at, name: name@ },
            ChatLine::Leave { at, name } => Saying::Leave { at: *at, name: name@ },
            ChatLine::System(text) => Saying::System(text@),
        }
    }
}

pub open spec fn sayings(lines: Seq<ChatLine>) -> Seq<Saying> {
    lines.map_values(|l: ChatLine| l@)
}

pub struct ChatScreen {
    pub me: String,
    pub lines: VecDeque<ChatLine>,
    pub members: Vec<Member>,
    pub last_seq: u64,
    pub loaded: bool,
    pub pending: Vec<ChatEvent>,
    pub input: TextInput,
    /// How many wrapped lines the view is scrolled up from the bottom.
    pub offset: usize,
    // Layout facts recorded while drawing, used to keep the view anchored.
    pub width: Counter,
    pub height: Counter,
    pub total: Counter,
}

/// The contents of a `ChatScreen`.
pub struct Chatting {
    pub me: Seq<char>,
    pub lines: Seq<Saying>,
    pub members: Seq<Person>,
    pub last_seq: int,
    pub loaded: bool,
    pub pending: Seq<Entry>,
    pub input: Field,
    pub offset: int,
    pub width: int,
    pub height: int,
    pub total: int,
}

impl View for ChatScreen {
    type V = Chatting;

    open spec fn view(&self) -> Chatting {
        Chatting {
            me: self.me@,
            lines: sayings(self.lines@),
            members: chat::people(self.members@),
            last_seq: self.last_seq as int,
            loaded: self.loaded,
            pending: chat::entries(self.pending@),
            input: self.input@,
            offset: self.offset as int,
            width: self.width.value as int,
            height: self.height.value as int,
            total: self.total.value as int,
        }
    }
}

/// The time of day, in UTC.
pub open spec fn clock(at: u64) -> Seq<char> {
    let secs = at % 86_400;
    chars::two_digits((secs / 3600) as nat) + ":"@ + chars::two_digits((secs % 3600 / 60) as nat)
}

fn hhmm(at: u64) -> (r: String)
    ensures
        r@ == clock(at),
{
    let secs: u64 = at % 86_400;
    cat3(&two_digit_text(secs / 3600), ":", &two_digit_text(secs % 3600 / 60))
}

/// What stands before a line's text, the text, and the styles of both.
pub struct Parts {
    pub prefix: Run,
    pub text: Run,
}

/// The style of a name: sysops, oneself and others.
pub open spec fn name_style(is_sysop: bool, is_me: bool) -> Style {
    Style::bold(
        if is_sysop {
            Color::Yellow
        } else if is_me {
            Color::Green
        } else {
            Color::Cyan
        },
    )
}

impl Saying {
    pub open spec fn parts(self, me: Seq<char>) -> Parts {
        match self {
            Saying::Message { at, from, is_sysop, text, action } => if action {
                Parts {
                    prefix: paint::run(
                        "["@ + clock(at) + "] * "@ + from + " "@,
                        Style::fg(Color::Magenta),
                    ),
                    text: paint::run(text, Style::fg(Color::Magenta)),
                }
            } else {
                Parts {
                    prefix: paint::run(
                        "["@ + clock(at) + "] <"@ + from + "> "@,
                        name_style(is_sysop, from == me),
                    ),
                    text: paint::run(text, Style::plain()),
                }
            },
            Saying::Join { at, name } => Parts {
                prefix: paint::run("["@ + clock(at) + "] → "@ + name + " joined"@, dim()),
                text: paint::run(Seq::empty(), dim()),
            },
            Saying::Leave { at, name } => Parts {
                prefix: paint::run("["@ + clock(at) + "] ← "@ + name + " left"@, dim()),
                text: paint::run(Seq::empty(), dim()),
            },
            Saying::System(text) => Parts {
                prefix: paint::run("* "@, Style::fg(Color::Yellow)),
                text: paint::run(text, Style::fg(Color::Yellow)),
            },
        }
    }
}

/// Columns that continuation lines are indented by. On narrow terminals
/// nothing is indented, just wrapped.
pub open spec fn hanging_indent(prefix: Seq<char>, width: int) -> int {
    if width > prefix.len() + 10 {
        prefix.len() as int
    } else {
        0
    }
}

/// One logical line as display lines: a coloured prefix on the first,
/// continuation lines indented under the text.
pub open spec fn display_lines(p: Parts, width: int) -> Seq<Seq<Run>> {
    let indent = hanging_indent(p.prefix.text, width);
    let wrapped = text::wrapped(p.text.text, width - indent);
    Seq::new(
        wrapped.len(),
        |i: int|
            if i == 0 {
                seq![p.prefix, paint::run(wrapped[i], p.text.style)]
            } else {
                seq![paint::run(chars::spaces(indent as nat) + wrapped[i], p.text.style)]
            },
    )
}

/// `people` without the one called `name`.
pub open spec fn without(people: Seq<Person>, name: Seq<char>) -> Seq<Person>
    decreases people.len(),
{
    if people.len() == 0 {
        Seq::empty()
    } else if people.last().name == name {
        without(people.drop_last(), name)
    } else {
        without(people.drop_last(), name).push(people.last())
    }
}

/// The index of the first space, or the length.
pub open spec fn first_space(s: Seq<char>) -> int
    decreases s.len(),
{
    if s.len() == 0 {
        0
    } else if s[0] == ' ' {
        0
    } else {
        1 + first_space(s.drop_first())
    }
}

/// What the name of a command comes to: of an ASCII name the capitals are
/// made small.
pub open spec fn spelled(command: Seq<char>) -> bool {
    let name = command.take(first_space(command));
    vstd::utf8::is_ascii_chars(name) ==> chars::lowercase(name) == chars::folded(name)
}

pub open spec fn names_of(people: Seq<Person>) -> Seq<Seq<char>> {
    people.map_values(|p: Person| p.name)
}

impl Chatting {
    pub open spec fn wf(self) -> bool {
        &&& self.input.wf()
        &&& self.lines.len() <= MAX_LINES
        &&& 0 <= self.offset <= usize::MAX
    }

    pub open spec fn empty(me: Seq<char>) -> Chatting {
        Chatting {
            me,
            lines: Seq::empty(),
            members: Seq::empty(),
            last_seq: 0,
            loaded: false,
            pending: Seq::empty(),
            input: Field::empty(CHAT_MAX as nat, false),
            offset: 0,
            width: 80,
            height: 10,
            total: 0,
        }
    }

    pub open spec fn rendered(self, line: Saying, width: int) -> Seq<Seq<Run>> {
        display_lines(line.parts(self.me), width)
    }

    /// With one more line. If the reader has scrolled up, the view is kept
    /// on the same text instead of being pushed along by the new line.
    pub open spec fn pushed(self, line: Saying) -> Chatting {
        let all = self.lines.push(line);
        Chatting {
            offset: if self.offset > 0 {
                boards::least(
                    self.offset + self.rendered(line, self.width).len(),
                    usize::MAX as int,
                )
            } else {
                self.offset
            },
            lines: if all.len() > MAX_LINES {
                all.skip(all.len() - MAX_LINES)
            } else {
                all
            },
            ..self
        }
    }

    /// The room after an event, and a line that tells of it.
    pub open spec fn applied(self, event: Entry) -> Chatting {
        let at = event.at;
        match event.kind {
            Happening::Message { from, is_sysop, text, action } => self.pushed(
                Saying::Message { at, from, is_sysop, text, action },
            ),
            Happening::Join { name, is_sysop } => {
                let inside = if chat::named(self.members, name) {
                    self
                } else {
                    Chatting {
                        members: chat::by_name(self.members.push(Person { name, is_sysop })),
                        ..self
                    }
                };
                inside.pushed(Saying::Join { at, name })
            },
            Happening::Leave { name } => Chatting {
                members: without(self.members, name),
                ..self
            }.pushed(Saying::Leave { at, name }),
        }
    }

    pub open spec fn applied_all(self, events: Seq<Entry>) -> Chatting
        decreases events.len(),
    {
        if events.len() == 0 {
            self
        } else {
            self.applied_all(events.drop_last()).applied(events.last())
        }
    }

    /// After a live event: kept for later before the snapshot is there,
    /// ignored if the snapshot covers it.
    pub open spec fn after_event(self, event: Entry) -> Chatting {
        if !self.loaded {
            if self.pending.len() < MAX_PENDING {
                Chatting { pending: self.pending.push(event), ..self }
            } else {
                self
            }
        } else if event.seq <= self.last_seq {
            self
        } else {
            Chatting { last_seq: event.seq, ..self }.applied(event)
        }
    }

    pub open spec fn after_events(self, events: Seq<Entry>) -> Chatting
        decreases events.len(),
    {
        if events.len() == 0 {
            self
        } else {
            self.after_events(events.drop_last()).after_event(events.last())
        }
    }

    /// The room state replaced by a snapshot; events that raced ahead of it
    /// are replayed.
    pub open spec fn with_snapshot(self, s: chat::Snapshot) -> Chatting {
        let cleared = Chatting {
            lines: Seq::empty(),
            members: s.members,
            last_seq: 0,
            offset: 0,
            ..self
        };
        let loaded = Chatting {
            last_seq: s.seq,
            loaded: true,
            pending: Seq::empty(),
            ..cleared.applied_all(s.history)
        };
        loaded.after_events(self.pending)
    }

    pub open spec fn scrolled(self, up: bool, amount: int) -> Chatting {
        let max = boards::at_least_zero(self.total - self.height);
        Chatting {
            offset: if up {
                boards::least(self.offset + amount, max)
            } else {
                boards::at_least_zero(self.offset - amount)
            },
            ..self
        }
    }

    /// Lines that PgUp and PgDn move by.
    pub open spec fn screenful(self) -> int {
        if self.height > 2 {
            self.height - 1
        } else {
            1
        }
    }

    pub open spec fn noticed(self, text: Seq<char>) -> Chatting {
        self.pushed(Saying::System(text))
    }

    /// A command, without the slash.
    pub open spec fn commanded(self, command: Seq<char>) -> (Chatting, ChatWish) {
        let at = first_space(command);
        let name = chars::lowercase(command.take(at));
        let rest = if at < command.len() {
            chars::trim(command.skip(at + 1))
        } else {
            Seq::empty()
        };
        let still = ChatWish::Nothing;
        if name == "me"@ {
            if rest.len() > 0 {
                (self, ChatWish::Say { text: rest, action: true })
            } else {
                (self.noticed("Usage: /me <what you do>"@), still)
            }
        } else if name == "who"@ {
            (
                self.noticed(
                    "In chat ("@ + chars::decimal(self.members.len()) + "): "@ + chars::joined(
                        names_of(self.members),
                        ", "@,
                    ),
                ),
                still,
            )
        } else if name == "quit"@ || name == "exit"@ || name == "leave"@ {
            (self, ChatWish::Leave)
        } else if name == "help"@ {
            (
                self.noticed("Commands: /me <action> · /who · /quit (or Esc) · /help"@).noticed(
                    "PgUp/PgDn or ↑/↓ scroll the history, End jumps to the newest."@,
                ),
                still,
            )
        } else {
            (self.noticed("Unknown command /"@ + name + ". Try /help."@), still)
        }
    }

    /// What was typed is a command.
    pub open spec fn commands(self) -> bool {
        let text = chars::trim(self.input.text);
        text.len() > 0 && text[0] == '/'
    }

    /// Enter: say what was typed, or run it if it starts with a slash.
    pub open spec fn submitted(self) -> (Chatting, ChatWish) {
        let text = chars::trim(self.input.text);
        if text.len() == 0 {
            (self, ChatWish::Nothing)
        } else {
            let ready = Chatting {
                input: Field::empty(self.input.max_len, self.input.masked),
                offset: 0,
                ..self
            };
            if text[0] == '/' {
                ready.commanded(text.drop_first())
            } else {
                (ready, ChatWish::Say { text, action: false })
            }
        }
    }

    pub open spec fn after(self, key: Key) -> (Chatting, ChatWish) {
        let still = ChatWish::Nothing;
        match key {
            Key::Esc => (self, ChatWish::Leave),
            Key::Enter => self.submitted(),
            Key::Up => (self.scrolled(true, 1), still),
            Key::Down => (self.scrolled(false, 1), still),
            Key::PageUp => (self.scrolled(true, self.screenful()), still),
            Key::PageDown => (self.scrolled(false, self.screenful()), still),
            _ => if key == Key::Home && self.input.text.len() == 0 {
                (self.scrolled(true, (usize::MAX / 2) as int), still)
            } else if key == Key::End && self.input.text.len() == 0 {
                (Chatting { offset: 0, ..self }, still)
            } else {
                (Chatting { input: self.input.after(key), ..self }, still)
            },
        }
    }

    /// All display lines, oldest first.
    pub open spec fn lines_shown(self, n: int, width: int) -> Seq<Seq<Run>>
        decreases n,
    {
        if n <= 0 {
            if self.loaded {
                Seq::empty()
            } else {
                seq![seq![paint::run("Joining chat…"@, dim())]]
            }
        } else {
            self.lines_shown(n - 1, width) + self.rendered(self.lines[n - 1], width)
        }
    }

    /// What is in view in `width` columns and `height` rows: the newest
    /// lines, or older ones when the reader has scrolled up, with a note of
    /// how many are below.
    pub open spec fn in_view(self, width: int, height: int) -> Seq<Seq<Run>> {
        let all = self.lines_shown(self.lines.len() as int, width);
        let offset = boards::least(self.offset, boards::at_least_zero(all.len() - height));
        let end = all.len() - offset;
        let start = boards::at_least_zero(end - height);
        let visible = all.subrange(start, end);
        if offset > 0 && visible.len() > 0 {
            visible.update(
                visible.len() - 1,
                seq![
                    paint::run(
                        "— "@ + chars::decimal(offset as nat)
                            + " newer lines below · End to jump down —"@,
                        dim(),
                    ),
                ],
            )
        } else {
            visible
        }
    }

    pub open spec fn drawn(self, width: int, height: int) -> (Chatting, Room) {
        (
            Chatting {
                width,
                height,
                total: self.lines_shown(self.lines.len() as int, width).len() as int,
                ..self
            },
            Room {
                title: "Chat · "@ + chars::decimal(self.members.len())
                    + " here · times are UTC"@,
                lines: self.in_view(width, height),
                members: self.members.map_values(|p: Person| member_line(p)),
            },
        )
    }
}

/// A person in the member list.
pub open spec fn member_line(p: Person) -> Seq<Run> {
    if p.is_sysop {
        seq![
            paint::run(p.name, Style::plain()),
            paint::run(" (sysop)"@, Style::fg(Color::Yellow)),
        ]
    } else {
        paint::plain_line(p.name)
    }
}

/// The chat as it is drawn.
pub struct ChatPane {
    pub title: String,
    pub lines: Vec<Line>,
    pub members: Vec<Line>,
}

/// A `ChatPane`, over the texts themselves.
pub struct Room {
    pub title: Seq<char>,
    pub lines: Seq<Seq<Run>>,
    pub members: Seq<Seq<Run>>,
}

impl View for ChatPane {
    type V = Room;

    open spec fn view(&self) -> Room {
        Room {
            title: self.title@,
            lines: paint::line_models(self.lines@),
            members: paint::line_models(self.members@),
        }
    }
}

/// Whether a screen of `width` columns has room for the member list.
pub fn shows_members(width: u16) -> (r: bool)
    ensures
        r == (width >= MEMBER_LIST_MIN_WIDTH),
{
    width >= MEMBER_LIST_MIN_WIDTH
}

/// The parts of a line, and its text still to be wrapped.
struct LineParts {
    prefix: String,
    prefix_style: Style,
    text: String,
    text_style: Style,
}

impl LineParts {
    spec fn parts(&self) -> Parts {
        Parts {
            prefix: paint::run(self.prefix@, self.prefix_style),
            text: paint::run(self.text@, self.text_style),
        }
    }
}

fn find_space(cs: &Vec<char>) -> (r: usize)
    ensures
        r == first_space(cs@),
        r <= cs@.len(),
{
    let mut i: usize = 0;
    assert(cs@.skip(0) =~= cs@);
    while i < cs.len() && cs[i] != ' '
        invariant
            i <= cs@.len(),
            first_space(cs@) == i + first_space(cs@.skip(i as int)),
        decreases cs@.len() - i,
    {
        assert(cs@.skip(i as int).drop_first() =~= cs@.skip(i + 1));
        i += 1;
    }
    i
}

impl ChatScreen {
    pub open spec fn wf(&self) -> bool {
        self@.wf()
    }

    pub fn new(me: &str) -> (r: ChatScreen)
        ensures
            r@ == Chatting::empty(me@),
            r.wf(),
    {
        let r = ChatScreen {
            me: me.to_owned(),
            lines: VecDeque::new(),
            members: Vec::new(),
            last_seq: 0,
            loaded: false,
            pending: Vec::new(),
            input: TextInput::new(CHAT_MAX, false),
            offset: 0,
            width: Counter::new(80),
            height: Counter::new(10),
            total: Counter::new(0),
        };
        proof {
            assert(r@.lines =~= Seq::empty());
            assert(r@.members =~= Seq::empty());
            assert(r@.pending =~= Seq::empty());
        }
        r
    }

    /// Replaces the room state with a snapshot (on joining, and again if the
    /// listener fell behind). Events that raced ahead of it are replayed.
    pub fn set_snapshot(&mut self, snapshot: ChatSnapshot)
        requires
            old(self).wf(),
        ensures
            final(self)@ == old(self)@.with_snapshot(snapshot@),
            final(self).wf(),
    {
        let ChatSnapshot { seq, history, members } = snapshot;
        self.lines.clear();
        self.members = members;
        self.last_seq = 0;
        self.offset = 0;
        let ghost cleared = self@;
        let ghost all = chat::entries(history@);
        assert(self@.lines =~= Seq::empty());
        let mut i: usize = 0;
        assert(all.take(0) =~= Seq::empty());
        while i < history.len()
            invariant
                i <= history@.len(),
                all == chat::entries(history@),
                self.wf(),
                self@ == cleared.applied_all(all.take(i as int)),
                self.pending == old(self).pending,
            decreases history@.len() - i,
        {
            assert(all.take(i + 1).drop_last() =~= all.take(i as int));
            let event = history[i].clone();
            assert(event@ == all[i as int]);
            self.apply(event);
            i += 1;
        }
        assert(all.take(i as int) =~= all);
        self.last_seq = seq;
        self.loaded = true;
        let mut pending: Vec<ChatEvent> = Vec::new();
        std::mem::swap(&mut pending, &mut self.pending);
        let ghost loaded = self@;
        let ghost late = chat::entries(pending@);
        assert(self@.pending =~= Seq::empty());
        let mut j: usize = 0;
        assert(late.take(0) =~= Seq::empty());
        while j < pending.len()
            invariant
                j <= pending@.len(),
                late == chat::entries(pending@),
                self.wf(),
                self@ == loaded.after_events(late.take(j as int)),
            decreases pending@.len() - j,
        {
            assert(late.take(j + 1).drop_last() =~= late.take(j as int));
            let event = pending[j].clone();
            assert(event@ == late[j as int]);
            self.on_event(event);
            j += 1;
        }
        assert(late.take(j as int) =~= late);
    }

    /// Applies a live event. Returns whether the screen changed.
    pub fn on_event(&mut self, event: ChatEvent) -> (r: bool)
        requires
            old(self).wf(),
        ensures
            final(self)@ == old(self)@.after_event(event@),
            r == (old(self)@.loaded && event.seq > old(self)@.last_seq),
            final(self).wf(),
    {
        if !self.loaded {
            if self.pending.len() < MAX_PENDING {
                self.pending.push(event);
                assert(self@.pending =~= old(self)@.pending.push(event@));
            }
            return false;
        }
        if event.seq <= self.last_seq {
            return false;  // already covered by the snapshot
        }
        self.last_seq = event.seq;
        self.apply(event);
        true
    }

    fn apply(&mut self, event: ChatEvent)
        requires
            old(self).wf(),
        ensures
            final(self)@ == old(self)@.applied(event@),
            final(self).pending == old(self).pending,
            final(self).wf(),
    {
        let ChatEvent { at, kind, .. } = event;
        match kind {
            ChatKind::Message { from, is_sysop, text, action } => {
                self.push(ChatLine::Message { at, from, is_sysop, text, action });
            },
            ChatKind::Join { name, is_sysop } => {
                if !self.is_here(&name) {
                    let mut members: Vec<Member> = Vec::new();
                    std::mem::swap(&mut members, &mut self.members);
                    members.push(Member { name: name.clone(), is_sysop });
                    assert(chat::people(members@) =~= old(self)@.members.push(
                        Person { name: name@, is_sysop },
                    ));
                    self.members = sort_members(members);
                }
                self.push(ChatLine::Join { at, name });
            },
            ChatKind::Leave { name } => {
                self.forget(&name);
                self.push(ChatLine::Leave { at, name });
            },
        }
    }

    fn is_here(&self, name: &str) -> (r: bool)
        ensures
            r == chat::named(self@.members, name@),
    {
        let ghost all = self@.members;
        let mut i: usize = 0;
        while i < self.members.len()
            invariant
                i <= self.members@.len(),
                all == self@.members,
                forall|j: int| 0 <= j < i ==> (#[trigger] all[j]).name != name@,
            decreases self.members@.len() - i,
        {
            assert(all[i as int].name == self.members@[i as int].name@);
            if same(&self.members[i].name, name) {
                return true;
            }
            i += 1;
        }
        false
    }

    fn forget(&mut self, name: &str)
        ensures
            final(self)@ == (Chatting {
                members: without(old(self)@.members, name@),
                ..old(self)@
            }),
            final(self).pending == old(self).pending,
    {
        let ghost all = self@.members;
        let mut kept: Vec<Member> = Vec::new();
        let mut i: usize = 0;
        assert(chat::people(kept@) =~= without(all.take(0), name@));
        while i < self.members.len()
            invariant
                i <= self.members@.len(),
                all == self@.members,
                *self == *old(self),
                chat::people(kept@) == without(all.take(i as int), name@),
            decreases self.members@.len() - i,
        {
            assert(all.take(i + 1).drop_last() =~= all.take(i as int));
            assert(all[i as int] == self.members@[i as int]@);
            if !same(&self.members[i].name, name) {
                let ghost before = kept@;
                let m = self.members[i].clone();
                kept.push(m);
                assert(chat::people(kept@) =~= chat::people(before).push(m@));
            }
            i += 1;
        }
        assert(all.take(i as int) =~= all);
        self.members = kept;
    }

    pub fn add_system(&mut self, text: String)
        requires
            old(self).wf(),
        ensures
            final(self)@ == old(self)@.noticed(text@),
            final(self).pending == old(self).pending,
            final(self).wf(),
    {
        self.push(ChatLine::System(text));
    }

    /// Adds a line. If the reader has scrolled up, the view is kept on the
    /// same text instead of being pushed along by the new line.
    fn push(&mut self, line: ChatLine)
        requires
            old(self).wf(),
        ensures
            final(self)@ == old(self)@.pushed(line@),
            final(self).pending == old(self).pending,
            final(self).wf(),
    {
        if self.offset > 0 {
            let lines = self.render_line(&line, self.width.get());
            let height: usize = lines.len();
            assert(paint::line_models(lines@).len() == height);
            self.offset = self.offset.saturating_add(height);
        }
        self.lines.push_back(line);
        let ghost all = self.lines@;
        assert(sayings(all) =~= old(self)@.lines.push(line@));
        if self.lines.len() > MAX_LINES {
            self.lines.pop_front();
            assert(self.lines@ =~= all.skip(1));
        }
        assert(self@.lines =~= old(self)@.pushed(line@).lines);
    }

    fn scroll(&mut self, up: bool, amount: usize)
        ensures
            final(self)@ == old(self)@.scrolled(up, amount as int),
    {
        let max: usize = self.total.get().saturating_sub(self.height.get());
        if up {
            let wanted: usize = self.offset.saturating_add(amount);
            self.offset = if wanted <= max {
                wanted
            } else {
                max
            };
        } else {
            self.offset = self.offset.saturating_sub(amount);
        }
    }

    pub fn handle(&mut self, key: Key) -> (r: ChatAction)
        requires
            old(self).wf(),
        ensures
            (final(self)@, r@) == old(self)@.after(key),
            key == Key::Enter && old(self)@.commands() ==> spelled(
                chars::trim(old(self)@.input.text).drop_first(),
            ),
            final(self).wf(),
    {
        let height: usize = self.height.get();
        let page: usize = if height > 2 {
            height - 1
        } else {
            1
        };
        match key {
            Key::Esc => {
                return ChatAction::Leave;
            },
            Key::Enter => {
                return self.submit();
            },
            Key::Up => self.scroll(true, 1),
            Key::Down => self.scroll(false, 1),
            Key::PageUp => self.scroll(true, page),
            Key::PageDown => self.scroll(false, page),
            _ => {
                if key == Key::Home && self.input.is_empty() {
                    self.scroll(true, usize::MAX / 2);
                } else if key == Key::End && self.input.is_empty() {
                    self.offset = 0;
                } else {
                    self.input.handle(key);
                }
            },
        }
        ChatAction::Nothing
    }

    fn submit(&mut self) -> (r: ChatAction)
        requires
            old(self).wf(),
        ensures
            (final(self)@, r@) == old(self)@.submitted(),
            old(self)@.commands() ==> spelled(chars::trim(old(self)@.input.text).drop_first()),
            final(self).wf(),
    {
        let text = trim_text(&self.input.value());
        let cs = to_chars(&text);
        if cs.len() == 0 {
            return ChatAction::Nothing;
        }
        self.input.clear();
        self.offset = 0;
        if cs[0] != '/' {
            return ChatAction::Say { text, action: false };
        }
        let command = skip_chars(&cs, 1);
        assert(command@ =~= text@.drop_first());
        self.run(&command)
    }

    /// Runs a command, without its slash.
    fn run(&mut self, command: &Vec<char>) -> (r: ChatAction)
        requires
            old(self).wf(),
        ensures
            (final(self)@, r@) == old(self)@.commanded(command@),
            spelled(command@),
            final(self).wf(),
    {
        let at: usize = find_space(command);
        let name = to_lowercase(&from_chars(&take_chars(command, at)));
        let rest = if at < command.len() {
            trim_text(&from_chars(&skip_chars(command, at + 1)))
        } else {
            String::new()
        };
        assert(rest@ =~= if at < command@.len() {
            chars::trim(command@.skip(at + 1))
        } else {
            Seq::empty()
        });
        if same(&name, "me") {
            if count(&rest) > 0 {
                return ChatAction::Say { text: rest, action: true };
            }
            self.add_system("Usage: /me <what you do>".to_owned());
        } else if same(&name, "who") {
            let names = self.names();
            let who = cat3("In chat (", &size_text(names.len()), "): ");
            assert(chars::string_texts(names@).len() == names@.len());
            self.add_system(cat2(&who, &join_strings(&names, ", ")));
        } else if same(&name, "quit") || same(&name, "exit") || same(&name, "leave") {
            return ChatAction::Leave;
        } else if same(&name, "help") {
            self.add_system("Commands: /me <action> · /who · /quit (or Esc) · /help".to_owned());
            self.add_system(
                "PgUp/PgDn or ↑/↓ scroll the history, End jumps to the newest.".to_owned(),
            );
        } else {
            self.add_system(cat3("Unknown command /", &name, ". Try /help."));
        }
        ChatAction::Nothing
    }

    fn names(&self) -> (r: Vec<String>)
        ensures
            chars::string_texts(r@) == names_of(self@.members),
    {
        let mut names: Vec<String> = Vec::new();
        let mut i: usize = 0;
        while i < self.members.len()
            invariant
                i <= self.members@.len(),
                names@.len() == i,
                forall|j: int| 0 <= j < i ==> #[trigger] names@[j] == self.members@[j].name,
            decreases self.members@.len() - i,
        {
            names.push(self.members[i].name.clone());
            i += 1;
        }
        assert(chars::string_texts(names@) =~= names_of(self@.members));
        names
    }

    // ---------------------------------------------------------- drawing

    fn parts(&self, line: &ChatLine) -> (r: LineParts)
        ensures
            r.parts() == line@.parts(self.me@),
    {
        match line {
            ChatLine::Message { at, from, is_sysop, text, action } => {
                if *action {
                    LineParts {
                        prefix: cat5("[", &hhmm(*at), "] * ", from, " "),
                        prefix_style: Style::fg(Color::Magenta),
                        text: text.clone(),
                        text_style: Style::fg(Color::Magenta),
                    }
                } else {
                    let color = if *is_sysop {
                        Color::Yellow
                    } else if same(from, &self.me) {
                        Color::Green
                    } else {
                        Color::Cyan
                    };
                    LineParts {
                        prefix: cat5("[", &hhmm(*at), "] <", from, "> "),
                        prefix_style: Style::bold(color),
                        text: text.clone(),
                        text_style: Style::plain(),
                    }
                }
            },
            ChatLine::Join { at, name } => {
                let none = String::new();
                assert(none@ =~= Seq::empty());
                LineParts {
                    prefix: cat5("[", &hhmm(*at), "] → ", name, " joined"),
                    prefix_style: dim(),
                    text: none,
                    text_style: dim(),
                }
            },
            ChatLine::Leave { at, name } => {
                let none = String::new();
                assert(none@ =~= Seq::empty());
                LineParts {
                    prefix: cat5("[", &hhmm(*at), "] ← ", name, " left"),
                    prefix_style: dim(),
                    text: none,
                    text_style: dim(),
                }
            },
            ChatLine::System(text) => LineParts {
                prefix: "* ".to_owned(),
                prefix_style: Style::fg(Color::Yellow),
                text: text.clone(),
                text_style: Style::fg(Color::Yellow),
            },
        }
    }

    /// One logical line as display lines: a coloured prefix on the first,
    /// continuation lines indented under the text.
    pub fn render_line(&self, line: &ChatLine, width: usize) -> (r: Vec<Line>)
        ensures
            paint::line_models(r@) == self@.rendered(line@, width as int),
    {
        let p = self.parts(line);
        let ghost parts = p.parts();
        let prefix_width: usize = count(&p.prefix);
        // Narrow terminals: don't indent, just wrap the whole thing.
        let indent: usize = if width > 10 && width - 10 > prefix_width {
            prefix_width
        } else {
            0
        };
        let wrapped = wrap(&p.text, width - indent);
        let ghost goal = display_lines(parts, width as int);
        let mut out: Vec<Line> = Vec::new();
        let mut i: usize = 0;
        while i < wrapped.len()
            invariant
                i <= wrapped@.len(),
                parts == p.parts(),
                indent == hanging_indent(p.prefix@, width as int),
                chars::string_texts(wrapped@) == text::wrapped(p.text@, width - indent),
                goal == display_lines(parts, width as int),
                out@.len() == i,
                forall|j: int| 0 <= j < i ==> (#[trigger] out@[j])@ == goal[j],
            decreases wrapped@.len() - i,
        {
            let part = wrapped[i].clone();
            assert(part@ == chars::string_texts(wrapped@)[i as int]);
            if i == 0 {
                out.push(
                    line2(
                        span(p.prefix.clone(), p.prefix_style),
                        span(part, p.text_style),
                    ),
                );
            } else {
                out.push(line1(span(cat2(&space_text(indent), &part), p.text_style)));
            }
            i += 1;
        }
        assert(chars::string_texts(wrapped@).len() == wrapped@.len());
        assert(paint::line_models(out@) =~= goal);
        out
    }

    /// The chat in a pane of `width` columns and `height` rows. Takes down
    /// what the layout came to, for the keys that scroll.
    pub fn draw(&mut self, width: usize, height: usize) -> (r: ChatPane)
        requires
            old(self).wf(),
        ensures
            (final(self)@, r@) == old(self)@.drawn(width as int, height as int),
            final(self).wf(),
    {
        let mut all: Vec<Line> = Vec::new();
        if !self.loaded {
            all.push(line1(span("Joining chat…".to_owned(), dim())));
        }
        assert(paint::line_models(all@) =~= self@.lines_shown(0, width as int));
        let mut i: usize = 0;
        while i < self.lines.len()
            invariant
                i <= self.lines@.len(),
                paint::line_models(all@) == self@.lines_shown(i as int, width as int),
            decreases self.lines@.len() - i,
        {
            let ghost before = paint::line_models(all@);
            let mut more = self.render_line(&self.lines[i], width);
            assert(self@.lines[i as int] == self.lines@[i as int]@);
            let ghost added = paint::line_models(more@);
            all.append(&mut more);
            assert(paint::line_models(all@) =~= before + added);
            i += 1;
        }
        let ghost shown = self@.lines_shown(self@.lines.len() as int, width as int);
        let total: usize = all.len();
        assert(shown.len() == total);
        let max: usize = total.saturating_sub(height);
        let offset: usize = if self.offset <= max {
            self.offset
        } else {
            max
        };
        let end: usize = total - offset;
        let start: usize = end.saturating_sub(height);
        all.truncate(end);
        let mut visible = all.split_off(start);
        assert(paint::line_models(visible@) =~= shown.subrange(start as int, end as int));
        if offset > 0 && visible.len() > 0 {
            let n: usize = visible.len();
            let ghost before = paint::line_models(visible@);
            let note = line1(
                span(
                    cat3("— ", &size_text(offset), " newer lines below · End to jump down —"),
                    dim(),
                ),
            );
            visible.pop();
            visible.push(note);
            assert(paint::line_models(visible@) =~= before.update(n - 1, note@));
        }
        let mut members: Vec<Line> = Vec::new();
        let mut j: usize = 0;
        while j < self.members.len()
            invariant
                j <= self.members@.len(),
                members@.len() == j,
                forall|k: int|
                    0 <= k < j ==> (#[trigger] members@[k])@ == member_line(self.members@[k]@),
            decreases self.members@.len() - j,
        {
            let m = &self.members[j];
            if m.is_sysop {
                members.push(
                    line2(
                        span(m.name.clone(), Style::plain()),
                        span(" (sysop)".to_owned(), Style::fg(Color::Yellow)),
                    ),
                );
            } else {
                members.push(text_line(m.name.clone()));
            }
            j += 1;
        }
        let title = cat3("Chat · ", &size_text(self.members.len()), " here · times are UTC");
        let r = ChatPane { title, lines: visible, members };
        proof {
            assert(r@.members =~= self@.members.map_values(|p: Person| member_line(p)));
        }
        self.width.set(width);
        self.height.set(height);
        self.total.set(total);
        r
    }
}

} // verus!
