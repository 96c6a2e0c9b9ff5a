//! The board list, the thread list and the thread view.

use vstd::prelude::*;

use crate::chars;
use crate::chars::{
    cat2, cat3, cat5, decimal_text, int_text, pad, parse_number, size_text, to_chars, trim_text,
};
use crate::content;
use crate::db::POSTS_PER_PAGE;
use crate::ui::input::{Field, Key, TextInput};
use crate::ui::paint;
use crate::ui::paint::{
    line1, line3, line4, span, strong, text_line, Color, Line, ListPane, Listing, Page, Run, Style,
    TextPane,
};
use crate::ui::protocol;
use crate::ui::protocol::{BoardInfo, PageTarget, PostInfo, ThreadDetail, ThreadInfo};
use crate::ui::text;
use crate::ui::text::{wrap, Counter};

verus! {

/// Marks what the viewer hasn't read.
pub open spec fn new_mark_spec() -> Style {
    Style::bold(Color::Green)
}

#[verifier::when_used_as_spec(new_mark_spec)]
pub fn new_mark() -> (r: Style)
    ensures
        r == new_mark_spec(),
{
    Style::bold(Color::Green)
}

/// Details and help.
pub open spec fn dim_spec() -> Style {
    Style::fg(Color::Gray)
}

#[verifier::when_used_as_spec(dim_spec)]
pub fn dim() -> (r: Style)
    ensures
        r == dim_spec(),
{
    Style::fg(Color::Gray)
}

/// `s` if `shown`, else nothing.
pub open spec fn opt(shown: bool, s: Seq<char>) -> Seq<char> {
    if shown {
        s
    } else {
        Seq::empty()
    }
}

/// `n`, or the last of `len` if there are not that many.
pub open spec fn at_most_last(n: int, len: int) -> int {
    if len == 0 {
        0
    } else if n < len {
        n
    } else {
        len - 1
    }
}

/// The selection in a list of `len` after `key`.
pub open spec fn moved(selected: int, len: int, key: Key) -> int {
    match key {
        Key::Up | Key::Char('k') => if selected > 0 {
            selected - 1
        } else {
            0
        },
        Key::Down | Key::Char('j') => at_most_last(selected + 1, len),
        Key::Home | Key::Char('g') => 0,
        Key::End | Key::Char('G') => at_most_last(len, len),
        Key::PageUp => if selected > 10 {
            selected - 10
        } else {
            0
        },
        Key::PageDown => at_most_last(selected + 10, len),
        _ => selected,
    }
}

/// `n` if there are that many, else the last of `len`.
pub(crate) fn clamp_to_last(n: usize, len: usize) -> (r: usize)
    ensures
        r == at_most_last(n as int, len as int),
{
    if len == 0 {
        0
    } else if n < len {
        n
    } else {
        len - 1
    }
}

/// Moves the selection in a list of `len`.
pub fn move_selection(selected: &mut usize, len: usize, key: Key)
    ensures
        *final(selected) == moved(*old(selected) as int, len as int, key),
{
    let now: usize = *selected;
    *selected = match key {
        Key::Up | Key::Char('k') => if now > 0 {
            now - 1
        } else {
            0
        },
        Key::Down | Key::Char('j') => clamp_to_last(now.saturating_add(1), len),
        Key::Home | Key::Char('g') => 0,
        Key::End | Key::Char('G') => clamp_to_last(len, len),
        Key::PageUp => if now > 10 {
            now - 10
        } else {
            0
        },
        Key::PageDown => clamp_to_last(now.saturating_add(10), len),
        _ => now,
    };
}

// ---------------------------------------------------------------- boards

#[derive(Debug)]
pub enum BoardsEvent {
    Nothing,
    Back,
    Open(i64),
    CreateBoard { name: String, description: String },
    UpdateDescription { board_id: i64, description: String },
}

/// A `BoardsEvent`, over the texts themselves.
pub enum BoardsWish {
    Nothing,
    Back,
    Open(i64),
    CreateBoard { name: Seq<char>, description: Seq<char> },
    UpdateDescription { board_id: i64, description: Seq<char> },
}

impl View for BoardsEvent {
    type V = BoardsWish;

    open spec fn view(&self) -> BoardsWish {
        match self {
            BoardsEvent::Nothing => BoardsWish::Nothing,
            BoardsEvent::Back => BoardsWish::Back,
            BoardsEvent::Open(id) => BoardsWish::Open(*id),
            BoardsEvent::CreateBoard { name, description } => BoardsWish::CreateBoard {
                name: name@,
                description: description@,
            },
            BoardsEvent::UpdateDescription { board_id, description } => {
                BoardsWish::UpdateDescription { board_id: *board_id, description: description@ }
            },
        }
    }
}

/// What a board create/edit form does when Enter is pressed on its last
/// field or Esc is pressed.
#[derive(Clone, Copy, Debug, PartialEq, Eq, Structural)]
pub enum FormOutcome {
    Nothing,
    Cancel,
    Submit,
}

/// "Create a board": name + description. Fields only; validation and the
/// actual request are assembled by `BoardList`, which knows which event to
/// return.
pub struct NewBoardForm {
    pub name: TextInput,
    pub description: TextInput,
    pub focus: usize,
    pub error: Option<String>,
    pub busy: bool,
}

/// The contents of a `NewBoardForm`.
pub struct NewBoard {
    pub name: Field,
    pub description: Field,
    pub focus: int,
    pub error: Option<Seq<char>>,
    pub busy: bool,
}

impl View for NewBoardForm {
    type V = NewBoard;

    open spec fn view(&self) -> NewBoard {
        NewBoard {
            name: self.name@,
            description: self.description@,
            focus: self.focus as int,
            error: protocol::text_of(self.error),
            busy: self.busy,
        }
    }
}

/// The line below a form: what goes on, what went wrong, or the keys.
pub open spec fn form_hint(
    busy: bool,
    error: Option<Seq<char>>,
    doing: Seq<char>,
    keys: Seq<char>,
) -> (Seq<char>, Color) {
    if busy {
        (doing, Color::Yellow)
    } else {
        match error {
            Some(e) => (e, Color::Red),
            None => (keys, Color::Gray),
        }
    }
}

pub(crate) fn form_status(busy: bool, error: &Option<String>, doing: &str, keys: &str) -> (r: (
    String,
    Color,
))
    ensures
        (r.0@, r.1) == form_hint(busy, protocol::text_of(*error), doing@, keys@),
{
    if busy {
        (doing.to_owned(), Color::Yellow)
    } else {
        match error {
            Some(e) => (e.clone(), Color::Red),
            None => (keys.to_owned(), Color::Gray),
        }
    }
}

impl NewBoard {
    pub open spec fn empty() -> NewBoard {
        NewBoard {
            name: Field::empty(content::TITLE_MAX as nat, false),
            description: Field::empty(content::TITLE_MAX as nat, false),
            focus: 0,
            error: None,
            busy: false,
        }
    }

    pub open spec fn wf(self) -> bool {
        self.name.wf() && self.description.wf() && 0 <= self.focus <= 1
    }

    pub open spec fn failed(self, message: Seq<char>) -> NewBoard {
        NewBoard { busy: false, error: Some(message), ..self }
    }

    pub open spec fn after(self, key: Key) -> (NewBoard, FormOutcome) {
        if self.busy {
            (self, FormOutcome::Nothing)
        } else {
            match key {
                Key::Esc => (self, FormOutcome::Cancel),
                Key::Tab | Key::Down | Key::BackTab | Key::Up => (
                    NewBoard { focus: 1 - self.focus, ..self },
                    FormOutcome::Nothing,
                ),
                Key::Enter => if self.focus == 0 {
                    (NewBoard { focus: 1, ..self }, FormOutcome::Nothing)
                } else if chars::trim(self.name.text).len() == 0 {
                    (
                        NewBoard { focus: 0, error: Some("Give the board a name."@), ..self },
                        FormOutcome::Nothing,
                    )
                } else {
                    (NewBoard { error: None, busy: true, ..self }, FormOutcome::Submit)
                },
                _ => if self.focus == 0 {
                    (NewBoard { name: self.name.after(key), ..self }, FormOutcome::Nothing)
                } else {
                    (
                        NewBoard { description: self.description.after(key), ..self },
                        FormOutcome::Nothing,
                    )
                },
            }
        }
    }
}

impl NewBoardForm {
    pub open spec fn wf(&self) -> bool {
        self@.wf()
    }

    pub fn new() -> (r: NewBoardForm)
        ensures
            r@ == NewBoard::empty(),
            r.wf(),
    {
        NewBoardForm {
            name: TextInput::new(content::TITLE_MAX, false),
            description: TextInput::new(content::TITLE_MAX, false),
            focus: 0,
            error: None,
            busy: false,
        }
    }

    pub fn fail(&mut self, message: String)
        ensures
            final(self)@ == old(self)@.failed(message@),
    {
        self.busy = false;
        self.error = Some(message);
    }

    pub fn handle(&mut self, key: Key) -> (r: FormOutcome)
        requires
            old(self).wf(),
        ensures
            (final(self)@, r) == old(self)@.after(key),
            final(self).wf(),
    {
        if self.busy {
            return FormOutcome::Nothing;
        }
        match key {
            Key::Esc => {
                return FormOutcome::Cancel;
            },
            Key::Tab | Key::Down | Key::BackTab | Key::Up => {
                self.focus = 1 - self.focus;
            },
            Key::Enter => {
                if self.focus == 0 {
                    self.focus = 1;
                } else {
                    if chars::count(&trim_text(&self.name.value())) == 0 {
                        self.focus = 0;
                        self.error = Some("Give the board a name.".to_owned());
                        return FormOutcome::Nothing;
                    }
                    self.error = None;
                    self.busy = true;
                    return FormOutcome::Submit;
                }
            },
            _ => {
                if self.focus == 0 {
                    self.name.handle(key);
                } else {
                    self.description.handle(key);
                }
            },
        }
        FormOutcome::Nothing
    }

    pub fn status(&self) -> (r: (String, Color))
        ensures
            (r.0@, r.1) == form_hint(
                self.busy,
                self@.error,
                "Creating…"@,
                "Tab/Enter: next field · Enter on description: create · Esc: cancel"@,
            ),
    {
        form_status(
            self.busy,
            &self.error,
            "Creating…",
            "Tab/Enter: next field · Enter on description: create · Esc: cancel",
        )
    }
}

/// "Edit board description": one field, prefilled.
pub struct EditBoardForm {
    pub board_id: i64,
    pub board_name: String,
    pub description: TextInput,
    pub error: Option<String>,
    pub busy: bool,
}

/// The contents of an `EditBoardForm`.
pub struct EditBoard {
    pub board_id: i64,
    pub board_name: Seq<char>,
    pub description: Field,
    pub error: Option<Seq<char>>,
    pub busy: bool,
}

impl View for EditBoardForm {
    type V = EditBoard;

    open spec fn view(&self) -> EditBoard {
        EditBoard {
            board_id: self.board_id,
            board_name: self.board_name@,
            description: self.description@,
            error: protocol::text_of(self.error),
            busy: self.busy,
        }
    }
}

impl EditBoard {
    pub open spec fn of(board_id: i64, board_name: Seq<char>, description: Seq<char>) -> EditBoard {
        EditBoard {
            board_id,
            board_name,
            description: Field::empty(content::TITLE_MAX as nat, false).typed(description),
            error: None,
            busy: false,
        }
    }

    pub open spec fn wf(self) -> bool {
        self.description.wf()
    }

    pub open spec fn failed(self, message: Seq<char>) -> EditBoard {
        EditBoard { busy: false, error: Some(message), ..self }
    }

    pub open spec fn after(self, key: Key) -> (EditBoard, FormOutcome) {
        if self.busy {
            (self, FormOutcome::Nothing)
        } else {
            match key {
                Key::Esc => (self, FormOutcome::Cancel),
                Key::Enter => (EditBoard { error: None, busy: true, ..self }, FormOutcome::Submit),
                _ => (
                    EditBoard { description: self.description.after(key), ..self },
                    FormOutcome::Nothing,
                ),
            }
        }
    }
}

impl EditBoardForm {
    pub open spec fn wf(&self) -> bool {
        self@.wf()
    }

    pub fn new(board_id: i64, board_name: String, current_description: &str) -> (r: EditBoardForm)
        ensures
            r@ == EditBoard::of(board_id, board_name@, current_description@),
            r.wf(),
    {
        let mut description = TextInput::new(content::TITLE_MAX, false);
        description.set(current_description);
        EditBoardForm { board_id, board_name, description, error: None, busy: false }
    }

    pub fn fail(&mut self, message: String)
        ensures
            final(self)@ == old(self)@.failed(message@),
    {
        self.busy = false;
        self.error = Some(message);
    }

    pub fn handle(&mut self, key: Key) -> (r: FormOutcome)
        requires
            old(self).wf(),
        ensures
            (final(self)@, r) == old(self)@.after(key),
            final(self).wf(),
    {
        if self.busy {
            return FormOutcome::Nothing;
        }
        match key {
            Key::Esc => {
                return FormOutcome::Cancel;
            },
            Key::Enter => {
                self.error = None;
                self.busy = true;
                return FormOutcome::Submit;
            },
            _ => {
                self.description.handle(key);
            },
        }
        FormOutcome::Nothing
    }

    /// The title of the field.
    pub fn label(&self) -> (r: String)
        ensures
            r@ == "Description of \""@ + self.board_name@ + "\""@,
    {
        cat3("Description of \"", &self.board_name, "\"")
    }

    pub fn status(&self) -> (r: (String, Color))
        ensures
            (r.0@, r.1) == form_hint(
                self.busy,
                self@.error,
                "Saving…"@,
                "Enter: save · Esc: cancel"@,
            ),
    {
        form_status(self.busy, &self.error, "Saving…", "Enter: save · Esc: cancel")
    }
}

pub enum Mode {
    List,
    New(NewBoardForm),
    Edit(EditBoardForm),
}

/// The contents of a `Mode`.
pub enum ModeModel {
    List,
    New(NewBoard),
    Edit(EditBoard),
}

impl View for Mode {
    type V = ModeModel;

    open spec fn view(&self) -> ModeModel {
        match self {
            Mode::List => ModeModel::List,
            Mode::New(form) => ModeModel::New(form@),
            Mode::Edit(form) => ModeModel::Edit(form@),
        }
    }
}

pub struct BoardList {
    pub boards: Vec<BoardInfo>,
    pub selected: usize,
    pub loaded: bool,
    /// Shows board-management keys. Purely cosmetic: the server decides.
    pub sysop: bool,
    pub mode: Mode,
}

/// The contents of a `BoardList`.
pub struct Boards {
    pub boards: Seq<BoardInfo>,
    pub selected: int,
    pub loaded: bool,
    pub sysop: bool,
    pub mode: ModeModel,
}

impl View for BoardList {
    type V = Boards;

    open spec fn view(&self) -> Boards {
        Boards {
            boards: self.boards@,
            selected: self.selected as int,
            loaded: self.loaded,
            sysop: self.sysop,
            mode: self.mode@,
        }
    }
}

/// A board in the list.
pub open spec fn board_line(b: BoardInfo) -> Seq<Run> {
    seq![
        paint::run(chars::padded(b.name@, 14), Style::plain()),
        paint::run(
            b.description@ + "  ("@ + chars::decimal_int(b.thread_count as int) + " threads)"@,
            dim(),
        ),
        paint::run(
            opt(
                b.unread_threads > 0,
                "  "@ + chars::decimal_int(b.unread_threads as int) + " unread"@,
            ),
            new_mark(),
        ),
    ]
}

impl Boards {
    pub open spec fn empty(sysop: bool) -> Boards {
        Boards { boards: Seq::empty(), selected: 0, loaded: false, sysop, mode: ModeModel::List }
    }

    pub open spec fn wf(self) -> bool {
        match self.mode {
            ModeModel::List => true,
            ModeModel::New(form) => form.wf(),
            ModeModel::Edit(form) => form.wf(),
        }
    }

    pub open spec fn with(self, boards: Seq<BoardInfo>) -> Boards {
        Boards {
            boards,
            loaded: true,
            selected: at_most_last(self.selected, boards.len() as int),
            mode: ModeModel::List,
            ..self
        }
    }

    pub open spec fn failed(self, message: Seq<char>) -> Boards {
        match self.mode {
            ModeModel::List => self,
            ModeModel::New(form) => Boards { mode: ModeModel::New(form.failed(message)), ..self },
            ModeModel::Edit(form) => Boards { mode: ModeModel::Edit(form.failed(message)), ..self },
        }
    }

    /// The board under the cursor.
    pub open spec fn current(self) -> Option<BoardInfo> {
        if 0 <= self.selected < self.boards.len() {
            Some(self.boards[self.selected])
        } else {
            None
        }
    }

    pub open spec fn after_in_list(self, key: Key) -> (Boards, BoardsWish) {
        match key {
            Key::Esc | Key::Char('q') => (self, BoardsWish::Back),
            Key::Enter => match self.current() {
                Some(board) => (self, BoardsWish::Open(board.id)),
                None => (self, BoardsWish::Nothing),
            },
            _ => if key == Key::Char('n') && self.sysop {
                (Boards { mode: ModeModel::New(NewBoard::empty()), ..self }, BoardsWish::Nothing)
            } else if key == Key::Char('e') && self.sysop {
                match self.current() {
                    Some(board) => (
                        Boards {
                            mode: ModeModel::Edit(
                                EditBoard::of(board.id, board.name@, board.description@),
                            ),
                            ..self
                        },
                        BoardsWish::Nothing,
                    ),
                    None => (self, BoardsWish::Nothing),
                }
            } else {
                (
                    Boards {
                        selected: moved(self.selected, self.boards.len() as int, key),
                        ..self
                    },
                    BoardsWish::Nothing,
                )
            },
        }
    }

    pub open spec fn after(self, key: Key) -> (Boards, BoardsWish) {
        match self.mode {
            ModeModel::List => self.after_in_list(key),
            ModeModel::New(form) => {
                let (next, outcome) = form.after(key);
                match outcome {
                    FormOutcome::Nothing => (
                        Boards { mode: ModeModel::New(next), ..self },
                        BoardsWish::Nothing,
                    ),
                    FormOutcome::Cancel => (
                        Boards { mode: ModeModel::List, ..self },
                        BoardsWish::Nothing,
                    ),
                    FormOutcome::Submit => (
                        Boards { mode: ModeModel::New(next), ..self },
                        BoardsWish::CreateBoard {
                            name: next.name.text,
                            description: next.description.text,
                        },
                    ),
                }
            },
            ModeModel::Edit(form) => {
                let (next, outcome) = form.after(key);
                match outcome {
                    FormOutcome::Nothing => (
                        Boards { mode: ModeModel::Edit(next), ..self },
                        BoardsWish::Nothing,
                    ),
                    FormOutcome::Cancel => (
                        Boards { mode: ModeModel::List, ..self },
                        BoardsWish::Nothing,
                    ),
                    FormOutcome::Submit => (
                        Boards { mode: ModeModel::Edit(next), ..self },
                        BoardsWish::UpdateDescription {
                            board_id: next.board_id,
                            description: next.description.text,
                        },
                    ),
                }
            },
        }
    }

    /// The list as it is drawn.
    pub open spec fn drawn(self) -> Listing {
        Listing {
            title: "Message boards"@,
            items: if !self.loaded {
                seq![paint::plain_line("Loading…"@)]
            } else if self.boards.len() == 0 {
                seq![paint::plain_line("(no boards)"@)]
            } else {
                self.boards.map_values(|b: BoardInfo| board_line(b))
            },
            selected: if self.boards.len() == 0 {
                None
            } else {
                Some(self.selected as usize)
            },
            help: seq![
                paint::run(
                    if self.sysop {
                        "Enter: open board · n: new board · e: edit description (sysop) · ↑/↓: move · Esc: back"@
                    } else {
                        "Enter: open board · ↑/↓: move · Esc: back"@
                    },
                    dim(),
                ),
            ],
        }
    }
}

impl BoardList {
    pub open spec fn wf(&self) -> bool {
        self@.wf()
    }

    pub fn new(sysop: bool) -> (r: BoardList)
        ensures
            r@ == Boards::empty(sysop),
            r.wf(),
    {
        BoardList { boards: Vec::new(), selected: 0, loaded: false, sysop, mode: Mode::List }
    }

    pub fn set(&mut self, boards: Vec<BoardInfo>)
        ensures
            final(self)@ == old(self)@.with(boards@),
            final(self).wf(),
    {
        self.boards = boards;
        self.loaded = true;
        self.selected = clamp_to_last(self.selected, self.boards.len());
        // A fresh list means whatever create/edit action was pending (if
        // any) has already been handled - either it succeeded and this is
        // the result, or something else refreshed the list.
        self.mode = Mode::List;
    }

    /// The server rejected a create/edit; let the open form show why.
    pub fn fail(&mut self, message: String)
        requires
            old(self).wf(),
        ensures
            final(self)@ == old(self)@.failed(message@),
            final(self).wf(),
    {
        match &mut self.mode {
            Mode::New(form) => form.fail(message),
            Mode::Edit(form) => form.fail(message),
            Mode::List => {},
        }
    }

    pub fn handle(&mut self, key: Key) -> (r: BoardsEvent)
        requires
            old(self).wf(),
        ensures
            (final(self)@, r@) == old(self)@.after(key),
            final(self).wf(),
    {
        match &mut self.mode {
            Mode::List => self.handle_list(key),
            Mode::New(form) => match form.handle(key) {
                FormOutcome::Nothing => BoardsEvent::Nothing,
                FormOutcome::Cancel => {
                    self.mode = Mode::List;
                    BoardsEvent::Nothing
                },
                FormOutcome::Submit => BoardsEvent::CreateBoard {
                    name: form.name.value(),
                    description: form.description.value(),
                },
            },
            Mode::Edit(form) => match form.handle(key) {
                FormOutcome::Nothing => BoardsEvent::Nothing,
                FormOutcome::Cancel => {
                    self.mode = Mode::List;
                    BoardsEvent::Nothing
                },
                FormOutcome::Submit => BoardsEvent::UpdateDescription {
                    board_id: form.board_id,
                    description: form.description.value(),
                },
            },
        }
    }

    fn handle_list(&mut self, key: Key) -> (r: BoardsEvent)
        requires
            old(self).mode is List,
        ensures
            (final(self)@, r@) == old(self)@.after_in_list(key),
            final(self).wf(),
    {
        let len: usize = self.boards.len();
        match key {
            Key::Esc | Key::Char('q') => {
                return BoardsEvent::Back;
            },
            Key::Enter => {
                if self.selected < len {
                    return BoardsEvent::Open(self.boards[self.selected].id);
                }
            },
            _ => {
                if key == Key::Char('n') && self.sysop {
                    self.mode = Mode::New(NewBoardForm::new());
                } else if key == Key::Char('e') && self.sysop {
                    if self.selected < len {
                        let board = &self.boards[self.selected];
                        self.mode =
                        Mode::Edit(
                            EditBoardForm::new(board.id, board.name.clone(), &board.description),
                        );
                    }
                } else {
                    move_selection(&mut self.selected, len, key);
                }
            },
        }
        BoardsEvent::Nothing
    }

    /// The list of boards; the forms are drawn from their own fields.
    pub fn draw(&self) -> (r: ListPane)
        ensures
            r@ == self@.drawn(),
    {
        let mut items: Vec<Line> = Vec::new();
        if !self.loaded {
            items.push(text_line("Loading…".to_owned()));
        } else if self.boards.len() == 0 {
            items.push(text_line("(no boards)".to_owned()));
        } else {
            let mut i: usize = 0;
            while i < self.boards.len()
                invariant
                    i <= self.boards@.len(),
                    items@.len() == i,
                    forall|j: int| 0 <= j < i ==> (#[trigger] items@[j])@ == board_line(self.boards@[j]),
                decreases self.boards@.len() - i,
            {
                let b = &self.boards[i];
                let mut detail = b.description.clone();
                detail.append("  (");
                detail.append(&int_text(b.thread_count));
                detail.append(" threads)");
                let unread = if b.unread_threads > 0 {
                    cat3("  ", &int_text(b.unread_threads), " unread")
                } else {
                    String::new()
                };
                assert(unread@ =~= opt(
                    b.unread_threads > 0,
                    "  "@ + chars::decimal_int(b.unread_threads as int) + " unread"@,
                ));
                items.push(
                    line3(
                        span(pad(&b.name, 14), Style::plain()),
                        span(detail, dim()),
                        span(unread, new_mark()),
                    ),
                );
                i += 1;
            }
        }
        let help = if self.sysop {
            "Enter: open board · n: new board · e: edit description (sysop) · ↑/↓: move · Esc: back"
        } else {
            "Enter: open board · ↑/↓: move · Esc: back"
        };
        let r = ListPane {
            title: "Message boards".to_owned(),
            items,
            selected: if self.boards.len() == 0 {
                None
            } else {
                Some(self.selected)
            },
            help: line1(span(help.to_owned(), dim())),
        };
        assert(r@.items =~= self@.drawn().items);
        r
    }
}

// --------------------------------------------------------------- threads

#[derive(Clone, Copy, Debug, PartialEq, Eq, Structural)]
pub enum ThreadsEvent {
    Nothing,
    Back,
    DeleteThread { thread_id: i64, page: usize },
    /// `list_page` is the list page we came from, so Back returns to it.
    Open { board_id: i64, thread_id: i64, list_page: usize },
    New { board_id: i64 },
    MarkBoardRead { board_id: i64, page: usize },
    /// Show another page of this board's thread list.
    Page { board_id: i64, page: usize },
}

pub struct ThreadList {
    pub board_id: i64,
    pub board_name: String,
    pub threads: Vec<ThreadInfo>,
    pub selected: usize,
    pub loaded: bool,
    /// Shows moderation keys. Purely cosmetic: the server decides.
    pub sysop: bool,
    /// Logged-in user (guests have no read markers).
    pub member: bool,
    pub confirm_delete: bool,
    /// 0-based page, page count and total threads on the board.
    pub page: usize,
    pub pages: usize,
    pub total: usize,
}

/// The contents of a `ThreadList`.
pub struct Threads {
    pub board_id: i64,
    pub board_name: Seq<char>,
    pub threads: Seq<ThreadInfo>,
    pub selected: int,
    pub loaded: bool,
    pub sysop: bool,
    pub member: bool,
    pub confirm_delete: bool,
    pub page: usize,
    pub pages: usize,
    pub total: usize,
}

impl View for ThreadList {
    type V = Threads;

    open spec fn view(&self) -> Threads {
        Threads {
            board_id: self.board_id,
            board_name: self.board_name@,
            threads: self.threads@,
            selected: self.selected as int,
            loaded: self.loaded,
            sysop: self.sysop,
            member: self.member,
            confirm_delete: self.confirm_delete,
            page: self.page,
            pages: self.pages,
            total: self.total,
        }
    }
}

/// Replies in a thread of `posts` posts.
pub open spec fn reply_count(posts: i64) -> int {
    if posts == i64::MIN {
        posts as int
    } else {
        posts - 1
    }
}

/// A thread in the list.
pub open spec fn thread_line(t: ThreadInfo) -> Seq<Run> {
    let unread = t.unread > 0;
    seq![
        paint::run(
            if unread {
                "* "@
            } else {
                "  "@
            },
            new_mark(),
        ),
        paint::run(
            t.title@,
            if unread {
                strong()
            } else {
                Style::plain()
            },
        ),
        paint::run(
            "  by "@ + t.author@ + " · "@ + chars::decimal_int(reply_count(t.post_count))
                + " replies · "@ + t.last_post@,
            dim(),
        ),
        paint::run(
            opt(unread, "  ["@ + chars::decimal_int(t.unread as int) + " new]"@),
            new_mark(),
        ),
    ]
}

impl Threads {
    pub open spec fn loading(board_id: i64, sysop: bool, member: bool) -> Threads {
        Threads {
            board_id,
            board_name: Seq::empty(),
            threads: Seq::empty(),
            selected: 0,
            loaded: false,
            sysop,
            member,
            confirm_delete: false,
            page: 0,
            pages: 1,
            total: 0,
        }
    }

    pub open spec fn with(
        self,
        board_name: Seq<char>,
        threads: Seq<ThreadInfo>,
        page: usize,
        pages: usize,
        total: usize,
    ) -> Threads {
        Threads {
            board_name,
            threads,
            page,
            pages,
            total,
            loaded: true,
            selected: at_most_last(self.selected, threads.len() as int),
            ..self
        }
    }

    /// The thread under the cursor.
    pub open spec fn current(self) -> Option<ThreadInfo> {
        if 0 <= self.selected < self.threads.len() {
            Some(self.threads[self.selected])
        } else {
            None
        }
    }

    /// Asks for another page, if there is one.
    pub open spec fn to_page(self, page: int) -> ThreadsEvent {
        if 0 <= page < self.pages {
            ThreadsEvent::Page { board_id: self.board_id, page: page as usize }
        } else {
            ThreadsEvent::Nothing
        }
    }

    pub open spec fn after(self, key: Key) -> (Threads, ThreadsEvent) {
        let len = self.threads.len() as int;
        if self.confirm_delete {
            (
                Threads { confirm_delete: false, ..self },
                match self.current() {
                    Some(thread) => if key == Key::Char('y') {
                        ThreadsEvent::DeleteThread { thread_id: thread.id, page: self.page }
                    } else {
                        ThreadsEvent::Nothing
                    },
                    None => ThreadsEvent::Nothing,
                },
            )
        } else if key == Key::Char('x') && self.sysop && len > 0 {
            (Threads { confirm_delete: true, ..self }, ThreadsEvent::Nothing)
        } else if key == Key::Esc || key == Key::Char('q') {
            (self, ThreadsEvent::Back)
        } else if key == Key::Char('n') {
            (self, ThreadsEvent::New { board_id: self.board_id })
        } else if key == Key::Char('m') && self.member {
            (self, ThreadsEvent::MarkBoardRead { board_id: self.board_id, page: self.page })
        } else if key == Key::Enter {
            (
                self,
                match self.current() {
                    Some(thread) => ThreadsEvent::Open {
                        board_id: self.board_id,
                        thread_id: thread.id,
                        list_page: self.page,
                    },
                    None => ThreadsEvent::Nothing,
                },
            )
        } else if key == Key::Right || key == Key::Char('>') || key == Key::Char('.') {
            (self, self.to_page(self.page + 1))
        } else if key == Key::Left || key == Key::Char('<') || key == Key::Char(',') {
            (self, self.to_page(self.page - 1))
        } else if key == Key::PageDown && self.selected + 1 >= len {
            (self, self.to_page(self.page + 1))
        } else if key == Key::PageUp && self.selected == 0 {
            (self, self.to_page(self.page - 1))
        } else {
            (Threads { selected: moved(self.selected, len, key), ..self }, ThreadsEvent::Nothing)
        }
    }

    pub open spec fn title(self) -> Seq<char> {
        if self.pages > 1 {
            "Board: "@ + self.board_name + " · page "@ + chars::decimal((self.page + 1) as nat)
                + "/"@ + chars::decimal(self.pages as nat) + " · "@ + chars::decimal(
                self.total as nat,
            ) + " threads"@
        } else {
            "Board: "@ + self.board_name + " · "@ + chars::decimal(self.total as nat)
                + " threads"@
        }
    }

    pub open spec fn help(self) -> Run {
        if self.confirm_delete {
            paint::run(
                "Delete thread \""@ + (match self.current() {
                    Some(thread) => thread.title@,
                    None => Seq::empty(),
                }) + "\" and all its posts? y = yes, any other key = no"@,
                Style::fg(Color::Yellow),
            )
        } else {
            paint::run(
                "Enter: read · n: new thread"@ + opt(self.pages > 1, " · ←/→: page"@) + opt(
                    self.member,
                    " · m: mark all read"@,
                ) + opt(self.sysop, " · x: delete thread (sysop)"@) + " · Esc: back"@,
                dim(),
            )
        }
    }

    /// The list as it is drawn.
    pub open spec fn drawn(self) -> Listing {
        Listing {
            title: self.title(),
            items: if !self.loaded {
                seq![paint::plain_line("Loading…"@)]
            } else if self.threads.len() == 0 {
                seq![paint::plain_line("(no threads yet — press 'n' to start one)"@)]
            } else {
                self.threads.map_values(|t: ThreadInfo| thread_line(t))
            },
            selected: if self.threads.len() == 0 {
                None
            } else {
                Some(self.selected as usize)
            },
            help: seq![self.help()],
        }
    }
}

/// Appends `s` if it is `shown`.
pub(crate) fn append_if(to: &mut String, shown: bool, s: &str)
    ensures
        final(to)@ == old(to)@ + opt(shown, s@),
{
    if shown {
        to.append(s);
    } else {
        assert(to@ + Seq::<char>::empty() =~= to@);
    }
}

impl ThreadList {
    pub fn loading(board_id: i64, sysop: bool, member: bool) -> (r: ThreadList)
        ensures
            r@ == Threads::loading(board_id, sysop, member),
    {
        let r = ThreadList {
            sysop,
            member,
            confirm_delete: false,
            page: 0,
            pages: 1,
            total: 0,
            board_id,
            board_name: String::new(),
            threads: Vec::new(),
            selected: 0,
            loaded: false,
        };
        assert(r@.board_name =~= Seq::empty());
        r
    }

    pub fn set(
        &mut self,
        board_name: String,
        threads: Vec<ThreadInfo>,
        page: usize,
        pages: usize,
        total: usize,
    )
        ensures
            final(self)@ == old(self)@.with(board_name@, threads@, page, pages, total),
    {
        self.board_name = board_name;
        self.threads = threads;
        self.page = page;
        self.pages = pages;
        self.total = total;
        self.loaded = true;
        self.selected = clamp_to_last(self.selected, self.threads.len());
    }

    pub fn handle(&mut self, key: Key) -> (r: ThreadsEvent)
        ensures
            (final(self)@, r) == old(self)@.after(key),
    {
        let len: usize = self.threads.len();
        if self.confirm_delete {
            self.confirm_delete = false;
            if key == Key::Char('y') && self.selected < len {
                return ThreadsEvent::DeleteThread {
                    thread_id: self.threads[self.selected].id,
                    page: self.page,
                };
            }
            return ThreadsEvent::Nothing;
        }
        match key {
            Key::Esc | Key::Char('q') => {
                return ThreadsEvent::Back;
            },
            Key::Char('n') => {
                return ThreadsEvent::New { board_id: self.board_id };
            },
            Key::Enter => {
                if self.selected < len {
                    return ThreadsEvent::Open {
                        board_id: self.board_id,
                        thread_id: self.threads[self.selected].id,
                        list_page: self.page,
                    };
                }
            },
            // Page keys, plus PgDn/PgUp continuing past the ends of a page.
            Key::Right | Key::Char('>') | Key::Char('.') => {
                return self.next_page();
            },
            Key::Left | Key::Char('<') | Key::Char(',') => {
                return self.previous_page();
            },
            _ => {
                if key == Key::Char('x') && self.sysop && len > 0 {
                    self.confirm_delete = true;
                } else if key == Key::Char('m') && self.member {
                    return ThreadsEvent::MarkBoardRead {
                        board_id: self.board_id,
                        page: self.page,
                    };
                } else if key == Key::PageDown && (len == 0 || self.selected >= len - 1) {
                    return self.next_page();
                } else if key == Key::PageUp && self.selected == 0 {
                    return self.previous_page();
                } else {
                    move_selection(&mut self.selected, len, key);
                }
            },
        }
        ThreadsEvent::Nothing
    }

    fn next_page(&self) -> (r: ThreadsEvent)
        ensures
            r == self@.to_page(self.page + 1),
    {
        if self.pages > 0 && self.page < self.pages - 1 {
            ThreadsEvent::Page { board_id: self.board_id, page: self.page + 1 }
        } else {
            ThreadsEvent::Nothing
        }
    }

    fn previous_page(&self) -> (r: ThreadsEvent)
        ensures
            r == self@.to_page(self.page - 1),
    {
        if self.page > 0 && self.page - 1 < self.pages {
            ThreadsEvent::Page { board_id: self.board_id, page: self.page - 1 }
        } else {
            ThreadsEvent::Nothing
        }
    }

    fn title(&self) -> (r: String)
        ensures
            r@ == self@.title(),
    {
        let mut s = cat2("Board: ", &self.board_name);
        if self.pages > 1 {
            s.append(" · page ");
            s.append(&decimal_text(self.page as u128 + 1));
            s.append("/");
            s.append(&size_text(self.pages));
        }
        s.append(" · ");
        s.append(&size_text(self.total));
        s.append(" threads");
        s
    }

    fn help(&self) -> (r: Line)
        ensures
            r@ == seq![self@.help()],
    {
        if self.confirm_delete {
            let mut s = "Delete thread \"".to_owned();
            if self.selected < self.threads.len() {
                s.append(&self.threads[self.selected].title);
            } else {
                assert(s@ + Seq::<char>::empty() =~= s@);
            }
            s.append("\" and all its posts? y = yes, any other key = no");
            line1(span(s, Style::fg(Color::Yellow)))
        } else {
            let mut s = "Enter: read · n: new thread".to_owned();
            append_if(&mut s, self.pages > 1, " · ←/→: page");
            append_if(&mut s, self.member, " · m: mark all read");
            append_if(&mut s, self.sysop, " · x: delete thread (sysop)");
            s.append(" · Esc: back");
            line1(span(s, dim()))
        }
    }

    pub fn draw(&self) -> (r: ListPane)
        ensures
            r@ == self@.drawn(),
    {
        let mut items: Vec<Line> = Vec::new();
        if !self.loaded {
            items.push(text_line("Loading…".to_owned()));
        } else if self.threads.len() == 0 {
            items.push(text_line("(no threads yet — press 'n' to start one)".to_owned()));
        } else {
            let mut i: usize = 0;
            while i < self.threads.len()
                invariant
                    i <= self.threads@.len(),
                    items@.len() == i,
                    forall|j: int|
                        0 <= j < i ==> (#[trigger] items@[j])@ == thread_line(self.threads@[j]),
                decreases self.threads@.len() - i,
            {
                let t = &self.threads[i];
                let unread = t.unread > 0;
                let mark = if unread {
                    "* "
                } else {
                    "  "
                };
                let mut detail = cat3("  by ", &t.author, " · ");
                let replies: i64 = if t.post_count == i64::MIN {
                    t.post_count
                } else {
                    t.post_count - 1
                };
                detail.append(&int_text(replies));
                detail.append(" replies · ");
                detail.append(&t.last_post);
                let fresh = if unread {
                    cat3("  [", &int_text(t.unread), " new]")
                } else {
                    String::new()
                };
                assert(fresh@ =~= opt(
                    unread,
                    "  ["@ + chars::decimal_int(t.unread as int) + " new]"@,
                ));
                let style = if unread {
                    strong()
                } else {
                    Style::plain()
                };
                items.push(
                    line4(
                        span(mark.to_owned(), new_mark()),
                        span(t.title.clone(), style),
                        span(detail, dim()),
                        span(fresh, new_mark()),
                    ),
                );
                i += 1;
            }
        }
        let r = ListPane {
            title: self.title(),
            items,
            selected: if self.threads.len() == 0 {
                None
            } else {
                Some(self.selected)
            },
            help: self.help(),
        };
        assert(r@.items =~= self@.drawn().items);
        r
    }
}

// ----------------------------------------------------------- thread view

#[derive(Debug)]
pub enum ThreadEvent {
    Nothing,
    DeletePost { post_id: i64, page: usize },
    Back { board_id: i64, list_page: usize },
    Reply {
        thread_id: i64,
        title: String,
        /// The post being replied to (author, when, body) - the last one
        /// currently loaded, i.e. the most recent on this page.
        quote: Option<(String, String, String)>,
    },
    /// Show another page of this thread.
    Goto { thread_id: i64, target: PageTarget },
}

/// A `ThreadEvent`, over the texts themselves.
pub enum ThreadWish {
    Nothing,
    DeletePost { post_id: i64, page: usize },
    Back { board_id: i64, list_page: usize },
    Reply {
        thread_id: i64,
        title: Seq<char>,
        quote: Option<(Seq<char>, Seq<char>, Seq<char>)>,
    },
    Goto { thread_id: i64, target: PageTarget },
}

impl View for ThreadEvent {
    type V = ThreadWish;

    open spec fn view(&self) -> ThreadWish {
        match self {
            ThreadEvent::Nothing => ThreadWish::Nothing,
            ThreadEvent::DeletePost { post_id, page } => ThreadWish::DeletePost {
                post_id: *post_id,
                page: *page,
            },
            ThreadEvent::Back { board_id, list_page } => ThreadWish::Back {
                board_id: *board_id,
                list_page: *list_page,
            },
            ThreadEvent::Reply { thread_id, title, quote } => ThreadWish::Reply {
                thread_id: *thread_id,
                title: title@,
                quote: match quote {
                    Some(q) => Some((q.0@, q.1@, q.2@)),
                    None => None,
                },
            },
            ThreadEvent::Goto { thread_id, target } => ThreadWish::Goto {
                thread_id: *thread_id,
                target: *target,
            },
        }
    }
}

pub struct ThreadView {
    pub board_id: i64,
    pub thread_id: i64,
    pub board_name: String,
    pub title: String,
    pub posts: Vec<PostInfo>,
    pub loaded: bool,
    /// 0-based page of the thread being shown, page count, total posts.
    pub page: usize,
    pub pages: usize,
    pub total: usize,
    /// The thread-list page this thread was opened from (for Back).
    pub list_page: usize,
    pub sysop: bool,
    /// Digits typed so far while asking which post to delete.
    pub delete_prompt: Option<String>,
    /// First visible line. Drawing clamps it to the content height, which is
    /// only known at draw time.
    pub scroll: Counter,
    pub total_lines: Counter,
    pub page_height: Counter,
    /// Post (1-based index) to scroll to on the next draw, 0 for none. Set
    /// when opening a thread with unread posts.
    pub jump: Counter,
}

/// The contents of a `ThreadView`.
pub struct Reading {
    pub board_id: i64,
    pub thread_id: i64,
    pub board_name: Seq<char>,
    pub title: Seq<char>,
    pub posts: Seq<PostInfo>,
    pub loaded: bool,
    pub page: usize,
    pub pages: usize,
    pub total: usize,
    pub list_page: usize,
    pub sysop: bool,
    pub delete_prompt: Option<Seq<char>>,
    pub scroll: int,
    pub total_lines: int,
    pub page_height: int,
    pub jump: int,
}

impl View for ThreadView {
    type V = Reading;

    open spec fn view(&self) -> Reading {
        Reading {
            board_id: self.board_id,
            thread_id: self.thread_id,
            board_name: self.board_name@,
            title: self.title@,
            posts: self.posts@,
            loaded: self.loaded,
            page: self.page,
            pages: self.pages,
            total: self.total,
            list_page: self.list_page,
            sysop: self.sysop,
            delete_prompt: protocol::text_of(self.delete_prompt),
            scroll: self.scroll.value as int,
            total_lines: self.total_lines.value as int,
            page_height: self.page_height.value as int,
            jump: self.jump.value as int,
        }
    }
}

/// The index of the first post the viewer hasn't read, or the length.
pub open spec fn first_unread(posts: Seq<PostInfo>) -> int
    decreases posts.len(),
{
    if posts.len() == 0 {
        0
    } else if first_unread(posts.drop_last()) < posts.len() - 1 {
        first_unread(posts.drop_last())
    } else if posts.last().unread {
        posts.len() - 1
    } else {
        posts.len() as int
    }
}

/// A prompt that holds a post number, or the beginning of one.
pub open spec fn is_post_number(s: Seq<char>) -> bool {
    &&& s.len() <= 6
    &&& forall|i: int| 0 <= i < s.len() ==> chars::ascii_digit(#[trigger] s[i])
}

pub open spec fn at_least_zero(n: int) -> int {
    if n > 0 {
        n
    } else {
        0
    }
}

pub open spec fn least(a: int, b: int) -> int {
    if a <= b {
        a
    } else {
        b
    }
}

/// The heading of a post: its number in the thread, author and time.
pub open spec fn post_heading(p: PostInfo, number: int) -> Seq<Run> {
    seq![
        paint::run(
            "#"@ + chars::decimal(number as nat) + " "@ + p.author@,
            Style::bold(Color::Cyan),
        ),
        paint::run(opt(p.author_is_sysop, " [sysop]"@), Style::fg(Color::Yellow)),
        paint::run("  "@ + p.created@, dim()),
        paint::run(opt(p.unread, "  NEW"@), new_mark()),
    ]
}

/// A post as it is drawn: heading, wrapped text, a blank line.
pub open spec fn post_lines(p: PostInfo, number: int, width: int) -> Seq<Seq<Run>> {
    seq![post_heading(p, number)] + text::wrapped(p.body@, width).map_values(
        |l: Seq<char>| paint::plain_line(l),
    ) + seq![Seq::empty()]
}

/// Posts as they are drawn; the first has the number `first` + 1.
pub open spec fn posts_lines(posts: Seq<PostInfo>, first: int, width: int) -> Seq<Seq<Run>>
    decreases posts.len(),
{
    if posts.len() == 0 {
        Seq::empty()
    } else {
        posts_lines(posts.drop_last(), first, width) + post_lines(
            posts.last(),
            first + posts.len(),
            width,
        )
    }
}

impl Reading {
    pub open spec fn wf(self) -> bool {
        self.delete_prompt matches Some(s) ==> is_post_number(s)
    }

    pub open spec fn loading(
        board_id: i64,
        thread_id: i64,
        sysop: bool,
        list_page: usize,
    ) -> Reading {
        Reading {
            board_id,
            thread_id,
            board_name: Seq::empty(),
            title: Seq::empty(),
            posts: Seq::empty(),
            loaded: false,
            page: 0,
            pages: 1,
            total: 0,
            list_page,
            sysop,
            delete_prompt: None,
            scroll: 0,
            total_lines: 0,
            page_height: 10,
            jump: 0,
        }
    }

    pub open spec fn of(
        detail: ThreadDetail,
        to_end: bool,
        sysop: bool,
        list_page: usize,
    ) -> Reading {
        let unread = first_unread(detail.posts@);
        Reading {
            board_name: detail.board_name@,
            title: detail.title@,
            posts: detail.posts@,
            loaded: true,
            page: detail.page,
            pages: detail.pages,
            total: detail.total,
            scroll: if to_end {
                usize::MAX as int
            } else {
                0
            },
            jump: if !to_end && unread < detail.posts@.len() {
                unread + 1
            } else {
                0
            },
            ..Reading::loading(detail.board_id, detail.id, sysop, list_page)
        }
    }

    pub open spec fn max_scroll(self) -> int {
        at_least_zero(self.total_lines - self.page_height)
    }

    pub open spec fn scrolled_by(self, delta: int) -> Reading {
        let max = self.max_scroll();
        Reading { scroll: least(at_least_zero(least(self.scroll, max) + delta), max), ..self }
    }

    /// Number of the first post on this page, minus one (posts are numbered
    /// across the whole thread, not per page).
    pub open spec fn first_index(self) -> int {
        self.page * POSTS_PER_PAGE
    }

    pub open spec fn to(self, target: PageTarget) -> ThreadWish {
        ThreadWish::Goto { thread_id: self.thread_id, target }
    }

    pub open spec fn more_pages(self) -> bool {
        self.page + 1 < self.pages
    }

    /// The post that has the number `number` in the thread, if it is on
    /// this page.
    pub open spec fn numbered(self, number: int) -> Option<PostInfo> {
        let index = number - 1 - self.first_index();
        if 0 <= index < self.posts.len() {
            Some(self.posts[index])
        } else {
            None
        }
    }

    pub open spec fn after_prompt(self, input: Seq<char>, key: Key) -> (Reading, ThreadWish) {
        let closed = Reading { delete_prompt: None, ..self };
        match key {
            Key::Esc => (closed, ThreadWish::Nothing),
            Key::Enter => (
                closed,
                match self.numbered(chars::number(input) as int) {
                    Some(post) => ThreadWish::DeletePost { post_id: post.id, page: self.page },
                    None => ThreadWish::Nothing,
                },
            ),
            Key::Backspace => (
                Reading {
                    delete_prompt: Some(
                        if input.len() > 0 {
                            input.drop_last()
                        } else {
                            input
                        },
                    ),
                    ..self
                },
                ThreadWish::Nothing,
            ),
            Key::Char(c) => (
                Reading {
                    delete_prompt: Some(
                        if chars::ascii_digit(c) && input.len() < 6 {
                            input.push(c)
                        } else {
                            input
                        },
                    ),
                    ..self
                },
                ThreadWish::Nothing,
            ),
            _ => (Reading { delete_prompt: Some(input), ..self }, ThreadWish::Nothing),
        }
    }

    /// Lines that PgDn and PgUp move by.
    pub open spec fn screenful(self) -> int {
        if self.page_height > 2 {
            self.page_height - 1
        } else {
            1
        }
    }

    pub open spec fn after_reading(self, key: Key) -> (Reading, ThreadWish) {
        let still = ThreadWish::Nothing;
        if key == Key::Esc || key == Key::Char('q') {
            (self, ThreadWish::Back { board_id: self.board_id, list_page: self.list_page })
        } else if key == Key::Char('x') && self.sysop && self.loaded {
            (Reading { delete_prompt: Some(Seq::empty()), ..self }, still)
        } else if key == Key::Char('r') && self.loaded {
            (
                self,
                ThreadWish::Reply {
                    thread_id: self.thread_id,
                    title: self.title,
                    quote: if self.posts.len() > 0 {
                        let p = self.posts.last();
                        Some((p.author@, p.created@, p.body@))
                    } else {
                        None
                    },
                },
            )
        } else if key == Key::Up || key == Key::Char('k') {
            (self.scrolled_by(-1), still)
        } else if key == Key::Down || key == Key::Char('j') || key == Key::Enter {
            (self.scrolled_by(1), still)
        } else if key == Key::PageDown || key == Key::Char(' ') {
            if self.scroll >= self.max_scroll() && self.more_pages() {
                (self, self.to(PageTarget::Page((self.page + 1) as usize)))
            } else {
                (self.scrolled_by(self.screenful()), still)
            }
        } else if key == Key::PageUp || key == Key::Char('b') {
            if self.scroll == 0 && self.page > 0 {
                (self, self.to(PageTarget::PageEnd((self.page - 1) as usize)))
            } else {
                (self.scrolled_by(-self.screenful()), still)
            }
        } else if (key == Key::Right || key == Key::Char('>') || key == Key::Char('.'))
            && self.more_pages() {
            (self, self.to(PageTarget::Page((self.page + 1) as usize)))
        } else if (key == Key::Left || key == Key::Char('<') || key == Key::Char(','))
            && self.page > 0 {
            (self, self.to(PageTarget::Page((self.page - 1) as usize)))
        } else if key == Key::Home || key == Key::Char('g') {
            if self.page > 0 {
                (self, self.to(PageTarget::Page(0)))
            } else {
                (Reading { scroll: 0, ..self }, still)
            }
        } else if key == Key::End || key == Key::Char('G') {
            if self.more_pages() {
                (self, self.to(PageTarget::Last))
            } else {
                (Reading { scroll: usize::MAX as int, ..self }, still)
            }
        } else {
            (self, still)
        }
    }

    pub open spec fn after(self, key: Key) -> (Reading, ThreadWish) {
        match self.delete_prompt {
            Some(input) => self.after_prompt(input, key),
            None => self.after_reading(key),
        }
    }

    pub open spec fn heading(self) -> Seq<char> {
        self.board_name + " › "@ + self.title + (if self.pages > 1 {
            " · page "@ + chars::decimal((self.page + 1) as nat) + "/"@ + chars::decimal(
                self.pages as nat,
            ) + " · "@ + chars::decimal(self.total as nat) + " posts"@
        } else {
            Seq::empty()
        })
    }

    pub open spec fn lead(self) -> Seq<Seq<Run>> {
        if self.loaded {
            Seq::empty()
        } else {
            seq![paint::plain_line("Loading…"@)]
        }
    }

    pub open spec fn lines(self, width: int) -> Seq<Seq<Run>> {
        self.lead() + posts_lines(self.posts, self.first_index(), width)
    }

    /// The line that post `k` (from 0) starts at.
    pub open spec fn post_start(self, k: int, width: int) -> int {
        (self.lead().len() + posts_lines(self.posts.take(k), self.first_index(), width).len())
            as int
    }

    pub open spec fn help(self) -> Run {
        match self.delete_prompt {
            Some(input) => paint::run(
                "Delete which post number? "@ + input + "   (Enter: delete · Esc: cancel)"@,
                Style::fg(Color::Yellow),
            ),
            None => paint::run(
                "↑/↓: scroll · Space/PgDn: read on"@ + opt(
                    self.pages > 1,
                    " · ←/→: page · g/G: first/last"@,
                ) + " · r: reply"@ + opt(self.sysop, " · x: delete post"@) + " · Esc: back"@,
                dim(),
            ),
        }
    }

    /// What is drawn in `width` columns and `height` rows. A thread with
    /// unread posts starts at the first of them.
    pub open spec fn drawn(self, width: int, height: int) -> (Reading, Page) {
        let lines = self.lines(width);
        let wanted = if 1 <= self.jump <= self.posts.len() {
            self.post_start(self.jump - 1, width)
        } else {
            self.scroll
        };
        let scroll = least(wanted, at_least_zero(lines.len() - height));
        (
            Reading {
                total_lines: lines.len() as int,
                page_height: height,
                jump: 0,
                scroll,
                ..self
            },
            Page {
                title: self.heading(),
                lines,
                scroll,
                help: seq![self.help()],
                cursor: match self.delete_prompt {
                    Some(input) => Some((26 + input.len()) as usize),
                    None => None,
                },
            },
        )
    }
}

fn find_unread(posts: &Vec<PostInfo>) -> (r: usize)
    ensures
        r == first_unread(posts@),
        r <= posts@.len(),
{
    let mut i: usize = 0;
    let mut found = false;
    let mut at: usize = 0;
    while i < posts.len()
        invariant
            i <= posts@.len(),
            found ==> at < i,
            first_unread(posts@.take(i as int)) == if found {
                at as int
            } else {
                i as int
            },
        decreases posts@.len() - i,
    {
        assert(posts@.take(i + 1).drop_last() =~= posts@.take(i as int));
        if !found && posts[i].unread {
            found = true;
            at = i;
        }
        i += 1;
    }
    assert(posts@.take(i as int) =~= posts@);
    if found {
        at
    } else {
        i
    }
}

/// Appends the lines of one post.
fn push_post(lines: &mut Vec<Line>, p: &PostInfo, number: u128, width: usize)
    ensures
        paint::line_models(final(lines)@) == paint::line_models(old(lines)@) + post_lines(
            *p,
            number as int,
            width as int,
        ),
{
    let ghost before = paint::line_models(lines@);
    let mut head = cat3("#", &decimal_text(number), " ");
    head.append(&p.author);
    let mut badge = String::new();
    append_if(&mut badge, p.author_is_sysop, " [sysop]");
    assert(badge@ =~= opt(p.author_is_sysop, " [sysop]"@));
    let mut fresh = String::new();
    append_if(&mut fresh, p.unread, "  NEW");
    assert(fresh@ =~= opt(p.unread, "  NEW"@));
    lines.push(
        line4(
            span(head, Style::bold(Color::Cyan)),
            span(badge, Style::fg(Color::Yellow)),
            span(cat2("  ", &p.created), dim()),
            span(fresh, new_mark()),
        ),
    );
    let ghost heading = post_heading(*p, number as int);
    assert(paint::line_models(lines@) =~= before + seq![heading]);
    let wrapped = wrap(&p.body, width);
    let ghost texts = text::wrapped(p.body@, width as int);
    let ghost body = texts.map_values(|l: Seq<char>| paint::plain_line(l));
    let mut i: usize = 0;
    assert(before + seq![heading] + body.take(0) =~= before + seq![heading]);
    while i < wrapped.len()
        invariant
            i <= wrapped@.len(),
            texts == chars::string_texts(wrapped@),
            body == texts.map_values(|l: Seq<char>| paint::plain_line(l)),
            paint::line_models(lines@) == before + seq![heading] + body.take(i as int),
        decreases wrapped@.len() - i,
    {
        let ghost so_far = lines@;
        let line = text_line(wrapped[i].clone());
        assert(line@ == body[i as int]);
        lines.push(line);
        assert(paint::line_models(lines@) =~= paint::line_models(so_far).push(line@));
        assert(paint::line_models(lines@) =~= before + seq![heading] + body.take(i + 1));
        i += 1;
    }
    let ghost so_far = lines@;
    assert(body.take(i as int) =~= body);
    let blank = Line { spans: Vec::new() };
    assert(blank@ =~= Seq::empty());
    lines.push(blank);
    assert(paint::line_models(lines@) =~= paint::line_models(so_far).push(blank@));
    assert(paint::line_models(lines@) =~= before + post_lines(*p, number as int, width as int));
}

impl ThreadView {
    pub open spec fn wf(&self) -> bool {
        self@.wf()
    }

    pub fn loading(board_id: i64, thread_id: i64, sysop: bool, list_page: usize) -> (r: ThreadView)
        ensures
            r@ == Reading::loading(board_id, thread_id, sysop, list_page),
            r.wf(),
    {
        let r = ThreadView {
            page: 0,
            pages: 1,
            total: 0,
            list_page,
            sysop,
            delete_prompt: None,
            board_id,
            thread_id,
            board_name: String::new(),
            title: String::new(),
            posts: Vec::new(),
            loaded: false,
            scroll: Counter::new(0),
            total_lines: Counter::new(0),
            page_height: Counter::new(10),
            jump: Counter::new(0),
        };
        assert(r@.board_name =~= Seq::empty());
        assert(r@.title =~= Seq::empty());
        r
    }

    pub fn list_page(&self) -> (r: usize)
        ensures
            r == self@.list_page,
    {
        self.list_page
    }

    pub fn from_detail(detail: ThreadDetail, to_end: bool, sysop: bool, list_page: usize) -> (r:
        ThreadView)
        ensures
            r@ == Reading::of(detail, to_end, sysop, list_page),
            r.wf(),
    {
        let mut view = ThreadView::loading(detail.board_id, detail.id, sysop, list_page);
        view.page = detail.page;
        view.pages = detail.pages;
        view.total = detail.total;
        view.board_name = detail.board_name;
        view.title = detail.title;
        view.posts = detail.posts;
        view.loaded = true;
        let unread: usize = find_unread(&view.posts);
        if to_end {
            // Clamped to the real maximum on the next draw.
            view.scroll.set(usize::MAX);
        } else if unread < view.posts.len() {
            view.jump.set(unread + 1);
        }
        view
    }

    fn max_scroll(&self) -> (r: usize)
        ensures
            r == self@.max_scroll(),
    {
        self.total_lines.get().saturating_sub(self.page_height.get())
    }

    fn scroll_down(&mut self, lines: usize)
        ensures
            final(self)@ == old(self)@.scrolled_by(lines as int),
    {
        let max: usize = self.max_scroll();
        let mut now: usize = self.scroll.get();
        if now > max {
            now = max;
        }
        if lines >= max - now {
            self.scroll.set(max);
        } else {
            self.scroll.set(now + lines);
        }
    }

    fn scroll_up(&mut self, lines: usize)
        ensures
            final(self)@ == old(self)@.scrolled_by(-(lines as int)),
    {
        let max: usize = self.max_scroll();
        let mut now: usize = self.scroll.get();
        if now > max {
            now = max;
        }
        self.scroll.set(now.saturating_sub(lines));
    }

    fn goto(&self, target: PageTarget) -> (r: ThreadEvent)
        ensures
            r@ == self@.to(target),
    {
        ThreadEvent::Goto { thread_id: self.thread_id, target }
    }

    fn more_pages(&self) -> (r: bool)
        ensures
            r == self@.more_pages(),
            r ==> self.page < usize::MAX,
    {
        self.pages > 0 && self.page < self.pages - 1
    }

    fn handle_delete_prompt(&mut self, input: String, key: Key) -> (r: ThreadEvent)
        requires
            is_post_number(input@),
            old(self).delete_prompt is None,
        ensures
            (final(self)@, r@) == old(self)@.after_prompt(input@, key),
            final(self).wf(),
    {
        match key {
            Key::Esc => {
                return ThreadEvent::Nothing;
            },
            Key::Enter => {
                // The number is thread-wide; only posts on this page can be picked.
                let number: usize = parse_number(&input) as usize;
                if number >= 1 && self.page <= (number - 1) / POSTS_PER_PAGE {
                    let index: usize = number - 1 - self.page * POSTS_PER_PAGE;
                    if index < self.posts.len() {
                        return ThreadEvent::DeletePost {
                            post_id: self.posts[index].id,
                            page: self.page,
                        };
                    }
                }
                return ThreadEvent::Nothing;
            },
            Key::Backspace => {
                let mut cs = to_chars(&input);
                cs.pop();
                self.delete_prompt = Some(chars::from_chars(&cs));
                proof {
                    if input@.len() == 0 {
                        assert(cs@ =~= input@);
                    } else {
                        assert(cs@ =~= input@.drop_last());
                    }
                }
            },
            Key::Char(c) => {
                let mut input = input;
                if chars::is_ascii_digit(c) && chars::count(&input) < 6 {
                    input.push(c);
                }
                self.delete_prompt = Some(input);
            },
            _ => {
                self.delete_prompt = Some(input);
            },
        }
        ThreadEvent::Nothing
    }

    pub fn handle(&mut self, key: Key) -> (r: ThreadEvent)
        requires
            old(self).wf(),
        ensures
            (final(self)@, r@) == old(self)@.after(key),
            final(self).wf(),
    {
        if let Some(input) = self.delete_prompt.take() {
            return self.handle_delete_prompt(input, key);
        }
        let height: usize = self.page_height.get();
        let page: usize = if height > 2 {
            height - 1
        } else {
            1
        };
        match key {
            Key::Esc | Key::Char('q') => {
                return ThreadEvent::Back { board_id: self.board_id, list_page: self.list_page };
            },
            Key::Char('x') => {
                if self.sysop && self.loaded {
                    self.delete_prompt = Some(String::new());
                    assert(self.delete_prompt.unwrap()@ =~= Seq::empty());
                }
            },
            Key::Char('r') => {
                if self.loaded {
                    let n: usize = self.posts.len();
                    return ThreadEvent::Reply {
                        thread_id: self.thread_id,
                        title: self.title.clone(),
                        quote: if n > 0 {
                            let p = &self.posts[n - 1];
                            Some((p.author.clone(), p.created.clone(), p.body.clone()))
                        } else {
                            None
                        },
                    };
                }
            },
            Key::Up | Key::Char('k') => self.scroll_up(1),
            Key::Down | Key::Char('j') | Key::Enter => self.scroll_down(1),
            // Reading on past the end of a page continues on the next one.
            Key::PageDown | Key::Char(' ') => {
                if self.scroll.get() >= self.max_scroll() && self.more_pages() {
                    return self.goto(PageTarget::Page(self.page + 1));
                }
                self.scroll_down(page);
            },
            Key::PageUp | Key::Char('b') => {
                if self.scroll.get() == 0 && self.page > 0 {
                    return self.goto(PageTarget::PageEnd(self.page - 1));
                }
                self.scroll_up(page);
            },
            Key::Right | Key::Char('>') | Key::Char('.') => {
                if self.more_pages() {
                    return self.goto(PageTarget::Page(self.page + 1));
                }
            },
            Key::Left | Key::Char('<') | Key::Char(',') => {
                if self.page > 0 {
                    return self.goto(PageTarget::Page(self.page - 1));
                }
            },
            // First / last page of the thread (or top / bottom if single-page).
            Key::Home | Key::Char('g') => {
                if self.page > 0 {
                    return self.goto(PageTarget::Page(0));
                }
                self.scroll.set(0);
            },
            Key::End | Key::Char('G') => {
                if self.more_pages() {
                    return self.goto(PageTarget::Last);
                }
                self.scroll.set(usize::MAX);
            },
            _ => {},
        }
        ThreadEvent::Nothing
    }

    fn heading(&self) -> (r: String)
        ensures
            r@ == self@.heading(),
    {
        let mut s = cat3(&self.board_name, " › ", &self.title);
        let mut more = String::new();
        if self.pages > 1 {
            more =
            cat5(" · page ", &decimal_text(self.page as u128 + 1), "/", &size_text(self.pages), " · ");
            more.append(&size_text(self.total));
            more.append(" posts");
        }
        assert(more@ =~= if self.pages > 1 {
            " · page "@ + chars::decimal((self.page + 1) as nat) + "/"@ + chars::decimal(
                self.pages as nat,
            ) + " · "@ + chars::decimal(self.total as nat) + " posts"@
        } else {
            Seq::empty()
        });
        s.append(&more);
        s
    }

    fn help(&self) -> (r: Line)
        ensures
            r@ == seq![self@.help()],
    {
        match &self.delete_prompt {
            Some(input) => line1(
                span(
                    cat3("Delete which post number? ", input, "   (Enter: delete · Esc: cancel)"),
                    Style::fg(Color::Yellow),
                ),
            ),
            None => {
                let mut s = "↑/↓: scroll · Space/PgDn: read on".to_owned();
                append_if(&mut s, self.pages > 1, " · ←/→: page · g/G: first/last");
                s.append(" · r: reply");
                append_if(&mut s, self.sysop, " · x: delete post");
                s.append(" · Esc: back");
                line1(span(s, dim()))
            },
        }
    }

    /// The thread in a pane of `width` columns and `height` rows. Takes down
    /// what the layout came to, for the keys that scroll.
    pub fn draw(&mut self, width: usize, height: usize) -> (r: TextPane)
        requires
            old(self).wf(),
        ensures
            (final(self)@, r@) == old(self)@.drawn(width as int, height as int),
            final(self).wf(),
    {
        let mut lines: Vec<Line> = Vec::new();
        if !self.loaded {
            lines.push(text_line("Loading…".to_owned()));
        }
        let ghost lead = self@.lead();
        assert(paint::line_models(lines@) =~= lead);
        let jump: usize = self.jump.get();
        let mut start: usize = self.scroll.get();
        let ghost first = self@.first_index();
        let ghost posts = self.posts@;
        let mut i: usize = 0;
        assert(lead + posts_lines(posts.take(0), first, width as int) =~= lead);
        while i < self.posts.len()
            invariant
                i <= self.posts@.len(),
                *self == *old(self),
                posts == self.posts@,
                first == self@.first_index(),
                lead == self@.lead(),
                jump == self@.jump,
                paint::line_models(lines@) == lead + posts_lines(
                    posts.take(i as int),
                    first,
                    width as int,
                ),
                start == if 1 <= jump <= i {
                    self@.post_start(jump - 1, width as int)
                } else {
                    self@.scroll
                },
            decreases self.posts@.len() - i,
        {
            proof {
                assert(posts.take(i + 1).drop_last() =~= posts.take(i as int));
                assert(paint::line_models(lines@).len() == lines@.len());
            }
            if jump >= 1 && jump - 1 == i {
                start = lines.len();
            }
            let ghost before = paint::line_models(lines@);
            let number: u128 = self.page as u128 * POSTS_PER_PAGE as u128 + i as u128 + 1;
            push_post(&mut lines, &self.posts[i], number, width);
            assert(paint::line_models(lines@) =~= lead + posts_lines(
                posts.take(i + 1),
                first,
                width as int,
            ));
            i += 1;
        }
        assert(posts.take(i as int) =~= posts);
        let total: usize = lines.len();
        assert(paint::line_models(lines@).len() == total);
        self.total_lines.set(total);
        self.page_height.set(height);
        // Opening a thread with unread posts starts at the first of them.
        self.jump.set(0);
        let max: usize = total.saturating_sub(height);
        let scroll: usize = if start <= max {
            start
        } else {
            max
        };
        self.scroll.set(scroll);
        let cursor = match &self.delete_prompt {
            Some(input) => Some(26 + chars::count(input)),
            None => None,
        };
        TextPane { title: self.heading(), lines, scroll, help: self.help(), cursor }
    }
}

} // verus!
