//! What the screens hand to the terminal: areas, styles and styled text.

use vstd::prelude::*;

verus! {

/// A rectangle of terminal cells.
#[derive(Clone, Copy, Debug, PartialEq, Eq, Structural)]
pub struct Rect {
    pub x: u16,
    pub y: u16,
    pub width: u16,
    pub height: u16,
}

impl Rect {
    /// The rectangle ends inside the coordinate range.
    pub open spec fn wf(self) -> bool {
        &&& self.x + self.width <= u16::MAX
        &&& self.y + self.height <= u16::MAX
    }
}

#[derive(Clone, Copy, Debug, PartialEq, Eq, Structural)]
pub enum Color {
    Black,
    Blue,
    Cyan,
    Gray,
    Green,
    Magenta,
    Red,
    White,
    Yellow,
}

#[derive(Clone, Copy, Debug, PartialEq, Eq, Structural)]
pub struct Style {
    pub fg: Option<Color>,
    pub bg: Option<Color>,
    pub bold: bool,
}

impl Style {
    pub open spec fn plain_spec() -> Style {
        Style { fg: None, bg: None, bold: false }
    }

    /// The terminal's own colours.
    #[verifier::when_used_as_spec(plain_spec)]
    pub fn plain() -> (r: Style)
        ensures
            r == Style::plain_spec(),
    {
        Style { fg: None, bg: None, bold: false }
    }

    pub open spec fn fg_spec(color: Color) -> Style {
        Style { fg: Some(color), bg: None, bold: false }
    }

    /// Text in `color`.
    #[verifier::when_used_as_spec(fg_spec)]
    pub fn fg(color: Color) -> (r: Style)
        ensures
            r == Style::fg_spec(color),
    {
        Style { fg: Some(color), bg: None, bold: false }
    }

    pub open spec fn bold_spec(color: Color) -> Style {
        Style { fg: Some(color), bg: None, bold: true }
    }

    /// Bold text in `color`.
    #[verifier::when_used_as_spec(bold_spec)]
    pub fn bold(color: Color) -> (r: Style)
        ensures
            r == Style::bold_spec(color),
    {
        Style { fg: Some(color), bg: None, bold: true }
    }
}

/// The selected row of a list.
pub open spec fn highlight_spec() -> Style {
    Style { fg: Some(Color::White), bg: Some(Color::Blue), bold: true }
}

#[verifier::when_used_as_spec(highlight_spec)]
pub fn highlight() -> (r: Style)
    ensures
        r == highlight_spec(),
{
    Style { fg: Some(Color::White), bg: Some(Color::Blue), bold: true }
}

/// Bold in the terminal's own colour.
pub open spec fn strong_spec() -> Style {
    Style { fg: None, bg: None, bold: true }
}

#[verifier::when_used_as_spec(strong_spec)]
pub fn strong() -> (r: Style)
    ensures
        r == strong_spec(),
{
    Style { fg: None, bg: None, bold: true }
}

/// A run of text in one style.
pub struct Span {
    pub text: String,
    pub style: Style,
}

/// One line of styled text.
pub struct Line {
    pub spans: Vec<Span>,
}

/// A `Span`, over the text itself.
pub struct Run {
    pub text: Seq<char>,
    pub style: Style,
}

impl View for Span {
    type V = Run;

    open spec fn view(&self) -> Run {
        Run { text: self.text@, style: self.style }
    }
}

impl View for Line {
    type V = Seq<Run>;

    open spec fn view(&self) -> Seq<Run> {
        self.spans@.map_values(|s: Span| s@)
    }
}

pub open spec fn line_models(lines: Seq<Line>) -> Seq<Seq<Run>> {
    lines.map_values(|l: Line| l@)
}

pub open spec fn run(text: Seq<char>, style: Style) -> Run {
    Run { text, style }
}

/// A line of one run in the terminal's own style.
pub open spec fn plain_line(text: Seq<char>) -> Seq<Run> {
    seq![run(text, Style::plain())]
}

pub fn span(text: String, style: Style) -> (r: Span)
    ensures
        r@ == run(text@, style),
{
    Span { text, style }
}

pub fn line1(a: Span) -> (r: Line)
    ensures
        r@ == seq![a@],
{
    let mut spans: Vec<Span> = Vec::new();
    spans.push(a);
    let r = Line { spans };
    assert(r@ =~= seq![a@]);
    r
}

pub fn line2(a: Span, b: Span) -> (r: Line)
    ensures
        r@ == seq![a@, b@],
{
    let mut spans: Vec<Span> = Vec::new();
    spans.push(a);
    spans.push(b);
    let r = Line { spans };
    assert(r@ =~= seq![a@, b@]);
    r
}

pub fn line3(a: Span, b: Span, c: Span) -> (r: Line)
    ensures
        r@ == seq![a@, b@, c@],
{
    let mut spans: Vec<Span> = Vec::new();
    spans.push(a);
    spans.push(b);
    spans.push(c);
    let r = Line { spans };
    assert(r@ =~= seq![a@, b@, c@]);
    r
}

pub fn line4(a: Span, b: Span, c: Span, d: Span) -> (r: Line)
    ensures
        r@ == seq![a@, b@, c@, d@],
{
    let mut spans: Vec<Span> = Vec::new();
    spans.push(a);
    spans.push(b);
    spans.push(c);
    spans.push(d);
    let r = Line { spans };
    assert(r@ =~= seq![a@, b@, c@, d@]);
    r
}

pub fn text_line(text: String) -> (r: Line)
    ensures
        r@ == plain_line(text@),
{
    line1(span(text, Style::plain()))
}

/// A bordered list with a line of help below it.
pub struct ListPane {
    pub title: String,
    pub items: Vec<Line>,
    pub selected: Option<usize>,
    pub help: Line,
}

/// A `ListPane`, over the texts themselves.
pub struct Listing {
    pub title: Seq<char>,
    pub items: Seq<Seq<Run>>,
    pub selected: Option<usize>,
    pub help: Seq<Run>,
}

impl View for ListPane {
    type V = Listing;

    open spec fn view(&self) -> Listing {
        Listing {
            title: self.title@,
            items: line_models(self.items@),
            selected: self.selected,
            help: self.help@,
        }
    }
}

/// A bordered text that scrolls, with a line of help below it.
pub struct TextPane {
    pub title: String,
    pub lines: Vec<Line>,
    /// The first line shown.
    pub scroll: usize,
    pub help: Line,
    /// Column of the terminal cursor in the help line, if it is there.
    pub cursor: Option<usize>,
}

/// A `TextPane`, over the texts themselves.
pub struct Page {
    pub title: Seq<char>,
    pub lines: Seq<Seq<Run>>,
    pub scroll: int,
    pub help: Seq<Run>,
    pub cursor: Option<usize>,
}

impl View for TextPane {
    type V = Page;

    open spec fn view(&self) -> Page {
        Page {
            title: self.title@,
            lines: line_models(self.lines@),
            scroll: self.scroll as int,
            help: self.help@,
            cursor: self.cursor,
        }
    }
}

} // verus!
