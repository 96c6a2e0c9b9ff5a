//! Word-wrapping to display columns.

use unicode_width::{UnicodeWidthChar, UnicodeWidthStr};
use vstd::prelude::*;

use crate::chars;
use crate::chars::{from_chars, skip_chars, split_chars, to_chars};

verus! {

// ---------------------------------------------------------- display width

/// The display columns of a text, by the Unicode width tables.
pub uninterp spec fn text_columns(s: Seq<char>) -> usize;

/// The display columns of a character; none of a control character.
pub uninterp spec fn char_columns(c: char) -> Option<usize>;

/// Printable ASCII.
pub open spec fn printable_ascii(c: char) -> bool {
    ' ' <= c && c <= '~'
}

/// A text of printable ASCII.
pub open spec fn printable(s: Seq<char>) -> bool {
    forall|i: int| 0 <= i < s.len() ==> printable_ascii(#[trigger] s[i])
}

/// `UnicodeWidthStr::width`: the result depends on the text alone; a text of
/// printable ASCII has as many columns as characters. What it is of other
/// texts is left to the name.
#[verifier::external_body]
fn width_of_text(s: &str) -> (r: usize)
    ensures
        r == text_columns(s@),
        printable(s@) ==> r == s@.len(),
{
    s.width()
}

/// `UnicodeWidthChar::width`: the result depends on the character alone; it
/// is `None` for control characters and for no others, 1 for printable
/// ASCII, and never more than 3. The rest is left to the name.
#[verifier::external_body]
fn width_of_char(c: char) -> (r: Option<usize>)
    ensures
        r == char_columns(c),
        r is None <==> chars::control(c),
        printable_ascii(c) ==> r == Some(1usize),
        r matches Some(n) ==> n <= 3,
{
    c.width()
}

/// Columns of a character in a line that is broken in a word.
pub open spec fn columns_or_none(c: char) -> usize {
    match char_columns(c) {
        Some(n) => n,
        None => 0,
    }
}

// --------------------------------------------------------------- wrapping

/// A word with its widths: of the whole, and of each character.
pub struct Word {
    pub text: Vec<char>,
    pub width: usize,
    pub columns: Vec<usize>,
}

/// A line of text with its width and its words.
pub struct Paragraph {
    pub text: Vec<char>,
    pub width: usize,
    /// The pieces between spaces, behind the spaces at the start.
    pub words: Vec<Word>,
}

pub struct WordModel {
    pub text: Seq<char>,
    pub width: int,
    pub columns: Seq<int>,
}

pub struct ParagraphModel {
    pub text: Seq<char>,
    pub width: int,
    pub words: Seq<WordModel>,
}

impl View for Word {
    type V = WordModel;

    open spec fn view(&self) -> WordModel {
        WordModel {
            text: self.text@,
            width: self.width as int,
            columns: self.columns@.map_values(|n: usize| n as int),
        }
    }
}

pub open spec fn word_models(ws: Seq<Word>) -> Seq<WordModel> {
    ws.map_values(|w: Word| w@)
}

impl View for Paragraph {
    type V = ParagraphModel;

    open spec fn view(&self) -> ParagraphModel {
        ParagraphModel {
            text: self.text@,
            width: self.width as int,
            words: word_models(self.words@),
        }
    }
}

pub open spec fn paragraph_models(ps: Seq<Paragraph>) -> Seq<ParagraphModel> {
    ps.map_values(|p: Paragraph| p@)
}

impl Word {
    pub open spec fn wf(&self) -> bool {
        &&& self.columns@.len() == self.text@.len()
        &&& forall|i: int| 0 <= i < self.columns@.len() ==> #[trigger] self.columns@[i] <= 3
    }
}

impl Paragraph {
    pub open spec fn wf(&self) -> bool {
        forall|i: int| 0 <= i < self.words@.len() ==> (#[trigger] self.words@[i]).wf()
    }
}

/// How many spaces `s` starts with.
pub open spec fn leading_spaces(s: Seq<char>) -> int
    decreases s.len(),
{
    if s.len() > 0 && s[0] == ' ' {
        1 + leading_spaces(s.drop_first())
    } else {
        0
    }
}

/// Columns that the continuation lines of `text` are indented by: its own
/// indent, but no more than half the width.
pub open spec fn indent_of(text: Seq<char>, width: int) -> int {
    if leading_spaces(text) <= width / 2 {
        leading_spaces(text)
    } else {
        width / 2
    }
}

/// Lines that are full, and the line that is being filled.
pub struct Flow {
    pub done: Seq<Seq<char>>,
    pub line: Seq<char>,
    pub width: int,
}

impl Flow {
    /// A new line is begun.
    pub open spec fn broken(self, indent: int) -> Flow {
        Flow { done: self.done.push(self.line), line: chars::spaces(indent as nat), width: indent }
    }

    /// The first `n` characters of a word that is longer than a line.
    pub open spec fn with_chars(self, w: WordModel, n: int, indent: int, width: int) -> Flow
        decreases n,
    {
        if n <= 0 {
            self
        } else {
            let before = self.with_chars(w, n - 1, indent, width);
            let from = if before.width + w.columns[n - 1] > width {
                before.broken(indent)
            } else {
                before
            };
            Flow { line: from.line.push(w.text[n - 1]), width: from.width + w.columns[n - 1], ..from }
        }
    }

    /// A word is added: on this line if it fits behind a space, else on the
    /// next; one that fits on no line is broken where a line ends.
    pub open spec fn with_word(self, w: WordModel, indent: int, width: int) -> Flow {
        let from = if self.width > indent && self.width + 1 + w.width > width {
            self.broken(indent)
        } else {
            self
        };
        let spaced = if from.width > indent {
            Flow { line: from.line.push(' '), width: from.width + 1, ..from }
        } else {
            from
        };
        if spaced.width + w.width > width {
            spaced.with_chars(w, w.text.len() as int, indent, width)
        } else {
            Flow { line: spaced.line + w.text, width: spaced.width + w.width, ..spaced }
        }
    }

    /// All of `words`, from an empty line on.
    pub open spec fn of_words(words: Seq<WordModel>, indent: int, width: int) -> Flow
        decreases words.len(),
    {
        if words.len() == 0 {
            Flow { done: Seq::empty(), line: chars::spaces(indent as nat), width: indent }
        } else {
            Flow::of_words(words.drop_last(), indent, width).with_word(words.last(), indent, width)
        }
    }

    /// What may be on a line: no more columns than there are, or one
    /// character behind the indent.
    pub open spec fn bounded(self, indent: int, width: int) -> bool {
        indent <= self.width && (self.width <= width || self.width <= indent + 3)
    }
}

/// The lines of one paragraph: itself, if it fits.
pub open spec fn paragraph_lines(p: ParagraphModel, width: int) -> Seq<Seq<char>> {
    if p.width <= width {
        seq![p.text]
    } else {
        let flow = Flow::of_words(p.words, indent_of(p.text, width), width);
        flow.done.push(flow.line)
    }
}

/// The lines of all paragraphs.
pub open spec fn laid_out(ps: Seq<ParagraphModel>, width: int) -> Seq<Seq<char>>
    decreases ps.len(),
{
    if ps.len() == 0 {
        Seq::empty()
    } else {
        laid_out(ps.drop_last(), width) + paragraph_lines(ps.last(), width)
    }
}

pub open spec fn measured_word(w: Seq<char>) -> WordModel {
    WordModel {
        text: w,
        width: text_columns(w) as int,
        columns: w.map_values(|c: char| columns_or_none(c) as int),
    }
}

pub open spec fn measured_paragraph(p: Seq<char>) -> ParagraphModel {
    ParagraphModel {
        text: p,
        width: text_columns(p) as int,
        words: chars::split(p.skip(leading_spaces(p)), ' ').map_values(
            |w: Seq<char>| measured_word(w),
        ),
    }
}

pub open spec fn measured(text: Seq<char>) -> Seq<ParagraphModel> {
    chars::split(text, '\n').map_values(|p: Seq<char>| measured_paragraph(p))
}

/// The columns of a line whose characters take `columns` each.
pub open spec fn line_columns(s: Seq<char>, columns: spec_fn(char) -> int) -> int
    decreases s.len(),
{
    if s.len() == 0 {
        0
    } else {
        line_columns(s.drop_last(), columns) + columns(s.last())
    }
}

impl WordModel {
    /// The characters take `columns` each, none more than there is `room`
    /// for, and together no more than the word.
    pub open spec fn adds_up(self, columns: spec_fn(char) -> int, room: int) -> bool {
        &&& self.columns.len() == self.text.len()
        &&& forall|i: int|
            0 <= i < self.text.len() ==> (#[trigger] self.columns[i]) == columns(self.text[i]) && 0
                <= self.columns[i] <= room
        &&& line_columns(self.text, columns) <= self.width
    }
}

impl ParagraphModel {
    /// The characters take no more columns than the paragraph as a whole;
    /// where it has to be broken, so do those of its words, and each has
    /// room behind the indent.
    pub open spec fn adds_up(self, columns: spec_fn(char) -> int, width: int) -> bool {
        &&& line_columns(self.text, columns) <= self.width
        &&& self.width > width ==> forall|i: int|
            0 <= i < self.words.len() ==> (#[trigger] self.words[i]).adds_up(
                columns,
                width - indent_of(self.text, width),
            )
    }
}

/// Text of printable ASCII and line feeds.
pub open spec fn plain(s: Seq<char>) -> bool {
    forall|i: int| 0 <= i < s.len() ==> printable_ascii(#[trigger] s[i]) || s[i] == '\n'
}

impl WordModel {
    /// Every character takes one column.
    pub open spec fn single(self) -> bool {
        &&& self.width == self.text.len()
        &&& self.columns.len() == self.text.len()
        &&& forall|i: int| 0 <= i < self.columns.len() ==> #[trigger] self.columns[i] == 1
    }
}

impl ParagraphModel {
    pub open spec fn single(self) -> bool {
        &&& self.width == self.text.len()
        &&& forall|i: int| 0 <= i < self.words.len() ==> (#[trigger] self.words[i]).single()
    }
}

pub open spec fn columns_at_least_one(width: int) -> int {
    if width < 1 {
        1
    } else {
        width
    }
}

/// `text` word-wrapped to `width` display columns.
pub open spec fn wrapped(text: Seq<char>, width: int) -> Seq<Seq<char>> {
    laid_out(measured(text), columns_at_least_one(width))
}

proof fn lemma_line_columns_concat(a: Seq<char>, b: Seq<char>, columns: spec_fn(char) -> int)
    ensures
        line_columns(a + b, columns) == line_columns(a, columns) + line_columns(b, columns),
    decreases b.len(),
{
    if b.len() == 0 {
        assert(a + b =~= a);
    } else {
        lemma_line_columns_concat(a, b.drop_last(), columns);
        assert((a + b).drop_last() =~= a + b.drop_last());
    }
}

proof fn lemma_line_columns_push(a: Seq<char>, c: char, columns: spec_fn(char) -> int)
    ensures
        line_columns(a.push(c), columns) == line_columns(a, columns) + columns(c),
{
    assert(a.push(c).drop_last() =~= a);
}

proof fn lemma_line_columns_of_spaces(n: nat, columns: spec_fn(char) -> int)
    requires
        columns(' ') == 1,
    ensures
        line_columns(chars::spaces(n), columns) == n,
    decreases n,
{
    if n > 0 {
        lemma_line_columns_of_spaces((n - 1) as nat, columns);
        assert(chars::spaces(n).drop_last() =~= chars::spaces((n - 1) as nat));
    }
}

proof fn lemma_line_columns_is_len(s: Seq<char>, columns: spec_fn(char) -> int)
    requires
        forall|c: char| #[trigger] columns(c) == 1,
    ensures
        line_columns(s, columns) == s.len(),
    decreases s.len(),
{
    if s.len() > 0 {
        lemma_line_columns_is_len(s.drop_last(), columns);
    }
}

/// Plain text is set in lines of no more than `width` characters.
pub proof fn lemma_plain_lines_fit(ps: Seq<ParagraphModel>, width: int)
    requires
        width >= 1,
        forall|i: int| 0 <= i < ps.len() ==> (#[trigger] ps[i]).single(),
    ensures
        forall|i: int|
            0 <= i < laid_out(ps, width).len() ==> (#[trigger] laid_out(ps, width)[i]).len()
                <= width,
{
    let columns = |c: char| 1int;
    assert forall|i: int| 0 <= i < ps.len() implies (#[trigger] ps[i]).adds_up(columns, width) by {
        lemma_line_columns_is_len(ps[i].text, columns);
        lemma_leading_spaces(ps[i].text);
        let room = width - indent_of(ps[i].text, width);
        assert forall|k: int| 0 <= k < ps[i].words.len() implies (
        #[trigger] ps[i].words[k]).adds_up(columns, room) by {
            assert(ps[i].words[k].single());
            lemma_line_columns_is_len(ps[i].words[k].text, columns);
        }
    }
    lemma_lines_fit(ps, width, columns);
    assert forall|i: int| 0 <= i < laid_out(ps, width).len() implies (#[trigger] laid_out(
        ps,
        width,
    )[i]).len() <= width by {
        lemma_line_columns_is_len(laid_out(ps, width)[i], columns);
    }
}

/// The pieces between separators hold what the text holds besides them.
proof fn lemma_split_printable(s: Seq<char>, sep: char)
    requires
        forall|i: int| 0 <= i < s.len() ==> printable_ascii(#[trigger] s[i]) || s[i] == sep,
    ensures
        forall|k: int| 0 <= k < chars::split(s, sep).len() ==> printable(
            #[trigger] chars::split(s, sep)[k],
        ),
    decreases s.len(),
{
    if s.len() > 0 {
        let t = s.drop_last();
        assert forall|i: int| 0 <= i < t.len() implies printable_ascii(#[trigger] t[i]) || t[i]
            == sep by {
            assert(t[i] == s[i]);
        }
        lemma_split_printable(t, sep);
        chars::lemma_split_nonempty(t, sep);
        let before = chars::split(t, sep);
        assert(printable(before[before.len() - 1]));
        assert(printable_ascii(s[s.len() - 1]) || s[s.len() - 1] == sep);
        assert forall|k: int| 0 <= k < chars::split(s, sep).len() implies printable(
            #[trigger] chars::split(s, sep)[k],
        ) by {
            if k < before.len() - 1 {
                assert(chars::split(s, sep)[k] == before[k]);
            }
        }
    }
}

impl Flow {
    /// No line takes more than `width` columns, and the one being filled no
    /// more than was counted.
    spec fn fits(self, indent: int, width: int, columns: spec_fn(char) -> int) -> bool {
        &&& forall|i: int|
            0 <= i < self.done.len() ==> line_columns(#[trigger] self.done[i], columns) <= width
        &&& line_columns(self.line, columns) <= self.width
        &&& indent <= self.width <= width
    }

    proof fn lemma_broken_fits(self, indent: int, width: int, columns: spec_fn(char) -> int)
        requires
            self.fits(indent, width, columns),
            0 <= indent <= width,
            columns(' ') == 1,
        ensures
            self.broken(indent).fits(indent, width, columns),
    {
        lemma_line_columns_of_spaces(indent as nat, columns);
    }

    proof fn lemma_chars_fit(
        self,
        w: WordModel,
        n: int,
        indent: int,
        width: int,
        columns: spec_fn(char) -> int,
    )
        requires
            self.fits(indent, width, columns),
            w.adds_up(columns, width - indent),
            0 <= n <= w.text.len(),
            0 <= indent <= width / 2,
            columns(' ') == 1,
        ensures
            self.with_chars(w, n, indent, width).fits(indent, width, columns),
        decreases n,
    {
        if n > 0 {
            self.lemma_chars_fit(w, n - 1, indent, width, columns);
            let before = self.with_chars(w, n - 1, indent, width);
            before.lemma_broken_fits(indent, width, columns);
            let from = if before.width + w.columns[n - 1] > width {
                before.broken(indent)
            } else {
                before
            };
            lemma_line_columns_push(from.line, w.text[n - 1], columns);
        }
    }

    proof fn lemma_word_fits(
        self,
        w: WordModel,
        indent: int,
        width: int,
        columns: spec_fn(char) -> int,
    )
        requires
            self.fits(indent, width, columns),
            w.adds_up(columns, width - indent),
            w.width >= 0,
            0 <= indent <= width / 2,
            columns(' ') == 1,
        ensures
            self.with_word(w, indent, width).fits(indent, width, columns),
    {
        let from = if self.width > indent && self.width + 1 + w.width > width {
            self.broken(indent)
        } else {
            self
        };
        self.lemma_broken_fits(indent, width, columns);
        let spaced = if from.width > indent {
            Flow { line: from.line.push(' '), width: from.width + 1, ..from }
        } else {
            from
        };
        lemma_line_columns_push(from.line, ' ', columns);
        assert(spaced.fits(indent, width, columns));
        spaced.lemma_chars_fit(w, w.text.len() as int, indent, width, columns);
        lemma_line_columns_concat(spaced.line, w.text, columns);
    }

    proof fn lemma_words_fit(
        words: Seq<WordModel>,
        indent: int,
        width: int,
        columns: spec_fn(char) -> int,
    )
        requires
            forall|i: int|
                0 <= i < words.len() ==> (#[trigger] words[i]).adds_up(columns, width - indent)
                    && words[i].width >= 0,
            0 <= indent <= width / 2,
            columns(' ') == 1,
        ensures
            Flow::of_words(words, indent, width).fits(indent, width, columns),
        decreases words.len(),
    {
        if words.len() == 0 {
            lemma_line_columns_of_spaces(indent as nat, columns);
        } else {
            let front = words.drop_last();
            assert forall|i: int| 0 <= i < front.len() implies (#[trigger] front[i]).adds_up(
                columns,
                width - indent,
            ) && front[i].width >= 0 by {
                assert(front[i] == words[i]);
            }
            Flow::lemma_words_fit(front, indent, width, columns);
            Flow::of_words(front, indent, width).lemma_word_fits(
                words[words.len() - 1],
                indent,
                width,
                columns,
            );
        }
    }
}

/// Where the widths add up, no line takes more than `width` columns.
pub proof fn lemma_lines_fit(
    ps: Seq<ParagraphModel>,
    width: int,
    columns: spec_fn(char) -> int,
)
    requires
        width >= 1,
        columns(' ') == 1,
        forall|c: char| #[trigger] columns(c) >= 0,
        forall|i: int| 0 <= i < ps.len() ==> (#[trigger] ps[i]).adds_up(columns, width),
    ensures
        forall|i: int|
            0 <= i < laid_out(ps, width).len() ==> line_columns(
                #[trigger] laid_out(ps, width)[i],
                columns,
            ) <= width,
    decreases ps.len(),
{
    if ps.len() > 0 {
        let front = ps.drop_last();
        assert forall|i: int| 0 <= i < front.len() implies (#[trigger] front[i]).adds_up(
            columns,
            width,
        ) by {
            assert(front[i] == ps[i]);
        }
        lemma_lines_fit(front, width, columns);
        let p = ps[ps.len() - 1];
        assert(p.adds_up(columns, width));
        let indent = indent_of(p.text, width);
        lemma_leading_spaces(p.text);
        if p.width > width {
            assert forall|i: int| 0 <= i < p.words.len() implies (#[trigger] p.words[i]).adds_up(
                columns,
                width - indent,
            ) && p.words[i].width >= 0 by {
                lemma_line_columns_nonnegative(p.words[i].text, columns);
            }
            Flow::lemma_words_fit(p.words, indent, width, columns);
        }
        let above = laid_out(front, width);
        let here = paragraph_lines(p, width);
        assert forall|i: int| 0 <= i < laid_out(ps, width).len() implies line_columns(
            #[trigger] laid_out(ps, width)[i],
            columns,
        ) <= width by {
            if i < above.len() {
                assert(laid_out(ps, width)[i] == above[i]);
            } else {
                assert(laid_out(ps, width)[i] == here[i - above.len()]);
            }
        }
    }
}

proof fn lemma_line_columns_nonnegative(s: Seq<char>, columns: spec_fn(char) -> int)
    requires
        forall|c: char| #[trigger] columns(c) >= 0,
    ensures
        line_columns(s, columns) >= 0,
    decreases s.len(),
{
    if s.len() > 0 {
        lemma_line_columns_nonnegative(s.drop_last(), columns);
    }
}

pub proof fn lemma_leading_spaces(s: Seq<char>)
    ensures
        0 <= leading_spaces(s) <= s.len(),
        forall|i: int| 0 <= i < leading_spaces(s) ==> #[trigger] s[i] == ' ',
    decreases s.len(),
{
    if s.len() > 0 && s[0] == ' ' {
        let t = s.drop_first();
        lemma_leading_spaces(t);
        assert forall|i: int| 0 <= i < leading_spaces(s) implies #[trigger] s[i] == ' ' by {
            if i > 0 {
                assert(t[i - 1] == s[i]);
            }
        }
    }
}

fn count_leading_spaces(cs: &Vec<char>) -> (r: usize)
    ensures
        r == leading_spaces(cs@),
        r <= cs@.len(),
{
    let mut i: usize = 0;
    assert(cs@.skip(0) =~= cs@);
    while i < cs.len() && cs[i] == ' '
        invariant
            i <= cs@.len(),
            leading_spaces(cs@) == i + leading_spaces(cs@.skip(i as int)),
        decreases cs@.len() - i,
    {
        assert(cs@.skip(i as int).drop_first() =~= cs@.skip(i + 1));
        i += 1;
    }
    i
}

fn measure_word(text: Vec<char>) -> (r: Word)
    ensures
        r@ == measured_word(text@),
        r.wf(),
        printable(text@) ==> r@.single(),
{
    let width: usize = width_of_text(&from_chars(&text));
    let mut columns: Vec<usize> = Vec::new();
    let mut i: usize = 0;
    while i < text.len()
        invariant
            i <= text@.len(),
            columns@.len() == i,
            forall|j: int|
                0 <= j < i ==> #[trigger] columns@[j] == columns_or_none(text@[j]) && columns@[j]
                    <= 3 && (printable_ascii(text@[j]) ==> columns@[j] == 1),
        decreases text@.len() - i,
    {
        columns.push(
            match width_of_char(text[i]) {
                Some(n) => n,
                None => 0,
            },
        );
        i += 1;
    }
    let r = Word { text, width, columns };
    assert(r@.columns =~= measured_word(text@).columns);
    r
}

fn measure_paragraph(text: Vec<char>) -> (r: Paragraph)
    ensures
        r@ == measured_paragraph(text@),
        r.wf(),
        printable(text@) ==> r@.single(),
{
    let width: usize = width_of_text(&from_chars(&text));
    let lead: usize = count_leading_spaces(&text);
    let content = skip_chars(&text, lead);
    let pieces = split_chars(&content, ' ');
    let ghost goal = measured_paragraph(text@).words;
    proof {
        if printable(text@) {
            assert forall|j: int| 0 <= j < content@.len() implies printable_ascii(
                #[trigger] content@[j],
            ) by {
                assert(content@[j] == text@[j + lead]);
            }
            lemma_split_printable(content@, ' ');
        }
    }
    let mut words: Vec<Word> = Vec::new();
    let mut i: usize = 0;
    while i < pieces.len()
        invariant
            i <= pieces@.len(),
            chars::texts(pieces@) == chars::split(text@.skip(leading_spaces(text@)), ' '),
            goal == measured_paragraph(text@).words,
            printable(text@) ==> forall|j: int|
                0 <= j < pieces@.len() ==> printable(#[trigger] chars::texts(pieces@)[j]),
            words@.len() == i,
            forall|j: int|
                0 <= j < i ==> (#[trigger] words@[j])@ == goal[j] && words@[j].wf() && (printable(
                    text@,
                ) ==> words@[j]@.single()),
        decreases pieces@.len() - i,
    {
        let piece = pieces[i].clone();
        assert(piece@ =~= pieces@[i as int]@);
        assert(pieces@[i as int]@ == chars::texts(pieces@)[i as int]);
        words.push(measure_word(piece));
        i += 1;
    }
    let r = Paragraph { text, width, words };
    assert(r@.words =~= goal);
    r
}

/// The widths in `text`, paragraph by paragraph.
pub fn measure(text: &str) -> (r: Vec<Paragraph>)
    ensures
        paragraph_models(r@) == measured(text@),
        forall|i: int| 0 <= i < r@.len() ==> (#[trigger] r@[i]).wf(),
        plain(text@) ==> forall|i: int| 0 <= i < r@.len() ==> (#[trigger] r@[i])@.single(),
{
    let cs = to_chars(text);
    let lines = split_chars(&cs, '\n');
    let ghost goal = measured(text@);
    proof {
        if plain(text@) {
            lemma_split_printable(text@, '\n');
        }
    }
    let mut r: Vec<Paragraph> = Vec::new();
    let mut i: usize = 0;
    while i < lines.len()
        invariant
            i <= lines@.len(),
            chars::texts(lines@) == chars::split(text@, '\n'),
            goal == measured(text@),
            plain(text@) ==> forall|j: int|
                0 <= j < lines@.len() ==> printable(#[trigger] chars::texts(lines@)[j]),
            r@.len() == i,
            forall|j: int|
                0 <= j < i ==> (#[trigger] r@[j])@ == goal[j] && r@[j].wf() && (plain(text@)
                    ==> r@[j]@.single()),
        decreases lines@.len() - i,
    {
        let line = lines[i].clone();
        assert(line@ =~= lines@[i as int]@);
        assert(lines@[i as int]@ == chars::texts(lines@)[i as int]);
        r.push(measure_paragraph(line));
        i += 1;
    }
    assert(paragraph_models(r@) =~= goal);
    r
}

/// A paragraph as it is being laid out.
struct Lines {
    done: Vec<Vec<char>>,
    line: Vec<char>,
    width: usize,
}

impl Lines {
    spec fn flow(&self) -> Flow {
        Flow { done: chars::texts(self.done@), line: self.line@, width: self.width as int }
    }

    fn begin(indent: usize) -> (r: Lines)
        ensures
            r.flow() == Flow::of_words(Seq::empty(), indent as int, 0),
            r.flow().width == indent,
    {
        let r = Lines { done: Vec::new(), line: indent_chars(indent), width: indent };
        assert(r.flow().done =~= Seq::empty());
        r
    }

    fn break_line(&mut self, indent: usize)
        ensures
            final(self).flow() == old(self).flow().broken(indent as int),
    {
        let mut full = indent_chars(indent);
        std::mem::swap(&mut full, &mut self.line);
        let ghost before = self.done@;
        self.done.push(full);
        self.width = indent;
        assert(chars::texts(self.done@) =~= chars::texts(before).push(full@));
    }

    fn put_chars(&mut self, w: &Word, indent: usize, width: usize)
        requires
            w.wf(),
            old(self).flow().bounded(indent as int, width as int),
            indent <= width / 2,
        ensures
            final(self).flow() == old(self).flow().with_chars(
                w@,
                w@.text.len() as int,
                indent as int,
                width as int,
            ),
            final(self).flow().bounded(indent as int, width as int),
    {
        let ghost start = self.flow();
        let mut i: usize = 0;
        while i < w.text.len()
            invariant
                i <= w.text@.len(),
                w.wf(),
                indent <= width / 2,
                self.flow() == start.with_chars(w@, i as int, indent as int, width as int),
                self.flow().bounded(indent as int, width as int),
            decreases w.text@.len() - i,
        {
            let c: usize = w.columns[i];
            assert(w@.columns[i as int] == c);
            if c > width || self.width > width - c {
                self.break_line(indent);
            }
            self.line.push(w.text[i]);
            self.width += c;
            i += 1;
        }
    }

    fn put_word(&mut self, w: &Word, indent: usize, width: usize)
        requires
            w.wf(),
            old(self).flow().bounded(indent as int, width as int),
            indent <= width / 2,
        ensures
            final(self).flow() == old(self).flow().with_word(w@, indent as int, width as int),
            final(self).flow().bounded(indent as int, width as int),
    {
        let n: usize = w.width;
        if self.width > indent && (self.width >= width || n > width - self.width - 1) {
            self.break_line(indent);
        }
        if self.width > indent {
            self.line.push(' ');
            self.width += 1;
        }
        if n > width || self.width > width - n {
            self.put_chars(w, indent, width);
        } else {
            extend_chars(&mut self.line, &w.text);
            self.width += n;
        }
    }
}

fn extend_chars(to: &mut Vec<char>, from: &Vec<char>)
    ensures
        final(to)@ == old(to)@ + from@,
{
    let mut i: usize = 0;
    assert(old(to)@ + from@.take(0) =~= old(to)@);
    while i < from.len()
        invariant
            i <= from@.len(),
            to@ =~= old(to)@ + from@.take(i as int),
        decreases from@.len() - i,
    {
        to.push(from[i]);
        i += 1;
    }
    assert(from@.take(i as int) =~= from@);
}

fn indent_chars(n: usize) -> (r: Vec<char>)
    ensures
        r@ == chars::spaces(n as nat),
{
    let mut r: Vec<char> = Vec::new();
    let mut i: usize = 0;
    while i < n
        invariant
            i <= n,
            r@ =~= chars::spaces(i as nat),
        decreases n - i,
    {
        r.push(' ');
        i += 1;
    }
    r
}

/// Sets measured paragraphs in lines of `width` columns.
pub fn layout(paragraphs: &Vec<Paragraph>, width: usize) -> (r: Vec<String>)
    requires
        forall|i: int| 0 <= i < paragraphs@.len() ==> (#[trigger] paragraphs@[i]).wf(),
    ensures
        chars::string_texts(r@) == laid_out(
            paragraph_models(paragraphs@),
            columns_at_least_one(width as int),
        ),
{
    let width: usize = if width < 1 {
        1
    } else {
        width
    };
    let ghost models = paragraph_models(paragraphs@);
    let mut out: Vec<String> = Vec::new();
    let mut i: usize = 0;
    assert(chars::string_texts(out@) =~= laid_out(models.take(0), width as int));
    while i < paragraphs.len()
        invariant
            i <= paragraphs@.len(),
            1 <= width,
            models == paragraph_models(paragraphs@),
            forall|i: int| 0 <= i < paragraphs@.len() ==> (#[trigger] paragraphs@[i]).wf(),
            chars::string_texts(out@) == laid_out(models.take(i as int), width as int),
        decreases paragraphs@.len() - i,
    {
        let p = &paragraphs[i];
        assert(p.wf());
        let ghost before = out@;
        proof {
            assert(models.take(i + 1).drop_last() =~= models.take(i as int));
            assert(models.take(i + 1).last() == p@);
        }
        if p.width <= width {
            out.push(from_chars(&p.text));
            assert(chars::string_texts(out@) =~= chars::string_texts(before) + seq![p.text@]);
        } else {
            let lead: usize = count_leading_spaces(&p.text);
            let indent: usize = if lead <= width / 2 {
                lead
            } else {
                width / 2
            };
            let mut lines = Lines::begin(indent);
            let mut j: usize = 0;
            assert(p@.words.take(0) =~= Seq::empty());
            while j < p.words.len()
                invariant
                    j <= p.words@.len(),
                    p.wf(),
                    indent <= width / 2,
                    lines.flow() == Flow::of_words(
                        p@.words.take(j as int),
                        indent as int,
                        width as int,
                    ),
                    lines.flow().bounded(indent as int, width as int),
                decreases p.words@.len() - j,
            {
                assert(p@.words.take(j + 1).drop_last() =~= p@.words.take(j as int));
                assert(p@.words.take(j + 1).last() == p.words@[j as int]@);
                assert(p.words@[j as int].wf());
                lines.put_word(&p.words[j], indent, width);
                j += 1;
            }
            assert(p@.words.take(j as int) =~= p@.words);
            let ghost flow = lines.flow();
            let Lines { done, line, .. } = lines;
            let mut k: usize = 0;
            assert(chars::texts(done@).take(0) =~= Seq::empty());
            assert(chars::string_texts(before) + Seq::<Seq<char>>::empty()
                =~= chars::string_texts(before));
            while k < done.len()
                invariant
                    k <= done@.len(),
                    chars::string_texts(out@) == chars::string_texts(before) + chars::texts(
                        done@,
                    ).take(k as int),
                decreases done@.len() - k,
            {
                let ghost so_far = out@;
                let full = from_chars(&done[k]);
                out.push(full);
                assert(chars::string_texts(out@) =~= chars::string_texts(so_far).push(full@));
                assert(chars::texts(done@).take(k + 1) =~= chars::texts(done@).take(k as int).push(
                    full@,
                ));
                assert(chars::string_texts(out@) =~= chars::string_texts(before) + chars::texts(
                    done@,
                ).take(k + 1));
                k += 1;
            }
            let ghost so_far = out@;
            let last = from_chars(&line);
            out.push(last);
            assert(chars::texts(done@).take(k as int) =~= chars::texts(done@));
            assert(chars::string_texts(out@) =~= chars::string_texts(so_far).push(last@));
            assert(chars::string_texts(out@) =~= chars::string_texts(before) + flow.done.push(
                flow.line,
            ));
        }
        i += 1;
    }
    assert(models.take(i as int) =~= models);
    out
}

/// Word-wraps `text` to `width` display columns. Lines that already fit are
/// returned untouched, so indentation and spacing (ASCII art, code) survive.
/// Longer lines are broken at spaces and continuation lines keep the
/// original indent; words longer than a line are split.
pub fn wrap(text: &str, width: usize) -> (r: Vec<String>)
    ensures
        chars::string_texts(r@) == wrapped(text@, width as int),
        plain(text@) ==> forall|i: int|
            0 <= i < r@.len() ==> (#[trigger] r@[i])@.len() <= columns_at_least_one(width as int),
{
    let paragraphs = measure(text);
    let lines = layout(&paragraphs, width);
    proof {
        if plain(text@) {
            let models = paragraph_models(paragraphs@);
            assert forall|i: int| 0 <= i < models.len() implies (#[trigger] models[i]).single() by {
                assert(models[i] == paragraphs@[i]@);
            }
            lemma_plain_lines_fit(models, columns_at_least_one(width as int));
            assert forall|i: int| 0 <= i < lines@.len() implies (#[trigger] lines@[i])@.len()
                <= columns_at_least_one(width as int) by {
                assert(chars::string_texts(lines@)[i] == lines@[i]@);
            }
        }
    }
    lines
}

// ---------------------------------------------------------------- counter

/// A number that drawing writes down for the keys to use: what the layout
/// came to is only known once it is drawn.
#[derive(Clone, Copy, Debug, PartialEq, Eq, Structural)]
pub struct Counter {
    pub value: usize,
}

impl Counter {
    pub fn new(value: usize) -> (r: Counter)
        ensures
            r == (Counter { value }),
    {
        Counter { value }
    }

    pub fn get(&self) -> (r: usize)
        ensures
            r == self.value,
    {
        self.value
    }

    pub fn set(&mut self, value: usize)
        ensures
            *final(self) == (Counter { value }),
    {
        self.value = value;
    }
}

} // verus!
