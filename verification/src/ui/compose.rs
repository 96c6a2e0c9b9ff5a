//! The multi-line editor, and the form that posts are written in.

use vstd::prelude::*;

use crate::chars;
use crate::chars::{cat2, cat5, from_chars, is_control, join, lines_of, to_chars};
use crate::content;
use crate::content::WRAP_COLS;
use crate::ui::input::{Field, FieldView, Key, TextInput};
use crate::ui::paint::{Color, Rect};
use crate::ui::protocol;
use crate::ui::protocol::{Ask, Request};

verus! {

// ------------------------------------------------------------- TextArea

/// A small multi-line editor. Like classic BBS editors it word-wraps as you
/// type at `WRAP_COLS`, so what you write is what gets stored - except for a
/// single token with no space in it (a URL, typically), which is left
/// intact rather than split with an injected line break that would corrupt
/// it; display-time wrapping (console-width-aware, non-destructive) takes
/// care of showing it readably instead.
pub struct TextArea {
    lines: Vec<Vec<char>>,
    row: usize,
    col: usize,
    max_chars: usize,
}

/// The contents of a `TextArea`.
pub struct Area {
    pub lines: Seq<Seq<char>>,
    pub row: int,
    pub col: int,
    pub max_chars: nat,
}

/// The characters of `lines` and a line break behind each.
pub open spec fn total_len(lines: Seq<Seq<char>>) -> nat
    decreases lines.len(),
{
    if lines.len() == 0 {
        0
    } else {
        total_len(lines.drop_last()) + lines.last().len() + 1
    }
}

/// The index of the last space, or -1.
pub open spec fn last_space(line: Seq<char>) -> int
    decreases line.len(),
{
    if line.len() == 0 {
        -1
    } else if line.last() == ' ' {
        line.len() - 1
    } else {
        last_space(line.drop_last())
    }
}

impl Area {
    pub open spec fn empty(max_chars: nat) -> Area {
        Area { lines: seq![Seq::empty()], row: 0, col: 0, max_chars }
    }

    /// Characters, counting a line break as one.
    pub open spec fn len(self) -> int {
        total_len(self.lines) - 1
    }

    pub open spec fn wf(self) -> bool {
        &&& 0 <= self.row < self.lines.len()
        &&& 0 <= self.col <= self.lines[self.row].len()
        &&& self.len() <= self.max_chars
    }

    pub open spec fn line(self) -> Seq<char> {
        self.lines[self.row]
    }

    pub open spec fn value(self) -> Seq<char> {
        chars::joined(self.lines, "\n"@)
    }

    /// The line is cut at the cursor.
    pub open spec fn with_newline(self) -> Area {
        Area {
            lines: self.lines.update(self.row, self.line().take(self.col)).insert(
                self.row + 1,
                self.line().skip(self.col),
            ),
            row: self.row + 1,
            col: 0,
            ..self
        }
    }

    /// A character is typed. A line that runs long at its end is broken at
    /// its last space, if it has one behind its first character.
    pub open spec fn with_char(self, c: char) -> Area {
        let line = self.line().insert(self.col, c);
        let at = last_space(line);
        if self.col + 1 == line.len() && line.len() > WRAP_COLS && at > 0 {
            Area {
                lines: self.lines.update(self.row, line.take(at)).insert(
                    self.row + 1,
                    line.skip(at + 1),
                ),
                row: self.row + 1,
                col: line.len() - at - 1,
                ..self
            }
        } else {
            Area { lines: self.lines.update(self.row, line), col: self.col + 1, ..self }
        }
    }

    /// `n` spaces are typed, as far as there is room.
    pub open spec fn with_spaces(self, n: nat) -> Area
        decreases n,
    {
        if n == 0 {
            self
        } else {
            let before = self.with_spaces((n - 1) as nat);
            if before.len() < before.max_chars {
                before.with_char(' ')
            } else {
                before
            }
        }
    }

    /// The line at `row` is appended to the one above it.
    pub open spec fn joined_at(self, row: int) -> Seq<Seq<char>> {
        self.lines.update(row - 1, self.lines[row - 1] + self.lines[row]).remove(row)
    }

    /// The editor edits something, or moves, when `key` arrives.
    pub open spec fn consumes(key: Key) -> bool {
        match key {
            Key::Char(c) => !chars::control(c),
            Key::Ctrl(c) => c == 'a' || c == 'e',
            Key::Enter
            | Key::Tab
            | Key::Backspace
            | Key::Delete
            | Key::Left
            | Key::Right
            | Key::Up
            | Key::Down
            | Key::Home
            | Key::End => true,
            _ => false,
        }
    }

    /// The column on a line that may be shorter.
    pub open spec fn col_on(self, row: int) -> int {
        if self.col <= self.lines[row].len() {
            self.col
        } else {
            self.lines[row].len() as int
        }
    }

    /// The editor after `key`.
    pub open spec fn after(self, key: Key) -> Area {
        let room = self.len() < self.max_chars;
        let last = self.lines.len() - 1;
        match key {
            Key::Char(c) => if !chars::control(c) && room {
                self.with_char(c)
            } else {
                self
            },
            Key::Enter => if room {
                self.with_newline()
            } else {
                self
            },
            Key::Tab => self.with_spaces(4),
            Key::Backspace => if self.col > 0 {
                Area {
                    lines: self.lines.update(self.row, self.line().remove(self.col - 1)),
                    col: self.col - 1,
                    ..self
                }
            } else if self.row > 0 {
                Area {
                    lines: self.joined_at(self.row),
                    row: self.row - 1,
                    col: self.lines[self.row - 1].len() as int,
                    ..self
                }
            } else {
                self
            },
            Key::Delete => if self.col < self.line().len() {
                Area {
                    lines: self.lines.update(self.row, self.line().remove(self.col)),
                    ..self
                }
            } else if self.row < last {
                Area { lines: self.joined_at(self.row + 1), ..self }
            } else {
                self
            },
            Key::Left => if self.col > 0 {
                Area { col: self.col - 1, ..self }
            } else if self.row > 0 {
                Area { row: self.row - 1, col: self.lines[self.row - 1].len() as int, ..self }
            } else {
                self
            },
            Key::Right => if self.col < self.line().len() {
                Area { col: self.col + 1, ..self }
            } else if self.row < last {
                Area { row: self.row + 1, col: 0, ..self }
            } else {
                self
            },
            Key::Up => if self.row > 0 {
                Area { row: self.row - 1, col: self.col_on(self.row - 1), ..self }
            } else {
                self
            },
            Key::Down => if self.row < last {
                Area { row: self.row + 1, col: self.col_on(self.row + 1), ..self }
            } else {
                self
            },
            Key::Home => Area { col: 0, ..self },
            Key::End => Area { col: self.line().len() as int, ..self },
            Key::Ctrl(c) => if c == 'a' {
                Area { col: 0, ..self }
            } else if c == 'e' {
                Area { col: self.line().len() as int, ..self }
            } else {
                self
            },
            _ => self,
        }
    }

    /// The key that types `c`.
    pub open spec fn key_for(c: char) -> Key {
        if c == '\n' {
            Key::Enter
        } else {
            Key::Char(c)
        }
    }

    /// The editor after `text` was typed into it.
    pub open spec fn typed(self, text: Seq<char>) -> Area
        decreases text.len(),
    {
        if text.len() == 0 {
            self
        } else {
            self.typed(text.drop_last()).after(Area::key_for(text.last()))
        }
    }
}

pub proof fn lemma_total_len_update(lines: Seq<Seq<char>>, i: int, line: Seq<char>)
    requires
        0 <= i < lines.len(),
    ensures
        total_len(lines.update(i, line)) == total_len(lines) - lines[i].len() + line.len(),
    decreases lines.len(),
{
    let front = lines.drop_last();
    if i == lines.len() - 1 {
        assert(lines.update(i, line).drop_last() =~= front);
    } else {
        lemma_total_len_update(front, i, line);
        assert(lines.update(i, line).drop_last() =~= front.update(i, line));
    }
}

pub proof fn lemma_total_len_insert(lines: Seq<Seq<char>>, i: int, line: Seq<char>)
    requires
        0 <= i <= lines.len(),
    ensures
        total_len(lines.insert(i, line)) == total_len(lines) + line.len() + 1,
    decreases lines.len(),
{
    if i == lines.len() {
        assert(lines.insert(i, line).drop_last() =~= lines);
    } else {
        let front = lines.drop_last();
        lemma_total_len_insert(front, i, line);
        assert(lines.insert(i, line).drop_last() =~= front.insert(i, line));
    }
}

pub proof fn lemma_total_len_remove(lines: Seq<Seq<char>>, i: int)
    requires
        0 <= i < lines.len(),
    ensures
        total_len(lines.remove(i)) == total_len(lines) - lines[i].len() - 1,
    decreases lines.len(),
{
    let front = lines.drop_last();
    if i == lines.len() - 1 {
        assert(lines.remove(i) =~= front);
    } else {
        lemma_total_len_remove(front, i);
        assert(lines.remove(i).drop_last() =~= front.remove(i));
    }
}

pub proof fn lemma_last_space(line: Seq<char>)
    ensures
        -1 <= last_space(line) < line.len(),
        last_space(line) >= 0 ==> line[last_space(line)] == ' ',
        forall|i: int| last_space(line) < i < line.len() ==> #[trigger] line[i] != ' ',
    decreases line.len(),
{
    if line.len() > 0 && line.last() != ' ' {
        let front = line.drop_last();
        lemma_last_space(front);
        assert forall|i: int| last_space(line) < i < line.len() implies #[trigger] line[i]
            != ' ' by {
            if i < front.len() {
                assert(front[i] == line[i]);
            }
        }
    }
}

/// Typing keeps the editor well formed and adds one character.
pub proof fn lemma_with_char_wf(a: Area, c: char)
    requires
        a.wf(),
        a.len() < a.max_chars,
    ensures
        a.with_char(c).wf(),
        a.with_char(c).len() == a.len() + 1,
{
    let line = a.line().insert(a.col, c);
    lemma_last_space(line);
    let at = last_space(line);
    lemma_total_len_update(a.lines, a.row, line);
    if a.col + 1 == line.len() && line.len() > WRAP_COLS && at > 0 {
        lemma_total_len_update(a.lines, a.row, line.take(at));
        lemma_total_len_insert(a.lines.update(a.row, line.take(at)), a.row + 1, line.skip(at + 1));
    }
}

pub proof fn lemma_with_newline_wf(a: Area)
    requires
        a.wf(),
        a.len() < a.max_chars,
    ensures
        a.with_newline().wf(),
        a.with_newline().len() == a.len() + 1,
{
    let head = a.line().take(a.col);
    lemma_total_len_update(a.lines, a.row, head);
    lemma_total_len_insert(a.lines.update(a.row, head), a.row + 1, a.line().skip(a.col));
}

pub proof fn lemma_with_spaces_wf(a: Area, n: nat)
    requires
        a.wf(),
    ensures
        a.with_spaces(n).wf(),
        a.with_spaces(n).max_chars == a.max_chars,
    decreases n,
{
    if n > 0 {
        let before = a.with_spaces((n - 1) as nat);
        lemma_with_spaces_wf(a, (n - 1) as nat);
        if before.len() < before.max_chars {
            lemma_with_char_wf(before, ' ');
        }
    }
}

pub proof fn lemma_joined_at_len(a: Area, row: int)
    requires
        1 <= row < a.lines.len(),
    ensures
        total_len(a.joined_at(row)) == total_len(a.lines) - 1,
{
    let both = a.lines[row - 1] + a.lines[row];
    lemma_total_len_update(a.lines, row - 1, both);
    lemma_total_len_remove(a.lines.update(row - 1, both), row);
}

/// Every key keeps the editor well formed.
pub proof fn lemma_after_wf(a: Area, key: Key)
    requires
        a.wf(),
    ensures
        a.after(key).wf(),
        a.after(key).max_chars == a.max_chars,
{
    match key {
        Key::Char(c) => {
            if !chars::control(c) && a.len() < a.max_chars {
                lemma_with_char_wf(a, c);
            }
        },
        Key::Enter => {
            if a.len() < a.max_chars {
                lemma_with_newline_wf(a);
            }
        },
        Key::Tab => {
            lemma_with_spaces_wf(a, 4);
        },
        Key::Backspace => {
            if a.col > 0 {
                lemma_total_len_update(a.lines, a.row, a.line().remove(a.col - 1));
            } else if a.row > 0 {
                lemma_joined_at_len(a, a.row);
            }
        },
        Key::Delete => {
            if a.col < a.line().len() {
                lemma_total_len_update(a.lines, a.row, a.line().remove(a.col));
            } else if a.row < a.lines.len() - 1 {
                lemma_joined_at_len(a, a.row + 1);
            }
        },
        _ => {},
    }
}

impl View for TextArea {
    type V = Area;

    closed spec fn view(&self) -> Area {
        Area {
            lines: chars::texts(self.lines@),
            row: self.row as int,
            col: self.col as int,
            max_chars: self.max_chars as nat,
        }
    }
}

proof fn lemma_total_len_prefix(lines: Seq<Seq<char>>, n: int)
    requires
        0 <= n <= lines.len(),
    ensures
        total_len(lines.take(n)) <= total_len(lines),
        n < lines.len() ==> total_len(lines.take(n + 1)) == total_len(lines.take(n))
            + lines[n].len() + 1,
    decreases lines.len() - n,
{
    if n < lines.len() {
        assert(lines.take(n + 1).drop_last() =~= lines.take(n));
        lemma_total_len_prefix(lines, n + 1);
    } else {
        assert(lines.take(n) =~= lines);
    }
}

impl TextArea {
    pub open spec fn wf(&self) -> bool {
        self@.wf()
    }

    pub fn new(max_chars: usize) -> (r: TextArea)
        ensures
            r@ == Area::empty(max_chars as nat),
            r.wf(),
    {
        let mut lines: Vec<Vec<char>> = Vec::new();
        lines.push(Vec::new());
        let r = TextArea { lines, row: 0, col: 0, max_chars };
        proof {
            assert(r@.lines =~= seq![Seq::empty()]);
            assert(total_len(r@.lines.drop_last()) == 0);
        }
        r
    }

    pub fn value(&self) -> (r: String)
        ensures
            r@ == self@.value(),
    {
        join(&self.lines, "\n")
    }

    /// Replaces the contents, e.g. to prefill a reply with a quote. Goes
    /// through the same per-character path as interactive typing, so it
    /// gets the same word-wrap (and the same URL exemption) rather than
    /// dropping in one giant unwrapped line.
    pub fn set_text(&mut self, text: &str)
        ensures
            final(self)@ == Area::empty(old(self)@.max_chars).typed(text@),
            final(self).wf(),
    {
        let ghost empty = Area::empty(self@.max_chars);
        *self = TextArea::new(self.max_chars);
        let cs = to_chars(text);
        let mut i: usize = 0;
        assert(cs@.take(0) =~= Seq::empty());
        while i < cs.len()
            invariant
                i <= cs@.len(),
                self.wf(),
                self@ == empty.typed(cs@.take(i as int)),
            decreases cs@.len() - i,
        {
            assert(cs@.take(i + 1).drop_last() =~= cs@.take(i as int));
            let c = cs[i];
            self.handle(if c == '\n' { Key::Enter } else { Key::Char(c) });
            i += 1;
        }
        assert(cs@.take(i as int) =~= cs@);
    }

    fn len(&self) -> (r: usize)
        requires
            self.wf(),
        ensures
            r == self@.len(),
    {
        let ghost lines = self@.lines;
        let mut sum: usize = self.lines[0].len();
        let mut i: usize = 1;
        proof {
            assert(lines[0] == self.lines@[0]@);
            lemma_total_len_prefix(lines, 0);
            assert(lines.take(0) =~= Seq::empty());
        }
        while i < self.lines.len()
            invariant
                1 <= i <= self.lines@.len(),
                lines == self@.lines,
                self.wf(),
                sum == total_len(lines.take(i as int)) - 1,
            decreases self.lines@.len() - i,
        {
            proof {
                lemma_total_len_prefix(lines, i as int);
                lemma_total_len_prefix(lines, i + 1);
                assert(lines[i as int] == self.lines@[i as int]@);
            }
            sum = sum + 1 + self.lines[i].len();
            i += 1;
        }
        assert(lines.take(i as int) =~= lines);
        sum
    }

    fn insert_newline(&mut self)
        requires
            old(self).wf(),
            old(self)@.len() < old(self)@.max_chars,
        ensures
            final(self)@ == old(self)@.with_newline(),
            final(self).wf(),
    {
        proof {
            lemma_with_newline_wf(self@);
        }
        let rows: usize = self.lines.len();
        assert(self.row < rows);
        let rest = self.lines[self.row].split_off(self.col);
        self.lines.insert(self.row + 1, rest);
        self.row += 1;
        self.col = 0;
        assert(self@.lines =~= old(self)@.with_newline().lines);
    }

    fn insert_char(&mut self, c: char)
        requires
            old(self).wf(),
            old(self)@.len() < old(self)@.max_chars,
        ensures
            final(self)@ == old(self)@.with_char(c),
            final(self).wf(),
    {
        proof {
            lemma_with_char_wf(self@, c);
        }
        let rows: usize = self.lines.len();
        assert(self.row < rows);
        self.lines[self.row].insert(self.col, c);
        let len: usize = self.lines[self.row].len();
        self.col += 1;
        let ghost line = old(self)@.line().insert(old(self)@.col, c);
        assert(self.lines@[self.row as int]@ == line);
        // Word-wrap at the last space once a line runs long. A single
        // unbreakable token - a URL, typically - is left alone rather than
        // split with an injected line break: that would corrupt it in
        // storage (and stay corrupted for every reader), not just look odd
        // while typing. It just runs past WRAP_COLS instead (the view
        // below already scrolls horizontally to follow the cursor), and a
        // reader's own thread view wraps it for *display* based on their
        // actual terminal width, without touching what's stored.
        if self.col == len && len > WRAP_COLS {
            if let Some(at) = find_last_space(&self.lines[self.row]) {
                if at > 0 {
                    let tail = self.lines[self.row].split_off(at + 1);
                    self.lines[self.row].pop();  // the space we broke at
                    assert(self.lines@[self.row as int]@ =~= line.take(at as int));
                    assert(tail@ =~= line.skip(at + 1));
                    self.col = tail.len();
                    self.lines.insert(self.row + 1, tail);
                    self.row += 1;
                }
            }
        }
        assert(self@.lines =~= old(self)@.with_char(c).lines);
    }

    pub fn handle(&mut self, key: Key) -> (r: bool)
        requires
            old(self).wf(),
        ensures
            final(self)@ == old(self)@.after(key),
            r == Area::consumes(key),
            final(self).wf(),
    {
        proof {
            lemma_after_wf(self@, key);
        }
        let rows: usize = self.lines.len();
        assert(self.row < rows);
        match key {
            Key::Char(c) => {
                if is_control(c) {
                    return false;
                }
                if self.len() < self.max_chars {
                    self.insert_char(c);
                }
            },
            Key::Enter => {
                if self.len() < self.max_chars {
                    self.insert_newline();
                }
            },
            Key::Tab => {
                let mut i: usize = 0;
                while i < 4
                    invariant
                        i <= 4,
                        self.wf(),
                        self@ == old(self)@.with_spaces(i as nat),
                    decreases 4 - i,
                {
                    if self.len() < self.max_chars {
                        self.insert_char(' ');
                    }
                    i += 1;
                }
            },
            Key::Backspace => {
                if self.col > 0 {
                    self.col -= 1;
                    self.lines[self.row].remove(self.col);
                } else if self.row > 0 {
                    let mut line = self.lines.remove(self.row);
                    self.row -= 1;
                    self.col = self.lines[self.row].len();
                    self.lines[self.row].append(&mut line);
                }
                assert(self@.lines =~= old(self)@.after(key).lines);
            },
            Key::Delete => {
                if self.col < self.lines[self.row].len() {
                    self.lines[self.row].remove(self.col);
                } else if self.row + 1 < self.lines.len() {
                    let mut next = self.lines.remove(self.row + 1);
                    self.lines[self.row].append(&mut next);
                }
                assert(self@.lines =~= old(self)@.after(key).lines);
            },
            Key::Left => {
                if self.col > 0 {
                    self.col -= 1;
                } else if self.row > 0 {
                    self.row -= 1;
                    self.col = self.lines[self.row].len();
                }
            },
            Key::Right => {
                if self.col < self.lines[self.row].len() {
                    self.col += 1;
                } else if self.row + 1 < self.lines.len() {
                    self.row += 1;
                    self.col = 0;
                }
            },
            Key::Up => {
                if self.row > 0 {
                    self.row -= 1;
                    self.clamp_col();
                }
            },
            Key::Down => {
                if self.row + 1 < self.lines.len() {
                    self.row += 1;
                    self.clamp_col();
                }
            },
            Key::Home | Key::Ctrl('a') => {
                self.col = 0;
            },
            Key::End | Key::Ctrl('e') => {
                self.col = self.lines[self.row].len();
            },
            _ => {
                return false;
            },
        }
        true
    }

    /// The line just moved to may be shorter.
    fn clamp_col(&mut self)
        requires
            old(self).row < old(self).lines@.len(),
        ensures
            final(self)@ == (Area { col: old(self)@.col_on(old(self)@.row), ..old(self)@ }),
    {
        let len: usize = self.lines[self.row].len();
        if self.col > len {
            self.col = len;
        }
    }
}

fn find_last_space(line: &Vec<char>) -> (r: Option<usize>)
    ensures
        match r {
            Some(i) => i == last_space(line@),
            None => last_space(line@) == -1,
        },
        r matches Some(i) ==> i < line@.len(),
{
    let mut n: usize = line.len();
    assert(line@.take(n as int) =~= line@);
    while n > 0
        invariant
            n <= line@.len(),
            last_space(line@) == last_space(line@.take(n as int)),
        decreases n,
    {
        assert(line@.take(n as int).drop_last() =~= line@.take(n - 1));
        if line[n - 1] == ' ' {
            return Some(n - 1);
        }
        n -= 1;
    }
    None
}

// -------------------------------------------------------------- drawing

/// The `n` items from `from` on, or as many as there are.
pub open spec fn window<T>(items: Seq<T>, from: int, n: int) -> Seq<T> {
    if from >= items.len() || n <= 0 {
        Seq::empty()
    } else if from + n <= items.len() {
        items.subrange(from, from + n)
    } else {
        items.skip(from)
    }
}

/// The first row or column shown so that `at` is in view, of `n` in all.
pub open spec fn scrolled(at: int, n: int) -> int {
    let shown = if n < 1 {
        1
    } else {
        n
    };
    if at + 1 > shown {
        at + 1 - shown
    } else {
        0
    }
}

/// What is inside the border of a box `size` cells long.
pub open spec fn inside(size: u16) -> int {
    if size > 2 {
        size - 2
    } else {
        0
    }
}

impl Area {
    /// What is shown in `width` columns and `height` rows: the cursor is
    /// kept in view, scrolling vertically and horizontally.
    pub open spec fn shown(self, width: int, height: int) -> Seq<Seq<char>> {
        window(self.lines, scrolled(self.row, height), height).map_values(
            |l: Seq<char>| window(l, scrolled(self.col, width), width),
        )
    }

    /// Where the terminal cursor goes when the editor has the focus.
    pub open spec fn cursor_at(self, area: Rect) -> Option<(int, int)> {
        let width = inside(area.width);
        let height = inside(area.height);
        if width > 0 && height > 0 {
            Some(
                (
                    area.x + 1 + self.col - scrolled(self.col, width),
                    area.y + 1 + self.row - scrolled(self.row, height),
                ),
            )
        } else {
            None
        }
    }
}

/// A column or row range of `cs`.
fn clip(cs: &Vec<char>, from: usize, n: usize) -> (r: Vec<char>)
    ensures
        r@ == window(cs@, from as int, n as int),
{
    let mut r: Vec<char> = Vec::new();
    let mut i: usize = 0;
    while i < n && from < cs.len() && i < cs.len() - from
        invariant
            i <= n,
            i == 0 || from + i <= cs@.len(),
            r@.len() == i,
            forall|j: int| 0 <= j < i ==> r@[j] == cs@[from + j],
        decreases n - i,
    {
        r.push(cs[from + i]);
        i += 1;
    }
    assert(r@ =~= window(cs@, from as int, n as int));
    r
}

fn scroll_to(at: usize, n: usize) -> (r: usize)
    ensures
        r == scrolled(at as int, n as int),
        r <= at,
{
    let shown: usize = if n < 1 {
        1
    } else {
        n
    };
    if at >= shown {
        at - shown + 1
    } else {
        0
    }
}

impl TextArea {
    /// The editor in a bordered box at `area`. When `focused`, also where
    /// the terminal cursor goes.
    pub fn render(&self, area: Rect, focused: bool) -> (r: FieldView)
        requires
            self.wf(),
            area.wf(),
        ensures
            r.text@ == chars::joined(
                self@.shown(inside(area.width), inside(area.height)),
                "\n"@,
            ),
            r.focused == focused,
            match r.cursor {
                Some((x, y)) => focused && self@.cursor_at(area) == Some((x as int, y as int)),
                None => !focused || self@.cursor_at(area) is None,
            },
    {
        let w: usize = if area.width > 2 {
            area.width as usize - 2
        } else {
            0
        };
        let h: usize = if area.height > 2 {
            area.height as usize - 2
        } else {
            0
        };
        let top: usize = scroll_to(self.row, h);
        let left: usize = scroll_to(self.col, w);
        let ghost goal = self@.shown(w as int, h as int);
        let mut text: Vec<Vec<char>> = Vec::new();
        let mut i: usize = 0;
        while i < h && top < self.lines.len() && i < self.lines.len() - top
            invariant
                i <= h,
                i == 0 || top + i <= self.lines@.len(),
                top == scrolled(self@.row, h as int),
                left == scrolled(self@.col, w as int),
                text@.len() == i,
                forall|j: int|
                    0 <= j < i ==> (#[trigger] text@[j])@ == window(
                        self@.lines[top + j],
                        left as int,
                        w as int,
                    ),
            decreases h - i,
        {
            assert(self@.lines[top + i] == self.lines@[top + i]@);
            text.push(clip(&self.lines[top + i], left, w));
            i += 1;
        }
        assert(chars::texts(text@) =~= goal);
        let cursor = if focused && w > 0 && h > 0 {
            let column: u16 = (self.col - left) as u16;
            let row: u16 = (self.row - top) as u16;
            Some((area.x + 1 + column, area.y + 1 + row))
        } else {
            None
        };
        FieldView { text: join(&text, "\n"), focused, cursor }
    }
}

// ---------------------------------------------------------------- quote

/// The lines of a quote, each marked and ended.
pub open spec fn quoted_lines(lines: Seq<Seq<char>>) -> Seq<char>
    decreases lines.len(),
{
    if lines.len() == 0 {
        Seq::empty()
    } else {
        let line = lines.last();
        quoted_lines(lines.drop_last()) + (if line.len() > 0 {
            "> "@ + line
        } else {
            Seq::empty()
        }) + "\n"@
    }
}

pub open spec fn quotation(author: Seq<char>, created: Seq<char>, body: Seq<char>) -> Seq<char> {
    "On "@ + created + ", "@ + author + " wrote:\n"@ + quoted_lines(chars::lines(body)) + "\n"@
}

/// Classic BBS/email reply quoting: an attribution line, then each line of
/// the original prefixed with "> " (a blank line stays blank, so that a
/// multi-paragraph quote doesn't read as if something got dropped in
/// between), then a blank line to write into.
pub fn quote(author: &str, created: &str, body: &str) -> (r: String)
    ensures
        r@ == quotation(author@, created@, body@),
{
    let mut out = cat5("On ", created, ", ", author, " wrote:\n");
    let ghost head = out@;
    let lines = lines_of(body);
    let ghost all = chars::texts(lines@);
    let mut i: usize = 0;
    assert(head + quoted_lines(all.take(0)) =~= head);
    while i < lines.len()
        invariant
            i <= lines@.len(),
            all == chars::texts(lines@),
            out@ == head + quoted_lines(all.take(i as int)),
        decreases lines@.len() - i,
    {
        let ghost before = quoted_lines(all.take(i as int));
        assert(all.take(i + 1).drop_last() =~= all.take(i as int));
        assert(all.take(i + 1).last() == lines@[i as int]@);
        let ghost line = lines@[i as int]@;
        if lines[i].len() > 0 {
            out.append("> ");
            out.append(&from_chars(&lines[i]));
            out.append("\n");
            assert(out@ =~= head + (before + ("> "@ + line) + "\n"@));
        } else {
            out.append("\n");
            assert(out@ =~= head + (before + Seq::<char>::empty() + "\n"@));
        }
        i += 1;
    }
    assert(all.take(i as int) =~= all);
    // The first line end closes the last quoted line, this one opens a
    // blank separator line, and the cursor lands on the line right after
    // that - so there's one clear empty line between the quote and where
    // the reply starts, not the reply running on immediately after ">...".
    out.append("\n");
    assert(out@ =~= quotation(author@, created@, body@));
    out
}

// -------------------------------------------------------------- Compose

#[derive(Clone, Copy, Debug, PartialEq, Eq, Structural)]
pub enum Focus {
    Title,
    Body,
}

#[derive(Clone, Copy, Debug, PartialEq, Eq, Structural)]
pub enum Kind {
    NewThread { board_id: i64 },
    Reply { thread_id: i64 },
}

#[derive(Debug)]
pub enum ComposeEvent {
    Nothing,
    Cancel,
    Submit(Request),
}

/// A `ComposeEvent` over the texts themselves.
pub enum Composed {
    Nothing,
    Cancel,
    Submit(Ask),
}

impl View for ComposeEvent {
    type V = Composed;

    open spec fn view(&self) -> Composed {
        match self {
            ComposeEvent::Nothing => Composed::Nothing,
            ComposeEvent::Cancel => Composed::Cancel,
            ComposeEvent::Submit(r) => Composed::Submit(r@),
        }
    }
}

pub struct Compose {
    pub kind: Kind,
    pub heading: String,
    pub title: TextInput,
    pub body: TextArea,
    pub focus: Focus,
    pub error: Option<String>,
    pub busy: bool,
}

/// The contents of a `Compose`.
pub struct Draft {
    pub kind: Kind,
    pub heading: Seq<char>,
    pub title: Field,
    pub body: Area,
    pub focus: Focus,
    pub error: Option<Seq<char>>,
    pub busy: bool,
}

impl View for Compose {
    type V = Draft;

    open spec fn view(&self) -> Draft {
        Draft {
            kind: self.kind,
            heading: self.heading@,
            title: self.title@,
            body: self.body@,
            focus: self.focus,
            error: protocol::text_of(self.error),
            busy: self.busy,
        }
    }
}

impl Draft {
    pub open spec fn wf(self) -> bool {
        self.title.wf() && self.body.wf()
    }

    pub open spec fn new_thread(board_id: i64) -> Draft {
        Draft {
            kind: Kind::NewThread { board_id },
            heading: "New thread"@,
            title: Field::empty(content::TITLE_MAX as nat, false),
            body: Area::empty(content::BODY_MAX as nat),
            focus: Focus::Title,
            error: None,
            busy: false,
        }
    }

    pub open spec fn reply(
        thread_id: i64,
        thread_title: Seq<char>,
        quoted: Option<Seq<char>>,
    ) -> Draft {
        let empty = Area::empty(content::BODY_MAX as nat);
        Draft {
            kind: Kind::Reply { thread_id },
            heading: "Reply to: "@ + thread_title,
            title: Field::empty(0, false),
            body: match quoted {
                Some(text) => empty.typed(text),
                None => empty,
            },
            focus: Focus::Body,
            error: None,
            busy: false,
        }
    }

    pub open spec fn failed(self, message: Seq<char>) -> Draft {
        Draft { busy: false, error: Some(message), ..self }
    }

    /// Sent off, if body and title are fit to be sent; else back to what
    /// has to be mended, with the reason.
    pub open spec fn submitted(self) -> (Draft, Composed) {
        let sent = Draft { error: None, busy: true, ..self };
        match content::body_of(self.body.value()) {
            Err(e) => (
                Draft { focus: Focus::Body, error: Some(e), ..self },
                Composed::Nothing,
            ),
            Ok(body) => match self.kind {
                Kind::Reply { thread_id } => (sent, Composed::Submit(Ask::Reply { thread_id, body })),
                Kind::NewThread { board_id } => match content::title_of(self.title.text) {
                    Ok(title) => (
                        sent,
                        Composed::Submit(Ask::CreateThread { board_id, title, body }),
                    ),
                    Err(e) => (
                        Draft { focus: Focus::Title, error: Some(e), ..self },
                        Composed::Nothing,
                    ),
                },
            },
        }
    }

    /// The form after `key`, and what it asks for. Tab switches between title
    /// and message; in a reply, which has no title, it indents.
    pub open spec fn after(self, key: Key) -> (Draft, Composed) {
        if self.busy {
            (self, Composed::Nothing)
        } else if key == Key::Esc {
            (self, Composed::Cancel)
        } else if key == Key::Ctrl('d') {
            self.submitted()
        } else if self.focus == Focus::Title {
            if key == Key::Tab || key == Key::Enter || key == Key::Down {
                (Draft { focus: Focus::Body, ..self }, Composed::Nothing)
            } else {
                (Draft { title: self.title.after(key), ..self }, Composed::Nothing)
            }
        } else if (key == Key::Tab || key == Key::BackTab) && self.kind is NewThread {
            (Draft { focus: Focus::Title, ..self }, Composed::Nothing)
        } else {
            (Draft { body: self.body.after(key), ..self }, Composed::Nothing)
        }
    }

    /// The line below the form.
    pub open spec fn hint(self) -> (Seq<char>, Color) {
        if self.busy {
            ("Posting…"@, Color::Yellow)
        } else {
            match self.error {
                Some(e) => (e, Color::Red),
                None => (
                    if self.kind is NewThread {
                        "Ctrl-D: post · Esc: cancel · Tab: switch between title and message"@
                    } else {
                        "Ctrl-D: post · Esc: cancel · Tab: indent · Shift-Tab: back to title"@
                    },
                    Color::Gray,
                ),
            }
        }
    }
}

impl Compose {
    pub open spec fn wf(&self) -> bool {
        self@.wf()
    }

    pub fn new_thread(board_id: i64) -> (r: Compose)
        ensures
            r@ == Draft::new_thread(board_id),
            r.wf(),
    {
        Compose {
            kind: Kind::NewThread { board_id },
            heading: "New thread".to_owned(),
            title: TextInput::new(content::TITLE_MAX, false),
            body: TextArea::new(content::BODY_MAX),
            focus: Focus::Title,
            error: None,
            busy: false,
        }
    }

    /// `quoted` is the post being replied to (author, when, body), if any -
    /// absent only if the thread turned out to have no posts, which
    /// shouldn't normally happen.
    pub fn reply(thread_id: i64, thread_title: &str, quoted: Option<(&str, &str, &str)>) -> (r:
        Compose)
        ensures
            r@ == Draft::reply(
                thread_id,
                thread_title@,
                match quoted {
                    Some(q) => Some(quotation(q.0@, q.1@, q.2@)),
                    None => None,
                },
            ),
            r.wf(),
    {
        let mut body = TextArea::new(content::BODY_MAX);
        if let Some((author, created, text)) = quoted {
            body.set_text(&quote(author, created, text));
        }
        Compose {
            kind: Kind::Reply { thread_id },
            heading: cat2("Reply to: ", thread_title),
            title: TextInput::new(0, false),
            body,
            focus: Focus::Body,
            error: None,
            busy: false,
        }
    }

    /// The server rejected the post; keep what was typed so it can be fixed.
    pub fn fail(&mut self, message: String)
        ensures
            final(self)@ == old(self)@.failed(message@),
    {
        self.busy = false;
        self.error = Some(message);
    }

    pub fn handle(&mut self, key: Key) -> (r: ComposeEvent)
        requires
            old(self).wf(),
        ensures
            (final(self)@, r@) == old(self)@.after(key),
            final(self).wf(),
    {
        if self.busy {
            return ComposeEvent::Nothing;
        }
        match key {
            Key::Esc => {
                return ComposeEvent::Cancel;
            },
            Key::Ctrl('d') => {
                return self.submit();
            },
            _ => {},
        }
        match self.focus {
            Focus::Title => match key {
                Key::Tab | Key::Enter | Key::Down => {
                    self.focus = Focus::Body;
                },
                _ => {
                    self.title.handle(key);
                },
            },
            Focus::Body => {
                let new_thread = match self.kind {
                    Kind::NewThread { .. } => true,
                    Kind::Reply { .. } => false,
                };
                if (key == Key::Tab || key == Key::BackTab) && new_thread {
                    self.focus = Focus::Title;
                } else {
                    self.body.handle(key);
                }
            },
        }
        ComposeEvent::Nothing
    }

    fn submit(&mut self) -> (r: ComposeEvent)
        requires
            old(self).wf(),
        ensures
            (final(self)@, r@) == old(self)@.submitted(),
            final(self).wf(),
    {
        let body = match content::clean_body(&self.body.value()) {
            Ok(body) => body,
            Err(e) => {
                self.focus = Focus::Body;
                self.error = Some(e);
                return ComposeEvent::Nothing;
            },
        };
        let request = match self.kind {
            Kind::Reply { thread_id } => Request::Reply { thread_id, body },
            Kind::NewThread { board_id } => match content::clean_title(&self.title.value()) {
                Ok(title) => Request::CreateThread { board_id, title, body },
                Err(e) => {
                    self.focus = Focus::Title;
                    self.error = Some(e);
                    return ComposeEvent::Nothing;
                },
            },
        };
        self.error = None;
        self.busy = true;
        ComposeEvent::Submit(request)
    }

    /// The line below the form: what goes on, what went wrong, or the keys.
    pub fn status(&self) -> (r: (String, Color))
        ensures
            (r.0@, r.1) == self@.hint(),
    {
        if self.busy {
            ("Posting…".to_owned(), Color::Yellow)
        } else {
            match &self.error {
                Some(err) => (err.clone(), Color::Red),
                None => {
                    let keys = match self.kind {
                        Kind::NewThread { .. } =>
                            "Ctrl-D: post · Esc: cancel · Tab: switch between title and message",
                        Kind::Reply { .. } =>
                            "Ctrl-D: post · Esc: cancel · Tab: indent · Shift-Tab: back to title",
                    };
                    (keys.to_owned(), Color::Gray)
                },
            }
        }
    }
}

} // verus!
