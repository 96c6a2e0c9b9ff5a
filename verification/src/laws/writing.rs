//! Laws of the editor and of the form that posts are written in.

use vstd::prelude::*;

use crate::chars;
use crate::laws::compose as typing;
use crate::laws::content as clean;
use crate::ui::app::{App, Scene, Screen};
use crate::ui::compose;
use crate::ui::compose::{Compose, ComposeEvent, Kind, TextArea};
use crate::ui::input::Key;
use crate::ui::paint::Color;
use crate::ui::protocol::{Action, Request};

verus! {

// -------------------------------------------------------------------- the editor

/// A character is put in at the cursor, and the cursor goes past it; the
/// other lines stay. Nothing is wrapped as long as the line is short or the
/// cursor is not at its end.
pub proof fn law_characters_are_put_in(area: &mut TextArea, c: char, r: bool)
    requires
        call_ensures(TextArea::handle, (area, Key::Char(c)), r),
        old(area)@.wf(),
        !chars::control(c),
        old(area)@.len() < old(area)@.max_chars,
    ensures
        ({
            let row = old(area)@.row;
            let col = old(area)@.col;
            let line = old(area)@.lines[row];
            line.len() < 78 || col < line.len() ==> final(area)@.row == row && final(area)@.col
                == col + 1 && final(area)@.lines == old(area)@.lines.update(
                row,
                line.take(col).push(c) + line.skip(col),
            )
        }),
        r,
        final(area)@.max_chars == old(area)@.max_chars,
{
    let line = old(area)@.line();
    let col = old(area)@.col;
    assert(line.insert(col, c) =~= line.take(col).push(c) + line.skip(col));
}

/// A line that runs past 78 characters at its end is broken at its last
/// space: what stands behind that goes on to the next line, and the cursor
/// with it. Where it has no space but at its start, it is left to run on.
pub proof fn law_long_lines_are_wrapped(area: &mut TextArea, c: char, at: int, r: bool)
    requires
        call_ensures(TextArea::handle, (area, Key::Char(c)), r),
        old(area)@.wf(),
        !chars::control(c),
        old(area)@.len() < old(area)@.max_chars,
        old(area)@.col == old(area)@.lines[old(area)@.row].len(),
        old(area)@.col >= 78,
        ({
            let line = old(area)@.lines[old(area)@.row].push(c);
            &&& 0 <= at < line.len()
            &&& line[at] == ' ' || at == 0
            &&& forall|i: int| at < i < line.len() ==> #[trigger] line[i] != ' '
        }),
    ensures
        ({
            let row = old(area)@.row;
            let line = old(area)@.lines[row].push(c);
            if at > 0 {
                &&& final(area)@.lines.len() == old(area)@.lines.len() + 1
                &&& final(area)@.lines[row] == line.take(at)
                &&& final(area)@.lines[row + 1] == line.skip(at + 1)
                &&& final(area)@.row == row + 1
                &&& final(area)@.col == final(area)@.lines[row + 1].len()
                &&& forall|i: int|
                    0 <= i < row ==> #[trigger] final(area)@.lines[i] == old(area)@.lines[i]
                &&& forall|i: int|
                    row + 1 < i < final(area)@.lines.len() ==> #[trigger] final(area)@.lines[i]
                        == old(area)@.lines[i - 1]
            } else {
                final(area)@.lines == old(area)@.lines.update(row, line) && final(area)@.row == row
                    && final(area)@.col == line.len()
            }
        }),
{
    let before = old(area)@.line();
    let line = before.push(c);
    assert(before.insert(old(area)@.col, c) =~= line);
    compose::lemma_last_space(line);
    let found = compose::last_space(line);
    if found > at {
        assert(line[found] != ' ');
    }
    if at > found && at > 0 {
        assert(line[at] != ' ');
    }
}

/// Tab puts in four spaces.
pub proof fn law_tab_indents(area: &mut TextArea, r: bool)
    requires
        call_ensures(TextArea::handle, (area, Key::Tab), r),
        old(area)@.wf(),
        old(area)@.len() + 4 <= old(area)@.max_chars,
        old(area)@.lines[old(area)@.row].len() + 4 <= 78,
    ensures
        r,
        ({
            let row = old(area)@.row;
            let col = old(area)@.col;
            let line = old(area)@.lines[row];
            &&& final(area)@.lines == old(area)@.lines.update(
                row,
                line.take(col) + seq![' ', ' ', ' ', ' '] + line.skip(col),
            )
            &&& final(area)@.row == row
            &&& final(area)@.col == col + 4
        }),
{
    let a = old(area)@;
    reveal_with_fuel(compose::Area::with_spaces, 5);
    let l0 = a.line();
    let one = a.with_spaces(1);
    let l1 = l0.insert(a.col, ' ');
    compose::lemma_total_len_update(a.lines, a.row, l1);
    assert(one.lines == a.lines.update(a.row, l1));
    let two = a.with_spaces(2);
    let l2 = l1.insert(a.col + 1, ' ');
    assert(one.lines.update(a.row, l2) =~= a.lines.update(a.row, l2));
    compose::lemma_total_len_update(a.lines, a.row, l2);
    assert(two.lines == a.lines.update(a.row, l2));
    let three = a.with_spaces(3);
    let l3 = l2.insert(a.col + 2, ' ');
    assert(two.lines.update(a.row, l3) =~= a.lines.update(a.row, l3));
    compose::lemma_total_len_update(a.lines, a.row, l3);
    assert(three.lines == a.lines.update(a.row, l3));
    let l4 = l3.insert(a.col + 3, ' ');
    assert(three.lines.update(a.row, l4) =~= a.lines.update(a.row, l4));
    assert(l4 =~= l0.take(a.col) + seq![' ', ' ', ' ', ' '] + l0.skip(a.col));
}

/// Enter breaks the line at the cursor.
pub proof fn law_enter_breaks_the_line(area: &mut TextArea, r: bool)
    requires
        call_ensures(TextArea::handle, (area, Key::Enter), r),
        old(area)@.wf(),
        old(area)@.len() < old(area)@.max_chars,
    ensures
        r,
        final(area)@.row == old(area)@.row + 1,
        final(area)@.col == 0,
        final(area)@.lines.len() == old(area)@.lines.len() + 1,
        ({
            let row = old(area)@.row;
            let col = old(area)@.col;
            let line = old(area)@.lines[row];
            &&& final(area)@.lines[row] == line.take(col)
            &&& final(area)@.lines[row + 1] == line.skip(col)
            &&& forall|i: int| 0 <= i < row ==> #[trigger] final(area)@.lines[i] == old(area)@.lines[i]
            &&& forall|i: int|
                row + 1 < i < final(area)@.lines.len() ==> #[trigger] final(area)@.lines[i]
                    == old(area)@.lines[i - 1]
        }),
{
}

/// Backspace takes out the character before the cursor; at the start of a
/// line it joins the line to the one above.
pub proof fn law_backspace_in_the_editor(area: &mut TextArea, r: bool)
    requires
        call_ensures(TextArea::handle, (area, Key::Backspace), r),
        old(area)@.wf(),
    ensures
        r,
        ({
            let row = old(area)@.row;
            let col = old(area)@.col;
            let line = old(area)@.lines[row];
            if col > 0 {
                final(area)@.lines == old(area)@.lines.update(
                    row,
                    line.take(col - 1) + line.skip(col),
                ) && final(area)@.row == row && final(area)@.col == col - 1
            } else if row > 0 {
                &&& final(area)@.lines.len() == old(area)@.lines.len() - 1
                &&& final(area)@.row == row - 1
                &&& final(area)@.col == old(area)@.lines[row - 1].len()
                &&& final(area)@.lines[row - 1] == old(area)@.lines[row - 1] + line
                &&& forall|i: int|
                    0 <= i < row - 1 ==> #[trigger] final(area)@.lines[i] == old(area)@.lines[i]
                &&& forall|i: int|
                    row <= i < final(area)@.lines.len() ==> #[trigger] final(area)@.lines[i]
                        == old(area)@.lines[i + 1]
            } else {
                final(area)@ == old(area)@
            }
        }),
{
    let col = old(area)@.col;
    let line = old(area)@.line();
    if col > 0 {
        assert(line.remove(col - 1) =~= line.take(col - 1) + line.skip(col));
    }
}

/// Delete takes out the character at the cursor; at the end of a line it
/// joins the next line to it.
pub proof fn law_delete_in_the_editor(area: &mut TextArea, r: bool)
    requires
        call_ensures(TextArea::handle, (area, Key::Delete), r),
        old(area)@.wf(),
    ensures
        r,
        final(area)@.row == old(area)@.row,
        final(area)@.col == old(area)@.col,
        ({
            let row = old(area)@.row;
            let col = old(area)@.col;
            let line = old(area)@.lines[row];
            if col < line.len() {
                final(area)@.lines == old(area)@.lines.update(
                    row,
                    line.take(col) + line.skip(col + 1),
                )
            } else if row + 1 < old(area)@.lines.len() {
                &&& final(area)@.lines.len() == old(area)@.lines.len() - 1
                &&& final(area)@.lines[row] == line + old(area)@.lines[row + 1]
                &&& forall|i: int|
                    0 <= i < row ==> #[trigger] final(area)@.lines[i] == old(area)@.lines[i]
                &&& forall|i: int|
                    row < i < final(area)@.lines.len() ==> #[trigger] final(area)@.lines[i]
                        == old(area)@.lines[i + 1]
            } else {
                final(area)@ == old(area)@
            }
        }),
{
    let col = old(area)@.col;
    let line = old(area)@.line();
    if col < line.len() {
        assert(line.remove(col) =~= line.take(col) + line.skip(col + 1));
    }
}

/// The keys that move leave the text alone and move the cursor as they say:
/// over the ends of lines too, and up and down in the same column where the
/// line is long enough.
pub proof fn law_moving_in_the_editor(area: &mut TextArea, key: Key, r: bool)
    requires
        call_ensures(TextArea::handle, (area, key), r),
        old(area)@.wf(),
        key == Key::Left || key == Key::Right || key == Key::Up || key == Key::Down || key
            == Key::Home || key == Key::End,
    ensures
        r,
        final(area)@.lines == old(area)@.lines,
        ({
            let row = old(area)@.row;
            let col = old(area)@.col;
            let lines = old(area)@.lines;
            let to = (final(area)@.row, final(area)@.col);
            match key {
                Key::Left => to == if col > 0 {
                    (row, col - 1)
                } else if row > 0 {
                    (row - 1, lines[row - 1].len() as int)
                } else {
                    (row, col)
                },
                Key::Right => to == if col < lines[row].len() {
                    (row, col + 1)
                } else if row + 1 < lines.len() {
                    (row + 1, 0int)
                } else {
                    (row, col)
                },
                Key::Up => row > 0 ==> to.0 == row - 1 && (col <= lines[row - 1].len() ==> to.1
                    == col),
                Key::Down => row + 1 < lines.len() ==> to.0 == row + 1 && (col
                    <= lines[row + 1].len() ==> to.1 == col),
                Key::Home => to == (row, 0int),
                _ => to == (row, lines[row].len() as int),
            }
        }),
{
}

/// A full editor takes no more.
pub proof fn law_full_editors_take_no_more(area: &mut TextArea, key: Key, r: bool)
    requires
        call_ensures(TextArea::handle, (area, key), r),
        old(area)@.len() >= old(area)@.max_chars,
        key is Char || key == Key::Enter,
    ensures
        final(area)@ == old(area)@,
{
}

/// The text of an editor is its lines with a line break between any two, and
/// what it is set to it holds, but that long lines are wrapped at spaces.
pub proof fn law_editors_hold_what_they_are_set_to(
    area: &mut TextArea,
    shown: &TextArea,
    text: &str,
    value: String,
)
    ensures
        call_ensures(TextArea::value, (shown,), value) ==> value@ == chars::joined(
            shown@.lines,
            "\n"@,
        ),
        call_ensures(TextArea::set_text, (area, text), ()) && typing::typable(text@) && text@.len()
            <= old(area)@.max_chars ==> typing::flat(chars::joined(final(area)@.lines, "\n"@))
            == typing::flat(text@) && final(area)@.max_chars == old(area)@.max_chars,
{
    if call_ensures(TextArea::set_text, (area, text), ()) && typing::typable(text@) && text@.len()
        <= old(area)@.max_chars {
        typing::law_typing_keeps_the_text(old(area)@.max_chars, text@);
        lemma_typed_max(old(area)@.max_chars, text@);
    }
}

proof fn lemma_spaces_max(area: compose::Area, n: nat)
    ensures
        area.with_spaces(n).max_chars == area.max_chars,
    decreases n,
{
    if n > 0 {
        lemma_spaces_max(area, (n - 1) as nat);
    }
}

proof fn lemma_typed_max(max_chars: nat, text: Seq<char>)
    ensures
        compose::Area::empty(max_chars).typed(text).max_chars == max_chars,
    decreases text.len(),
{
    if text.len() > 0 {
        lemma_typed_max(max_chars, text.drop_last());
        lemma_spaces_max(compose::Area::empty(max_chars).typed(text.drop_last()), 4);
    }
}

// ---------------------------------------------------------------------- the form

/// Ctrl-D sends a reply to its thread, with the text as it was written, where
/// that is well set.
pub proof fn law_replies_are_sent_as_typed(
    form: &mut Compose,
    lines: Seq<Seq<char>>,
    r: ComposeEvent,
)
    requires
        call_ensures(Compose::handle, (form, Key::Ctrl('d')), r),
        !old(form).busy,
        old(form).kind is Reply,
        clean::well_set(lines),
        old(form).body@.lines == lines,
        chars::joined(lines, "\n"@).len() <= 2000,
    ensures
        r matches ComposeEvent::Submit(Request::Reply { thread_id, body }) && thread_id
            == old(form).kind->Reply_thread_id && body@ == chars::joined(lines, "\n"@),
        final(form).busy,
        final(form)@.body == old(form)@.body,
        final(form).kind == old(form).kind,
{
    clean::lemma_well_set(lines);
    clean::law_clean_texts_are_kept(lines);
}

/// Ctrl-D sends a new thread to its board, with the title and the text as they
/// were written, where these are clean.
pub proof fn law_threads_are_sent_as_typed(
    form: &mut Compose,
    lines: Seq<Seq<char>>,
    r: ComposeEvent,
)
    requires
        call_ensures(Compose::handle, (form, Key::Ctrl('d')), r),
        !old(form).busy,
        old(form).kind is NewThread,
        clean::clean(old(form).title@.text),
        clean::evenly_spaced(old(form).title@.text),
        3 <= old(form).title@.text.len() <= 80,
        clean::well_set(lines),
        old(form).body@.lines == lines,
        chars::joined(lines, "\n"@).len() <= 2000,
    ensures
        r matches ComposeEvent::Submit(Request::CreateThread { board_id, title, body })
            && board_id == old(form).kind->NewThread_board_id && title@ == old(form).title@.text
            && body@ == chars::joined(lines, "\n"@),
        final(form).busy,
        final(form)@.body == old(form)@.body,
        final(form)@.title == old(form)@.title,
        final(form).kind == old(form).kind,
{
    clean::lemma_well_set(lines);
    clean::law_clean_texts_are_kept(lines);
    clean::law_clean_lines_are_kept(old(form).title@.text);
}

/// Nothing is sent but by Ctrl-D, Esc gives up, what is typed goes where the
/// focus is, and the form is about the same board or thread throughout.
pub proof fn law_the_form_of_a_post(form: &mut Compose, key: Key, r: ComposeEvent)
    requires
        call_ensures(Compose::handle, (form, key), r),
        old(form)@.wf(),
        !old(form).busy,
    ensures
        final(form).kind == old(form).kind,
        r is Submit ==> key == Key::Ctrl('d'),
        key == Key::Esc ==> r is Cancel,
        old(form).focus is Title ==> final(form)@.body == old(form)@.body,
        old(form).focus is Body ==> final(form)@.title == old(form)@.title,
        old(form).focus is Title && (key == Key::Tab || key == Key::Enter) ==> final(form).focus is Body,
        old(form).focus is Title && key is Char && !chars::control(key->Char_0)
            && old(form)@.title.text.len() < old(form)@.title.max_len ==> final(form)@.title.text
            == old(form)@.title.text.insert(old(form)@.title.cursor, key->Char_0),
        old(form).focus is Body && key == Key::Enter && old(form)@.body.len()
            < old(form)@.body.max_chars ==> final(form)@.body.lines.len()
            == old(form)@.body.lines.len() + 1,
{
}

/// A blank text is not sent, and the form says so.
pub proof fn law_blank_posts_stay(form: &mut Compose, r: ComposeEvent)
    requires
        call_ensures(Compose::handle, (form, Key::Ctrl('d')), r),
        !old(form).busy,
        ({
            let text = chars::joined(old(form).body@.lines, "\n"@);
            forall|i: int| 0 <= i < text.len() ==> #[trigger] text[i] == ' ' || text[i] == '\n'
        }),
    ensures
        r is Nothing,
        final(form).focus is Body,
        final(form)@.error == Some("The message is empty."@),
        !final(form).busy,
{
    clean::lemma_blank_text(chars::joined(old(form).body@.lines, "\n"@));
}

/// The forms begin empty, about the board or the thread they are opened for.
pub proof fn law_forms_begin_empty(board_id: i64, thread_id: i64, title: &str, thread: Compose, reply: Compose)
    requires
        call_ensures(Compose::new_thread, (board_id,), thread),
        call_ensures(Compose::reply, (thread_id, title, None::<(&str, &str, &str)>), reply),
    ensures
        thread.kind == (Kind::NewThread { board_id }),
        thread.focus is Title,
        thread.title@.text.len() == 0,
        thread.body@.lines == seq![Seq::<char>::empty()],
        !thread.busy,
        reply.kind == (Kind::Reply { thread_id }),
        reply.focus is Body,
        reply.body@.lines == seq![Seq::<char>::empty()],
        reply.heading@ == "Reply to: "@ + title@,
        !reply.busy,
{
}

/// A refused post stays as it was written, with the reason.
pub proof fn law_refusals_are_told(form: &mut Compose, why: String, shown: &Compose, told: (String, Color))
    ensures
        call_ensures(Compose::fail, (form, why), ()) ==> !final(form).busy && final(form)@.error
            == Some(why@) && final(form)@.body == old(form)@.body && final(form)@.title
            == old(form)@.title && final(form).kind == old(form).kind,
        call_ensures(Compose::status, (shown,), told) && !shown.busy && shown.error is Some
            ==> told.0@ == shown.error->Some_0@ && told.1 is Red,
{
}

// --------------------------------------------------------------------- the quote

/// No line break in it.
pub open spec fn unbroken(s: Seq<char>) -> bool {
    forall|i: int| 0 <= i < s.len() ==> #[trigger] s[i] != '\n'
}

proof fn lemma_split_extend(s: Seq<char>, l: Seq<char>)
    requires
        unbroken(l),
    ensures
        chars::split(s + l, '\n') == chars::split(s, '\n').drop_last().push(
            chars::split(s, '\n').last() + l,
        ),
    decreases l.len(),
{
    chars::lemma_split_nonempty(s, '\n');
    let before = chars::split(s, '\n');
    if l.len() == 0 {
        assert(s + l =~= s);
        assert(before.last() + l =~= before.last());
        assert(before.drop_last().push(before.last()) =~= before);
    } else {
        let m = l.drop_last();
        assert(unbroken(m)) by {
            assert forall|i: int| 0 <= i < m.len() implies #[trigger] m[i] != '\n' by {
                assert(l[i] == m[i]);
            }
        }
        lemma_split_extend(s, m);
        assert((s + l).drop_last() =~= s + m);
        assert((s + l).last() == l.last());
        assert(l[l.len() - 1] != '\n');
        let grown = before.drop_last().push(before.last() + m);
        assert(grown.drop_last() =~= before.drop_last());
        assert((before.last() + m).push(l.last()) =~= before.last() + l);
    }
}

proof fn lemma_split_end(s: Seq<char>)
    ensures
        chars::split(s + "\n"@, '\n') == chars::split(s, '\n').push(Seq::empty()),
{
    reveal_strlit("\n");
    assert((s + "\n"@).drop_last() =~= s);
}

/// A quoted line: marked, or left blank.
pub open spec fn marked(line: Seq<char>) -> Seq<char> {
    if line.len() > 0 {
        "> "@ + line
    } else {
        Seq::empty()
    }
}

proof fn lemma_quoted(head: Seq<char>, first: Seq<char>, lines: Seq<Seq<char>>)
    requires
        chars::split(head, '\n') == seq![first, Seq::<char>::empty()],
        clean::all_clean(lines),
    ensures
        chars::split(head + compose::quoted_lines(lines), '\n') == (seq![first]
            + lines.map_values(|l: Seq<char>| marked(l))).push(Seq::empty()),
    decreases lines.len(),
{
    let all = (seq![first] + lines.map_values(|l: Seq<char>| marked(l))).push(Seq::empty());
    if lines.len() == 0 {
        assert(head + compose::quoted_lines(lines) =~= head);
        assert(all =~= seq![first, Seq::<char>::empty()]);
    } else {
        let front = lines.drop_last();
        assert forall|i: int| 0 <= i < front.len() implies clean::clean(#[trigger] front[i]) by {
            assert(front[i] == lines[i]);
        }
        lemma_quoted(head, first, front);
        let line = lines.last();
        assert(clean::clean(lines[lines.len() - 1]));
        reveal_strlit("> ");
        let l = marked(line);
        assert(unbroken(l)) by {
            assert forall|i: int| 0 <= i < l.len() implies #[trigger] l[i] != '\n' by {
                if i >= 2 {
                    assert(l[i] == line[i - 2]);
                    assert(!chars::control(line[i - 2]));
                }
            }
        }
        let before = head + compose::quoted_lines(front);
        lemma_split_extend(before, l);
        lemma_split_end(before + l);
        assert(head + compose::quoted_lines(lines) =~= before + l + "\n"@);
        assert(Seq::<char>::empty() + l =~= l);
        assert(chars::split(before + l + "\n"@, '\n') =~= all);
    }
}

/// A quote names the author and the time, then gives every line that they
/// wrote, in order, with a mark before it where it is not blank, and ends in a
/// line to write on.
#[verifier::rlimit(50)]
pub proof fn law_quotes_give_every_line(
    author: &str,
    created: &str,
    body: &str,
    lines: Seq<Seq<char>>,
    r: String,
    i: int,
)
    requires
        call_ensures(compose::quote, (author, created, body), r),
        unbroken(author@),
        unbroken(created@),
        lines.len() > 0,
        clean::all_clean(lines),
        lines.last().len() > 0,
        body@ == chars::joined(lines, "\n"@),
    ensures
        ({
            let quoted = chars::split(r@, '\n');
            &&& quoted.len() == lines.len() + 3
            &&& quoted[0] == "On "@ + created@ + ", "@ + author@ + " wrote:"@
            &&& 0 <= i < lines.len() && lines[i].len() > 0 ==> quoted[i + 1] == "> "@ + lines[i]
            &&& 0 <= i < lines.len() && lines[i].len() == 0 ==> quoted[i + 1].len() == 0
            &&& quoted[lines.len() as int + 1].len() == 0
            &&& quoted[lines.len() as int + 2].len() == 0
        }),
{
    clean::lemma_split_joined(lines);
    let ended = lines.drop_last().map_values(|l: Seq<char>| chars::without_cr(l));
    assert(ended =~= lines.drop_last()) by {
        assert forall|k: int| 0 <= k < ended.len() implies ended[k] == lines.drop_last()[k] by {
            let l = lines[k];
            assert(clean::clean(l));
            if l.len() > 0 {
                assert(!chars::control(l[l.len() - 1]));
            }
        }
    }
    assert(chars::lines(body@) =~= lines);
    reveal_strlit("On ");
    reveal_strlit(", ");
    reveal_strlit(" wrote:");
    reveal_strlit(" wrote:\n");
    reveal_strlit("\n");
    let first = "On "@ + created@ + ", "@ + author@ + " wrote:"@;
    let head = "On "@ + created@ + ", "@ + author@ + " wrote:\n"@;
    assert(head =~= first + "\n"@);
    assert(unbroken(first)) by {
        let a = "On "@ + created@ + ", "@;
        assert forall|k: int| 0 <= k < a.len() implies #[trigger] a[k] != '\n' by {
            if 3 <= k < 3 + created@.len() {
                assert(a[k] == created@[k - 3]);
            }
        }
        let b = a + author@;
        assert forall|k: int| 0 <= k < b.len() implies #[trigger] b[k] != '\n' by {
            if k < a.len() {
                assert(b[k] == a[k]);
            } else {
                assert(b[k] == author@[k - a.len()]);
            }
        }
        assert forall|k: int| 0 <= k < first.len() implies #[trigger] first[k] != '\n' by {
            if k < b.len() {
                assert(first[k] == b[k]);
            } else {
                assert(first[k] == " wrote:"@[k - b.len()]);
            }
        }
    }
    lemma_split_extend(Seq::empty(), first);
    assert(Seq::<char>::empty() + first =~= first);
    assert(chars::split(first, '\n') =~= seq![first]);
    lemma_split_end(first);
    assert(chars::split(head, '\n') =~= seq![first, Seq::<char>::empty()]);
    lemma_quoted(head, first, lines);
    lemma_split_end(head + compose::quoted_lines(lines));
}

// -------------------------------------------------------------------- in the app

/// What the form sends is what is asked for, and giving up leads back to
/// where the form was opened.
pub proof fn law_posts_are_handed_on(
    app: &mut App,
    form: &mut Compose,
    key: Key,
    event: ComposeEvent,
    r: Option<Action>,
)
    requires
        call_ensures(App::handle_key, (app, key), r),
        call_ensures(Compose::handle, (form, key), event),
        old(app).motd_popup is None,
        old(app).screen is Compose,
        old(form)@ == old(app).screen->Compose_0.compose@,
    ensures
        match event {
            ComposeEvent::Nothing => r is None && final(app).screen is Compose,
            ComposeEvent::Cancel => r is None && final(app).screen.scene()
                == old(app).screen->Compose_0.back.scene(),
            ComposeEvent::Submit(request) => r matches Some(Action::Request(asked)) && asked@
                == request@,
        },
{
}

/// n in a list of threads opens a form for that board; r in a thread one for
/// that thread. Guests are told that they can't post.
pub proof fn law_forms_are_opened(app: &mut App, key: Key, r: Option<Action>)
    requires
        call_ensures(App::handle_key, (app, key), r),
        old(app).motd_popup is None,
    ensures
        old(app).screen is Threads && !old(app).screen->Threads_0.confirm_delete && key
            == Key::Char('n') ==> r is None && if old(app).identity is Guest {
            final(app).screen is Threads && final(app).status is Some && final(app).status->Some_0.is_error
        } else {
            final(app).screen is Compose && final(app).screen->Compose_0.compose.kind
                == Kind::NewThread { board_id: old(app).screen->Threads_0.board_id } && final(app).screen->Compose_0.back is Threads
        },
        old(app).screen is Thread && old(app).screen->Thread_0.loaded && old(app).screen->Thread_0.delete_prompt is None && key == Key::Char('r') ==> r is None && if old(app).identity is Guest {
            final(app).screen is Thread && final(app).status is Some && final(app).status->Some_0.is_error
        } else {
            final(app).screen is Compose && final(app).screen->Compose_0.compose.kind
                == Kind::Reply { thread_id: old(app).screen->Thread_0.thread_id } && final(app).screen->Compose_0.back is Thread
        },
{
    reveal_with_fuel(Screen::scene, 3);
    let to = final(app).screen;
    assert(to.scene() == final(app)@.session.scene);
    if to is Compose {
        let back = to->Compose_0.back;
        assert(to.scene() == Scene::Compose(to->Compose_0.compose@, Box::new(back.scene())));
    }
}

} // verus!
