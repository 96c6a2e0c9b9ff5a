//! Laws of the post editor.

use vstd::prelude::*;

use crate::chars;
use crate::content;
use crate::laws::content as clean;
use crate::ui::compose;
use crate::ui::compose::{Area, Composed, Draft};
use crate::ui::input::Key;
use crate::ui::protocol::Ask;

verus! {

/// Text that can be typed: no control characters but line feeds.
pub open spec fn typable(text: Seq<char>) -> bool {
    forall|i: int| 0 <= i < text.len() ==> (#[trigger] text[i] == '\n' || !chars::control(text[i]))
}

/// `s` with line breaks and spaces told apart no longer.
pub open spec fn flat(s: Seq<char>) -> Seq<char> {
    s.map_values(|c: char| if c == '\n' { ' ' } else { c })
}

/// A line that fits, or that has no place to break it at.
pub open spec fn fits(line: Seq<char>) -> bool {
    line.len() <= content::WRAP_COLS || compose::last_space(line) <= 0
}

pub open spec fn all_fit(lines: Seq<Seq<char>>) -> bool {
    forall|i: int| 0 <= i < lines.len() ==> fits(#[trigger] lines[i])
}

/// The cursor is behind everything that was written.
spec fn at_end(a: Area) -> bool {
    a.row == a.lines.len() - 1 && a.col == a.line().len()
}

/// What stands before the last line.
spec fn before_last(lines: Seq<Seq<char>>) -> Seq<char> {
    if lines.len() == 1 {
        Seq::empty()
    } else {
        chars::joined(lines.drop_last(), "\n"@) + "\n"@
    }
}

proof fn lemma_joined_last(lines: Seq<Seq<char>>)
    requires
        lines.len() > 0,
    ensures
        chars::joined(lines, "\n"@) == before_last(lines) + lines.last(),
{
    if lines.len() == 1 {
        assert(before_last(lines) + lines.last() =~= lines[0]);
    }
}

proof fn lemma_joined_push(lines: Seq<Seq<char>>, line: Seq<char>)
    requires
        lines.len() > 0,
    ensures
        chars::joined(lines.push(line), "\n"@) == chars::joined(lines, "\n"@) + "\n"@ + line,
{
    assert(lines.push(line).drop_last() =~= lines);
}

proof fn lemma_last_space_of(line: Seq<char>, i: int)
    requires
        -1 <= i < line.len(),
        i >= 0 ==> line[i] == ' ',
        forall|j: int| i < j < line.len() ==> #[trigger] line[j] != ' ',
    ensures
        compose::last_space(line) == i,
{
    compose::lemma_last_space(line);
}

/// One character typed at the end.
proof fn lemma_char_at_end(a: Area, c: char)
    requires
        a.wf(),
        at_end(a),
        a.len() < a.max_chars,
        all_fit(a.lines),
        c != '\n',
    ensures
        ({
            let b = a.with_char(c);
            &&& b.wf()
            &&& at_end(b)
            &&& b.len() == a.len() + 1
            &&& flat(b.value()) == flat(a.value()).push(c)
            &&& all_fit(b.lines)
        }),
{
    reveal_strlit("\n");
    let b = a.with_char(c);
    compose::lemma_with_char_wf(a, c);
    let last = a.row;
    let line = a.line().insert(a.col, c);
    assert(line =~= a.line().push(c));
    compose::lemma_last_space(line);
    compose::lemma_last_space(a.line());
    let at = compose::last_space(line);
    lemma_joined_last(a.lines);
    let head = before_last(a.lines);
    assert(fits(a.lines[last]));
    if line.len() > content::WRAP_COLS && at > 0 {
        let cut = a.lines.update(last, line.take(at));
        assert(cut.insert(last + 1, line.skip(at + 1)) =~= cut.push(line.skip(at + 1)));
        lemma_joined_push(cut, line.skip(at + 1));
        lemma_joined_last(cut);
        assert(cut.drop_last() =~= a.lines.drop_last());
        assert(b.value() == head + line.take(at) + "\n"@ + line.skip(at + 1));
        assert(flat(b.value()) =~= flat(a.value()).push(c));
        lemma_last_space_of(line.skip(at + 1), -1);
        assert(fits(line.skip(at + 1)));
        assert(fits(line.take(at))) by {
            if a.line().len() > content::WRAP_COLS {
                assert(at == line.len() - 1) by {
                    if at < line.len() - 1 {
                        assert(a.line()[at] == ' ');
                    }
                }
                assert(line.take(at) =~= a.line());
            }
        }
        assert forall|i: int| 0 <= i < b.lines.len() implies fits(#[trigger] b.lines[i]) by {
            if i < last {
                assert(b.lines[i] == a.lines[i]);
            }
        }
    } else {
        assert(b.lines.drop_last() =~= a.lines.drop_last());
        lemma_joined_last(b.lines);
        assert(flat(b.value()) =~= flat(a.value()).push(c));
        assert forall|i: int| 0 <= i < b.lines.len() implies fits(#[trigger] b.lines[i]) by {
            if i < last {
                assert(b.lines[i] == a.lines[i]);
            }
        }
    }
}

proof fn lemma_newline_at_end(a: Area)
    requires
        a.wf(),
        at_end(a),
        a.len() < a.max_chars,
        all_fit(a.lines),
    ensures
        ({
            let b = a.with_newline();
            &&& b.wf()
            &&& at_end(b)
            &&& b.len() == a.len() + 1
            &&& flat(b.value()) == flat(a.value()).push(' ')
            &&& all_fit(b.lines)
        }),
{
    reveal_strlit("\n");
    let b = a.with_newline();
    compose::lemma_with_newline_wf(a);
    assert(a.line().take(a.col) =~= a.line());
    assert(a.line().skip(a.col) =~= Seq::empty());
    assert(b.lines =~= a.lines.push(Seq::empty()));
    lemma_joined_push(a.lines, Seq::empty());
    assert(flat(b.value()) =~= flat(a.value()).push(' '));
    assert forall|i: int| 0 <= i < b.lines.len() implies fits(#[trigger] b.lines[i]) by {
        if i < a.lines.len() {
            assert(b.lines[i] == a.lines[i]);
        }
    }
}

proof fn lemma_typed(max_chars: nat, text: Seq<char>)
    requires
        typable(text),
        text.len() <= max_chars,
    ensures
        ({
            let a = Area::empty(max_chars).typed(text);
            &&& a.wf()
            &&& a.max_chars == max_chars
            &&& at_end(a)
            &&& a.len() == text.len()
            &&& flat(a.value()) == flat(text)
            &&& all_fit(a.lines)
        }),
    decreases text.len(),
{
    let start = Area::empty(max_chars);
    if text.len() == 0 {
        assert(start.lines.drop_last() =~= Seq::empty());
        assert(compose::total_len(start.lines.drop_last()) == 0);
        assert(flat(start.value()) =~= flat(text));
    } else {
        let front = text.drop_last();
        assert forall|i: int| 0 <= i < front.len() implies (#[trigger] front[i] == '\n'
            || !chars::control(front[i])) by {
            assert(text[i] == front[i]);
        }
        lemma_typed(max_chars, front);
        let a = start.typed(front);
        let c = text.last();
        assert(text[text.len() - 1] == c);
        if c == '\n' {
            lemma_newline_at_end(a);
        } else {
            lemma_char_at_end(a, c);
        }
        compose::lemma_after_wf(a, Area::key_for(c));
        assert(flat(text) =~= flat(front).push(if c == '\n' { ' ' } else { c }));
    }
}

/// What is written into the editor is what it holds: word-wrap turns a space
/// into a line break and does nothing else.
pub proof fn law_typing_keeps_the_text(max_chars: nat, text: Seq<char>)
    requires
        typable(text),
        text.len() <= max_chars,
    ensures
        flat(Area::empty(max_chars).typed(text).value()) == flat(text),
        Area::empty(max_chars).typed(text).len() == text.len(),
{
    lemma_typed(max_chars, text);
}

/// Every line that was written fits the wrap column, unless it holds no
/// space to break it at behind its first character.
pub proof fn law_written_lines_fit(max_chars: nat, text: Seq<char>)
    requires
        typable(text),
        text.len() <= max_chars,
    ensures
        all_fit(Area::empty(max_chars).typed(text).lines),
{
    lemma_typed(max_chars, text);
}

/// A token with no space in it stays on one line, however long it is.
pub proof fn law_unbreakable_token_stays_whole(max_chars: nat, token: Seq<char>)
    requires
        typable(token),
        forall|i: int| 0 <= i < token.len() ==> #[trigger] token[i] != ' ' && token[i] != '\n',
        token.len() <= max_chars,
    ensures
        Area::empty(max_chars).typed(token).lines == seq![token],
        Area::empty(max_chars).typed(token).value() == token,
    decreases token.len(),
{
    let start = Area::empty(max_chars);
    if token.len() == 0 {
        assert(token =~= Seq::empty());
    } else {
        let front = token.drop_last();
        assert forall|i: int| 0 <= i < front.len() implies #[trigger] front[i] != ' ' && front[i]
            != '\n' by {
            assert(token[i] == front[i]);
        }
        assert forall|i: int| 0 <= i < front.len() implies (#[trigger] front[i] == '\n'
            || !chars::control(front[i])) by {
            assert(token[i] == front[i]);
        }
        law_unbreakable_token_stays_whole(max_chars, front);
        lemma_typed(max_chars, front);
        let a = start.typed(front);
        let c = token.last();
        assert(token[token.len() - 1] == c);
        let line = a.line().insert(a.col, c);
        assert(line =~= token);
        lemma_last_space_of(token, -1);
        assert(start.typed(token).lines =~= seq![token]);
    }
}

/// Tab switches between title and message of a new thread, and changes
/// nothing else: twice is back to where it was.
pub proof fn law_tab_switches_fields(form: Draft)
    requires
        !form.busy,
        form.kind is NewThread,
    ensures
        form.after(Key::Tab).0.focus != form.focus,
        form.after(Key::Tab).0 == (Draft { focus: form.after(Key::Tab).0.focus, ..form }),
        form.after(Key::Tab).0.after(Key::Tab).0 == form,
{
}

/// While a post is being sent, keys change nothing.
pub proof fn law_busy_form_ignores_keys(d: Draft, key: Key)
    requires
        d.busy,
    ensures
        d.after(key) == (d, Composed::Nothing),
{
}

/// What the form sends has been cleaned: the server's own cleaning accepts
/// it and changes nothing.
pub proof fn law_submitted_posts_are_clean(d: Draft, key: Key)
    ensures
        d.after(key).1 matches Composed::Submit(ask) ==> match ask {
            Ask::Reply { body, .. } => content::body_of(body) == Ok::<
                Seq<char>,
                Seq<char>,
            >(body),
            Ask::CreateThread { title, body, .. } => content::title_of(title)
                == Ok::<Seq<char>, Seq<char>>(title) && content::body_of(body) == Ok::<
                Seq<char>,
                Seq<char>,
            >(body),
            _ => false,
        },
{
    clean::law_accepted_texts_are_stable(d.body.value());
    clean::law_accepted_lines_are_stable(d.title.text);
}

} // verus!
