//! Laws of word-wrapping.

use vstd::prelude::*;

use crate::chars;
use crate::ui::text;
use crate::ui::text::{Flow, WordModel};

verus! {

/// What a text shows: its characters without spaces and line feeds.
pub open spec fn ink(s: Seq<char>) -> Seq<char>
    decreases s.len(),
{
    if s.len() == 0 {
        Seq::empty()
    } else if s.last() == ' ' || s.last() == '\n' {
        ink(s.drop_last())
    } else {
        ink(s.drop_last()).push(s.last())
    }
}

/// What lines show, one after the other.
pub open spec fn ink_lines(ls: Seq<Seq<char>>) -> Seq<char>
    decreases ls.len(),
{
    if ls.len() == 0 {
        Seq::empty()
    } else {
        ink_lines(ls.drop_last()) + ink(ls.last())
    }
}

proof fn lemma_ink_concat(a: Seq<char>, b: Seq<char>)
    ensures
        ink(a + b) == ink(a) + ink(b),
    decreases b.len(),
{
    if b.len() == 0 {
        assert(a + b =~= a);
    } else {
        lemma_ink_concat(a, b.drop_last());
        assert((a + b).drop_last() =~= a + b.drop_last());
        assert((a + b).last() == b.last());
        assert(ink(a + b) =~= ink(a) + ink(b));
    }
}

proof fn lemma_ink_push(a: Seq<char>, c: char)
    ensures
        c == ' ' || c == '\n' ==> ink(a.push(c)) == ink(a),
        c != ' ' && c != '\n' ==> ink(a.push(c)) == ink(a).push(c),
{
    assert(a.push(c).drop_last() =~= a);
}

proof fn lemma_ink_of_spaces(s: Seq<char>)
    requires
        forall|i: int| 0 <= i < s.len() ==> #[trigger] s[i] == ' ',
    ensures
        ink(s) == Seq::<char>::empty(),
    decreases s.len(),
{
    if s.len() > 0 {
        assert(s[s.len() - 1] == ' ');
        assert forall|i: int| 0 <= i < s.drop_last().len() implies #[trigger] s.drop_last()[i]
            == ' ' by {
            assert(s[i] == s.drop_last()[i]);
        }
        lemma_ink_of_spaces(s.drop_last());
    }
}

proof fn lemma_ink_lines_push(ls: Seq<Seq<char>>, l: Seq<char>)
    ensures
        ink_lines(ls.push(l)) == ink_lines(ls) + ink(l),
{
    assert(ls.push(l).drop_last() =~= ls);
}

proof fn lemma_ink_lines_concat(a: Seq<Seq<char>>, b: Seq<Seq<char>>)
    ensures
        ink_lines(a + b) == ink_lines(a) + ink_lines(b),
    decreases b.len(),
{
    if b.len() == 0 {
        assert(a + b =~= a);
        assert(ink_lines(a) + ink_lines(b) =~= ink_lines(a));
    } else {
        lemma_ink_lines_concat(a, b.drop_last());
        assert((a + b).drop_last() =~= a + b.drop_last());
        assert(ink_lines(a + b) =~= ink_lines(a) + ink_lines(b));
    }
}

/// What stands on the lines of a paragraph so far.
spec fn flow_ink(f: Flow) -> Seq<char> {
    ink_lines(f.done) + ink(f.line)
}

proof fn lemma_broken_ink(f: Flow, indent: int)
    requires
        indent >= 0,
    ensures
        flow_ink(f.broken(indent)) == flow_ink(f),
{
    lemma_ink_lines_push(f.done, f.line);
    lemma_ink_of_spaces(chars::spaces(indent as nat));
    assert(flow_ink(f.broken(indent)) =~= flow_ink(f));
}

proof fn lemma_chars_ink(f: Flow, w: WordModel, n: int, indent: int, width: int)
    requires
        0 <= n <= w.text.len(),
        indent >= 0,
    ensures
        flow_ink(f.with_chars(w, n, indent, width)) == flow_ink(f) + ink(w.text.take(n)),
    decreases n,
{
    if n == 0 {
        assert(flow_ink(f) + ink(w.text.take(n)) =~= flow_ink(f));
    } else {
        let before = f.with_chars(w, n - 1, indent, width);
        lemma_chars_ink(f, w, n - 1, indent, width);
        lemma_broken_ink(before, indent);
        let from = if before.width + w.columns[n - 1] > width {
            before.broken(indent)
        } else {
            before
        };
        lemma_ink_push(from.line, w.text[n - 1]);
        lemma_ink_push(w.text.take(n - 1), w.text[n - 1]);
        assert(w.text.take(n) =~= w.text.take(n - 1).push(w.text[n - 1]));
        let now = f.with_chars(w, n, indent, width);
        let c = w.text[n - 1];
        assert(now.done == from.done && now.line == from.line.push(c));
        if c == ' ' || c == '\n' {
            assert(flow_ink(now) =~= flow_ink(from));
        } else {
            assert(flow_ink(now) =~= flow_ink(from).push(c));
            assert(flow_ink(f) + ink(w.text.take(n)) =~= (flow_ink(f) + ink(
                w.text.take(n - 1),
            )).push(c));
        }
    }
}

proof fn lemma_word_ink(f: Flow, w: WordModel, indent: int, width: int)
    requires
        indent >= 0,
    ensures
        flow_ink(f.with_word(w, indent, width)) == flow_ink(f) + ink(w.text),
{
    let from = if f.width > indent && f.width + 1 + w.width > width {
        f.broken(indent)
    } else {
        f
    };
    lemma_broken_ink(f, indent);
    let spaced = if from.width > indent {
        Flow { line: from.line.push(' '), width: from.width + 1, ..from }
    } else {
        from
    };
    lemma_ink_push(from.line, ' ');
    assert(flow_ink(spaced) == flow_ink(f));
    lemma_chars_ink(spaced, w, w.text.len() as int, indent, width);
    assert(w.text.take(w.text.len() as int) =~= w.text);
    lemma_ink_concat(spaced.line, w.text);
    assert(flow_ink(f.with_word(w, indent, width)) =~= flow_ink(f) + ink(w.text));
}

spec fn word_texts(ws: Seq<WordModel>) -> Seq<Seq<char>> {
    ws.map_values(|w: WordModel| w.text)
}

proof fn lemma_words_ink(ws: Seq<WordModel>, indent: int, width: int)
    requires
        indent >= 0,
    ensures
        flow_ink(Flow::of_words(ws, indent, width)) == ink_lines(word_texts(ws)),
    decreases ws.len(),
{
    if ws.len() == 0 {
        lemma_ink_of_spaces(chars::spaces(indent as nat));
        assert(flow_ink(Flow::of_words(ws, indent, width)) =~= ink_lines(word_texts(ws)));
    } else {
        lemma_words_ink(ws.drop_last(), indent, width);
        lemma_word_ink(Flow::of_words(ws.drop_last(), indent, width), ws.last(), indent, width);
        assert(word_texts(ws).drop_last() =~= word_texts(ws.drop_last()));
    }
}

proof fn lemma_split_ink(s: Seq<char>, sep: char)
    requires
        sep == ' ' || sep == '\n',
    ensures
        ink_lines(chars::split(s, sep)) == ink(s),
    decreases s.len(),
{
    if s.len() == 0 {
        let one = seq![Seq::<char>::empty()];
        assert(one.drop_last() =~= Seq::empty());
        assert(ink_lines(one.drop_last()) =~= Seq::empty());
        assert(ink_lines(one) =~= ink(s));
    } else {
        let before = chars::split(s.drop_last(), sep);
        lemma_split_ink(s.drop_last(), sep);
        chars::lemma_split_nonempty(s.drop_last(), sep);
        if s.last() == sep {
            lemma_ink_lines_push(before, Seq::empty());
            assert(ink_lines(chars::split(s, sep)) =~= ink(s));
        } else {
            lemma_ink_lines_push(before.drop_last(), before.last().push(s.last()));
            lemma_ink_push(before.last(), s.last());
            assert(ink_lines(chars::split(s, sep)) =~= ink(s));
        }
    }
}

proof fn lemma_paragraph_ink(p: Seq<char>, width: int)
    requires
        width >= 1,
    ensures
        ink_lines(text::paragraph_lines(text::measured_paragraph(p), width)) == ink(p),
{
    let m = text::measured_paragraph(p);
    text::lemma_leading_spaces(p);
    if m.width <= width {
        let none = Seq::<Seq<char>>::empty();
        lemma_ink_lines_push(none, p);
        assert(none.push(p) =~= seq![p]);
        assert(ink_lines(none) + ink(p) =~= ink(p));
    } else {
        let k = text::leading_spaces(p);
        let indent = text::indent_of(p, width);
        let rest = p.skip(k);
        lemma_words_ink(m.words, indent, width);
        assert(word_texts(m.words) =~= chars::split(rest, ' '));
        lemma_split_ink(rest, ' ');
        lemma_ink_of_spaces(p.take(k));
        lemma_ink_concat(p.take(k), rest);
        assert(p.take(k) + rest =~= p);
        assert(ink(p.take(k)) + ink(rest) =~= ink(rest));
        let flow = Flow::of_words(m.words, indent, width);
        lemma_ink_lines_push(flow.done, flow.line);
    }
}

proof fn lemma_layout_ink(ps: Seq<Seq<char>>, width: int)
    requires
        width >= 1,
    ensures
        ink_lines(
            text::laid_out(ps.map_values(|p: Seq<char>| text::measured_paragraph(p)), width),
        ) == ink_lines(ps),
    decreases ps.len(),
{
    let ms = ps.map_values(|p: Seq<char>| text::measured_paragraph(p));
    if ps.len() > 0 {
        let front = ps.drop_last();
        lemma_layout_ink(front, width);
        assert(ms.drop_last() =~= front.map_values(|p: Seq<char>| text::measured_paragraph(p)));
        lemma_paragraph_ink(ps.last(), width);
        lemma_ink_lines_concat(
            text::laid_out(ms.drop_last(), width),
            text::paragraph_lines(ms.last(), width),
        );
    } else {
        assert(text::laid_out(ms, width) =~= Seq::empty());
    }
}

/// Wrapping loses, adds and reorders nothing but spaces and line breaks.
pub proof fn law_wrap_keeps_what_is_shown(s: Seq<char>, width: int)
    ensures
        ink_lines(text::wrapped(s, width)) == ink(s),
{
    lemma_layout_ink(chars::split(s, '\n'), text::columns_at_least_one(width));
    lemma_split_ink(s, '\n');
}

proof fn lemma_layout_fitting(ps: Seq<Seq<char>>, width: int)
    requires
        forall|i: int| 0 <= i < ps.len() ==> text::text_columns(#[trigger] ps[i]) <= width,
    ensures
        text::laid_out(ps.map_values(|p: Seq<char>| text::measured_paragraph(p)), width) == ps,
    decreases ps.len(),
{
    let ms = ps.map_values(|p: Seq<char>| text::measured_paragraph(p));
    if ps.len() > 0 {
        let front = ps.drop_last();
        assert forall|i: int| 0 <= i < front.len() implies text::text_columns(#[trigger] front[i])
            <= width by {
            assert(front[i] == ps[i]);
        }
        lemma_layout_fitting(front, width);
        assert(ms.drop_last() =~= front.map_values(|p: Seq<char>| text::measured_paragraph(p)));
        assert(text::text_columns(ps[ps.len() - 1]) <= width);
        assert(front + seq![ps.last()] =~= ps);
    } else {
        assert(text::laid_out(ms, width) =~= ps);
    }
}

/// No line of a wrapped text takes more than `width` columns, wherever the
/// widths of characters add up to no more than those of their words and
/// every character has room behind the indent. (Of plain text, where both
/// hold, `wrap` itself says so.)
pub proof fn law_wrapped_lines_fit(s: Seq<char>, width: int)
    requires
        width >= 1,
        text::columns_or_none(' ') == 1,
        forall|i: int|
            0 <= i < text::measured(s).len() ==> (#[trigger] text::measured(s)[i]).adds_up(
                |c: char| text::columns_or_none(c) as int,
                width,
            ),
    ensures
        forall|i: int|
            0 <= i < text::wrapped(s, width).len() ==> text::line_columns(
                #[trigger] text::wrapped(s, width)[i],
                |c: char| text::columns_or_none(c) as int,
            ) <= width,
{
    text::lemma_lines_fit(
        text::measured(s),
        width,
        |c: char| text::columns_or_none(c) as int,
    );
}

/// A text whose lines all fit is returned line by line, untouched.
pub proof fn law_fitting_lines_are_kept(s: Seq<char>, width: int)
    requires
        forall|i: int|
            0 <= i < chars::split(s, '\n').len() ==> text::text_columns(
                #[trigger] chars::split(s, '\n')[i],
            ) <= width,
        width >= 1,
    ensures
        text::wrapped(s, width) == chars::split(s, '\n'),
{
    lemma_layout_fitting(chars::split(s, '\n'), width);
}

} // verus!
