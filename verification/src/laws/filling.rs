//! Laws of setting text in lines.

use vstd::prelude::*;

use crate::chars;
use crate::ui::text;
use crate::ui::text::{Flow, WordModel};

verus! {

/// A word: something on its own, with neither spaces nor line breaks in it.
pub open spec fn word(w: Seq<char>) -> bool {
    &&& w.len() > 0
    &&& forall|i: int| 0 <= i < w.len() ==> #[trigger] w[i] != ' ' && w[i] != '\n'
}

/// The columns that the words from `a` up to `b` take on a line, with a space
/// between any two.
pub open spec fn run(ws: Seq<Seq<char>>, a: int, b: int) -> int
    decreases b - a,
{
    if b <= a {
        0
    } else if b == a + 1 {
        text::text_columns(ws[a]) as int
    } else {
        run(ws, a, b - 1) + 1 + text::text_columns(ws[b - 1])
    }
}

/// `lines` hold the words in order, cut where `cuts` say; each line fits, and
/// holds as many words as fit.
pub open spec fn filled(
    ws: Seq<Seq<char>>,
    lines: Seq<Seq<char>>,
    cuts: Seq<int>,
    width: int,
) -> bool {
    &&& lines.len() > 0
    &&& cuts.len() == lines.len() + 1
    &&& cuts[0] == 0
    &&& cuts.last() == ws.len()
    &&& forall|k: int|
        0 <= k < lines.len() ==> 0 <= #[trigger] cuts[k] < cuts[k + 1] <= ws.len() && lines[k]
            == chars::joined(ws.subrange(cuts[k], cuts[k + 1]), " "@) && run(
            ws,
            cuts[k],
            cuts[k + 1],
        ) <= width
    &&& forall|k: int|
        0 <= k < lines.len() - 1 ==> run(ws, #[trigger] cuts[k], cuts[k + 1]) + 1
            + text::text_columns(ws[cuts[k + 1]]) > width
}

proof fn lemma_run_take(ws: Seq<Seq<char>>, n: int, a: int, b: int)
    requires
        0 <= a <= b <= n <= ws.len(),
    ensures
        run(ws.take(n), a, b) == run(ws, a, b),
    decreases b - a,
{
    if b > a + 1 {
        lemma_run_take(ws, n, a, b - 1);
    }
}

proof fn lemma_flow(ws: Seq<Seq<char>>, width: int) -> (cuts: Seq<int>)
    requires
        ws.len() > 0,
        width >= 1,
        forall|i: int| 0 <= i < ws.len() ==> word(#[trigger] ws[i]),
        forall|i: int| 0 <= i < ws.len() ==> 1 <= text::text_columns(#[trigger] ws[i]) <= width,
    ensures
        ({
            let flow = Flow::of_words(
                ws.map_values(|w: Seq<char>| text::measured_word(w)),
                0,
                width,
            );
            &&& filled(ws, flow.done.push(flow.line), cuts, width)
            &&& flow.width == run(ws, cuts[cuts.len() - 2], ws.len() as int)
            &&& flow.width >= 1
        }),
    decreases ws.len(),
{
    let models = ws.map_values(|w: Seq<char>| text::measured_word(w));
    let flow = Flow::of_words(models, 0, width);
    let n = ws.len() as int;
    let w = ws.last();
    assert(w == ws[n - 1]);
    assert(models.last() == text::measured_word(w));
    assert(chars::spaces(0) =~= Seq::<char>::empty());
    assert(Seq::<char>::empty() + w =~= w);
    if n == 1 {
        assert(models.drop_last() =~= Seq::<WordModel>::empty());
        reveal_with_fuel(Flow::of_words, 2);
        assert(flow.line == w);
        assert(flow.done.push(flow.line) =~= seq![w]);
        let cuts = seq![0int, 1int];
        assert(ws.subrange(0, 1) =~= ws);
        cuts
    } else {
        let front = ws.drop_last();
        assert forall|i: int| 0 <= i < front.len() implies word(#[trigger] front[i]) && 1
            <= text::text_columns(front[i]) <= width by {
            assert(front[i] == ws[i]);
        }
        let cuts = lemma_flow(front, width);
        let before = Flow::of_words(
            front.map_values(|w: Seq<char>| text::measured_word(w)),
            0,
            width,
        );
        assert(models.drop_last() =~= front.map_values(
            |w: Seq<char>| text::measured_word(w),
        ));
        let lines = before.done.push(before.line);
        let m = lines.len() as int;
        assert(front =~= ws.take(n - 1));
        assert forall|k: int| 0 <= k < m implies run(ws, #[trigger] cuts[k], cuts[k + 1]) == run(
            front,
            cuts[k],
            cuts[k + 1],
        ) && ws.subrange(cuts[k], cuts[k + 1]) == front.subrange(cuts[k], cuts[k + 1]) by {
            lemma_run_take(ws, n - 1, cuts[k], cuts[k + 1]);
            assert(ws.subrange(cuts[k], cuts[k + 1]) =~= front.subrange(cuts[k], cuts[k + 1]));
        }
        let after = flow.done.push(flow.line);
        let a = cuts[m - 1];
        assert(cuts[m] == n - 1);
        if before.width + 1 + text::text_columns(w) > width {
            let more = cuts.push(n);
            assert(flow.done == before.done.push(before.line));
            assert(flow.line == w);
            assert(after =~= lines.push(w));
            assert(ws.subrange(n - 1, n) =~= seq![w]);
            assert forall|k: int| 0 <= k < after.len() implies 0 <= #[trigger] more[k] < more[k + 1]
                <= ws.len() && after[k] == chars::joined(
                ws.subrange(more[k], more[k + 1]),
                " "@,
            ) && run(ws, more[k], more[k + 1]) <= width by {
                if k < m {
                    assert(more[k] == cuts[k]);
                    assert(more[k + 1] == cuts[k + 1]);
                    assert(after[k] == lines[k]);
                }
            }
            assert forall|k: int| 0 <= k < after.len() - 1 implies run(
                ws,
                #[trigger] more[k],
                more[k + 1],
            ) + 1 + text::text_columns(ws[more[k + 1]]) > width by {
                assert(more[k] == cuts[k]);
                assert(more[k + 1] == cuts[k + 1]);
                if k < m - 1 {
                    assert(cuts[k + 1] < cuts[k + 2]);
                    assert(front[cuts[k + 1]] == ws[cuts[k + 1]]);
                } else {
                    assert(ws[cuts[m]] == w);
                }
            }
            more
        } else {
            let more = cuts.update(m, n);
            reveal_strlit(" ");
            assert(" "@ =~= seq![' ']);
            assert(flow.done == before.done);
            assert(flow.line == before.line.push(' ') + w);
            assert(after =~= lines.update(m - 1, flow.line));
            let part = ws.subrange(a, n);
            assert(part.drop_last() =~= ws.subrange(a, n - 1));
            assert(part.last() == w);
            assert(before.line == chars::joined(ws.subrange(a, n - 1), " "@)) by {
                assert(lines[m - 1] == before.line);
            }
            assert(before.line.push(' ') + w =~= before.line + " "@ + w);
            assert(run(ws, a, n) == run(ws, a, n - 1) + 1 + text::text_columns(w));
            assert forall|k: int| 0 <= k < after.len() implies 0 <= #[trigger] more[k] < more[k + 1]
                <= ws.len() && after[k] == chars::joined(
                ws.subrange(more[k], more[k + 1]),
                " "@,
            ) && run(ws, more[k], more[k + 1]) <= width by {
                assert(more[k] == cuts[k]);
                if k < m - 1 {
                    assert(more[k + 1] == cuts[k + 1]);
                    assert(after[k] == lines[k]);
                }
            }
            assert forall|k: int| 0 <= k < after.len() - 1 implies run(
                ws,
                #[trigger] more[k],
                more[k + 1],
            ) + 1 + text::text_columns(ws[more[k + 1]]) > width by {
                assert(more[k] == cuts[k]);
                assert(more[k + 1] == cuts[k + 1]);
                assert(cuts[k + 1] < cuts[k + 2]);
                assert(front[cuts[k + 1]] == ws[cuts[k + 1]]);
            }
            more
        }
    }
}

proof fn lemma_split_extend(s: Seq<char>, l: Seq<char>, sep: char)
    requires
        forall|i: int| 0 <= i < l.len() ==> #[trigger] l[i] != sep,
    ensures
        chars::split(s + l, sep) == chars::split(s, sep).drop_last().push(
            chars::split(s, sep).last() + l,
        ),
    decreases l.len(),
{
    chars::lemma_split_nonempty(s, sep);
    let before = chars::split(s, sep);
    if l.len() == 0 {
        assert(s + l =~= s);
        assert(before.last() + l =~= before.last());
        assert(before.drop_last().push(before.last()) =~= before);
    } else {
        let m = l.drop_last();
        assert forall|i: int| 0 <= i < m.len() implies #[trigger] m[i] != sep by {
            assert(l[i] == m[i]);
        }
        lemma_split_extend(s, m, sep);
        assert((s + l).drop_last() =~= s + m);
        assert((s + l).last() == l.last());
        assert(l[l.len() - 1] != sep);
        let grown = before.drop_last().push(before.last() + m);
        assert(grown.drop_last() =~= before.drop_last());
        assert((before.last() + m).push(l.last()) =~= before.last() + l);
    }
}

proof fn lemma_words(ws: Seq<Seq<char>>)
    requires
        ws.len() > 0,
        forall|i: int| 0 <= i < ws.len() ==> word(#[trigger] ws[i]),
    ensures
        chars::split(chars::joined(ws, " "@), ' ') == ws,
        ({
            let s = chars::joined(ws, " "@);
            &&& s.len() > 0
            &&& s[0] != ' '
            &&& forall|i: int| 0 <= i < s.len() ==> #[trigger] s[i] != '\n'
        }),
    decreases ws.len(),
{
    reveal_strlit(" ");
    let s = chars::joined(ws, " "@);
    let w = ws.last();
    assert(word(ws[ws.len() - 1]));
    let none = Seq::<char>::empty();
    if ws.len() == 1 {
        lemma_split_extend(none, w, ' ');
        assert(none + w =~= w);
        assert(chars::split(none, ' ') == seq![none]);
        assert(chars::split(s, ' ') =~= ws);
        assert(s == ws[0]);
    } else {
        let front = ws.drop_last();
        assert forall|i: int| 0 <= i < front.len() implies word(#[trigger] front[i]) by {
            assert(front[i] == ws[i]);
        }
        lemma_words(front);
        let t = chars::joined(front, " "@);
        let u = t + " "@;
        assert(u.drop_last() =~= t);
        assert(u.last() == ' ');
        assert(chars::split(u, ' ') == front.push(none));
        lemma_split_extend(u, w, ' ');
        assert(none + w =~= w);
        assert(front.push(none).drop_last() =~= front);
        assert(front.push(w) =~= ws);
        assert(s == u + w);
        assert(s[0] == t[0]);
        assert forall|i: int| 0 <= i < s.len() implies #[trigger] s[i] != '\n' by {
            if i < t.len() {
                assert(s[i] == t[i]);
            } else if i > t.len() {
                assert(s[i] == w[i - t.len() - 1]);
            }
        }
    }
}

/// A paragraph that does not fit on a line, of words that each do, is set in
/// lines of whole words, in order, with a space between any two; no line is
/// too long, and none is broken where the next word would still have fitted.
pub proof fn law_lines_are_filled(
    text: &str,
    width: usize,
    ws: Seq<Seq<char>>,
    r: Vec<String>,
) -> (cuts: Seq<int>)
    requires
        call_ensures(text::wrap, (text, width), r),
        width >= 1,
        ws.len() > 0,
        forall|i: int| 0 <= i < ws.len() ==> word(#[trigger] ws[i]),
        forall|i: int| 0 <= i < ws.len() ==> 1 <= text::text_columns(#[trigger] ws[i]) <= width,
        text@ == chars::joined(ws, " "@),
        text::text_columns(text@) > width,
    ensures
        filled(ws, chars::string_texts(r@), cuts, width as int),
{
    lemma_words(ws);
    let s = text@;
    let none = Seq::<char>::empty();
    lemma_split_extend(none, s, '\n');
    assert(none + s =~= s);
    assert(chars::split(none, '\n') == seq![none]);
    assert(chars::split(s, '\n') =~= seq![s]);
    let p = text::measured_paragraph(s);
    assert(text::measured(s) =~= seq![p]);
    assert(text::leading_spaces(s) == 0);
    assert(s.skip(0) =~= s);
    let cuts = lemma_flow(ws, width as int);
    let flow = Flow::of_words(p.words, 0, width as int);
    reveal_with_fuel(text::laid_out, 2);
    assert(seq![p].drop_last() =~= Seq::<text::ParagraphModel>::empty());
    let lines = flow.done.push(flow.line);
    assert(text::paragraph_lines(p, width as int) == lines);
    assert(text::wrapped(s, width as int) =~= lines);
    cuts
}

proof fn lemma_split_break(a: Seq<char>, b: Seq<char>)
    ensures
        chars::split(a + seq!['\n'] + b, '\n') == chars::split(a, '\n') + chars::split(b, '\n'),
    decreases b.len(),
{
    let s = a + seq!['\n'] + b;
    let first = chars::split(a, '\n');
    let none = Seq::<char>::empty();
    if b.len() == 0 {
        assert(s.drop_last() =~= a);
        assert(s.last() == '\n');
        assert(chars::split(b, '\n') == seq![none]);
        assert(first.push(none) =~= first + seq![none]);
    } else {
        let front = b.drop_last();
        lemma_split_break(a, front);
        assert(s.drop_last() =~= a + seq!['\n'] + front);
        assert(s.last() == b.last());
        let then = chars::split(front, '\n');
        chars::lemma_split_nonempty(front, '\n');
        if b.last() == '\n' {
            assert((first + then).push(none) =~= first + then.push(none));
        } else {
            let l = then.last().push(b.last());
            assert((first + then).last() == then.last());
            assert((first + then).drop_last().push(l) =~= first + then.drop_last().push(l));
        }
    }
}

proof fn lemma_laid_out(a: Seq<text::ParagraphModel>, b: Seq<text::ParagraphModel>, width: int)
    ensures
        text::laid_out(a + b, width) == text::laid_out(a, width) + text::laid_out(b, width),
    decreases b.len(),
{
    if b.len() == 0 {
        assert(a + b =~= a);
        assert(text::laid_out(a, width) + text::laid_out(b, width) =~= text::laid_out(a, width));
    } else {
        lemma_laid_out(a, b.drop_last(), width);
        assert((a + b).drop_last() =~= a + b.drop_last());
        assert((a + b).last() == b.last());
        assert(text::laid_out(a + b, width) =~= text::laid_out(a, width) + text::laid_out(
            b,
            width,
        ));
    }
}

/// What stands before a line break and what stands behind it are set each by
/// itself.
pub proof fn law_paragraphs_are_set_apart(
    a: &str,
    b: &str,
    both: &str,
    width: usize,
    x: Vec<String>,
    y: Vec<String>,
    r: Vec<String>,
)
    requires
        call_ensures(text::wrap, (a, width), x),
        call_ensures(text::wrap, (b, width), y),
        call_ensures(text::wrap, (both, width), r),
        both@ == a@ + seq!['\n'] + b@,
    ensures
        chars::string_texts(r@) == chars::string_texts(x@) + chars::string_texts(y@),
{
    lemma_split_break(a@, b@);
    let w = text::columns_at_least_one(width as int);
    assert(text::measured(both@) =~= text::measured(a@) + text::measured(b@));
    lemma_laid_out(text::measured(a@), text::measured(b@), w);
}

/// A line that fits is set as it is.
pub proof fn law_short_lines_stay(s: &str, width: usize, r: Vec<String>)
    requires
        call_ensures(text::wrap, (s, width), r),
        forall|i: int| 0 <= i < s@.len() ==> #[trigger] s@[i] != '\n',
        text::text_columns(s@) <= width,
        width >= 1,
    ensures
        r@.len() == 1,
        r@[0]@ == s@,
{
    let none = Seq::<char>::empty();
    lemma_split_extend(none, s@, '\n');
    assert(none + s@ =~= s@);
    assert(chars::split(none, '\n') == seq![none]);
    assert(chars::split(s@, '\n') =~= seq![s@]);
    crate::laws::text::law_fitting_lines_are_kept(s@, width as int);
    assert(chars::string_texts(r@).len() == r@.len());
    assert(chars::string_texts(r@)[0] == r@[0]@);
}

} // verus!
