//! Laws of cleaning: what is alike to it, and what is too long or too short.

use vstd::prelude::*;

use crate::chars;
use crate::content;
use crate::laws::content as clean;

verus! {

// ---------------------------------------------------------------- what is alike

/// The marks that set the direction of text, those without a width, and the
/// line and paragraph separators.
pub open spec fn hidden(c: char) -> bool {
    let u = c as u32;
    ||| 0x200b <= u <= 0x200f
    ||| 0x2028 <= u <= 0x202e
    ||| 0x2066 <= u <= 0x2069
    ||| u == 0xfeff
}

/// No line ends in it.
pub open spec fn unbroken(s: Seq<char>) -> bool {
    forall|i: int| 0 <= i < s.len() ==> #[trigger] s[i] != '\n' && s[i] != '\r'
}

/// The place between `x` and `y` is not within a line end.
pub open spec fn apart(x: Seq<char>, y: Seq<char>) -> bool {
    x.len() > 0 && y.len() > 0 ==> !(x.last() == '\r' && y.first() == '\n')
}

proof fn lemma_normalized_concat(x: Seq<char>, y: Seq<char>)
    requires
        apart(x, y),
    ensures
        content::normalized(x + y) == content::normalized(x) + content::normalized(y),
    decreases y.len(),
{
    if y.len() == 0 {
        assert(x + y =~= x);
        assert(content::normalized(x) + content::normalized(y) =~= content::normalized(x));
    } else {
        let front = y.drop_last();
        assert((x + y).drop_last() =~= x + front);
        assert((x + y).last() == y.last());
        if front.len() > 0 {
            assert(front.first() == y.first());
            assert((x + front).last() == front.last());
        } else {
            assert(x + front =~= x);
        }
        lemma_normalized_concat(x, front);
        let a = content::normalized(x);
        let b = content::normalized(front);
        if x.len() + y.len() > 1 {
            let before = (x + y)[(x + y).len() - 2];
            if front.len() > 0 {
                assert(before == y[y.len() - 2]);
            } else {
                assert(before == x.last());
            }
        }
        assert((a + b).push('\n') =~= a + b.push('\n'));
        assert((a + b).push(y.last()) =~= a + b.push(y.last()));
    }
}

proof fn lemma_normalized_unbroken(s: Seq<char>)
    requires
        unbroken(s),
    ensures
        content::normalized(s) == s,
    decreases s.len(),
{
    if s.len() > 0 {
        let front = s.drop_last();
        assert forall|i: int| 0 <= i < front.len() implies #[trigger] front[i] != '\n' && front[i]
            != '\r' by {
            assert(front[i] == s[i]);
        }
        lemma_normalized_unbroken(front);
        assert(s[s.len() - 1] == s.last());
        assert(front.push(s.last()) =~= s);
    } else {
        assert(content::normalized(s) =~= s);
    }
}

proof fn lemma_split_concat(u: Seq<char>, v: Seq<char>)
    ensures
        ({
            let a = chars::split(u, '\n');
            let b = chars::split(v, '\n');
            &&& a.len() > 0
            &&& b.len() > 0
            &&& chars::split(u + v, '\n') == a.drop_last().push(a.last() + b.first())
                + b.drop_first()
        }),
    decreases v.len(),
{
    chars::lemma_split_nonempty(u, '\n');
    chars::lemma_split_nonempty(v, '\n');
    let a = chars::split(u, '\n');
    let b = chars::split(v, '\n');
    if v.len() == 0 {
        assert(u + v =~= u);
        assert(a.last() + b.first() =~= a.last());
        assert(a.drop_last().push(a.last()) + b.drop_first() =~= a);
    } else {
        let front = v.drop_last();
        lemma_split_concat(u, front);
        assert((u + v).drop_last() =~= u + front);
        assert((u + v).last() == v.last());
        let c = chars::split(front, '\n');
        let all = a.drop_last().push(a.last() + c.first()) + c.drop_first();
        if v.last() == '\n' {
            assert(b == c.push(Seq::empty()));
            assert(all.push(Seq::empty()) =~= a.drop_last().push(a.last() + b.first())
                + b.drop_first());
        } else {
            let grown = c.last().push(v.last());
            assert(b == c.drop_last().push(grown));
            if c.len() == 1 {
                assert(all.last() == a.last() + c.first());
                assert((a.last() + c.first()).push(v.last()) =~= a.last() + b.first());
                assert(all.drop_last().push(all.last().push(v.last())) =~= a.drop_last().push(
                    a.last() + b.first(),
                ) + b.drop_first());
            } else {
                assert(all.last() == c.last());
                assert(all.drop_last().push(all.last().push(v.last())) =~= a.drop_last().push(
                    a.last() + b.first(),
                ) + b.drop_first());
            }
        }
    }
}

proof fn lemma_split_unbroken(e: Seq<char>)
    requires
        unbroken(e),
    ensures
        chars::split(e, '\n') == seq![e],
    decreases e.len(),
{
    if e.len() == 0 {
        assert(e =~= Seq::empty());
    } else {
        let front = e.drop_last();
        assert forall|i: int| 0 <= i < front.len() implies #[trigger] front[i] != '\n' && front[i]
            != '\r' by {
            assert(front[i] == e[i]);
        }
        lemma_split_unbroken(front);
        assert(e[e.len() - 1] == e.last());
        assert(front.push(e.last()) =~= e);
        assert(chars::split(e, '\n') =~= seq![e]);
    }
}

proof fn lemma_expanded_concat(a: Seq<char>, b: Seq<char>)
    ensures
        content::expanded(a + b) == content::expanded(a) + content::expanded(b),
    decreases b.len(),
{
    if b.len() == 0 {
        assert(a + b =~= a);
        assert(content::expanded(a) + content::expanded(b) =~= content::expanded(a));
    } else {
        lemma_expanded_concat(a, b.drop_last());
        assert((a + b).drop_last() =~= a + b.drop_last());
        assert((a + b).last() == b.last());
        assert(content::expanded(a + b) =~= content::expanded(a) + content::expanded(b));
    }
}

/// How a text splits where a piece without line ends stands in it.
proof fn lemma_split_around(u: Seq<char>, e: Seq<char>, v: Seq<char>)
    requires
        unbroken(e),
    ensures
        ({
            let a = chars::split(u, '\n');
            let b = chars::split(v, '\n');
            &&& a.len() > 0
            &&& b.len() > 0
            &&& chars::split(u + e + v, '\n') == a.drop_last().push(a.last() + e + b.first())
                + b.drop_first()
        }),
{
    lemma_split_concat(u, e);
    lemma_split_unbroken(e);
    let a = chars::split(u, '\n');
    assert(a.drop_last().push(a.last() + e) + seq![e].drop_first() =~= a.drop_last().push(
        a.last() + e,
    ));
    lemma_split_concat(u + e, v);
    let ue = chars::split(u + e, '\n');
    assert(ue.drop_last() =~= a.drop_last());
}

proof fn lemma_alike(x: Seq<char>, d: Seq<char>, e: Seq<char>, y: Seq<char>)
    requires
        unbroken(d),
        unbroken(e),
        content::expanded(d) == content::expanded(e),
        apart(x, y),
    ensures
        content::lines_of(x + d + y) == content::lines_of(x + e + y),
{
    lemma_normalized_around(x, d, y);
    lemma_normalized_around(x, e, y);
    let u = content::normalized(x);
    let v = content::normalized(y);
    lemma_split_around(u, d, v);
    lemma_split_around(u, e, v);
    let a = chars::split(u, '\n');
    let b = chars::split(v, '\n');
    let l = a.last() + d + b.first();
    let m = a.last() + e + b.first();
    lemma_expanded_concat(a.last() + d, b.first());
    lemma_expanded_concat(a.last(), d);
    lemma_expanded_concat(a.last() + e, b.first());
    lemma_expanded_concat(a.last(), e);
    assert(content::tidy_line(l) == content::tidy_line(m));
    assert(content::tidy_lines(x + d + y) =~= content::tidy_lines(x + e + y));
}

proof fn lemma_normalized_around(x: Seq<char>, e: Seq<char>, y: Seq<char>)
    requires
        unbroken(e),
        apart(x, y),
    ensures
        content::normalized(x + e + y) == content::normalized(x) + e + content::normalized(y),
{
    lemma_normalized_unbroken(e);
    if e.len() == 0 {
        assert(x + e + y =~= x + y);
        lemma_normalized_concat(x, y);
        assert(content::normalized(x) + e =~= content::normalized(x));
    } else {
        assert(e[0] != '\n');
        assert(e[e.len() - 1] != '\r');
        lemma_normalized_concat(x, e);
        assert((x + e).last() == e.last());
        lemma_normalized_concat(x + e, y);
    }
}

/// A tab in a post, in a letter or in the message of the day is four spaces.
pub proof fn law_tabs_are_four_spaces(
    x: Seq<char>,
    y: Seq<char>,
    tabbed: &str,
    spaced: &str,
    a: Result<String, String>,
    b: Result<String, String>,
    c: Result<String, String>,
    d: Result<String, String>,
)
    requires
        apart(x, y),
        tabbed@ == x + seq!['\t'] + y,
        spaced@ == x + seq![' ', ' ', ' ', ' '] + y,
        call_ensures(content::clean_body, (tabbed,), a),
        call_ensures(content::clean_body, (spaced,), b),
        call_ensures(content::clean_motd, (tabbed,), c),
        call_ensures(content::clean_motd, (spaced,), d),
    ensures
        content::outcome(a) == content::outcome(b),
        content::outcome(c) == content::outcome(d),
{
    let tab = seq!['\t'];
    let four = seq![' ', ' ', ' ', ' '];
    lemma_expanded_one('\t');
    lemma_expanded_one(' ');
    lemma_expanded_concat(seq![' ', ' '], seq![' ', ' ']);
    lemma_expanded_concat(seq![' '], seq![' ']);
    assert(seq![' '] + seq![' '] =~= seq![' ', ' ']);
    assert(seq![' ', ' '] + seq![' ', ' '] =~= four);
    lemma_alike(x, tab, four, y);
}

proof fn lemma_expanded_one(c: char)
    ensures
        content::expanded(seq![c]) == content::expanded_char(c),
{
    reveal_with_fuel(content::expanded, 2);
    assert(seq![c].drop_last() =~= Seq::<char>::empty());
    assert(content::expanded(seq![c]) =~= content::expanded_char(c));
}

/// A character that hides or deceives, and a control character that ends no
/// line and is no tab, leave no trace in a text of lines.
pub proof fn law_hidden_characters_are_dropped(
    x: Seq<char>,
    y: Seq<char>,
    mark: char,
    with: &str,
    without: &str,
    a: Result<String, String>,
    b: Result<String, String>,
    c: Result<String, String>,
    d: Result<String, String>,
)
    requires
        apart(x, y),
        hidden(mark) || chars::control(mark) && mark != '\t' && mark != '\n' && mark != '\r',
        with@ == x + seq![mark] + y,
        without@ == x + y,
        call_ensures(content::clean_body, (with,), a),
        call_ensures(content::clean_body, (without,), b),
        call_ensures(content::clean_motd, (with,), c),
        call_ensures(content::clean_motd, (without,), d),
    ensures
        content::outcome(a) == content::outcome(b),
        content::outcome(c) == content::outcome(d),
{
    let none = Seq::<char>::empty();
    lemma_expanded_one(mark);
    assert(x + none + y =~= x + y);
    lemma_alike(x, seq![mark], none, y);
}

proof fn lemma_joined_normalized(ls: Seq<Seq<char>>, sep: Seq<char>)
    requires
        ls.len() > 0,
        forall|i: int| 0 <= i < ls.len() ==> unbroken(#[trigger] ls[i]),
        sep == seq!['\n'] || sep == seq!['\r'] || sep == seq!['\r', '\n'],
    ensures
        content::normalized(chars::joined(ls, sep)) == chars::joined(ls, seq!['\n']),
        sep.len() == 1 && sep[0] == '\r' || chars::joined(ls, sep).len() == 0 || chars::joined(
            ls,
            sep,
        ).last() != '\r',
    decreases ls.len(),
{
    let l = ls.last();
    assert(unbroken(ls[ls.len() - 1]));
    lemma_normalized_unbroken(l);
    if ls.len() > 1 {
        let front = ls.drop_last();
        assert forall|i: int| 0 <= i < front.len() implies unbroken(#[trigger] front[i]) by {
            assert(front[i] == ls[i]);
        }
        lemma_joined_normalized(front, sep);
        let s = chars::joined(front, sep);
        reveal_with_fuel(content::normalized, 3);
        assert(sep.drop_last().drop_last() =~= Seq::<char>::empty() || sep.len() < 2);
        assert(content::normalized(sep) =~= seq!['\n']) by {
            if sep.len() == 1 {
                assert(sep.drop_last() =~= Seq::<char>::empty());
            } else {
                assert(sep.drop_last() =~= seq!['\r']);
                assert(seq!['\r'].drop_last() =~= Seq::<char>::empty());
            }
        }
        lemma_normalized_concat(s, sep);
        let t = s + sep;
        assert(t.last() == sep.last());
        if l.len() > 0 {
            assert(l[0] != '\n');
        }
        lemma_normalized_concat(t, l);
        if l.len() > 0 {
            assert((t + l).last() == l.last());
            assert(l[l.len() - 1] != '\r');
        } else {
            assert(t + l =~= t);
        }
    } else if l.len() > 0 {
        assert(l[l.len() - 1] != '\r');
    }
}

/// It makes no difference how the lines of a text end: in a line feed, in a
/// carriage return, or in both.
pub proof fn law_line_ends_are_alike(
    ls: Seq<Seq<char>>,
    fed: &str,
    returned: &str,
    both: &str,
    a: Result<String, String>,
    b: Result<String, String>,
    c: Result<String, String>,
)
    requires
        ls.len() > 0,
        forall|i: int| 0 <= i < ls.len() ==> unbroken(#[trigger] ls[i]),
        fed@ == chars::joined(ls, seq!['\n']),
        returned@ == chars::joined(ls, seq!['\r']),
        both@ == chars::joined(ls, seq!['\r', '\n']),
        call_ensures(content::clean_body, (fed,), a),
        call_ensures(content::clean_body, (returned,), b),
        call_ensures(content::clean_body, (both,), c),
    ensures
        content::outcome(a) == content::outcome(b),
        content::outcome(a) == content::outcome(c),
{
    lemma_joined_normalized(ls, seq!['\n']);
    lemma_joined_normalized(ls, seq!['\r']);
    lemma_joined_normalized(ls, seq!['\r', '\n']);
}

proof fn lemma_visible_concat(a: Seq<char>, b: Seq<char>)
    ensures
        content::visible(a + b) == content::visible(a) + content::visible(b),
    decreases b.len(),
{
    reveal(Seq::filter);
    if b.len() == 0 {
        assert(a + b =~= a);
        assert(content::visible(b) =~= Seq::<char>::empty());
        assert(content::visible(a) + content::visible(b) =~= content::visible(a));
    } else {
        lemma_visible_concat(a, b.drop_last());
        assert((a + b).drop_last() =~= a + b.drop_last());
        assert((a + b).last() == b.last());
        content::lemma_visible_step(a + b);
        content::lemma_visible_step(b);
        assert(content::visible(a + b) =~= content::visible(a) + content::visible(b));
    }
}

/// Nothing but blanks, and at least one.
pub open spec fn gap(s: Seq<char>) -> bool {
    s.len() > 0 && forall|i: int|
        0 <= i < s.len() ==> !hidden(#[trigger] s[i]) && (chars::whitespace(s[i])
            || chars::control(s[i]))
}

proof fn lemma_visible_gap(s: Seq<char>)
    requires
        gap(s),
    ensures
        content::visible(s).len() > 0,
        forall|i: int|
            0 <= i < content::visible(s).len() ==> chars::whitespace(
                #[trigger] content::visible(s)[i],
            ),
    decreases s.len(),
{
    let front = s.drop_last();
    content::lemma_visible_step(s);
    assert(!content::deceptive(s[s.len() - 1]));
    if front.len() > 0 {
        assert forall|i: int| 0 <= i < front.len() implies !content::deceptive(#[trigger] front[i])
            && (chars::whitespace(front[i]) || chars::control(front[i])) by {
            assert(front[i] == s[i]);
        }
        lemma_visible_gap(front);
    } else {
        reveal(Seq::filter);
        assert(content::visible(front) =~= Seq::<char>::empty());
    }
}

proof fn lemma_words_blank(a: Seq<char>, d: Seq<char>)
    requires
        forall|i: int| 0 <= i < d.len() ==> chars::whitespace(#[trigger] d[i]),
    ensures
        chars::words(a + d) == chars::words(a),
    decreases d.len(),
{
    if d.len() == 0 {
        assert(a + d =~= a);
    } else {
        let front = d.drop_last();
        assert forall|i: int| 0 <= i < front.len() implies chars::whitespace(#[trigger] front[i]) by {
            assert(front[i] == d[i]);
        }
        lemma_words_blank(a, front);
        assert((a + d).drop_last() =~= a + front);
        assert((a + d).last() == d[d.len() - 1]);
    }
}

proof fn lemma_words_concat(a: Seq<char>, y: Seq<char>)
    requires
        a.len() > 0,
        chars::whitespace(a.last()),
    ensures
        chars::words(a + y) == chars::words(a) + chars::words(y),
    decreases y.len(),
{
    let before = chars::words(a);
    if y.len() == 0 {
        assert(a + y =~= a);
        assert(before + chars::words(y) =~= before);
    } else {
        let front = y.drop_last();
        lemma_words_concat(a, front);
        let s = a + y;
        assert(s.drop_last() =~= a + front);
        assert(s.last() == y.last());
        let then = chars::words(front);
        if !chars::whitespace(y.last()) {
            if front.len() > 0 {
                assert(s[s.len() - 2] == y[y.len() - 2]);
                if !chars::whitespace(y[y.len() - 2]) {
                    chars::lemma_words_open(front);
                    assert((before + then).last() == then.last());
                    assert((before + then).drop_last() =~= before + then.drop_last());
                    let w = then.last().push(y.last());
                    assert((before + then.drop_last()).push(w) =~= before + then.drop_last().push(
                        w,
                    ));
                } else {
                    let w = seq![y.last()];
                    assert((before + then).push(w) =~= before + then.push(w));
                }
            } else {
                assert(s[s.len() - 2] == a.last());
                let w = seq![y.last()];
                assert((before + then).push(w) =~= before + then.push(w));
            }
        }
    }
}

proof fn lemma_gap(x: Seq<char>, d: Seq<char>, y: Seq<char>)
    requires
        gap(d),
    ensures
        chars::words(content::visible(x + d + y)) == chars::words(content::visible(x))
            + chars::words(content::visible(y)),
{
    lemma_visible_concat(x + d, y);
    lemma_visible_concat(x, d);
    lemma_visible_gap(d);
    let a = content::visible(x);
    let b = content::visible(d);
    assert((a + b).last() == b[b.len() - 1]);
    lemma_words_concat(a + b, content::visible(y));
    lemma_words_blank(a, b);
}

/// Between the words of a title, a subject or a line of the chat, any blanks
/// are as good as one space, line breaks and control characters too.
pub proof fn law_blanks_are_alike(
    x: Seq<char>,
    blanks: Seq<char>,
    y: Seq<char>,
    spread: &str,
    even: &str,
    titles: (Result<String, String>, Result<String, String>),
    subjects: (Result<String, String>, Result<String, String>),
    lines: (Result<String, String>, Result<String, String>),
)
    requires
        gap(blanks),
        spread@ == x + blanks + y,
        even@ == x + seq![' '] + y,
        call_ensures(content::clean_title, (spread,), titles.0),
        call_ensures(content::clean_title, (even,), titles.1),
        call_ensures(content::clean_subject, (spread,), subjects.0),
        call_ensures(content::clean_subject, (even,), subjects.1),
        call_ensures(content::clean_chat, (spread,), lines.0),
        call_ensures(content::clean_chat, (even,), lines.1),
    ensures
        content::outcome(titles.0) == content::outcome(titles.1),
        content::outcome(subjects.0) == content::outcome(subjects.1),
        content::outcome(lines.0) == content::outcome(lines.1),
{
    assert(gap(seq![' ']));
    lemma_gap(x, blanks, y);
    lemma_gap(x, seq![' '], y);
}

/// A character that hides or deceives leaves no trace in them.
pub proof fn law_hidden_characters_leave_lines(
    x: Seq<char>,
    y: Seq<char>,
    mark: char,
    with: &str,
    without: &str,
    titles: (Result<String, String>, Result<String, String>),
    subjects: (Result<String, String>, Result<String, String>),
    lines: (Result<String, String>, Result<String, String>),
)
    requires
        hidden(mark),
        with@ == x + seq![mark] + y,
        without@ == x + y,
        call_ensures(content::clean_title, (with,), titles.0),
        call_ensures(content::clean_title, (without,), titles.1),
        call_ensures(content::clean_subject, (with,), subjects.0),
        call_ensures(content::clean_subject, (without,), subjects.1),
        call_ensures(content::clean_chat, (with,), lines.0),
        call_ensures(content::clean_chat, (without,), lines.1),
    ensures
        content::outcome(titles.0) == content::outcome(titles.1),
        content::outcome(subjects.0) == content::outcome(subjects.1),
        content::outcome(lines.0) == content::outcome(lines.1),
{
    let m = seq![mark];
    lemma_visible_concat(x + m, y);
    lemma_visible_concat(x, m);
    lemma_visible_concat(x, y);
    content::lemma_visible_step(m);
    reveal(Seq::filter);
    assert(m.drop_last() =~= Seq::<char>::empty());
    assert(content::visible(m) =~= Seq::<char>::empty());
    assert(content::visible(x) + content::visible(m) =~= content::visible(x));
}

// ----------------------------------------------------------------- what stays

/// The characters that are seen: neither blank, nor control, nor hidden.
pub open spec fn seen(c: char) -> bool {
    !chars::whitespace(c) && !chars::control(c) && !hidden(c)
}

/// What is seen of a text.
pub open spec fn solid(s: Seq<char>) -> Seq<char>
    decreases s.len(),
{
    if s.len() == 0 {
        Seq::empty()
    } else if seen(s.last()) {
        solid(s.drop_last()).push(s.last())
    } else {
        solid(s.drop_last())
    }
}

/// What is seen of several.
pub open spec fn solid_all(ls: Seq<Seq<char>>) -> Seq<char>
    decreases ls.len(),
{
    if ls.len() == 0 {
        Seq::empty()
    } else {
        solid_all(ls.drop_last()) + solid(ls.last())
    }
}

proof fn lemma_solid_push(s: Seq<char>, c: char)
    ensures
        solid(s.push(c)) == if seen(c) {
            solid(s).push(c)
        } else {
            solid(s)
        },
{
    assert(s.push(c).drop_last() =~= s);
}

proof fn lemma_solid_concat(a: Seq<char>, b: Seq<char>)
    ensures
        solid(a + b) == solid(a) + solid(b),
    decreases b.len(),
{
    if b.len() == 0 {
        assert(a + b =~= a);
        assert(solid(a) + solid(b) =~= solid(a));
    } else {
        lemma_solid_concat(a, b.drop_last());
        assert((a + b).drop_last() =~= a + b.drop_last());
        assert((a + b).last() == b.last());
        assert(solid(a + b) =~= solid(a) + solid(b));
    }
}

proof fn lemma_solid_all_push(ls: Seq<Seq<char>>, l: Seq<char>)
    ensures
        solid_all(ls.push(l)) == solid_all(ls) + solid(l),
{
    assert(ls.push(l).drop_last() =~= ls);
}

proof fn lemma_solid_normalized(s: Seq<char>)
    ensures
        solid(content::normalized(s)) == solid(s),
    decreases s.len(),
{
    if s.len() > 0 {
        let front = s.drop_last();
        lemma_solid_normalized(front);
        lemma_solid_push(content::normalized(front), '\n');
        lemma_solid_push(content::normalized(front), s.last());
    }
}

proof fn lemma_solid_split(s: Seq<char>)
    ensures
        solid_all(chars::split(s, '\n')) == solid(s),
    decreases s.len(),
{
    let none = Seq::<char>::empty();
    let pieces = chars::split(s, '\n');
    if s.len() == 0 {
        lemma_solid_all_push(Seq::empty(), none);
        assert(Seq::<Seq<char>>::empty().push(none) =~= pieces);
        assert(solid_all(pieces) =~= solid(s));
    } else {
        let front = s.drop_last();
        lemma_solid_split(front);
        let before = chars::split(front, '\n');
        chars::lemma_split_nonempty(front, '\n');
        if s.last() == '\n' {
            lemma_solid_all_push(before, none);
            assert(solid_all(pieces) =~= solid(s));
        } else {
            let l = before.last().push(s.last());
            lemma_solid_all_push(before.drop_last(), l);
            lemma_solid_push(before.last(), s.last());
            assert(solid_all(pieces) =~= solid(s));
        }
    }
}

proof fn lemma_solid_tidy(s: Seq<char>)
    ensures
        solid(content::tidy_line(s)) == solid(s),
{
    lemma_solid_expanded(s);
    lemma_solid_trim(content::expanded(s));
}

proof fn lemma_solid_expanded(s: Seq<char>)
    ensures
        solid(content::expanded(s)) == solid(s),
    decreases s.len(),
{
    if s.len() > 0 {
        let front = s.drop_last();
        let c = s.last();
        lemma_solid_expanded(front);
        let e = content::expanded_char(c);
        lemma_solid_concat(content::expanded(front), e);
        reveal_with_fuel(solid, 5);
        let none = Seq::<char>::empty();
        if e.len() == 1 {
            assert(e.drop_last() =~= none);
        } else if e.len() == 4 {
            assert(e.drop_last() =~= seq![' ', ' ', ' ']);
            assert(seq![' ', ' ', ' '].drop_last() =~= seq![' ', ' ']);
            assert(seq![' ', ' '].drop_last() =~= seq![' ']);
            assert(seq![' '].drop_last() =~= none);
        }
        assert(solid(content::expanded(s)) =~= solid(s));
    }
}

proof fn lemma_solid_trim(s: Seq<char>)
    ensures
        solid(chars::trim_end(s)) == solid(s),
    decreases s.len(),
{
    if s.len() > 0 && chars::whitespace(s.last()) {
        lemma_solid_trim(s.drop_last());
    }
}

proof fn lemma_solid_tidied(ls: Seq<Seq<char>>)
    ensures
        solid_all(ls.map_values(|l: Seq<char>| content::tidy_line(l))) == solid_all(ls),
    decreases ls.len(),
{
    let all = ls.map_values(|l: Seq<char>| content::tidy_line(l));
    if ls.len() > 0 {
        lemma_solid_tidied(ls.drop_last());
        lemma_solid_tidy(ls.last());
        assert(all.drop_last() =~= ls.drop_last().map_values(
            |l: Seq<char>| content::tidy_line(l),
        ));
    }
}

proof fn lemma_solid_capped(ls: Seq<Seq<char>>)
    ensures
        solid_all(content::capped(ls)) == solid_all(ls),
    decreases ls.len(),
{
    if ls.len() > 0 {
        lemma_solid_capped(ls.drop_last());
        lemma_solid_all_push(content::capped(ls.drop_last()), ls.last());
        if ls.last().len() == 0 {
            assert(solid(ls.last()) =~= Seq::<char>::empty());
            assert(solid_all(ls) =~= solid_all(ls.drop_last()));
        }
    }
}

proof fn lemma_solid_all_concat(a: Seq<Seq<char>>, b: Seq<Seq<char>>)
    ensures
        solid_all(a + b) == solid_all(a) + solid_all(b),
    decreases b.len(),
{
    if b.len() == 0 {
        assert(a + b =~= a);
        assert(solid_all(a) + solid_all(b) =~= solid_all(a));
    } else {
        lemma_solid_all_concat(a, b.drop_last());
        assert((a + b).drop_last() =~= a + b.drop_last());
        assert((a + b).last() == b.last());
        assert(solid_all(a + b) =~= solid_all(a) + solid_all(b));
    }
}

proof fn lemma_solid_stripped(ls: Seq<Seq<char>>)
    ensures
        solid_all(content::strip_start(ls)) == solid_all(ls),
        solid_all(content::strip_end(ls)) == solid_all(ls),
    decreases ls.len(),
{
    let none = Seq::<char>::empty();
    if ls.len() > 0 {
        if ls.first().len() == 0 {
            lemma_solid_stripped(ls.drop_first());
            lemma_solid_all_concat(seq![ls.first()], ls.drop_first());
            assert(seq![ls.first()] + ls.drop_first() =~= ls);
            assert(solid(ls.first()) =~= none);
            reveal_with_fuel(solid_all, 2);
            assert(seq![ls.first()].drop_last() =~= Seq::<Seq<char>>::empty());
            assert(solid_all(seq![ls.first()]) =~= none);
            assert(solid_all(ls) =~= solid_all(ls.drop_first()));
        }
        if ls.last().len() == 0 {
            lemma_solid_stripped(ls.drop_last());
            assert(solid(ls.last()) =~= none);
            assert(solid_all(ls) =~= solid_all(ls.drop_last()));
        }
    }
}

proof fn lemma_solid_joined(ls: Seq<Seq<char>>, sep: Seq<char>)
    requires
        solid(sep).len() == 0,
    ensures
        solid(chars::joined(ls, sep)) == solid_all(ls),
    decreases ls.len(),
{
    let none = Seq::<char>::empty();
    if ls.len() == 1 {
        reveal_with_fuel(solid_all, 2);
        assert(ls.drop_last() =~= Seq::<Seq<char>>::empty());
        assert(solid_all(ls) =~= solid(ls[0]));
    } else if ls.len() > 1 {
        let front = ls.drop_last();
        lemma_solid_joined(front, sep);
        let s = chars::joined(front, sep);
        lemma_solid_concat(s + sep, ls.last());
        lemma_solid_concat(s, sep);
        assert(solid(sep) =~= none);
        assert(solid(s) + none =~= solid(s));
    }
}

/// However much is cleaned away, what is seen stays, in its order: nothing is
/// lost of it, nothing is changed and nothing comes in.
pub proof fn law_what_is_seen_stays(
    raw: &str,
    body: Result<String, String>,
    motd: Result<String, String>,
    title: Result<String, String>,
    subject: Result<String, String>,
    line: Result<String, String>,
)
    requires
        call_ensures(content::clean_body, (raw,), body),
        call_ensures(content::clean_motd, (raw,), motd),
        call_ensures(content::clean_title, (raw,), title),
        call_ensures(content::clean_subject, (raw,), subject),
        call_ensures(content::clean_chat, (raw,), line),
    ensures
        body matches Ok(t) ==> solid(t@) == solid(raw@),
        motd matches Ok(t) ==> solid(t@) == solid(raw@),
        title matches Ok(t) ==> solid(t@) == solid(raw@),
        subject matches Ok(t) ==> solid(t@) == solid(raw@),
        line matches Ok(t) ==> solid(t@) == solid(raw@),
{
    assert(content::outcome(body) == content::body_of(raw@));
    assert(content::outcome(motd) == content::motd_of(raw@));
    assert(content::outcome(title) == content::title_of(raw@));
    assert(content::outcome(subject) == content::subject_of(raw@));
    assert(content::outcome(line) == content::chat_of(raw@));
    let n = content::normalized(raw@);
    lemma_solid_normalized(raw@);
    lemma_solid_split(n);
    lemma_solid_tidied(chars::split(n, '\n'));
    let tidy = content::tidy_lines(raw@);
    lemma_solid_capped(tidy);
    lemma_solid_stripped(content::capped(tidy));
    lemma_solid_stripped(content::strip_start(content::capped(tidy)));
    reveal_strlit("\n");
    reveal_strlit(" ");
    reveal_with_fuel(solid, 2);
    assert("\n"@.drop_last() =~= Seq::<char>::empty());
    assert(" "@.drop_last() =~= Seq::<char>::empty());
    lemma_solid_joined(content::lines_of(raw@), "\n"@);
    lemma_solid_visible(raw@);
    lemma_solid_words(content::visible(raw@));
    lemma_solid_joined(chars::words(content::visible(raw@)), " "@);
}

proof fn lemma_solid_visible(s: Seq<char>)
    ensures
        solid(content::visible(s)) == solid(s),
    decreases s.len(),
{
    if s.len() > 0 {
        lemma_solid_visible(s.drop_last());
        content::lemma_visible_step(s);
        let before = content::visible(s.drop_last());
        lemma_solid_push(before, s.last());
        lemma_solid_push(before, ' ');
    } else {
        reveal(Seq::filter);
        assert(content::visible(s) =~= s);
    }
}

proof fn lemma_solid_words(s: Seq<char>)
    requires
        forall|i: int| 0 <= i < s.len() ==> seen(#[trigger] s[i]) || chars::whitespace(s[i]),
    ensures
        solid_all(chars::words(s)) == solid(s),
    decreases s.len(),
{
    if s.len() > 0 {
        let front = s.drop_last();
        assert forall|i: int| 0 <= i < front.len() implies seen(#[trigger] front[i])
            || chars::whitespace(front[i]) by {
            assert(front[i] == s[i]);
        }
        lemma_solid_words(front);
        let before = chars::words(front);
        let c = s.last();
        assert(seen(s[s.len() - 1]) || chars::whitespace(c));
        let one = seq![c];
        let none = Seq::<char>::empty();
        if !chars::whitespace(c) {
            if s.len() >= 2 && !chars::whitespace(s[s.len() - 2]) {
                assert(front.last() == s[s.len() - 2]);
                chars::lemma_words_open(front);
                lemma_solid_all_push(before.drop_last(), before.last().push(c));
                lemma_solid_push(before.last(), c);
                assert(solid_all(chars::words(s)) =~= solid(s));
            } else {
                lemma_solid_all_push(before, one);
                lemma_solid_push(none, c);
                assert(none.push(c) =~= one);
                assert(solid_all(chars::words(s)) =~= solid(s));
            }
        }
    }
}

/// The characters of all of them, and one more for each.
pub open spec fn total(ls: Seq<Seq<char>>) -> int
    decreases ls.len(),
{
    if ls.len() == 0 {
        0
    } else {
        total(ls.drop_last()) + ls.last().len() + 1
    }
}

proof fn lemma_total_push(ls: Seq<Seq<char>>, l: Seq<char>)
    ensures
        total(ls.push(l)) == total(ls) + l.len() + 1,
{
    assert(ls.push(l).drop_last() =~= ls);
}

proof fn lemma_total_split(s: Seq<char>)
    ensures
        total(chars::split(s, '\n')) == s.len() + 1,
    decreases s.len(),
{
    let none = Seq::<char>::empty();
    if s.len() == 0 {
        lemma_total_push(Seq::empty(), none);
        assert(Seq::<Seq<char>>::empty().push(none) =~= chars::split(s, '\n'));
    } else {
        let front = s.drop_last();
        lemma_total_split(front);
        let before = chars::split(front, '\n');
        chars::lemma_split_nonempty(front, '\n');
        if s.last() == '\n' {
            lemma_total_push(before, none);
        } else {
            lemma_total_push(before.drop_last(), before.last().push(s.last()));
        }
    }
}

proof fn lemma_lengths(s: Seq<char>)
    ensures
        content::normalized(s).len() <= s.len(),
        content::expanded(s).len() <= 4 * s.len(),
        chars::trim_end(s).len() <= s.len(),
    decreases s.len(),
{
    if s.len() > 0 {
        lemma_lengths(s.drop_last());
    }
}

proof fn lemma_total_tidied(ls: Seq<Seq<char>>)
    ensures
        total(ls.map_values(|l: Seq<char>| content::tidy_line(l))) <= 4 * total(ls),
        total(ls) >= 0,
    decreases ls.len(),
{
    let all = ls.map_values(|l: Seq<char>| content::tidy_line(l));
    if ls.len() > 0 {
        lemma_total_tidied(ls.drop_last());
        lemma_lengths(ls.last());
        lemma_lengths(content::expanded(ls.last()));
        assert(all.drop_last() =~= ls.drop_last().map_values(
            |l: Seq<char>| content::tidy_line(l),
        ));
    }
}

proof fn lemma_total_capped(ls: Seq<Seq<char>>)
    ensures
        total(content::capped(ls)) <= total(ls),
    decreases ls.len(),
{
    if ls.len() > 0 {
        lemma_total_capped(ls.drop_last());
        lemma_total_push(content::capped(ls.drop_last()), ls.last());
    }
}

proof fn lemma_total_first(ls: Seq<Seq<char>>)
    requires
        ls.len() > 0,
    ensures
        total(ls) == total(ls.drop_first()) + ls.first().len() + 1,
    decreases ls.len(),
{
    if ls.len() > 1 {
        lemma_total_first(ls.drop_last());
        assert(ls.drop_first().drop_last() =~= ls.drop_last().drop_first());
    } else {
        assert(ls.drop_first() =~= ls.drop_last());
    }
}

proof fn lemma_total_stripped(ls: Seq<Seq<char>>)
    ensures
        total(content::strip_start(ls)) <= total(ls),
        total(content::strip_end(ls)) <= total(ls),
    decreases ls.len(),
{
    if ls.len() > 0 {
        lemma_total_first(ls);
        lemma_total_stripped(ls.drop_first());
        lemma_total_stripped(ls.drop_last());
    }
}

proof fn lemma_total_joined(ls: Seq<Seq<char>>, sep: Seq<char>)
    requires
        ls.len() > 0,
        sep.len() == 1,
    ensures
        chars::joined(ls, sep).len() + 1 == total(ls),
    decreases ls.len(),
{
    if ls.len() > 1 {
        lemma_total_joined(ls.drop_last(), sep);
    } else {
        reveal_with_fuel(total, 2);
    }
}

proof fn lemma_total_words(s: Seq<char>)
    ensures
        total(chars::words(s)) <= s.len() + 1,
        s.len() == 0 || chars::whitespace(s.last()) ==> total(chars::words(s)) <= s.len(),
    decreases s.len(),
{
    if s.len() > 0 {
        let front = s.drop_last();
        lemma_total_words(front);
        let before = chars::words(front);
        let c = s.last();
        if !chars::whitespace(c) {
            if s.len() >= 2 && !chars::whitespace(s[s.len() - 2]) {
                assert(front.last() == s[s.len() - 2]);
                chars::lemma_words_open(front);
                lemma_total_push(before.drop_last(), before.last().push(c));
            } else {
                if front.len() > 0 {
                    assert(front.last() == s[s.len() - 2]);
                }
                lemma_total_push(before, seq![c]);
            }
        }
    }
}

proof fn lemma_visible_shorter(s: Seq<char>)
    ensures
        content::visible(s).len() <= s.len(),
    decreases s.len(),
{
    if s.len() > 0 {
        lemma_visible_shorter(s.drop_last());
        content::lemma_visible_step(s);
    } else {
        reveal(Seq::filter);
        assert(content::visible(s) =~= s);
    }
}

proof fn lemma_solid_shorter(s: Seq<char>)
    ensures
        solid(s).len() <= s.len(),
    decreases s.len(),
{
    if s.len() > 0 {
        lemma_solid_shorter(s.drop_last());
    }
}

/// Whatever there is to clean away, a text in which there is something to be
/// seen is taken, as long as it is not too long: nothing else is asked of it.
pub proof fn law_short_texts_are_taken(
    raw: &str,
    body: Result<String, String>,
    motd: Result<String, String>,
    title: Result<String, String>,
    subject: Result<String, String>,
    line: Result<String, String>,
)
    requires
        call_ensures(content::clean_body, (raw,), body),
        call_ensures(content::clean_motd, (raw,), motd),
        call_ensures(content::clean_title, (raw,), title),
        call_ensures(content::clean_subject, (raw,), subject),
        call_ensures(content::clean_chat, (raw,), line),
    ensures
        solid(raw@).len() > 0 && raw@.len() < 500 ==> body is Ok,
        raw@.len() < 1000 ==> motd is Ok,
        solid(raw@).len() >= 3 && raw@.len() <= 80 ==> title is Ok,
        solid(raw@).len() > 0 && raw@.len() <= 80 ==> subject is Ok,
        solid(raw@).len() > 0 && raw@.len() <= 300 ==> line is Ok,
{
    assert(content::outcome(body) == content::body_of(raw@));
    assert(content::outcome(motd) == content::motd_of(raw@));
    assert(content::outcome(title) == content::title_of(raw@));
    assert(content::outcome(subject) == content::subject_of(raw@));
    assert(content::outcome(line) == content::chat_of(raw@));
    let n = content::normalized(raw@);
    lemma_lengths(raw@);
    lemma_solid_normalized(raw@);
    lemma_solid_split(n);
    lemma_total_split(n);
    lemma_solid_tidied(chars::split(n, '\n'));
    lemma_total_tidied(chars::split(n, '\n'));
    let tidy = content::tidy_lines(raw@);
    let capped = content::capped(tidy);
    lemma_solid_capped(tidy);
    lemma_total_capped(tidy);
    lemma_solid_stripped(capped);
    lemma_total_stripped(capped);
    lemma_solid_stripped(content::strip_start(capped));
    lemma_total_stripped(content::strip_start(capped));
    let ls = content::lines_of(raw@);
    reveal_strlit("\n");
    reveal_strlit(" ");
    if ls.len() > 0 {
        lemma_total_joined(ls, "\n"@);
    }
    let shown = content::visible(raw@);
    let ws = chars::words(shown);
    lemma_visible_shorter(raw@);
    lemma_total_words(shown);
    if ws.len() > 0 {
        lemma_total_joined(ws, " "@);
    }
    reveal_with_fuel(solid, 2);
    assert(" "@.drop_last() =~= Seq::<char>::empty());
    lemma_solid_visible(raw@);
    lemma_solid_words(shown);
    lemma_solid_joined(ws, " "@);
    lemma_solid_shorter(content::single_line(raw@));
}

proof fn lemma_something_seen(s: Seq<char>, k: int)
    requires
        0 <= k < s.len(),
        seen(s[k]),
    ensures
        solid(s).len() > 0,
    decreases s.len(),
{
    if k < s.len() - 1 {
        lemma_something_seen(s.drop_last(), k);
    }
}

/// A text in which there is nothing to be seen is refused, whatever it is
/// made of.
pub proof fn law_blank_texts_are_refused(
    raw: &str,
    body: Result<String, String>,
    motd: Result<String, String>,
    title: Result<String, String>,
    subject: Result<String, String>,
    line: Result<String, String>,
)
    requires
        call_ensures(content::clean_body, (raw,), body),
        call_ensures(content::clean_motd, (raw,), motd),
        call_ensures(content::clean_title, (raw,), title),
        call_ensures(content::clean_subject, (raw,), subject),
        call_ensures(content::clean_chat, (raw,), line),
        solid(raw@).len() == 0,
    ensures
        body matches Err(e) && e@ == "The message is empty."@,
        motd matches Ok(t) && t@.len() == 0,
        title matches Err(e) && e@ == "Title must be at least 3 characters."@,
        subject matches Err(e) && e@ == "Please give the message a subject."@,
        line matches Err(e) && e@ == "Nothing to send."@,
{
    assert(content::outcome(body) == content::body_of(raw@));
    assert(content::outcome(motd) == content::motd_of(raw@));
    assert(content::outcome(title) == content::title_of(raw@));
    assert(content::outcome(subject) == content::subject_of(raw@));
    assert(content::outcome(line) == content::chat_of(raw@));
    let n = content::normalized(raw@);
    lemma_solid_normalized(raw@);
    lemma_solid_split(n);
    lemma_solid_tidied(chars::split(n, '\n'));
    let tidy = content::tidy_lines(raw@);
    lemma_solid_capped(tidy);
    lemma_solid_stripped(content::capped(tidy));
    lemma_solid_stripped(content::strip_start(content::capped(tidy)));
    let ls = content::lines_of(raw@);
    clean::lemma_lines(raw@);
    if ls.len() > 0 {
        let l = ls.last();
        assert(clean::tidied(ls[ls.len() - 1]));
        clean::lemma_tidied_end(l);
        assert(!chars::control(l[l.len() - 1]) && !content::deceptive(l[l.len() - 1]));
        lemma_something_seen(l, l.len() - 1);
        assert(solid_all(ls).len() > 0);
    }
    let one = content::single_line(raw@);
    clean::law_words_stand_one_space_apart(raw@);
    clean::law_single_line_is_clean(raw@);
    reveal_strlit(" ");
    reveal_with_fuel(solid, 2);
    assert(" "@.drop_last() =~= Seq::<char>::empty());
    lemma_solid_visible(raw@);
    lemma_solid_words(content::visible(raw@));
    lemma_solid_joined(chars::words(content::visible(raw@)), " "@);
    if one.len() > 0 {
        assert(!chars::control(one[0]) && !content::deceptive(one[0]));
        assert(!chars::whitespace(one[0]));
        lemma_something_seen(one, 0);
    }
}

// ----------------------------------------------------------------- how long

/// The clean line that is too short or too long is refused as just that; any
/// other is taken as it is.
pub proof fn law_lines_have_their_length(
    s: &str,
    title: Result<String, String>,
    subject: Result<String, String>,
    line: Result<String, String>,
)
    requires
        clean::clean(s@),
        clean::evenly_spaced(s@),
        call_ensures(content::clean_title, (s,), title),
        call_ensures(content::clean_subject, (s,), subject),
        call_ensures(content::clean_chat, (s,), line),
    ensures
        match title {
            Ok(t) => t@ == s@ && 3 <= s@.len() <= 80,
            Err(e) => e@ == if s@.len() < 3 {
                "Title must be at least 3 characters."@
            } else {
                "Title must be at most 80 characters."@
            } && (s@.len() < 3 || s@.len() > 80),
        },
        match subject {
            Ok(t) => t@ == s@ && 1 <= s@.len() <= 80,
            Err(e) => e@ == if s@.len() == 0 {
                "Please give the message a subject."@
            } else {
                "The subject can be at most 80 characters."@
            } && (s@.len() == 0 || s@.len() > 80),
        },
        match line {
            Ok(t) => t@ == s@ && 1 <= s@.len() <= 300,
            Err(e) => e@ == if s@.len() == 0 {
                "Nothing to send."@
            } else {
                "Chat messages can be at most 300 characters."@
            } && (s@.len() == 0 || s@.len() > 300),
        },
{
    clean::law_clean_lines_are_kept(s@);
    assert(content::outcome(title) == content::title_of(s@));
    assert(content::outcome(subject) == content::subject_of(s@));
    assert(content::outcome(line) == content::chat_of(s@));
}

/// A well set text that is too long is refused as that; any other is taken as
/// it is.
pub proof fn law_texts_have_their_length(
    lines: Seq<Seq<char>>,
    s: &str,
    body: Result<String, String>,
    motd: Result<String, String>,
)
    requires
        clean::well_set(lines),
        s@ == chars::joined(lines, "\n"@),
        call_ensures(content::clean_body, (s,), body),
        call_ensures(content::clean_motd, (s,), motd),
    ensures
        match body {
            Ok(t) => t@ == s@ && s@.len() <= 2000,
            Err(e) => e@ == "Messages can be at most 2000 characters."@ && s@.len() > 2000,
        },
        match motd {
            Ok(t) => t@ == s@ && s@.len() <= 4000,
            Err(e) => s@.len() > 4000,
        },
{
    clean::lemma_well_set(lines);
    clean::law_clean_texts_are_kept(lines);
    assert(content::outcome(body) == content::body_of(s@));
    assert(content::outcome(motd) == content::motd_of(s@));
}

/// Characters that hide or deceive are told apart from all others.
pub proof fn law_what_is_hidden(c: char, r: bool)
    requires
        call_ensures(content::is_deceptive, (c,), r),
    ensures
        r == hidden(c),
        ' ' <= c <= '~' ==> !r,
        c as u32 >= 0xa0 && (c as u32) < 0x2000 ==> !r,
{
}

} // verus!
