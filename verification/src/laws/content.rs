//! Laws of the text cleaning in `content`.

use vstd::prelude::*;

use crate::chars;
use crate::content;

verus! {

/// No control character and no deceptive one.
pub open spec fn clean(s: Seq<char>) -> bool {
    forall|i: int|
        0 <= i < s.len() ==> !chars::control(#[trigger] s[i]) && !content::deceptive(s[i])
}

/// No control character but line feeds, and no deceptive one.
pub open spec fn clean_text(s: Seq<char>) -> bool {
    forall|i: int|
        0 <= i < s.len() ==> (s[i] == '\n' || !chars::control(#[trigger] s[i]))
            && !content::deceptive(s[i])
}

// ------------------------------------------------------------- single line

proof fn lemma_visible_clean(s: Seq<char>)
    ensures
        clean(content::visible(s)),
    decreases s.len(),
{
    if s.len() > 0 {
        lemma_visible_clean(s.drop_last());
        content::lemma_visible_step(s);
    } else {
        assert(content::visible(s) =~= Seq::empty());
    }
}

proof fn lemma_visible_id(s: Seq<char>)
    requires
        clean(s),
    ensures
        content::visible(s) == s,
    decreases s.len(),
{
    if s.len() > 0 {
        assert forall|i: int| 0 <= i < s.drop_last().len() implies !chars::control(
            #[trigger] s.drop_last()[i],
        ) && !content::deceptive(s.drop_last()[i]) by {
            assert(s[i] == s.drop_last()[i]);
        }
        lemma_visible_id(s.drop_last());
        content::lemma_visible_step(s);
        assert(content::visible(s) =~= s);
    } else {
        assert(content::visible(s) =~= s);
    }
}

/// A word: some characters, none of them whitespace.
spec fn is_word(w: Seq<char>) -> bool {
    &&& w.len() > 0
    &&& forall|i: int| 0 <= i < w.len() ==> !chars::whitespace(#[trigger] w[i])
}

spec fn all_words(ws: Seq<Seq<char>>) -> bool {
    forall|i: int| 0 <= i < ws.len() ==> is_word(#[trigger] ws[i])
}

pub open spec fn all_clean(ws: Seq<Seq<char>>) -> bool {
    forall|i: int| 0 <= i < ws.len() ==> clean(#[trigger] ws[i])
}

proof fn lemma_words_are_words(s: Seq<char>)
    ensures
        all_words(chars::words(s)),
        clean(s) ==> all_clean(chars::words(s)),
    decreases s.len(),
{
    if s.len() > 0 {
        let front = s.drop_last();
        let before = chars::words(front);
        let c = s.last();
        lemma_words_are_words(front);
        if clean(s) {
            assert forall|i: int| 0 <= i < front.len() implies !chars::control(#[trigger] front[i])
                && !content::deceptive(front[i]) by {
                assert(s[i] == front[i]);
            }
        }
        if !chars::whitespace(c) {
            if s.len() >= 2 && !chars::whitespace(s[s.len() - 2]) {
                assert(front.last() == s[s.len() - 2]);
                chars::lemma_words_open(front);
                let w = before.last();
                assert(is_word(before[before.len() - 1]));
                assert(is_word(w.push(c)));
                if clean(s) {
                    assert(clean(before[before.len() - 1]));
                    assert(clean(w.push(c)));
                }
                let now = chars::words(s);
                assert forall|i: int| 0 <= i < now.len() implies is_word(#[trigger] now[i]) by {
                    if i < before.len() - 1 {
                        assert(now[i] == before[i]);
                    }
                }
                if clean(s) {
                    assert forall|i: int| 0 <= i < now.len() implies clean(#[trigger] now[i]) by {
                        if i < before.len() - 1 {
                            assert(now[i] == before[i]);
                        }
                    }
                }
            } else {
                let now = chars::words(s);
                assert(is_word(seq![c]));
                assert forall|i: int| 0 <= i < now.len() implies is_word(#[trigger] now[i]) by {
                    if i < before.len() {
                        assert(now[i] == before[i]);
                    }
                }
                if clean(s) {
                    assert(s[s.len() - 1] == c);
                    assert(clean(seq![c]));
                    assert forall|i: int| 0 <= i < now.len() implies clean(#[trigger] now[i]) by {
                        if i < before.len() {
                            assert(now[i] == before[i]);
                        }
                    }
                }
            }
        }
    }
}

/// A word behind whitespace, or at the start, is a word of its own.
proof fn lemma_words_append(a: Seq<char>, w: Seq<char>)
    requires
        a.len() == 0 || chars::whitespace(a.last()),
        is_word(w),
    ensures
        chars::words(a + w) == chars::words(a).push(w),
    decreases w.len(),
{
    let s = a + w;
    let c = w.last();
    assert(s.last() == c);
    assert(!chars::whitespace(w[w.len() - 1]));
    assert(s.drop_last() =~= a + w.drop_last());
    if w.len() == 1 {
        assert(a + w.drop_last() =~= a);
        assert(w =~= seq![c]);
        if a.len() > 0 {
            assert(s[s.len() - 2] == a.last());
        }
    } else {
        let v = w.drop_last();
        assert forall|i: int| 0 <= i < v.len() implies !chars::whitespace(#[trigger] v[i]) by {
            assert(v[i] == w[i]);
        }
        lemma_words_append(a, v);
        assert(s[s.len() - 2] == w[w.len() - 2]);
        let before = chars::words(a).push(v);
        assert(before.drop_last() =~= chars::words(a));
        assert(v.push(c) =~= w);
    }
}

proof fn lemma_words_joined(ws: Seq<Seq<char>>)
    requires
        all_words(ws),
    ensures
        chars::words(chars::joined(ws, " "@)) == ws,
    decreases ws.len(),
{
    reveal_strlit(" ");
    if ws.len() == 0 {
        assert(chars::words(chars::joined(ws, " "@)) =~= ws);
    } else if ws.len() == 1 {
        let a = Seq::<char>::empty();
        assert(is_word(ws[0]));
        lemma_words_append(a, ws[0]);
        assert(a + ws[0] =~= ws[0]);
        assert(chars::words(a).push(ws[0]) =~= ws);
    } else {
        let front = ws.drop_last();
        assert forall|i: int| 0 <= i < front.len() implies is_word(#[trigger] front[i]) by {
            assert(front[i] == ws[i]);
        }
        lemma_words_joined(front);
        let j = chars::joined(front, " "@);
        let a = j + " "@;
        assert(a.last() == ' ');
        assert(a.drop_last() =~= j);
        assert(chars::words(a) == front);
        assert(is_word(ws[ws.len() - 1]));
        lemma_words_append(a, ws.last());
        assert(front.push(ws.last()) =~= ws);
    }
}

proof fn lemma_joined_clean(ws: Seq<Seq<char>>)
    requires
        all_clean(ws),
    ensures
        clean(chars::joined(ws, " "@)),
    decreases ws.len(),
{
    reveal_strlit(" ");
    if ws.len() == 1 {
        assert(clean(ws[0]));
    } else if ws.len() > 1 {
        let front = ws.drop_last();
        assert forall|i: int| 0 <= i < front.len() implies clean(#[trigger] front[i]) by {
            assert(front[i] == ws[i]);
        }
        lemma_joined_clean(front);
        assert(clean(ws[ws.len() - 1]));
        let s = chars::joined(ws, " "@);
        let j = chars::joined(front, " "@);
        assert forall|i: int| 0 <= i < s.len() implies !chars::control(#[trigger] s[i])
            && !content::deceptive(s[i]) by {
            if i < j.len() {
                assert(s[i] == j[i]);
            } else if i == j.len() {
                assert(s[i] == ' ');
            } else {
                assert(s[i] == ws.last()[i - j.len() - 1]);
            }
        }
    }
}

/// A line that was cleaned holds no control character and none that can
/// reorder or hide text.
pub proof fn law_single_line_is_clean(raw: Seq<char>)
    ensures
        clean(content::single_line(raw)),
{
    lemma_visible_clean(raw);
    lemma_words_are_words(content::visible(raw));
    lemma_joined_clean(chars::words(content::visible(raw)));
}

/// Cleaning a line that was cleaned already changes nothing.
pub proof fn law_single_line_is_stable(raw: Seq<char>)
    ensures
        content::single_line(content::single_line(raw)) == content::single_line(raw),
{
    law_single_line_is_clean(raw);
    lemma_visible_id(content::single_line(raw));
    lemma_words_are_words(content::visible(raw));
    lemma_words_joined(chars::words(content::visible(raw)));
}

/// Whitespace only between words, one space each.
pub open spec fn evenly_spaced(s: Seq<char>) -> bool {
    forall|i: int|
        0 <= i < s.len() && chars::whitespace(#[trigger] s[i]) ==> s[i] == ' ' && 0 < i < s.len()
            - 1 && !chars::whitespace(s[i - 1])
}

proof fn lemma_joined_evenly(ws: Seq<Seq<char>>)
    requires
        all_words(ws),
    ensures
        evenly_spaced(chars::joined(ws, " "@)),
        ws.len() > 0 ==> chars::joined(ws, " "@).len() > 0 && !chars::whitespace(
            chars::joined(ws, " "@).last(),
        ),
    decreases ws.len(),
{
    reveal_strlit(" ");
    if ws.len() > 0 {
        let w = ws[ws.len() - 1];
        assert(is_word(w));
        assert(!chars::whitespace(w[w.len() - 1]));
        if ws.len() > 1 {
            let front = ws.drop_last();
            assert forall|i: int| 0 <= i < front.len() implies is_word(#[trigger] front[i]) by {
                assert(front[i] == ws[i]);
            }
            lemma_joined_evenly(front);
            let s = chars::joined(ws, " "@);
            let j = chars::joined(front, " "@);
            assert(s == j + " "@ + w);
            assert forall|i: int|
                0 <= i < s.len() && chars::whitespace(#[trigger] s[i]) implies s[i] == ' ' && 0 < i
                < s.len() - 1 && !chars::whitespace(s[i - 1]) by {
                if i < j.len() {
                    assert(s[i] == j[i]);
                    assert(s[i - 1] == j[i - 1]);
                } else if i == j.len() {
                    assert(s[i - 1] == j.last());
                } else {
                    assert(s[i] == w[i - j.len() - 1]);
                }
            }
            assert(s.last() == w[w.len() - 1]);
        }
    }
}

/// The words of a line that was cleaned stand one space apart, and they are
/// the words of what was visible.
pub proof fn law_words_stand_one_space_apart(raw: Seq<char>)
    ensures
        evenly_spaced(content::single_line(raw)),
        chars::words(content::single_line(raw)) == chars::words(content::visible(raw)),
{
    lemma_words_are_words(content::visible(raw));
    lemma_joined_evenly(chars::words(content::visible(raw)));
    lemma_words_joined(chars::words(content::visible(raw)));
}

/// Joining the words of an evenly spaced text, which may end in a space,
/// gives it back.
proof fn lemma_joined_words(s: Seq<char>)
    requires
        forall|i: int|
            0 <= i < s.len() && chars::whitespace(#[trigger] s[i]) ==> s[i] == ' ' && 0 < i
                && !chars::whitespace(s[i - 1]),
    ensures
        chars::joined(chars::words(s), " "@) == (if s.len() > 0 && chars::whitespace(s.last()) {
            s.drop_last()
        } else {
            s
        }),
        s.len() > 0 ==> chars::words(s).len() > 0,
    decreases s.len(),
{
    reveal_strlit(" ");
    if s.len() == 0 {
        assert(chars::joined(chars::words(s), " "@) =~= s);
    } else {
        let front = s.drop_last();
        let before = chars::words(front);
        let c = s.last();
        assert(s[s.len() - 1] == c);
        assert forall|i: int|
            0 <= i < front.len() && chars::whitespace(#[trigger] front[i]) implies front[i] == ' '
            && 0 < i && !chars::whitespace(front[i - 1]) by {
            assert(s[i] == front[i]);
            assert(s[i - 1] == front[i - 1]);
        }
        lemma_joined_words(front);
        if chars::whitespace(c) {
            assert(front.last() == s[s.len() - 2]);
        } else if s.len() == 1 {
            assert(before =~= Seq::empty());
            assert(chars::words(s) =~= seq![seq![c]]);
            assert(s =~= seq![c]);
        } else if chars::whitespace(s[s.len() - 2]) {
            assert(front.last() == s[s.len() - 2]);
            let now = chars::words(s);
            assert(now == before.push(seq![c]));
            assert(now.drop_last() =~= before);
            assert(chars::joined(now, " "@) =~= s);
        } else {
            assert(front.last() == s[s.len() - 2]);
            let now = chars::words(s);
            let w = before.last();
            assert(now == before.drop_last().push(w.push(c)));
            assert(now.drop_last() =~= before.drop_last());
            assert(chars::joined(now, " "@) =~= chars::joined(before, " "@).push(c));
            assert(front.push(c) =~= s);
        }
    }
}

/// A line that is clean already is kept exactly.
pub proof fn law_clean_lines_are_kept(s: Seq<char>)
    requires
        clean(s),
        evenly_spaced(s),
    ensures
        content::single_line(s) == s,
{
    lemma_visible_id(s);
    lemma_joined_words(s);
    if s.len() > 0 {
        assert(!chars::whitespace(s[s.len() - 1]));
    }
}

/// A title the UI accepted is accepted by the server as it stands; so are
/// mail subjects and chat lines.
pub proof fn law_accepted_lines_are_stable(raw: Seq<char>)
    ensures
        content::title_of(raw) matches Ok(t) ==> content::title_of(t) == content::title_of(raw),
        content::subject_of(raw) matches Ok(t) ==> content::subject_of(t) == content::subject_of(
            raw,
        ),
        content::chat_of(raw) matches Ok(t) ==> content::chat_of(t) == content::chat_of(raw),
{
    law_single_line_is_stable(raw);
}

// -------------------------------------------------------------- many lines

/// A line as `content` keeps it: clean, and with nothing blank at its end.
pub open spec fn tidied(l: Seq<char>) -> bool {
    clean(l) && chars::trim_end(l) == l
}

pub open spec fn all_tidied(ls: Seq<Seq<char>>) -> bool {
    forall|i: int| 0 <= i < ls.len() ==> tidied(#[trigger] ls[i])
}

proof fn lemma_expanded_clean(s: Seq<char>)
    ensures
        clean(content::expanded(s)),
    decreases s.len(),
{
    if s.len() > 0 {
        lemma_expanded_clean(s.drop_last());
    }
}

proof fn lemma_trim_end(s: Seq<char>)
    ensures
        chars::trim_end(chars::trim_end(s)) == chars::trim_end(s),
        clean(s) ==> clean(chars::trim_end(s)),
    decreases s.len(),
{
    if s.len() > 0 && chars::whitespace(s.last()) {
        lemma_trim_end(s.drop_last());
    }
}

proof fn lemma_tidy_line(s: Seq<char>)
    ensures
        tidied(content::tidy_line(s)),
{
    lemma_expanded_clean(s);
    lemma_trim_end(content::expanded(s));
}

proof fn lemma_expanded_id(s: Seq<char>)
    requires
        clean(s),
    ensures
        content::expanded(s) == s,
    decreases s.len(),
{
    if s.len() > 0 {
        let front = s.drop_last();
        assert forall|i: int| 0 <= i < front.len() implies !chars::control(#[trigger] front[i])
            && !content::deceptive(front[i]) by {
            assert(s[i] == front[i]);
        }
        lemma_expanded_id(front);
        assert(s[s.len() - 1] == s.last());
        assert(content::expanded(s) =~= s);
    } else {
        assert(content::expanded(s) =~= s);
    }
}

proof fn lemma_capped_tidied(ls: Seq<Seq<char>>)
    requires
        all_tidied(ls),
    ensures
        all_tidied(content::capped(ls)),
    decreases ls.len(),
{
    if ls.len() > 0 {
        let front = ls.drop_last();
        assert forall|i: int| 0 <= i < front.len() implies tidied(#[trigger] front[i]) by {
            assert(front[i] == ls[i]);
        }
        lemma_capped_tidied(front);
        assert(tidied(ls[ls.len() - 1]));
    }
}

proof fn lemma_strip_tidied(ls: Seq<Seq<char>>)
    requires
        all_tidied(ls),
    ensures
        all_tidied(content::strip_start(ls)),
        all_tidied(content::strip_end(ls)),
    decreases ls.len(),
{
    if ls.len() > 0 {
        let front = ls.drop_last();
        let back = ls.drop_first();
        assert forall|i: int| 0 <= i < front.len() implies tidied(#[trigger] front[i]) by {
            assert(front[i] == ls[i]);
        }
        assert forall|i: int| 0 <= i < back.len() implies tidied(#[trigger] back[i]) by {
            assert(back[i] == ls[i + 1]);
        }
        if ls.first().len() == 0 {
            lemma_strip_tidied(back);
        }
        if ls.last().len() == 0 {
            lemma_strip_tidied(front);
        }
    }
}

/// No run of blank lines is longer than allowed.
pub open spec fn runs_capped(ls: Seq<Seq<char>>) -> bool {
    forall|k: int|
        0 <= k <= ls.len() ==> content::trailing_blanks(#[trigger] ls.take(k))
            <= content::MAX_BLANK_LINES
}

proof fn lemma_capped_runs(ls: Seq<Seq<char>>)
    ensures
        runs_capped(content::capped(ls)),
        content::trailing_blanks(content::capped(ls)) == if content::trailing_blanks(ls)
            > content::MAX_BLANK_LINES {
            content::MAX_BLANK_LINES as nat
        } else {
            content::trailing_blanks(ls)
        },
    decreases ls.len(),
{
    let now = content::capped(ls);
    if ls.len() > 0 {
        let before = content::capped(ls.drop_last());
        lemma_capped_runs(ls.drop_last());
        if !(ls.last().len() == 0 && content::trailing_blanks(ls) > content::MAX_BLANK_LINES) {
            assert(now == before.push(ls.last()));
            assert(now.drop_last() =~= before);
            assert forall|k: int| 0 <= k <= now.len() implies content::trailing_blanks(
                #[trigger] now.take(k),
            ) <= content::MAX_BLANK_LINES by {
                if k < now.len() {
                    assert(now.take(k) =~= before.take(k));
                } else {
                    assert(now.take(k) =~= now);
                }
            }
        }
    } else {
        assert forall|k: int| 0 <= k <= now.len() implies content::trailing_blanks(
            #[trigger] now.take(k),
        ) <= content::MAX_BLANK_LINES by {
            assert(now.take(k).len() == 0);
        }
    }
}

proof fn lemma_capped_id(ls: Seq<Seq<char>>)
    requires
        runs_capped(ls),
    ensures
        content::capped(ls) == ls,
    decreases ls.len(),
{
    if ls.len() > 0 {
        let front = ls.drop_last();
        assert forall|k: int| 0 <= k <= front.len() implies content::trailing_blanks(
            #[trigger] front.take(k),
        ) <= content::MAX_BLANK_LINES by {
            assert(front.take(k) =~= ls.take(k));
        }
        lemma_capped_id(front);
        assert(ls.take(ls.len() as int) =~= ls);
        assert(front.push(ls.last()) =~= ls);
    } else {
        assert(content::capped(ls) =~= ls);
    }
}

proof fn lemma_blanks_of_suffix(ls: Seq<Seq<char>>)
    requires
        ls.len() > 0,
    ensures
        content::trailing_blanks(ls.drop_first()) <= content::trailing_blanks(ls),
    decreases ls.len(),
{
    let back = ls.drop_first();
    if back.len() > 0 {
        assert(back.last() == ls.last());
        assert(back.drop_last() =~= ls.drop_last().drop_first());
        lemma_blanks_of_suffix(ls.drop_last());
    }
}

proof fn lemma_strip_start_runs(ls: Seq<Seq<char>>)
    requires
        runs_capped(ls),
    ensures
        runs_capped(content::strip_start(ls)),
        content::strip_start(ls).len() > 0 ==> content::strip_start(ls).first().len() > 0,
    decreases ls.len(),
{
    if ls.len() > 0 && ls.first().len() == 0 {
        let back = ls.drop_first();
        assert forall|k: int| 0 <= k <= back.len() implies content::trailing_blanks(
            #[trigger] back.take(k),
        ) <= content::MAX_BLANK_LINES by {
            let wider = ls.take(k + 1);
            assert(wider.drop_first() =~= back.take(k));
            lemma_blanks_of_suffix(wider);
        }
        lemma_strip_start_runs(back);
    }
}

proof fn lemma_strip_end_runs(ls: Seq<Seq<char>>)
    requires
        runs_capped(ls),
        ls.len() > 0 ==> ls.first().len() > 0,
    ensures
        runs_capped(content::strip_end(ls)),
        content::strip_end(ls).len() > 0 ==> content::strip_end(ls).first().len() > 0
            && content::strip_end(ls).last().len() > 0,
    decreases ls.len(),
{
    if ls.len() > 0 && ls.last().len() == 0 {
        let front = ls.drop_last();
        assert forall|k: int| 0 <= k <= front.len() implies content::trailing_blanks(
            #[trigger] front.take(k),
        ) <= content::MAX_BLANK_LINES by {
            assert(front.take(k) =~= ls.take(k));
        }
        if front.len() > 0 {
            assert(front.first() == ls.first());
        }
        lemma_strip_end_runs(front);
    }
}

proof fn lemma_normalized_id(s: Seq<char>)
    requires
        forall|i: int| 0 <= i < s.len() ==> #[trigger] s[i] != '\r',
    ensures
        content::normalized(s) == s,
    decreases s.len(),
{
    if s.len() > 0 {
        let front = s.drop_last();
        assert forall|i: int| 0 <= i < front.len() implies #[trigger] front[i] != '\r' by {
            assert(front[i] == s[i]);
        }
        lemma_normalized_id(front);
        assert(s[s.len() - 1] == s.last());
        assert(front.push(s.last()) =~= s);
    } else {
        assert(content::normalized(s) =~= s);
    }
}

proof fn lemma_split_append(a: Seq<char>, l: Seq<char>)
    requires
        clean(l),
    ensures
        chars::split(a + "\n"@ + l, '\n') == chars::split(a, '\n').push(l),
    decreases l.len(),
{
    reveal_strlit("\n");
    let s = a + "\n"@ + l;
    if l.len() == 0 {
        assert(s.last() == '\n');
        assert(s.drop_last() =~= a);
        assert(l =~= Seq::empty());
    } else {
        let m = l.drop_last();
        assert forall|i: int| 0 <= i < m.len() implies !chars::control(#[trigger] m[i])
            && !content::deceptive(m[i]) by {
            assert(l[i] == m[i]);
        }
        lemma_split_append(a, m);
        assert(s.drop_last() =~= a + "\n"@ + m);
        assert(s.last() == l.last());
        assert(!chars::control(l[l.len() - 1]));
        let before = chars::split(a, '\n').push(m);
        assert(before.drop_last() =~= chars::split(a, '\n'));
        assert(m.push(l.last()) =~= l);
    }
}

proof fn lemma_split_one(l: Seq<char>)
    requires
        clean(l),
    ensures
        chars::split(l, '\n') == seq![l],
    decreases l.len(),
{
    if l.len() == 0 {
        assert(l =~= Seq::empty());
    } else {
        let m = l.drop_last();
        assert forall|i: int| 0 <= i < m.len() implies !chars::control(#[trigger] m[i])
            && !content::deceptive(m[i]) by {
            assert(l[i] == m[i]);
        }
        lemma_split_one(m);
        assert(!chars::control(l[l.len() - 1]));
        assert(m.push(l.last()) =~= l);
        assert(chars::split(l, '\n') =~= seq![l]);
    }
}

pub proof fn lemma_split_joined(ls: Seq<Seq<char>>)
    requires
        ls.len() > 0,
        all_clean(ls),
    ensures
        chars::split(chars::joined(ls, "\n"@), '\n') == ls,
    decreases ls.len(),
{
    if ls.len() == 1 {
        assert(clean(ls[0]));
        lemma_split_one(ls[0]);
        assert(seq![ls[0]] =~= ls);
    } else {
        let front = ls.drop_last();
        assert forall|i: int| 0 <= i < front.len() implies clean(#[trigger] front[i]) by {
            assert(front[i] == ls[i]);
        }
        lemma_split_joined(front);
        assert(clean(ls[ls.len() - 1]));
        lemma_split_append(chars::joined(front, "\n"@), ls.last());
        assert(front.push(ls.last()) =~= ls);
    }
}

proof fn lemma_joined_clean_text(ls: Seq<Seq<char>>)
    requires
        all_clean(ls),
    ensures
        clean_text(chars::joined(ls, "\n"@)),
    decreases ls.len(),
{
    reveal_strlit("\n");
    if ls.len() == 1 {
        assert(clean(ls[0]));
    } else if ls.len() > 1 {
        let front = ls.drop_last();
        assert forall|i: int| 0 <= i < front.len() implies clean(#[trigger] front[i]) by {
            assert(front[i] == ls[i]);
        }
        lemma_joined_clean_text(front);
        assert(clean(ls[ls.len() - 1]));
        let s = chars::joined(ls, "\n"@);
        let j = chars::joined(front, "\n"@);
        assert forall|i: int| 0 <= i < s.len() implies (s[i] == '\n' || !chars::control(
            #[trigger] s[i],
        )) && !content::deceptive(s[i]) by {
            if i < j.len() {
                assert(s[i] == j[i]);
            } else if i == j.len() {
                assert(s[i] == '\n');
            } else {
                assert(s[i] == ls.last()[i - j.len() - 1]);
            }
        }
    }
}

pub proof fn lemma_lines(raw: Seq<char>)
    ensures
        all_tidied(content::lines_of(raw)),
        all_clean(content::lines_of(raw)),
        runs_capped(content::lines_of(raw)),
        content::lines_of(raw).len() > 0 ==> content::lines_of(raw).first().len() > 0
            && content::lines_of(raw).last().len() > 0,
{
    let ls = content::tidy_lines(raw);
    assert forall|i: int| 0 <= i < ls.len() implies tidied(#[trigger] ls[i]) by {
        lemma_tidy_line(chars::split(content::normalized(raw), '\n')[i]);
    }
    lemma_capped_tidied(ls);
    lemma_capped_runs(ls);
    let cs = content::capped(ls);
    lemma_strip_tidied(cs);
    lemma_strip_start_runs(cs);
    let ss = content::strip_start(cs);
    lemma_strip_tidied(ss);
    lemma_strip_end_runs(ss);
    let r = content::lines_of(raw);
    assert forall|i: int| 0 <= i < r.len() implies clean(#[trigger] r[i]) by {
        assert(tidied(r[i]));
    }
}

/// A text of several lines that was cleaned holds no control character but
/// the line feeds between its lines, and none that can reorder or hide text.
pub proof fn law_lines_are_clean(raw: Seq<char>)
    ensures
        clean_text(chars::joined(content::lines_of(raw), "\n"@)),
{
    lemma_lines(raw);
    lemma_joined_clean_text(content::lines_of(raw));
}

/// A text that is clean already is kept exactly, with its indentation and
/// its inner spacing.
pub proof fn law_clean_texts_are_kept(ls: Seq<Seq<char>>)
    requires
        ls.len() > 0,
        all_tidied(ls),
        runs_capped(ls),
        ls.first().len() > 0,
        ls.last().len() > 0,
    ensures
        content::lines_of(chars::joined(ls, "\n"@)) == ls,
{
    let text = chars::joined(ls, "\n"@);
    assert forall|i: int| 0 <= i < ls.len() implies clean(#[trigger] ls[i]) by {
        assert(tidied(ls[i]));
    }
    lemma_joined_clean_text(ls);
    assert forall|i: int| 0 <= i < text.len() implies #[trigger] text[i] != '\r' by {
        assert(text[i] == '\n' || !chars::control(text[i]));
    }
    lemma_normalized_id(text);
    lemma_split_joined(ls);
    assert(content::tidy_lines(text) =~= ls) by {
        assert forall|i: int| 0 <= i < ls.len() implies content::tidy_line(#[trigger] ls[i])
            == ls[i] by {
            assert(tidied(ls[i]));
            lemma_expanded_id(ls[i]);
        }
    }
    lemma_capped_id(ls);
}

/// Four blank lines in a row, from line `i` on.
pub open spec fn blank_run(ls: Seq<Seq<char>>, i: int) -> bool {
    ls[i].len() == 0 && ls[i + 1].len() == 0 && ls[i + 2].len() == 0 && ls[i + 3].len() == 0
}

/// Lines as they are written to be read: printable characters only, nothing
/// blank at the end of a line, no blank line at either end of the text, and
/// never four of them in a row.
pub open spec fn well_set(ls: Seq<Seq<char>>) -> bool {
    &&& ls.len() > 0
    &&& ls[0].len() > 0
    &&& ls[ls.len() - 1].len() > 0
    &&& forall|i: int|
        0 <= i < ls.len() ==> clean(#[trigger] ls[i]) && (ls[i].len() > 0 ==> !chars::whitespace(
            ls[i][ls[i].len() - 1],
        ))
    &&& forall|i: int| 0 <= i && i + 3 < ls.len() ==> !(#[trigger] blank_run(ls, i))
}

proof fn lemma_trailing_blanks(ls: Seq<Seq<char>>, k: int)
    requires
        0 <= k < content::trailing_blanks(ls),
    ensures
        k < ls.len(),
        ls[ls.len() - 1 - k].len() == 0,
    decreases k,
{
    if k > 0 {
        lemma_trailing_blanks(ls.drop_last(), k - 1);
    }
}

pub proof fn lemma_well_set(ls: Seq<Seq<char>>)
    requires
        well_set(ls),
    ensures
        all_tidied(ls),
        runs_capped(ls),
{
    assert forall|i: int| 0 <= i < ls.len() implies tidied(#[trigger] ls[i]) by {
        assert(clean(ls[i]));
    }
    assert forall|k: int| 0 <= k <= ls.len() implies content::trailing_blanks(
        #[trigger] ls.take(k),
    ) <= content::MAX_BLANK_LINES by {
        let m = ls.take(k);
        if content::trailing_blanks(m) > 3 {
            lemma_trailing_blanks(m, 0);
            lemma_trailing_blanks(m, 1);
            lemma_trailing_blanks(m, 2);
            lemma_trailing_blanks(m, 3);
            assert(blank_run(ls, k - 4));
        }
    }
}

proof fn lemma_spaces_tidy(s: Seq<char>)
    requires
        forall|i: int| 0 <= i < s.len() ==> #[trigger] s[i] == ' ',
    ensures
        content::tidy_line(s) == Seq::<char>::empty(),
{
    assert(clean(s));
    lemma_expanded_id(s);
    lemma_trim_spaces(s);
}

proof fn lemma_trim_spaces(s: Seq<char>)
    requires
        forall|i: int| 0 <= i < s.len() ==> #[trigger] s[i] == ' ',
    ensures
        chars::trim_end(s) == Seq::<char>::empty(),
    decreases s.len(),
{
    if s.len() > 0 {
        assert(s[s.len() - 1] == ' ');
        assert forall|i: int| 0 <= i < s.drop_last().len() implies #[trigger] s.drop_last()[i]
            == ' ' by {
            assert(s.drop_last()[i] == s[i]);
        }
        lemma_trim_spaces(s.drop_last());
    } else {
        assert(s =~= Seq::empty());
    }
}

proof fn lemma_split_spaces(s: Seq<char>)
    requires
        forall|i: int| 0 <= i < s.len() ==> #[trigger] s[i] == ' ' || s[i] == '\n',
    ensures
        forall|k: int, i: int|
            0 <= k < chars::split(s, '\n').len() && 0 <= i < chars::split(s, '\n')[k].len()
                ==> #[trigger] chars::split(s, '\n')[k][i] == ' ',
    decreases s.len(),
{
    if s.len() > 0 {
        let t = s.drop_last();
        assert forall|i: int| 0 <= i < t.len() implies #[trigger] t[i] == ' ' || t[i] == '\n' by {
            assert(t[i] == s[i]);
        }
        lemma_split_spaces(t);
        chars::lemma_split_nonempty(t, '\n');
        assert(s[s.len() - 1] == ' ' || s[s.len() - 1] == '\n');
    }
}

proof fn lemma_all_blank(ls: Seq<Seq<char>>)
    requires
        forall|i: int| 0 <= i < ls.len() ==> (#[trigger] ls[i]).len() == 0,
    ensures
        content::strip_start(ls).len() == 0,
        forall|i: int|
            0 <= i < content::capped(ls).len() ==> (#[trigger] content::capped(ls)[i]).len() == 0,
    decreases ls.len(),
{
    if ls.len() > 0 {
        let front = ls.drop_last();
        let back = ls.drop_first();
        assert forall|i: int| 0 <= i < front.len() implies (#[trigger] front[i]).len() == 0 by {
            assert(front[i] == ls[i]);
        }
        assert forall|i: int| 0 <= i < back.len() implies (#[trigger] back[i]).len() == 0 by {
            assert(back[i] == ls[i + 1]);
        }
        lemma_all_blank(front);
        lemma_all_blank(back);
        assert(ls[0].len() == 0);
        assert(ls[ls.len() - 1].len() == 0);
        let before = content::capped(front);
        assert forall|i: int| 0 <= i < content::capped(ls).len() implies (
        #[trigger] content::capped(ls)[i]).len() == 0 by {
            if i < before.len() {
                assert(content::capped(ls)[i] == before[i]);
            }
        }
    }
}

/// A text of spaces and line feeds is no message.
pub proof fn lemma_blank_text(s: Seq<char>)
    requires
        forall|i: int| 0 <= i < s.len() ==> #[trigger] s[i] == ' ' || s[i] == '\n',
    ensures
        content::body_of(s) == Err::<Seq<char>, Seq<char>>("The message is empty."@),
{
    lemma_normalized_id(s);
    lemma_split_spaces(s);
    let ls = content::tidy_lines(s);
    assert forall|i: int| 0 <= i < ls.len() implies (#[trigger] ls[i]).len() == 0 by {
        lemma_spaces_tidy(chars::split(s, '\n')[i]);
    }
    lemma_all_blank(ls);
    lemma_all_blank(content::capped(ls));
}

/// A text that is well set is kept, character for character, by the cleaning
/// of posts and of the message of the day.
pub proof fn law_well_set_texts_are_kept(ls: Seq<Seq<char>>, text: &str)
    requires
        well_set(ls),
        text@ == chars::joined(ls, "\n"@),
    ensures
        forall|r: Result<String, String>| #[trigger]
            call_ensures(content::clean_body, (text,), r) ==> if text@.len() <= 2000 {
                r matches Ok(t) && t@ == text@
            } else {
                r matches Err(e) && e@ == "Messages can be at most 2000 characters."@
            },
        forall|r: Result<String, String>| #[trigger]
            call_ensures(content::clean_motd, (text,), r) ==> if text@.len() <= 4000 {
                r matches Ok(t) && t@ == text@
            } else {
                r matches Err(e) && e@ == "The MOTD can be at most 4000 characters."@
            },
{
    lemma_well_set(ls);
    law_clean_texts_are_kept(ls);
    assert forall|r: Result<String, String>| #[trigger]
        call_ensures(content::clean_body, (text,), r) implies if text@.len() <= 2000 {
        r matches Ok(t) && t@ == text@
    } else {
        r matches Err(e) && e@ == "Messages can be at most 2000 characters."@
    } by {
        assert(content::outcome(r) == content::body_of(text@));
    }
    assert forall|r: Result<String, String>| #[trigger]
        call_ensures(content::clean_motd, (text,), r) implies if text@.len() <= 4000 {
        r matches Ok(t) && t@ == text@
    } else {
        r matches Err(e) && e@ == "The MOTD can be at most 4000 characters."@
    } by {
        assert(content::outcome(r) == content::motd_of(text@));
    }
}

/// A line of printable characters whose words stand one space apart is kept,
/// character for character, as a title, as a subject and as a line of chat.
pub proof fn law_even_lines_are_kept(text: &str)
    requires
        clean(text@),
        evenly_spaced(text@),
    ensures
        forall|r: Result<String, String>| #[trigger]
            call_ensures(content::clean_title, (text,), r) ==> if text@.len() < 3 {
                r matches Err(e) && e@ == "Title must be at least 3 characters."@
            } else if text@.len() > 80 {
                r matches Err(e) && e@ == "Title must be at most 80 characters."@
            } else {
                r matches Ok(t) && t@ == text@
            },
        forall|r: Result<String, String>| #[trigger]
            call_ensures(content::clean_subject, (text,), r) ==> if text@.len() == 0 {
                r matches Err(e) && e@ == "Please give the message a subject."@
            } else if text@.len() > 80 {
                r matches Err(e) && e@ == "The subject can be at most 80 characters."@
            } else {
                r matches Ok(t) && t@ == text@
            },
        forall|r: Result<String, String>| #[trigger]
            call_ensures(content::clean_chat, (text,), r) ==> if text@.len() == 0 {
                r matches Err(e) && e@ == "Nothing to send."@
            } else if text@.len() > 300 {
                r matches Err(e) && e@ == "Chat messages can be at most 300 characters."@
            } else {
                r matches Ok(t) && t@ == text@
            },
{
    law_clean_lines_are_kept(text@);
    assert forall|r: Result<String, String>| #[trigger]
        call_ensures(content::clean_title, (text,), r) implies if text@.len() < 3 {
        r matches Err(e) && e@ == "Title must be at least 3 characters."@
    } else if text@.len() > 80 {
        r matches Err(e) && e@ == "Title must be at most 80 characters."@
    } else {
        r matches Ok(t) && t@ == text@
    } by {
        assert(content::outcome(r) == content::title_of(text@));
    }
    assert forall|r: Result<String, String>| #[trigger]
        call_ensures(content::clean_subject, (text,), r) implies if text@.len() == 0 {
        r matches Err(e) && e@ == "Please give the message a subject."@
    } else if text@.len() > 80 {
        r matches Err(e) && e@ == "The subject can be at most 80 characters."@
    } else {
        r matches Ok(t) && t@ == text@
    } by {
        assert(content::outcome(r) == content::subject_of(text@));
    }
    assert forall|r: Result<String, String>| #[trigger]
        call_ensures(content::clean_chat, (text,), r) implies if text@.len() == 0 {
        r matches Err(e) && e@ == "Nothing to send."@
    } else if text@.len() > 300 {
        r matches Err(e) && e@ == "Chat messages can be at most 300 characters."@
    } else {
        r matches Ok(t) && t@ == text@
    } by {
        assert(content::outcome(r) == content::chat_of(text@));
    }
}

/// Cleaning a text that was cleaned already changes nothing: its lines,
/// their indentation and their spacing are kept.
pub proof fn law_lines_are_stable(raw: Seq<char>)
    ensures
        content::lines_of(chars::joined(content::lines_of(raw), "\n"@)) == content::lines_of(raw),
{
    let ls = content::lines_of(raw);
    lemma_lines(raw);
    if ls.len() > 0 {
        law_clean_texts_are_kept(ls);
    } else {
        let text = chars::joined(ls, "\n"@);
        let e = Seq::<char>::empty();
        assert(text =~= e);
        lemma_normalized_id(text);
        assert(content::expanded(e) =~= e);
        assert(content::tidy_lines(text) =~= seq![e]);
        let one = seq![e];
        assert(one.drop_last() =~= Seq::empty());
        assert(one.drop_first() =~= Seq::empty());
        assert(content::trailing_blanks(one.drop_last()) == 0);
        assert(content::trailing_blanks(one) == 1);
        assert(content::capped(one.drop_last()) =~= Seq::empty());
        assert(content::capped(one) =~= one);
        assert(content::strip_start(one) == content::strip_start(one.drop_first()));
        assert(content::strip_start(one) =~= Seq::empty());
        assert(content::lines_of(text) =~= ls);
    }
}

/// A post the UI accepted is accepted by the server as it stands; so is a
/// message of the day.
pub proof fn law_accepted_texts_are_stable(raw: Seq<char>)
    ensures
        content::body_of(raw) matches Ok(t) ==> content::body_of(t) == content::body_of(raw),
        content::motd_of(raw) matches Ok(t) ==> content::motd_of(t) == content::motd_of(raw),
{
    law_lines_are_stable(raw);
}

/// What a text becomes that is accepted is well set: that is all that can be
/// stored as a post, sent as a letter or shown as the message of the day.
pub proof fn law_accepted_texts_are_well_set(
    raw: &str,
    body: Result<String, String>,
    motd: Result<String, String>,
) -> (ls: Seq<Seq<char>>)
    requires
        call_ensures(content::clean_body, (raw,), body),
        call_ensures(content::clean_motd, (raw,), motd),
    ensures
        body matches Ok(t) ==> well_set(ls) && t@ == chars::joined(ls, "\n"@) && t@.len() <= 2000,
        motd matches Ok(t) ==> (ls.len() == 0 || well_set(ls)) && t@ == chars::joined(ls, "\n"@)
            && t@.len() <= 4000,
        body is Err && motd is Ok && motd->Ok_0@.len() <= 2000 ==> ls.len() == 0,
{
    assert(content::outcome(body) == content::body_of(raw@));
    assert(content::outcome(motd) == content::motd_of(raw@));
    lemma_lines(raw@);
    let ls = content::lines_of(raw@);
    if ls.len() > 0 {
        assert forall|i: int| 0 <= i < ls.len() implies clean(#[trigger] ls[i]) && (ls[i].len() > 0
            ==> !chars::whitespace(ls[i][ls[i].len() - 1])) by {
            assert(tidied(ls[i]));
            lemma_tidied_end(ls[i]);
        }
        assert forall|i: int| 0 <= i && i + 3 < ls.len() implies !(#[trigger] blank_run(ls, i)) by {
            if blank_run(ls, i) {
                let four = ls.take(i + 4);
                reveal_with_fuel(content::trailing_blanks, 5);
                assert(four.last() == ls[i + 3]);
                assert(four.drop_last() =~= ls.take(i + 3));
                assert(ls.take(i + 3).last() == ls[i + 2]);
                assert(ls.take(i + 3).drop_last() =~= ls.take(i + 2));
                assert(ls.take(i + 2).last() == ls[i + 1]);
                assert(ls.take(i + 2).drop_last() =~= ls.take(i + 1));
                assert(ls.take(i + 1).last() == ls[i]);
                assert(content::trailing_blanks(four) >= 4);
            }
        }
    }
    ls
}

pub proof fn lemma_tidied_end(l: Seq<char>)
    requires
        tidied(l),
    ensures
        clean(l),
        l.len() > 0 ==> !chars::whitespace(l.last()),
{
    if l.len() > 0 && chars::whitespace(l.last()) {
        lemma_trim_end_shorter(l.drop_last());
    }
}

proof fn lemma_trim_end_shorter(s: Seq<char>)
    ensures
        chars::trim_end(s).len() <= s.len(),
    decreases s.len(),
{
    if s.len() > 0 && chars::whitespace(s.last()) {
        lemma_trim_end_shorter(s.drop_last());
    }
}

} // verus!
