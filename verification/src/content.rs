//! Validation and sanitising of user-written text (thread titles, posts).
//!
//! Everything a user submits goes through here on the server before it is
//! stored, whatever the UI already checked.

use vstd::prelude::*;

use crate::chars;
use crate::chars::{count, is_control, join, split_chars, to_chars, trim_end_chars, words_of};

verus! {

pub const TITLE_MIN: usize = 3;

pub const TITLE_MAX: usize = 80;

pub const BODY_MAX: usize = 2000;

pub const MOTD_MAX: usize = 4000;

pub const CHAT_MAX: usize = 300;

pub const SUBJECT_MAX: usize = 80;

/// Column at which the post editor word-wraps: the widest a line can be and
/// still fit inside the borders of an 80-column terminal, so full-width
/// ASCII art survives intact.
pub const WRAP_COLS: usize = 78;

/// Longest run of blank lines kept in a post.
pub const MAX_BLANK_LINES: usize = 3;

pub const TAB_WIDTH: usize = 4;

/// The texts inside a result, for contracts.
pub open spec fn outcome(r: Result<String, String>) -> Result<Seq<char>, Seq<char>> {
    match r {
        Ok(t) => Ok(t@),
        Err(e) => Err(e@),
    }
}

/// Characters that can reorder or hide text and be used to spoof other
/// users' content.
pub open spec fn deceptive(c: char) -> bool {
    let u = c as u32;
    // bidi embeddings and overrides
    ||| 0x202a <= u <= 0x202e
    // bidi isolates
    ||| 0x2066 <= u <= 0x2069
    // zero-width and directional marks
    ||| 0x200b <= u <= 0x200f
    ||| u == 0x2028
    ||| u == 0x2029
    ||| u == 0xfeff
}

pub fn is_deceptive(c: char) -> (r: bool)
    ensures
        r == deceptive(c),
{
    let u: u32 = c as u32;
    (0x202a <= u && u <= 0x202e) || (0x2066 <= u && u <= 0x2069) || (0x200b <= u && u <= 0x200f)
        || u == 0x2028 || u == 0x2029 || u == 0xfeff
}

// ------------------------------------------------------------- single line

/// `s` without its deceptive characters, and with a space for each control
/// character.
pub open spec fn visible(s: Seq<char>) -> Seq<char> {
    s.filter(|c: char| !deceptive(c)).map_values(|c: char| if chars::control(c) { ' ' } else { c })
}

/// Single-line text: deceptive characters removed, control characters made
/// spaces, the words that remain set one space apart.
pub open spec fn single_line(raw: Seq<char>) -> Seq<char> {
    chars::joined(chars::words(visible(raw)), " "@)
}

fn collapse(raw: &str) -> (r: String)
    ensures
        r@ == single_line(raw@),
{
    let cs = to_chars(raw);
    let mut shown: Vec<char> = Vec::new();
    let mut i: usize = 0;
    assert(shown@ =~= visible(cs@.take(0)));
    while i < cs.len()
        invariant
            i <= cs@.len(),
            shown@ == visible(cs@.take(i as int)),
        decreases cs@.len() - i,
    {
        proof {
            lemma_visible_step(cs@.take(i + 1));
            assert(cs@.take(i + 1).drop_last() =~= cs@.take(i as int));
        }
        let c = cs[i];
        if !is_deceptive(c) {
            shown.push(if is_control(c) { ' ' } else { c });
        }
        i += 1;
    }
    assert(cs@.take(i as int) =~= cs@);
    let parts = words_of(&shown);
    join(&parts, " ")
}

pub proof fn lemma_visible_step(s: Seq<char>)
    requires
        s.len() > 0,
    ensures
        visible(s) == (if deceptive(s.last()) {
            visible(s.drop_last())
        } else {
            visible(s.drop_last()).push(if chars::control(s.last()) { ' ' } else { s.last() })
        }),
{
    reveal(Seq::filter);
    let keep = |c: char| !deceptive(c);
    let show = |c: char| if chars::control(c) { ' ' } else { c };
    let before = s.drop_last().filter(keep);
    assert(s.filter(keep) == if keep(s.last()) {
        before.push(s.last())
    } else {
        before
    });
    assert(before.push(s.last()).map_values(show) =~= before.map_values(show).push(
        show(s.last()),
    ));
}

/// The title that `raw` gives, or why it is refused.
pub open spec fn title_of(raw: Seq<char>) -> Result<Seq<char>, Seq<char>> {
    let title = single_line(raw);
    if title.len() < TITLE_MIN {
        Err("Title must be at least 3 characters."@)
    } else if title.len() > TITLE_MAX {
        Err("Title must be at most 80 characters."@)
    } else {
        Ok(title)
    }
}

/// Single-line text: control characters removed, whitespace collapsed.
pub fn clean_title(raw: &str) -> (r: Result<String, String>)
    ensures
        outcome(r) == title_of(raw@),
{
    let title = collapse(raw);
    let len: usize = count(&title);
    if len < TITLE_MIN {
        return Err("Title must be at least 3 characters.".to_owned());
    }
    if len > TITLE_MAX {
        return Err("Title must be at most 80 characters.".to_owned());
    }
    Ok(title)
}

/// The mail subject that `raw` gives, or why it is refused.
pub open spec fn subject_of(raw: Seq<char>) -> Result<Seq<char>, Seq<char>> {
    let subject = single_line(raw);
    if subject.len() == 0 {
        Err("Please give the message a subject."@)
    } else if subject.len() > SUBJECT_MAX {
        Err("The subject can be at most 80 characters."@)
    } else {
        Ok(subject)
    }
}

/// A mail subject: like a title, but a single character is enough.
pub fn clean_subject(raw: &str) -> (r: Result<String, String>)
    ensures
        outcome(r) == subject_of(raw@),
{
    let subject = collapse(raw);
    let len: usize = count(&subject);
    if len == 0 {
        return Err("Please give the message a subject.".to_owned());
    }
    if len > SUBJECT_MAX {
        return Err("The subject can be at most 80 characters.".to_owned());
    }
    Ok(subject)
}

/// The chat line that `raw` gives, or why it is refused.
pub open spec fn chat_of(raw: Seq<char>) -> Result<Seq<char>, Seq<char>> {
    let text = single_line(raw);
    if text.len() == 0 {
        Err("Nothing to send."@)
    } else if text.len() > CHAT_MAX {
        Err("Chat messages can be at most 300 characters."@)
    } else {
        Ok(text)
    }
}

/// One line of chat: control characters become spaces, whitespace is
/// collapsed, and it must be non-empty and at most `CHAT_MAX` characters.
pub fn clean_chat(raw: &str) -> (r: Result<String, String>)
    ensures
        outcome(r) == chat_of(raw@),
{
    let text = collapse(raw);
    let len: usize = count(&text);
    if len == 0 {
        return Err("Nothing to send.".to_owned());
    }
    if len > CHAT_MAX {
        return Err("Chat messages can be at most 300 characters.".to_owned());
    }
    Ok(text)
}

// -------------------------------------------------------------- many lines

/// `s` with `\n` for each line ending, be it `\r\n`, `\r` or `\n`.
pub open spec fn normalized(s: Seq<char>) -> Seq<char>
    decreases s.len(),
{
    if s.len() == 0 {
        Seq::empty()
    } else if s.last() == '\n' && s.len() >= 2 && s[s.len() - 2] == '\r' {
        normalized(s.drop_last())
    } else if s.last() == '\r' {
        normalized(s.drop_last()).push('\n')
    } else {
        normalized(s.drop_last()).push(s.last())
    }
}

/// What a line keeps of the character `c`.
pub open spec fn expanded_char(c: char) -> Seq<char> {
    if deceptive(c) {
        Seq::empty()
    } else if c == '\t' {
        seq![' ', ' ', ' ', ' ']
    } else if chars::control(c) {
        Seq::empty()
    } else {
        seq![c]
    }
}

/// A line with its tabs expanded and without control and deceptive
/// characters.
pub open spec fn expanded(s: Seq<char>) -> Seq<char>
    decreases s.len(),
{
    if s.len() == 0 {
        Seq::empty()
    } else {
        expanded(s.drop_last()) + expanded_char(s.last())
    }
}

/// A line as it is kept.
pub open spec fn tidy_line(s: Seq<char>) -> Seq<char> {
    chars::trim_end(expanded(s))
}

/// How many blank lines `ls` ends with.
pub open spec fn trailing_blanks(ls: Seq<Seq<char>>) -> nat
    decreases ls.len(),
{
    if ls.len() > 0 && ls.last().len() == 0 {
        trailing_blanks(ls.drop_last()) + 1
    } else {
        0
    }
}

/// `ls` with each run of blank lines cut down to `MAX_BLANK_LINES`.
pub open spec fn capped(ls: Seq<Seq<char>>) -> Seq<Seq<char>>
    decreases ls.len(),
{
    if ls.len() == 0 {
        Seq::empty()
    } else if ls.last().len() == 0 && trailing_blanks(ls) > MAX_BLANK_LINES {
        capped(ls.drop_last())
    } else {
        capped(ls.drop_last()).push(ls.last())
    }
}

/// `ls` without the blank lines at its start.
pub open spec fn strip_start(ls: Seq<Seq<char>>) -> Seq<Seq<char>>
    decreases ls.len(),
{
    if ls.len() > 0 && ls.first().len() == 0 {
        strip_start(ls.drop_first())
    } else {
        ls
    }
}

/// `ls` without the blank lines at its end.
pub open spec fn strip_end(ls: Seq<Seq<char>>) -> Seq<Seq<char>>
    decreases ls.len(),
{
    if ls.len() > 0 && ls.last().len() == 0 {
        strip_end(ls.drop_last())
    } else {
        ls
    }
}

/// Each line of `raw` tidied, before blank lines are cut.
pub open spec fn tidy_lines(raw: Seq<char>) -> Seq<Seq<char>> {
    chars::split(normalized(raw), '\n').map_values(|l: Seq<char>| tidy_line(l))
}

/// The lines kept of `raw`.
pub open spec fn lines_of(raw: Seq<char>) -> Seq<Seq<char>> {
    strip_end(strip_start(capped(tidy_lines(raw))))
}

fn normalize(cs: &[char]) -> (r: Vec<char>)
    ensures
        r@ == normalized(cs@),
{
    let mut r: Vec<char> = Vec::new();
    let mut i: usize = 0;
    assert(r@ =~= normalized(cs@.take(0)));
    while i < cs.len()
        invariant
            i <= cs@.len(),
            r@ == normalized(cs@.take(i as int)),
        decreases cs@.len() - i,
    {
        assert(cs@.take(i + 1).drop_last() =~= cs@.take(i as int));
        let c = cs[i];
        if c == '\n' && i > 0 && cs[i - 1] == '\r' {
            // The carriage return before it ended the line already.
        } else if c == '\r' {
            r.push('\n');
        } else {
            r.push(c);
        }
        i += 1;
    }
    assert(cs@.take(i as int) =~= cs@);
    r
}

fn tidy(line: &[char]) -> (r: Vec<char>)
    ensures
        r@ == tidy_line(line@),
{
    let mut cleaned: Vec<char> = Vec::new();
    let mut i: usize = 0;
    assert(cleaned@ =~= expanded(line@.take(0)));
    while i < line.len()
        invariant
            i <= line@.len(),
            cleaned@ == expanded(line@.take(i as int)),
        decreases line@.len() - i,
    {
        assert(line@.take(i + 1).drop_last() =~= line@.take(i as int));
        let ghost before = cleaned@;
        let c = line[i];
        if is_deceptive(c) {
        } else if c == '\t' {
            let mut n: usize = 0;
            while n < TAB_WIDTH
                invariant
                    n <= TAB_WIDTH,
                    cleaned@ =~= before + Seq::new(n as nat, |k: int| ' '),
                decreases TAB_WIDTH - n,
            {
                cleaned.push(' ');
                n += 1;
            }
        } else if !is_control(c) {
            cleaned.push(c);
        }
        assert(cleaned@ =~= before + expanded_char(c));
        i += 1;
    }
    assert(line@.take(i as int) =~= line@);
    trim_end_chars(&mut cleaned);
    cleaned
}

/// Shared by `clean_body` and `clean_motd`: normalises line endings, strips
/// control/bidi/zero-width characters, expands tabs, trims trailing
/// whitespace per line, caps consecutive blank lines, and trims blank lines
/// from the start and end. Indentation and inner spacing are otherwise kept
/// exactly, so ASCII art and code survive.
fn clean_lines(raw: &str) -> (r: Vec<Vec<char>>)
    ensures
        chars::texts(r@) == lines_of(raw@),
{
    let cs = to_chars(raw);
    let flat = normalize(&cs);
    let parts = split_chars(&flat, '\n');
    let ghost tidied = tidy_lines(raw@);
    let mut lines: Vec<Vec<char>> = Vec::new();
    let mut blank_run: usize = 0;
    let mut i: usize = 0;
    assert(chars::texts(lines@) =~= capped(tidied.take(0)));
    while i < parts.len()
        invariant
            i <= parts@.len(),
            parts@.len() == tidied.len(),
            chars::texts(parts@) == chars::split(normalized(raw@), '\n'),
            tidied == tidy_lines(raw@),
            blank_run == trailing_blanks(tidied.take(i as int)),
            blank_run <= i,
            chars::texts(lines@) == capped(tidied.take(i as int)),
        decreases parts@.len() - i,
    {
        let ghost so_far = tidied.take(i + 1);
        assert(so_far.drop_last() =~= tidied.take(i as int));
        assert(chars::texts(parts@)[i as int] == parts@[i as int]@);
        assert(so_far.last() == tidy_line(parts@[i as int]@));
        let cleaned = tidy(&parts[i]);
        let ghost old_lines = lines@;
        if cleaned.len() == 0 {
            blank_run += 1;
            if blank_run <= MAX_BLANK_LINES {
                lines.push(cleaned);
                assert(chars::texts(lines@) =~= chars::texts(old_lines).push(so_far.last()));
            }
        } else {
            blank_run = 0;
            lines.push(cleaned);
            assert(chars::texts(lines@) =~= chars::texts(old_lines).push(so_far.last()));
        }
        i += 1;
    }
    assert(tidied.take(i as int) =~= tidied);
    while lines.len() > 0 && lines[0].len() == 0
        invariant
            strip_start(chars::texts(lines@)) == strip_start(capped(tidied)),
        decreases lines@.len(),
    {
        let ghost before = lines@;
        lines.remove(0);
        assert(chars::texts(lines@) =~= chars::texts(before).drop_first());
    }
    while lines.len() > 0 && lines[lines.len() - 1].len() == 0
        invariant
            strip_end(chars::texts(lines@)) == lines_of(raw@),
        decreases lines@.len(),
    {
        let ghost before = lines@;
        lines.pop();
        assert(chars::texts(lines@) =~= chars::texts(before).drop_last());
    }
    lines
}

/// The post that `raw` gives, or why it is refused.
pub open spec fn body_of(raw: Seq<char>) -> Result<Seq<char>, Seq<char>> {
    let lines = lines_of(raw);
    let body = chars::joined(lines, "\n"@);
    if lines.len() == 0 {
        Err("The message is empty."@)
    } else if body.len() > BODY_MAX {
        Err("Messages can be at most 2000 characters."@)
    } else {
        Ok(body)
    }
}

/// Multi-line text for a post or message: same cleaning as `clean_motd`, but
/// empty is rejected (there's nothing sensible to post) and capped shorter.
pub fn clean_body(raw: &str) -> (r: Result<String, String>)
    ensures
        outcome(r) == body_of(raw@),
{
    let lines = clean_lines(raw);
    assert(chars::texts(lines@).len() == lines@.len());
    if lines.len() == 0 {
        return Err("The message is empty.".to_owned());
    }
    let body = join(&lines, "\n");
    if count(&body) > BODY_MAX {
        return Err("Messages can be at most 2000 characters.".to_owned());
    }
    Ok(body)
}

/// The message of the day that `raw` gives, or why it is refused.
pub open spec fn motd_of(raw: Seq<char>) -> Result<Seq<char>, Seq<char>> {
    let text = chars::joined(lines_of(raw), "\n"@);
    if text.len() > MOTD_MAX {
        Err("The MOTD can be at most 4000 characters."@)
    } else {
        Ok(text)
    }
}

/// The message of the day: same cleaning as `clean_body`, but empty is fine
/// (that's how a sysop clears it) and the length budget is more generous,
/// since it's static text a sysop chose deliberately rather than a post.
pub fn clean_motd(raw: &str) -> (r: Result<String, String>)
    ensures
        outcome(r) == motd_of(raw@),
{
    let lines = clean_lines(raw);
    let text = join(&lines, "\n");
    if count(&text) > MOTD_MAX {
        return Err("The MOTD can be at most 4000 characters.".to_owned());
    }
    Ok(text)
}

} // verus!
