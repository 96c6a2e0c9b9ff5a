//! Keys from the raw byte stream, and the single-line text field.

use vstd::prelude::*;
use vstd::utf8;

use crate::chars;
use crate::chars::{from_chars, is_control, to_chars};
use crate::ui::paint::Rect;

verus! {

#[derive(Clone, Copy, Debug, PartialEq, Eq, Structural)]
pub enum Key {
    Char(char),
    Ctrl(char),
    Enter,
    Backspace,
    Delete,
    Tab,
    BackTab,
    Esc,
    Up,
    Down,
    Left,
    Right,
    Home,
    End,
    PageUp,
    PageDown,
}

// ------------------------------------------------------------- key parser

/// `char::from_u32`: the character with that code point, if there is one.
pub assume_specification[ char::from_u32 ](i: u32) -> (r: Option<char>)
    ensures
        match r {
            Some(c) => utf8::is_scalar(i) && c as u32 == i,
            None => !utf8::is_scalar(i),
        },
;

/// Longest escape sequence we'll wait on before giving up on it.
pub const MAX_PENDING: usize = 32;

/// What the start of a byte sequence is.
pub enum Token {
    /// The beginning of something longer: wait for the rest.
    Wait,
    /// `len` bytes that stand for a key, or for nothing.
    Done { key: Option<Key>, len: int },
}

/// Parameter and intermediate bytes of a control sequence.
pub open spec fn csi_inner(b: u8) -> bool {
    0x20 <= b <= 0x3f
}

/// The first index from `i` on that holds no parameter or intermediate
/// byte, or the length.
pub open spec fn csi_end(s: Seq<u8>, i: int) -> int
    decreases s.len() - i,
{
    if i >= s.len() {
        s.len() as int
    } else if csi_inner(s[i]) {
        csi_end(s, i + 1)
    } else {
        i
    }
}

/// The key of a control sequence that ends in `last`.
pub open spec fn csi_key(last: u8, params: Seq<u8>) -> Option<Key> {
    if last == 0x41 {
        Some(Key::Up)
    } else if last == 0x42 {
        Some(Key::Down)
    } else if last == 0x43 {
        Some(Key::Right)
    } else if last == 0x44 {
        Some(Key::Left)
    } else if last == 0x48 {
        Some(Key::Home)
    } else if last == 0x46 {
        Some(Key::End)
    } else if last == 0x5a {
        Some(Key::BackTab)
    } else if last == 0x7e && params.len() == 1 {
        if params[0] == 0x31 || params[0] == 0x37 {
            Some(Key::Home)
        } else if params[0] == 0x34 || params[0] == 0x38 {
            Some(Key::End)
        } else if params[0] == 0x33 {
            Some(Key::Delete)
        } else if params[0] == 0x35 {
            Some(Key::PageUp)
        } else if params[0] == 0x36 {
            Some(Key::PageDown)
        } else {
            None
        }
    } else {
        None
    }
}

/// The key of ESC O followed by `b`.
pub open spec fn ss3_key(b: u8) -> Option<Key> {
    if b == 0x41 {
        Some(Key::Up)
    } else if b == 0x42 {
        Some(Key::Down)
    } else if b == 0x43 {
        Some(Key::Right)
    } else if b == 0x44 {
        Some(Key::Left)
    } else if b == 0x48 {
        Some(Key::Home)
    } else if b == 0x46 {
        Some(Key::End)
    } else {
        None
    }
}

/// `s` starts with ESC. A control sequence is ESC [, then parameter and
/// intermediate bytes, then a final byte 0x40-0x7e.
pub open spec fn escape_token(s: Seq<u8>) -> Token {
    if s.len() <= 1 {
        Token::Done { key: Some(Key::Esc), len: 1 }
    } else if s[1] == 0x5b {
        let i = csi_end(s, 2);
        if i == s.len() {
            if s.len() > MAX_PENDING {
                Token::Done { key: None, len: s.len() as int }
            } else {
                Token::Wait
            }
        } else if 0x40 <= s[i] <= 0x7e {
            Token::Done { key: csi_key(s[i], s.subrange(2, i)), len: i + 1 }
        } else {
            // malformed: drop what came before
            Token::Done { key: None, len: i }
        }
    } else if s[1] == 0x4f {
        if s.len() == 2 {
            Token::Wait
        } else {
            Token::Done { key: ss3_key(s[2]), len: 3 }
        }
    } else {
        // Alt+key: Esc, and the rest is read on its own
        Token::Done { key: Some(Key::Esc), len: 1 }
    }
}

/// How many bytes a UTF-8 character that starts with `b` has; 0 if none does.
pub open spec fn utf8_width(b: u8) -> int {
    if 0xc2 <= b <= 0xdf {
        2
    } else if 0xe0 <= b <= 0xef {
        3
    } else if 0xf0 <= b <= 0xf4 {
        4
    } else {
        0
    }
}

/// What stands at the start of `s`, which is not empty. `after_cr`: the byte
/// before it was a carriage return.
pub open spec fn token(s: Seq<u8>, after_cr: bool) -> Token {
    let b = s[0];
    if b == 0x1b {
        escape_token(s)
    } else if b == 0x0d || b == 0x0a {
        Token::Done {
            key: if b == 0x0a && after_cr {
                None
            } else {
                Some(Key::Enter)
            },
            len: 1,
        }
    } else if b == 0x09 {
        Token::Done { key: Some(Key::Tab), len: 1 }
    } else if b == 0x08 || b == 0x7f {
        Token::Done { key: Some(Key::Backspace), len: 1 }
    } else if 0x01 <= b <= 0x1a {
        Token::Done { key: Some(Key::Ctrl((0x60 + b) as char)), len: 1 }
    } else if 0x20 <= b <= 0x7e {
        Token::Done { key: Some(Key::Char(b as char)), len: 1 }
    } else {
        let n = utf8_width(b);
        if n == 0 {
            Token::Done { key: None, len: 1 }
        } else if s.len() < n {
            Token::Wait
        } else if utf8::valid_utf8(s.take(n)) {
            Token::Done { key: Some(Key::Char(utf8::decode_utf8(s.take(n))[0])), len: n }
        } else {
            Token::Done { key: None, len: 1 }
        }
    }
}

/// The keys that a byte sequence holds, what is left of it to wait on, and
/// whether its last byte was a carriage return.
pub struct Parsed {
    pub keys: Seq<Key>,
    pub rest: Seq<u8>,
    pub after_cr: bool,
}

pub open spec fn parsed(s: Seq<u8>, after_cr: bool) -> Parsed
    decreases s.len(),
{
    if s.len() == 0 {
        Parsed { keys: Seq::empty(), rest: Seq::empty(), after_cr }
    } else {
        match token(s, after_cr) {
            Token::Wait => Parsed { keys: Seq::empty(), rest: s, after_cr: false },
            Token::Done { key, len } => if 0 < len <= s.len() {
                let then = parsed(s.skip(len), s[0] == 0x0d);
                Parsed {
                    keys: match key {
                        Some(k) => seq![k] + then.keys,
                        None => then.keys,
                    },
                    rest: then.rest,
                    after_cr: then.after_cr,
                }
            } else {
                Parsed { keys: Seq::empty(), rest: s, after_cr }
            },
        }
    }
}

/// A token takes at least one byte and no more than there are.
pub proof fn lemma_token_len(s: Seq<u8>, after_cr: bool)
    requires
        s.len() > 0,
    ensures
        token(s, after_cr) matches Token::Done { len, .. } ==> 0 < len <= s.len(),
        token(s, after_cr) is Wait ==> s.len() <= MAX_PENDING,
        token(s, after_cr) is Wait ==> s[0] != 0x0d && s[0] != 0x0a,
{
    if s[0] == 0x1b && s.len() > 1 && s[1] == 0x5b {
        lemma_csi_end(s, 2);
    }
}

pub proof fn lemma_csi_end(s: Seq<u8>, i: int)
    requires
        0 <= i <= s.len(),
    ensures
        i <= csi_end(s, i) <= s.len(),
        forall|j: int| i <= j < csi_end(s, i) ==> csi_inner(#[trigger] s[j]),
        csi_end(s, i) < s.len() ==> !csi_inner(s[csi_end(s, i)]),
    decreases s.len() - i,
{
    if i < s.len() && csi_inner(s[i]) {
        lemma_csi_end(s, i + 1);
    }
}

/// What is left to wait on is short.
pub proof fn lemma_rest_is_short(s: Seq<u8>, after_cr: bool)
    ensures
        parsed(s, after_cr).rest.len() <= MAX_PENDING,
    decreases s.len(),
{
    if s.len() > 0 {
        lemma_token_len(s, after_cr);
        if let Token::Done { len, .. } = token(s, after_cr) {
            lemma_rest_is_short(s.skip(len), s[0] == 0x0d);
        }
    }
}

/// A token, as the parser takes it.
enum Step {
    Wait,
    Done(Option<Key>, usize),
}

impl Step {
    spec fn as_token(self) -> Token {
        match self {
            Step::Wait => Token::Wait,
            Step::Done(key, len) => Token::Done { key, len: len as int },
        }
    }
}

fn csi_key_of(buf: &Vec<u8>, from: usize, end: usize) -> (r: Option<Key>)
    requires
        from <= end < buf@.len(),
    ensures
        r == csi_key(buf@[end as int], buf@.subrange(from as int, end as int)),
{
    let last: u8 = buf[end];
    if last == 0x41 {
        Some(Key::Up)
    } else if last == 0x42 {
        Some(Key::Down)
    } else if last == 0x43 {
        Some(Key::Right)
    } else if last == 0x44 {
        Some(Key::Left)
    } else if last == 0x48 {
        Some(Key::Home)
    } else if last == 0x46 {
        Some(Key::End)
    } else if last == 0x5a {
        Some(Key::BackTab)
    } else if last == 0x7e && end - from == 1 {
        let param: u8 = buf[from];
        if param == 0x31 || param == 0x37 {
            Some(Key::Home)
        } else if param == 0x34 || param == 0x38 {
            Some(Key::End)
        } else if param == 0x33 {
            Some(Key::Delete)
        } else if param == 0x35 {
            Some(Key::PageUp)
        } else if param == 0x36 {
            Some(Key::PageDown)
        } else {
            None
        }
    } else {
        None
    }
}

fn ss3_key_of(b: u8) -> (r: Option<Key>)
    ensures
        r == ss3_key(b),
{
    match b {
        0x41 => Some(Key::Up),
        0x42 => Some(Key::Down),
        0x43 => Some(Key::Right),
        0x44 => Some(Key::Left),
        0x48 => Some(Key::Home),
        0x46 => Some(Key::End),
        _ => None,
    }
}

/// Reads the escape sequence that starts at `at`.
fn parse_escape(buf: &Vec<u8>, at: usize) -> (r: Step)
    requires
        at < buf@.len(),
    ensures
        r.as_token() == escape_token(buf@.skip(at as int)),
{
    let ghost s = buf@.skip(at as int);
    let len: usize = buf.len() - at;
    if len == 1 {
        return Step::Done(Some(Key::Esc), 1);
    }
    assert(s[1] == buf@[at + 1]);
    let second: u8 = buf[at + 1];
    if second == 0x5b {
        let mut i: usize = 2;
        while i < len && 0x20 <= buf[at + i] && buf[at + i] <= 0x3f
            invariant
                2 <= i <= len,
                len == s.len(),
                at + len == buf@.len(),
                at + len <= usize::MAX,
                s == buf@.skip(at as int),
                csi_end(s, 2) == csi_end(s, i as int),
            decreases len - i,
        {
            assert(s[i as int] == buf@[at + i]);
            i += 1;
        }
        proof {
            if i < len {
                assert(s[i as int] == buf@[at + i]);
            }
            assert(csi_end(s, 2) == i);
        }
        if i == len {
            if len > MAX_PENDING {
                Step::Done(None, len)
            } else {
                Step::Wait
            }
        } else if 0x40 <= buf[at + i] && buf[at + i] <= 0x7e {
            assert(s.subrange(2, i as int) =~= buf@.subrange(at + 2, at + i));
            Step::Done(csi_key_of(buf, at + 2, at + i), i + 1)
        } else {
            Step::Done(None, i)
        }
    } else if second == 0x4f {
        if len == 2 {
            Step::Wait
        } else {
            assert(s[2] == buf@[at + 2]);
            Step::Done(ss3_key_of(buf[at + 2]), 3)
        }
    } else {
        Step::Done(Some(Key::Esc), 1)
    }
}

proof fn lemma_one_char(b: Seq<u8>)
    requires
        b.len() > 0,
        utf8_width(b[0]) == b.len(),
    ensures
        utf8::valid_utf8(b) == utf8::valid_first_scalar(b),
        utf8::valid_utf8(b) ==> utf8::decode_utf8(b)[0] == utf8::decode_first_scalar(b) as char,
{
    reveal_with_fuel(utf8::valid_utf8, 2);
    reveal_with_fuel(utf8::decode_utf8, 2);
    if utf8::valid_first_scalar(b) {
        assert(utf8::pop_first_scalar(b) =~= Seq::empty());
    }
}

/// The character of a valid code point.
fn code_char(code: u32) -> (r: Option<char>)
    requires
        utf8::is_scalar(code),
    ensures
        r == Some(code as char),
{
    let r = char::from_u32(code);
    proof {
        utf8::char_u32_cast(r.unwrap(), code);
    }
    r
}

/// The character that the `n` bytes at `at` encode.
fn decode_char(buf: &Vec<u8>, at: usize, n: usize) -> (r: Option<char>)
    requires
        at + n <= buf@.len(),
        n > 0,
        utf8_width(buf@[at as int]) == n,
    ensures
        ({
            let b = buf@.subrange(at as int, at + n);
            match r {
                Some(c) => utf8::valid_utf8(b) && c == utf8::decode_utf8(b)[0],
                None => !utf8::valid_utf8(b),
            }
        }),
{
    let ghost b = buf@.subrange(at as int, at + n);
    let total: usize = buf.len();
    proof {
        lemma_one_char(b);
    }
    let mut i: usize = 1;
    while i < n
        invariant
            1 <= i <= n,
            total == buf@.len(),
            at + n <= buf@.len(),
            b == buf@.subrange(at as int, at + n),
            forall|j: int| 1 <= j < i ==> utf8::is_continuation_byte(#[trigger] b[j]),
            utf8_width(b[0]) == n,
            utf8::valid_utf8(b) == utf8::valid_first_scalar(b),
        decreases n - i,
    {
        let c: u8 = buf[at + i];
        assert(c == b[i as int]);
        if c < 0x80 || c > 0xbf {
            return None;
        }
        i += 1;
    }
    let b0: u8 = buf[at];
    let b1: u8 = buf[at + 1];
    assert(b0 == b[0] && b1 == b[1]);
    if n == 2 {
        let code: u32 = (((b0 & 0x1f) as u32) << 6) | ((b1 & 0x3f) as u32);
        if code < 0x80 {
            None
        } else {
            assert(code <= 0x7ff) by {
                assert(((((b0 & 0x1f) as u32) << 6) | ((b1 & 0x3f) as u32)) <= 0x7ff) by (bit_vector);
            }
            code_char(code)
        }
    } else if n == 3 {
        let b2: u8 = buf[at + 2];
        assert(b2 == b[2]);
        let code: u32 = (((b0 & 0x0f) as u32) << 12) | (((b1 & 0x3f) as u32) << 6) | ((b2
            & 0x3f) as u32);
        if code < 0x800 || (0xd800 <= code && code <= 0xdfff) {
            None
        } else {
            assert(code <= 0xffff) by {
                assert(((((b0 & 0x0f) as u32) << 12) | (((b1 & 0x3f) as u32) << 6) | ((b2
                    & 0x3f) as u32)) <= 0xffff) by (bit_vector);
            }
            code_char(code)
        }
    } else {
        let b2: u8 = buf[at + 2];
        let b3: u8 = buf[at + 3];
        assert(b2 == b[2] && b3 == b[3]);
        let code: u32 = (((b0 & 0x07) as u32) << 18) | (((b1 & 0x3f) as u32) << 12) | (((b2
            & 0x3f) as u32) << 6) | ((b3 & 0x3f) as u32);
        if code < 0x10000 || code > 0x10ffff {
            None
        } else {
            code_char(code)
        }
    }
}

/// Reads what stands at `at`.
fn parse_token(buf: &Vec<u8>, at: usize, after_cr: bool) -> (r: Step)
    requires
        at < buf@.len(),
    ensures
        r.as_token() == token(buf@.skip(at as int), after_cr),
{
    let b: u8 = buf[at];
    let ghost s = buf@.skip(at as int);
    assert(s[0] == b);
    if b == 0x1b {
        parse_escape(buf, at)
    } else if b == 0x0d || b == 0x0a {
        if b == 0x0a && after_cr {
            Step::Done(None, 1)
        } else {
            Step::Done(Some(Key::Enter), 1)
        }
    } else if b == 0x09 {
        Step::Done(Some(Key::Tab), 1)
    } else if b == 0x08 || b == 0x7f {
        Step::Done(Some(Key::Backspace), 1)
    } else if 0x01 <= b && b <= 0x1a {
        Step::Done(Some(Key::Ctrl((0x60 + b) as char)), 1)
    } else if 0x20 <= b && b <= 0x7e {
        Step::Done(Some(Key::Char(b as char)), 1)
    } else {
        let n: usize = if 0xc2 <= b && b <= 0xdf {
            2
        } else if 0xe0 <= b && b <= 0xef {
            3
        } else if 0xf0 <= b && b <= 0xf4 {
            4
        } else {
            return Step::Done(None, 1);  // stray byte
        };
        if buf.len() - at < n {
            return Step::Wait;
        }
        assert(s.take(n as int) =~= buf@.subrange(at as int, at + n));
        match decode_char(buf, at, n) {
            Some(c) => Step::Done(Some(Key::Char(c)), n),
            None => Step::Done(None, 1),
        }
    }
}

/// Turns the raw byte stream from the SSH channel into `Key`s.
///
/// Escape sequences and UTF-8 characters can be split across reads, so an
/// incomplete tail is kept until the next `feed`. The exception is a lone
/// ESC at the very end of a read, which is reported as the Esc key.
pub struct KeyParser {
    pending: Vec<u8>,
    last_was_cr: bool,
}

/// What a `KeyParser` remembers between reads.
pub struct KeyParserState {
    pub pending: Seq<u8>,
    pub after_cr: bool,
}

impl View for KeyParser {
    type V = KeyParserState;

    closed spec fn view(&self) -> KeyParserState {
        KeyParserState { pending: self.pending@, after_cr: self.last_was_cr }
    }
}

impl Default for KeyParser {
    fn default() -> (r: KeyParser)
        ensures
            r@ == (KeyParserState { pending: Seq::empty(), after_cr: false }),
    {
        KeyParser { pending: Vec::new(), last_was_cr: false }
    }
}

impl KeyParser {
    /// The keys that end in `data`.
    pub fn feed(&mut self, data: &[u8]) -> (r: Vec<Key>)
        ensures
            ({
                let p = parsed(old(self)@.pending + data@, old(self)@.after_cr);
                &&& r@ == p.keys
                &&& final(self)@.pending == p.rest
                &&& final(self)@.after_cr == p.after_cr
            }),
            final(self)@.pending.len() <= MAX_PENDING,
    {
        let mut buf: Vec<u8> = Vec::new();
        std::mem::swap(&mut buf, &mut self.pending);
        buf.extend_from_slice(data);
        let ghost start = old(self).last_was_cr;
        assert(buf@ =~= old(self)@.pending + data@);

        let mut keys: Vec<Key> = Vec::new();
        let mut after_cr = self.last_was_cr;
        let mut i: usize = 0;
        let mut waiting = false;
        assert(buf@.skip(0) =~= buf@);
        while i < buf.len() && !waiting
            invariant
                i <= buf@.len(),
                buf@ == old(self)@.pending + data@,
                !waiting ==> ({
                    let then = parsed(buf@.skip(i as int), after_cr);
                    &&& parsed(buf@, start).keys == keys@ + then.keys
                    &&& parsed(buf@, start).rest == then.rest
                    &&& parsed(buf@, start).after_cr == then.after_cr
                }),
                waiting ==> ({
                    &&& i < buf@.len()
                    &&& parsed(buf@, start).keys == keys@
                    &&& parsed(buf@, start).rest == buf@.skip(i as int)
                    &&& parsed(buf@, start).after_cr == after_cr
                }),
            decreases buf@.len() - i, if waiting { 0int } else { 1int },
        {
            let ghost s = buf@.skip(i as int);
            let ghost before = keys@;
            proof {
                lemma_token_len(s, after_cr);
            }
            let step = parse_token(&buf, i, after_cr);
            after_cr = buf[i] == 0x0d;
            match step {
                Step::Wait => {
                    waiting = true;
                    assert(keys@ + Seq::<Key>::empty() =~= keys@);
                },
                Step::Done(key, len) => {
                    if let Some(k) = key {
                        keys.push(k);
                    }
                    assert(s.skip(len as int) =~= buf@.skip(i + len));
                    proof {
                        let then = parsed(buf@.skip(i + len), after_cr);
                        if let Some(k) = key {
                            assert(before + (seq![k] + then.keys) =~= keys@ + then.keys);
                        }
                    }
                    i += len;
                },
            }
        }
        self.last_was_cr = after_cr;
        proof {
            lemma_rest_is_short(buf@, start);
            if !waiting {
                assert(keys@ + Seq::<Key>::empty() =~= keys@);
                assert(buf@.skip(i as int) =~= Seq::empty());
            }
        }
        self.pending = buf.split_off(i);
        assert(self.pending@ =~= parsed(old(self)@.pending + data@, start).rest);
        keys
    }
}

// ------------------------------------------------------------- text field

/// The key types a character.
pub open spec fn types(key: Key) -> bool {
    key matches Key::Char(c) && !chars::control(c)
}

/// A single-line text field with a cursor.
pub struct TextInput {
    chars: Vec<char>,
    cursor: usize,
    max_len: usize,
    masked: bool,
}

/// The contents of a `TextInput`.
pub struct Field {
    pub text: Seq<char>,
    pub cursor: int,
    pub max_len: nat,
    pub masked: bool,
}

impl Field {
    /// An empty field.
    pub open spec fn empty(max_len: nat, masked: bool) -> Field {
        Field { text: Seq::empty(), cursor: 0, max_len, masked }
    }

    pub open spec fn wf(self) -> bool {
        &&& 0 <= self.cursor <= self.text.len()
        &&& self.text.len() <= self.max_len
        &&& forall|i: int| 0 <= i < self.text.len() ==> !chars::control(#[trigger] self.text[i])
    }

    /// The field edits something when `key` arrives.
    pub open spec fn consumes(key: Key) -> bool {
        match key {
            Key::Char(c) => !chars::control(c),
            Key::Ctrl(c) => c == 'a' || c == 'e' || c == 'u',
            Key::Backspace
            | Key::Delete
            | Key::Left
            | Key::Right
            | Key::Home
            | Key::End => true,
            _ => false,
        }
    }

    /// The field after `key`.
    pub open spec fn after(self, key: Key) -> Field {
        if types(key) {
            if self.text.len() < self.max_len {
                Field {
                    text: self.text.insert(self.cursor, key->Char_0),
                    cursor: self.cursor + 1,
                    ..self
                }
            } else {
                self
            }
        } else if key == Key::Backspace && self.cursor > 0 {
            Field { text: self.text.remove(self.cursor - 1), cursor: self.cursor - 1, ..self }
        } else if key == Key::Delete && self.cursor < self.text.len() {
            Field { text: self.text.remove(self.cursor), ..self }
        } else if key == Key::Left && self.cursor > 0 {
            Field { cursor: self.cursor - 1, ..self }
        } else if key == Key::Right && self.cursor < self.text.len() {
            Field { cursor: self.cursor + 1, ..self }
        } else if key == Key::Home || key == Key::Ctrl('a') {
            Field { cursor: 0, ..self }
        } else if key == Key::End || key == Key::Ctrl('e') {
            Field { cursor: self.text.len() as int, ..self }
        } else if key == Key::Ctrl('u') {
            Field { text: self.text.skip(self.cursor), cursor: 0, ..self }
        } else {
            self
        }
    }

    /// The field after `text` was typed into it.
    pub open spec fn typed(self, text: Seq<char>) -> Field
        decreases text.len(),
    {
        if text.len() == 0 {
            self
        } else {
            self.typed(text.drop_last()).after(Key::Char(text.last()))
        }
    }

    /// First column shown in a field of `width` columns: as little is
    /// scrolled off as keeps the cursor in view.
    pub open spec fn start(self, width: int) -> int {
        let columns = if width < 1 {
            1
        } else {
            width
        };
        if self.cursor + 1 > columns {
            self.cursor + 1 - columns
        } else {
            0
        }
    }

    /// What is shown in `width` columns.
    pub open spec fn shown(self, width: int) -> Seq<char> {
        let tail = if self.start(width) <= self.text.len() {
            self.text.skip(self.start(width))
        } else {
            Seq::empty()
        };
        let visible = if width <= tail.len() {
            tail.take(width)
        } else {
            tail
        };
        if self.masked {
            visible.map_values(|c: char| '*')
        } else {
            visible
        }
    }

    /// Where the terminal cursor goes when the field has the focus.
    pub open spec fn cursor_at(self, area: Rect) -> Option<(int, int)> {
        if area.width > 2 && area.height > 2 {
            Some((area.x + 1 + self.cursor - self.start(area.width - 2), area.y + 1))
        } else {
            None
        }
    }
}

/// A field of a form as it is drawn.
pub struct FieldView {
    pub text: String,
    /// The border is highlighted.
    pub focused: bool,
    pub cursor: Option<(u16, u16)>,
}

impl View for TextInput {
    type V = Field;

    closed spec fn view(&self) -> Field {
        Field {
            text: self.chars@,
            cursor: self.cursor as int,
            max_len: self.max_len as nat,
            masked: self.masked,
        }
    }
}

impl TextInput {
    pub open spec fn wf(&self) -> bool {
        self@.wf()
    }

    pub fn new(max_len: usize, masked: bool) -> (r: TextInput)
        ensures
            r@ == Field::empty(max_len as nat, masked),
            r.wf(),
    {
        TextInput { chars: Vec::new(), cursor: 0, max_len, masked }
    }

    pub fn value(&self) -> (r: String)
        ensures
            r@ == self@.text,
    {
        from_chars(&self.chars)
    }

    pub fn is_empty(&self) -> (r: bool)
        ensures
            r == (self@.text.len() == 0),
    {
        self.chars.len() == 0
    }

    pub fn clear(&mut self)
        ensures
            final(self)@ == Field::empty(old(self)@.max_len, old(self)@.masked),
            final(self).wf(),
    {
        self.chars.clear();
        self.cursor = 0;
    }

    /// Replaces the contents with `text`, as if it had been typed.
    pub fn set(&mut self, text: &str)
        ensures
            final(self)@ == Field::empty(old(self)@.max_len, old(self)@.masked).typed(text@),
            final(self).wf(),
    {
        let ghost empty = Field::empty(self@.max_len, self@.masked);
        self.clear();
        let cs = to_chars(text);
        let mut i: usize = 0;
        assert(cs@.take(0) =~= Seq::empty());
        while i < cs.len()
            invariant
                i <= cs@.len(),
                self.wf(),
                self@ == empty.typed(cs@.take(i as int)),
            decreases cs@.len() - i,
        {
            assert(cs@.take(i + 1).drop_last() =~= cs@.take(i as int));
            self.handle(Key::Char(cs[i]));
            i += 1;
        }
        assert(cs@.take(i as int) =~= cs@);
    }

    /// Applies an editing key. Returns true if the key was consumed.
    pub fn handle(&mut self, key: Key) -> (r: bool)
        requires
            old(self).wf(),
        ensures
            final(self)@ == old(self)@.after(key),
            r == Field::consumes(key),
            final(self).wf(),
    {
        match key {
            Key::Char(c) => {
                if is_control(c) {
                    return false;
                }
                if self.chars.len() < self.max_len {
                    self.chars.insert(self.cursor, c);
                    self.cursor += 1;
                }
            },
            Key::Backspace => {
                if self.cursor > 0 {
                    self.cursor -= 1;
                    self.chars.remove(self.cursor);
                }
            },
            Key::Delete => {
                if self.cursor < self.chars.len() {
                    self.chars.remove(self.cursor);
                }
            },
            Key::Left => {
                if self.cursor > 0 {
                    self.cursor -= 1;
                }
            },
            Key::Right => {
                if self.cursor < self.chars.len() {
                    self.cursor += 1;
                }
            },
            Key::Home | Key::Ctrl('a') => {
                self.cursor = 0;
            },
            Key::End | Key::Ctrl('e') => {
                self.cursor = self.chars.len();
            },
            Key::Ctrl('u') => {
                self.chars = self.chars.split_off(self.cursor);
                self.cursor = 0;
            },
            _ => {
                return false;
            },
        }
        true
    }

    /// The field in a bordered box at `area`. When `focused`, also where the
    /// terminal cursor goes.
    pub fn render(&self, area: Rect, focused: bool) -> (r: FieldView)
        requires
            self.wf(),
            area.wf(),
        ensures
            r.text@ == self@.shown(if area.width > 2 {
                area.width - 2
            } else {
                0
            }),
            r.focused == focused,
            match r.cursor {
                Some((x, y)) => focused && self@.cursor_at(area) == Some((x as int, y as int)),
                None => !focused || self@.cursor_at(area) is None,
            },
    {
        let width: usize = if area.width > 2 {
            area.width as usize - 2
        } else {
            0
        };
        let columns: usize = if width < 1 {
            1
        } else {
            width
        };
        // Scroll horizontally so the cursor is always visible.
        let start: usize = if self.cursor >= columns {
            self.cursor - columns + 1
        } else {
            0
        };
        let mut shown: Vec<char> = Vec::new();
        let mut i: usize = start;
        while i < self.chars.len() && i - start < width
            invariant
                start <= i,
                i <= self.chars@.len() || i == start,
                i - start <= width,
                start == self@.start(width as int),
                shown@.len() == i - start,
                forall|j: int|
                    0 <= j < shown@.len() ==> #[trigger] shown@[j] == (if self.masked {
                        '*'
                    } else {
                        self.chars@[start + j]
                    }),
            decreases self.chars@.len() - i,
        {
            shown.push(if self.masked { '*' } else { self.chars[i] });
            i += 1;
        }
        assert(shown@ =~= self@.shown(width as int));
        let cursor = if focused && area.width > 2 && area.height > 2 {
            let column: u16 = (self.cursor - start) as u16;
            Some((area.x + 1 + column, area.y + 1))
        } else {
            None
        };
        FieldView { text: from_chars(&shown), focused, cursor }
    }
}

} // verus!
