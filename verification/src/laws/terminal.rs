//! Laws of the keys that a terminal sends: what its bytes are read as.

use vstd::prelude::*;
use vstd::utf8;

use crate::ui::input;
use crate::ui::input::{Key, KeyParser, Token};

verus! {

/// A character that is typed as itself: no control character of ASCII.
pub open spec fn typed_as_itself(c: char) -> bool {
    ' ' <= c <= '~' || c as u32 >= 0x80
}

proof fn lemma_leading_byte(v: u32)
    requires
        v >= 0x80,
        utf8::is_scalar(v),
    ensures
        input::utf8_width(utf8::encode_scalar(v)[0]) == utf8::encode_scalar(v).len(),
        utf8::encode_scalar(v)[0] >= 0x80,
{
    if v <= 0x7ff {
        assert(0x80 <= v <= 0x7ff ==> 0xc2 <= (0xC0u8 | ((v >> 6) & 0x1F) as u8) <= 0xdf)
            by (bit_vector);
    } else if v <= 0xffff {
        assert(0x800 <= v <= 0xffff ==> 0xe0 <= (0xE0u8 | ((v >> 12) & 0x0F) as u8) <= 0xef)
            by (bit_vector);
    } else {
        assert(0x10000 <= v <= 0x10ffff ==> 0xf0 <= (0xF0u8 | ((v >> 18) & 0x7) as u8) <= 0xf4)
            by (bit_vector);
    }
}

proof fn lemma_typed(text: Seq<char>, after_cr: bool)
    requires
        forall|i: int| 0 <= i < text.len() ==> typed_as_itself(#[trigger] text[i]),
    ensures
        ({
            let p = input::parsed(utf8::encode_utf8(text), after_cr);
            &&& p.keys.len() == text.len()
            &&& forall|i: int| 0 <= i < text.len() ==> #[trigger] p.keys[i] == Key::Char(text[i])
            &&& p.rest.len() == 0
        }),
    decreases text.len(),
{
    let s = utf8::encode_utf8(text);
    let p = input::parsed(s, after_cr);
    if text.len() > 0 {
        let c = text[0];
        let v = c as u32;
        let later = text.drop_first();
        assert(typed_as_itself(c));
        assert forall|i: int| 0 <= i < later.len() implies typed_as_itself(#[trigger] later[i]) by {
            assert(later[i] == text[i + 1]);
        }
        utf8::char_is_scalar(c);
        let code = utf8::encode_scalar(v);
        assert(s == code + utf8::encode_utf8(later));
        let n = code.len() as int;
        assert(s[0] == code[0]);
        assert(s.take(n) =~= code);
        assert(s.skip(n) =~= utf8::encode_utf8(later));
        if v >= 0x80 {
            lemma_leading_byte(v);
            let one = seq![c];
            assert(one.drop_first() =~= Seq::<char>::empty());
            reveal_with_fuel(utf8::encode_utf8, 2);
            assert(utf8::encode_utf8(one) =~= code);
            utf8::encode_utf8_valid_utf8(one);
            utf8::encode_utf8_decode_utf8(one);
        } else {
            assert(v < 0x80 ==> (v & 0x7f) as u8 == v as u8) by (bit_vector);
            assert(s[0] == v as u8);
            assert(s[0] as char == c);
        }
        assert(input::token(s, after_cr) == Token::Done { key: Some(Key::Char(c)), len: n });
        lemma_typed(later, false);
        let then = input::parsed(utf8::encode_utf8(later), false);
        assert(p.keys == seq![Key::Char(c)] + then.keys);
        assert forall|i: int| 0 <= i < text.len() implies #[trigger] p.keys[i] == Key::Char(
            text[i],
        ) by {
            if i > 0 {
                assert(p.keys[i] == then.keys[i - 1]);
                assert(text[i] == later[i - 1]);
            }
        }
    }
}

/// Text that is typed, in whatever script, is read as its characters, one by
/// one and in order.
pub proof fn law_text_is_read_as_typed(
    parser: &mut KeyParser,
    data: &[u8],
    text: Seq<char>,
    r: Vec<Key>,
)
    requires
        call_ensures(KeyParser::feed, (parser, data), r),
        old(parser)@.pending.len() == 0,
        data@ == utf8::encode_utf8(text),
        forall|i: int| 0 <= i < text.len() ==> typed_as_itself(#[trigger] text[i]),
    ensures
        r@.len() == text.len(),
        forall|i: int| 0 <= i < text.len() ==> #[trigger] r@[i] == Key::Char(text[i]),
        final(parser)@.pending.len() == 0,
{
    assert(old(parser)@.pending + data@ =~= data@);
    lemma_typed(text, old(parser)@.after_cr);
}

/// The control characters are the keys that send them.
pub proof fn law_control_characters_are_keys(
    parser: &mut KeyParser,
    data: &[u8],
    b: u8,
    r: Vec<Key>,
)
    requires
        call_ensures(KeyParser::feed, (parser, data), r),
        old(parser)@.pending.len() == 0,
        data@ == seq![b],
    ensures
        b == 0x0d ==> r@ == seq![Key::Enter],
        b == 0x0a ==> r@ == if old(parser)@.after_cr {
            seq![]
        } else {
            seq![Key::Enter]
        },
        b == 0x09 ==> r@ == seq![Key::Tab],
        b == 0x08 || b == 0x7f ==> r@ == seq![Key::Backspace],
        b == 0x1b ==> r@ == seq![Key::Esc],
        b == 0x01 ==> r@ == seq![Key::Ctrl('a')],
        b == 0x03 ==> r@ == seq![Key::Ctrl('c')],
        b == 0x04 ==> r@ == seq![Key::Ctrl('d')],
        b == 0x05 ==> r@ == seq![Key::Ctrl('e')],
        b == 0x15 ==> r@ == seq![Key::Ctrl('u')],
        final(parser)@.after_cr == (b == 0x0d),
        !(b >= 0x80) ==> final(parser)@.pending.len() == 0,
{
    let s = seq![b];
    assert(old(parser)@.pending + data@ =~= s);
    reveal_with_fuel(input::parsed, 2);
    if b < 0x80 {
        assert(s.skip(1) =~= Seq::<u8>::empty());
        assert(input::parsed(s.skip(1), b == 0x0d).keys =~= Seq::<Key>::empty());
        let none = Seq::<Key>::empty();
        if b == 0x0d {
            assert(seq![Key::Enter] + none =~= seq![Key::Enter]);
        } else if b == 0x0a {
            assert(seq![Key::Enter] + none =~= seq![Key::Enter]);
        } else if b == 0x09 {
            assert(seq![Key::Tab] + none =~= seq![Key::Tab]);
        } else if b == 0x08 || b == 0x7f {
            assert(seq![Key::Backspace] + none =~= seq![Key::Backspace]);
        } else if b == 0x1b {
            assert(seq![Key::Esc] + none =~= seq![Key::Esc]);
        } else if b == 0x01 {
            assert(seq![Key::Ctrl('a')] + none =~= seq![Key::Ctrl('a')]);
        } else if b == 0x03 {
            assert(seq![Key::Ctrl('c')] + none =~= seq![Key::Ctrl('c')]);
        } else if b == 0x04 {
            assert(seq![Key::Ctrl('d')] + none =~= seq![Key::Ctrl('d')]);
        } else if b == 0x05 {
            assert(seq![Key::Ctrl('e')] + none =~= seq![Key::Ctrl('e')]);
        } else if b == 0x15 {
            assert(seq![Key::Ctrl('u')] + none =~= seq![Key::Ctrl('u')]);
        }
    }
}

/// The key that an escape sequence stands for, by what follows ESC.
pub open spec fn sequence_key(s: Seq<u8>) -> Option<Key> {
    if s == seq![0x5bu8, 0x41] || s == seq![0x4fu8, 0x41] {
        Some(Key::Up)
    } else if s == seq![0x5bu8, 0x42] || s == seq![0x4fu8, 0x42] {
        Some(Key::Down)
    } else if s == seq![0x5bu8, 0x43] || s == seq![0x4fu8, 0x43] {
        Some(Key::Right)
    } else if s == seq![0x5bu8, 0x44] || s == seq![0x4fu8, 0x44] {
        Some(Key::Left)
    } else if s == seq![0x5bu8, 0x48] || s == seq![0x4fu8, 0x48] || s == seq![0x5bu8, 0x31, 0x7e] {
        Some(Key::Home)
    } else if s == seq![0x5bu8, 0x46] || s == seq![0x4fu8, 0x46] || s == seq![0x5bu8, 0x34, 0x7e] {
        Some(Key::End)
    } else if s == seq![0x5bu8, 0x5a] {
        Some(Key::BackTab)
    } else if s == seq![0x5bu8, 0x33, 0x7e] {
        Some(Key::Delete)
    } else if s == seq![0x5bu8, 0x35, 0x7e] {
        Some(Key::PageUp)
    } else if s == seq![0x5bu8, 0x36, 0x7e] {
        Some(Key::PageDown)
    } else {
        None
    }
}

/// The sequences that terminals send for the arrows and the other keys that
/// move are read as these keys, whatever was typed after them.
pub proof fn law_sequences_are_keys(
    parser: &mut KeyParser,
    data: &[u8],
    sequence: Seq<u8>,
    later: Seq<u8>,
    key: Key,
    r: Vec<Key>,
)
    requires
        call_ensures(KeyParser::feed, (parser, data), r),
        old(parser)@.pending.len() == 0,
        sequence_key(sequence) == Some(key),
        data@ == seq![0x1bu8] + sequence + later,
    ensures
        r@.len() > 0,
        r@[0] == key,
        r@.drop_first() == input::parsed(later, false).keys,
        final(parser)@.pending == input::parsed(later, false).rest,
{
    let s = seq![0x1bu8] + sequence + later;
    assert(old(parser)@.pending + data@ =~= s);
    let n = 1 + sequence.len() as int;
    assert(s[0] == 0x1b);
    assert(s[1] == sequence[0]);
    assert(s[2] == sequence[1]);
    assert(s.skip(n) =~= later);
    reveal_with_fuel(input::csi_end, 3);
    if sequence.len() == 3 {
        assert(s[3] == sequence[2]);
        assert(input::csi_end(s, 2) == 3);
        assert(s.subrange(2, 3) =~= seq![sequence[1]]);
    } else {
        assert(s.subrange(2, 2) =~= Seq::<u8>::empty());
    }
    assert(input::token(s, old(parser)@.after_cr) == Token::Done { key: Some(key), len: n });
    let then = input::parsed(later, false);
    assert((seq![key] + then.keys).drop_first() =~= then.keys);
}

} // verus!
