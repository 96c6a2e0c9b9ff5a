//! Laws of the one-line fields: what the keys do to what was typed.

use vstd::prelude::*;

use crate::chars;
use crate::ui::input::{Key, TextInput};

verus! {

/// A printable character is put in at the cursor, and the cursor goes past
/// it: what stood before stays before it, and what stood behind stays behind.
pub proof fn law_typing_inserts(field: &mut TextInput, c: char, r: bool)
    requires
        call_ensures(TextInput::handle, (field, Key::Char(c)), r),
        old(field)@.wf(),
        !chars::control(c),
        old(field)@.text.len() < old(field)@.max_len,
    ensures
        r,
        final(field)@.text == old(field)@.text.take(old(field)@.cursor).push(c) + old(field)@.text.skip(old(field)@.cursor),
        final(field)@.cursor == old(field)@.cursor + 1,
        final(field)@.max_len == old(field)@.max_len,
        final(field)@.masked == old(field)@.masked,
{
    assert(final(field)@.text =~= old(field)@.text.take(old(field)@.cursor).push(c) + old(field)@.text.skip(old(field)@.cursor));
}

/// A full field stays as it is when more is typed, and nothing but printable
/// characters adds to a field.
pub proof fn law_only_typing_adds(field: &mut TextInput, key: Key, r: bool)
    requires
        call_ensures(TextInput::handle, (field, key), r),
        old(field)@.wf(),
    ensures
        final(field)@.text.len() > old(field)@.text.len() ==> (key matches Key::Char(c)
            && !chars::control(c) && old(field)@.text.len() < old(field)@.max_len),
        key is Char && old(field)@.text.len() >= old(field)@.max_len ==> final(field)@ == old(field)@,
        !r ==> final(field)@ == old(field)@,
        key is Enter || key is Tab || key is Esc || key is Up || key is Down || key is PageUp
            || key is PageDown ==> !r,
{
}

/// Backspace takes out the character before the cursor, Delete the one at it;
/// with none there they do nothing.
pub proof fn law_erasing(field: &mut TextInput, key: Key, r: bool)
    requires
        call_ensures(TextInput::handle, (field, key), r),
        old(field)@.wf(),
    ensures
        key == Key::Backspace && old(field)@.cursor > 0 ==> final(field)@.text == old(field)@.text.take(old(field)@.cursor - 1) + old(field)@.text.skip(old(field)@.cursor) && final(field)@.cursor == old(field)@.cursor - 1,
        key == Key::Backspace && old(field)@.cursor == 0 ==> final(field)@ == old(field)@,
        key == Key::Delete && old(field)@.cursor < old(field)@.text.len() ==> final(field)@.text
            == old(field)@.text.take(old(field)@.cursor) + old(field)@.text.skip(
            old(field)@.cursor + 1,
        ) && final(field)@.cursor == old(field)@.cursor,
        key == Key::Delete && old(field)@.cursor == old(field)@.text.len() ==> final(field)@ == old(field)@,
        key == Key::Ctrl('u') ==> final(field)@.text == old(field)@.text.skip(old(field)@.cursor)
            && final(field)@.cursor == 0,
{
    let before = old(field)@;
    let after = final(field)@;
    if key == Key::Backspace && before.cursor > 0 {
        assert(after.text =~= before.text.take(before.cursor - 1) + before.text.skip(
            before.cursor,
        ));
    }
    if key == Key::Delete && before.cursor < before.text.len() {
        assert(after.text =~= before.text.take(before.cursor) + before.text.skip(
            before.cursor + 1,
        ));
    }
}

/// The keys that move move the cursor one place, to the start or to the end,
/// and leave the text alone.
pub proof fn law_moving(field: &mut TextInput, key: Key, r: bool)
    requires
        call_ensures(TextInput::handle, (field, key), r),
        old(field)@.wf(),
        key == Key::Left || key == Key::Right || key == Key::Home || key == Key::End || key
            == Key::Ctrl('a') || key == Key::Ctrl('e'),
    ensures
        r,
        final(field)@.text == old(field)@.text,
        key == Key::Left ==> final(field)@.cursor == if old(field)@.cursor > 0 {
            old(field)@.cursor - 1
        } else {
            0
        },
        key == Key::Right ==> final(field)@.cursor == if old(field)@.cursor < old(field)@.text.len() {
            old(field)@.cursor + 1
        } else {
            old(field)@.cursor
        },
        key == Key::Home || key == Key::Ctrl('a') ==> final(field)@.cursor == 0,
        key == Key::End || key == Key::Ctrl('e') ==> final(field)@.cursor == final(field)@.text.len(),
{
}

pub proof fn lemma_typed(max_len: nat, masked: bool, text: Seq<char>)
    requires
        text.len() <= max_len,
        forall|i: int| 0 <= i < text.len() ==> !chars::control(#[trigger] text[i]),
    ensures
        ({
            let f = crate::ui::input::Field::empty(max_len, masked).typed(text);
            f.text == text && f.cursor == text.len() && f.max_len == max_len && f.masked == masked
        }),
    decreases text.len(),
{
    if text.len() > 0 {
        let front = text.drop_last();
        assert forall|i: int| 0 <= i < front.len() implies !chars::control(#[trigger] front[i]) by {
            assert(front[i] == text[i]);
        }
        lemma_typed(max_len, masked, front);
        assert(!chars::control(text[text.len() - 1]));
        assert(front.insert(front.len() as int, text.last()) =~= text);
    } else {
        assert(text =~= Seq::empty());
    }
}

/// A field that is set to a printable text that fits holds that text, with
/// the cursor at its end, and gives it back.
pub proof fn law_fields_hold_what_they_are_set_to(field: &mut TextInput, text: &str, r: ())
    requires
        call_ensures(TextInput::set, (field, text), r),
        text@.len() <= old(field)@.max_len,
        forall|i: int| 0 <= i < text@.len() ==> !chars::control(#[trigger] text@[i]),
    ensures
        final(field)@.text == text@,
        final(field)@.cursor == text@.len(),
        final(field)@.max_len == old(field)@.max_len,
        final(field)@.masked == old(field)@.masked,
{
    lemma_typed(old(field)@.max_len, old(field)@.masked, text@);
}

/// A field gives back what it holds, new and cleared ones hold nothing.
pub proof fn law_fields_give_back_their_text(
    field: &mut TextInput,
    kept: &TextInput,
    fresh: TextInput,
    max_len: usize,
    masked: bool,
    value: String,
    empty: bool,
)
    ensures
        call_ensures(TextInput::value, (kept,), value) ==> value@ == kept@.text,
        call_ensures(TextInput::is_empty, (kept,), empty) ==> empty == (kept@.text.len() == 0),
        call_ensures(TextInput::new, (max_len, masked), fresh) ==> fresh@.text.len() == 0
            && fresh@.cursor == 0 && fresh@.max_len == max_len && fresh@.masked == masked,
        call_ensures(TextInput::clear, (field,), ()) ==> final(field)@.text.len() == 0 && final(field)@.cursor == 0 && final(field)@.max_len == old(field)@.max_len && final(field)@.masked
            == old(field)@.masked,
{
}

} // verus!
