//! Laws of working with characters.

use vstd::prelude::*;

use crate::auth;
use crate::auth::PublicKey;
use crate::chars;
use crate::laws::login;
use crate::laws::talking;

verus! {

/// Nothing but whitespace.
pub open spec fn blank(s: Seq<char>) -> bool {
    forall|i: int| 0 <= i < s.len() ==> chars::whitespace(#[trigger] s[i])
}

proof fn lemma_trim_start(a: Seq<char>, s: Seq<char>)
    requires
        blank(a),
        s.len() > 0,
        !chars::whitespace(s.first()),
    ensures
        chars::trim_start(a + s) == s,
    decreases a.len(),
{
    if a.len() == 0 {
        assert(a + s =~= s);
    } else {
        let rest = a.drop_first();
        assert forall|i: int| 0 <= i < rest.len() implies chars::whitespace(#[trigger] rest[i]) by {
            assert(rest[i] == a[i + 1]);
        }
        assert(chars::whitespace(a[0]));
        lemma_trim_start(rest, s);
        assert((a + s).drop_first() =~= rest + s);
        assert((a + s).first() == a[0]);
    }
}

proof fn lemma_trim_end(s: Seq<char>, b: Seq<char>)
    requires
        blank(b),
        s.len() > 0,
        !chars::whitespace(s.last()),
    ensures
        chars::trim_end(s + b) == s,
    decreases b.len(),
{
    if b.len() == 0 {
        assert(s + b =~= s);
    } else {
        let rest = b.drop_last();
        assert forall|i: int| 0 <= i < rest.len() implies chars::whitespace(#[trigger] rest[i]) by {
            assert(rest[i] == b[i]);
        }
        assert(chars::whitespace(b[b.len() - 1]));
        lemma_trim_end(s, rest);
        assert((s + b).drop_last() =~= s + rest);
        assert((s + b).last() == b[b.len() - 1]);
    }
}

/// Trimming takes off the whitespace at both ends and nothing else.
pub proof fn law_trimming(text: &str, a: Seq<char>, s: Seq<char>, b: Seq<char>, r: String)
    requires
        call_ensures(chars::trim_text, (text,), r),
        text@ == a + s + b,
        blank(a),
        blank(b),
        talking::snug(s),
    ensures
        r@ == s,
{
    assert(text@ =~= a + (s + b));
    assert((s + b).first() == s.first());
    lemma_trim_start(a, s + b);
    lemma_trim_end(s, b);
}

/// Numbers are written in decimal, and digits read as the number they write.
pub proof fn law_numbers(
    n: u128,
    size: usize,
    i: i64,
    digits: &str,
    a: String,
    b: String,
    c: String,
    d: u32,
)
    requires
        call_ensures(chars::decimal_text, (n,), a),
        call_ensures(chars::size_text, (size,), b),
        call_ensures(chars::int_text, (i,), c),
        call_ensures(chars::parse_number, (digits,), d),
    ensures
        chars::number(a@) == n,
        chars::number(b@) == size,
        i >= 0 ==> chars::number(c@) == i,
        i < 0 ==> c@.len() > 1 && c@[0] == '-' && chars::number(c@.drop_first()) == -i,
        digits@ == a@ ==> d == n,
{
    talking::law_numbers_read_back(n as nat);
    talking::law_numbers_read_back(size as nat);
    if i >= 0 {
        talking::law_numbers_read_back(i as nat);
    } else {
        talking::law_numbers_read_back((-i) as nat);
        assert(c@.drop_first() =~= chars::decimal((-i) as nat));
    }
}

/// Padding fills up with spaces, behind or before the text.
pub proof fn law_padding(s: &str, width: usize, left: String, right: String, k: int)
    requires
        call_ensures(chars::pad, (s, width), left),
        call_ensures(chars::align_right, (s, width), right),
    ensures
        left@.len() == right@.len(),
        left@.len() == if s@.len() < width {
            width as nat
        } else {
            s@.len()
        },
        left@.take(s@.len() as int) == s@,
        right@.skip(right@.len() - s@.len()) == s@,
        s@.len() <= k < left@.len() ==> left@[k] == ' ',
        0 <= k < right@.len() - s@.len() ==> right@[k] == ' ',
{
    assert(left@.take(s@.len() as int) =~= s@);
    assert(right@.skip(right@.len() - s@.len()) =~= s@);
}

/// Texts are the same that hold the same characters, or the same but for the
/// case of ASCII letters.
pub proof fn law_comparing(a: &str, b: &str, same: bool, alike: bool, i: int)
    requires
        call_ensures(chars::same, (a, b), same),
        call_ensures(chars::same_ignoring_case, (a, b), alike),
    ensures
        same <==> a@ == b@,
        same ==> alike,
        alike ==> a@.len() == b@.len(),
        alike && 0 <= i < a@.len() ==> a@[i] == b@[i] || (chars::ascii_letter(a@[i])
            && chars::ascii_letter(b@[i])),
        a@.len() == b@.len() && (forall|k: int|
            0 <= k < a@.len() ==> a@[k] == b@[k] || chars::ascii_upper(#[trigger] a@[k]) && b@[k] as u32
                == a@[k] as u32 + 32) ==> alike,
{
    assert(chars::folded(a@).len() == a@.len());
    assert(chars::folded(b@).len() == b@.len());
    if alike && 0 <= i < a@.len() {
        assert(chars::folded(a@)[i] == chars::folded(b@)[i]);
    }
    if a@.len() == b@.len() && (forall|k: int|
        0 <= k < a@.len() ==> a@[k] == b@[k] || chars::ascii_upper(#[trigger] a@[k]) && b@[k] as u32
            == a@[k] as u32 + 32) {
        assert(chars::folded(a@) =~= chars::folded(b@)) by {
            assert forall|k: int| 0 <= k < a@.len() implies chars::folded(a@)[k] == chars::folded(
                b@,
            )[k] by {
                let c = a@[k];
                if c != b@[k] {
                    assert(chars::ascii_upper(c));
                    assert(b@[k] as u32 == c as u32 + 32);
                }
            }
        }
    }
}

/// Pieces are put together in order.
pub proof fn law_putting_together(
    a: &str,
    b: &str,
    c: &str,
    d: &str,
    e: &str,
    two: String,
    three: String,
    four: String,
    five: String,
)
    requires
        call_ensures(chars::cat2, (a, b), two),
        call_ensures(chars::cat3, (a, b, c), three),
        call_ensures(chars::cat4, (a, b, c, d), four),
        call_ensures(chars::cat5, (a, b, c, d, e), five),
    ensures
        two@ == a@ + b@,
        three@ == two@ + c@,
        four@ == three@ + d@,
        five@ == four@ + e@,
{
}

/// The order of texts is that of a dictionary: the first difference decides,
/// and a beginning comes before what it begins.
pub proof fn law_order_of_texts(a: &str, b: &str, r: bool, k: int)
    requires
        call_ensures(chars::le_text, (a, b), r),
        0 <= k <= a@.len(),
        k <= b@.len(),
        a@.take(k) == b@.take(k),
    ensures
        k == a@.len() ==> r,
        k == b@.len() && k < a@.len() ==> !r,
        k < a@.len() && k < b@.len() && a@[k] != b@[k] ==> r == (a@[k] < b@[k]),
{
    lemma_order(a@, b@, k);
}

proof fn lemma_order(a: Seq<char>, b: Seq<char>, k: int)
    requires
        0 <= k <= a.len(),
        k <= b.len(),
        a.take(k) == b.take(k),
    ensures
        k == a.len() ==> chars::text_le(a, b),
        k == b.len() && k < a.len() ==> !chars::text_le(a, b),
        k < a.len() && k < b.len() && a[k] != b[k] ==> chars::text_le(a, b) == (a[k] < b[k]),
    decreases k,
{
    if k > 0 {
        let t = a.take(k);
        assert(t[0] == a[0] && b.take(k)[0] == b[0]);
        let x = a.drop_first();
        let y = b.drop_first();
        assert(x.take(k - 1) =~= y.take(k - 1)) by {
            assert forall|i: int| 0 <= i < k - 1 implies x[i] == y[i] by {
                assert(t[i + 1] == a[i + 1] && b.take(k)[i + 1] == b[i + 1]);
                assert(x[i] == a[i + 1] && y[i] == b[i + 1]);
            }
        }
        lemma_order(x, y, k - 1);
    }
}

/// A key that is pasted, with whatever blanks around it, and the same key when
/// a client offers it are one key: it is taken exactly if it can be read and
/// is no DSA key, and has the fingerprint that it is recognised by. Of its
/// comment at most 64 characters are kept, from the first on.
pub proof fn law_pasted_keys_are_recognised(
    line: &str,
    bare: &str,
    a: Seq<char>,
    b: Seq<char>,
    offered: Option<PublicKey>,
    r: Result<(PublicKey, String), String>,
)
    requires
        call_ensures(auth::parse_public_key, (line,), r),
        call_ensures(auth::offered_key, (bare,), offered),
        line@ == a + bare@ + b,
        blank(a),
        blank(b),
        talking::snug(bare@),
    ensures
        r is Ok <==> (offered matches Some(k) && !k.is_dsa),
        r matches Ok((key, comment)) ==> (offered matches Some(k) && key.fingerprint@
            == k.fingerprint@ && key.comment@ == k.comment@ && ((forall|i: int|
            0 <= i < k.comment@.len() ==> !chars::control(#[trigger] k.comment@[i])) ==> comment@
            == (if k.comment@.len() > 64 {
            k.comment@.take(64)
        } else {
            k.comment@
        }))),
{
    assert(line@ =~= a + (bare@ + b));
    assert((bare@ + b).first() == bare@.first());
    lemma_trim_start(a, bare@ + b);
    lemma_trim_end(bare@, b);
    assert(auth::key_outcome(r) == auth::key_verdict(auth::openssh_key(bare@)));
    assert(auth::key_parts(offered) == auth::openssh_key(bare@));
    if let Some(k) = offered {
        login::lemma_without_controls(k.comment@);
    }
}

} // verus!
