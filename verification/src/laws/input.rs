//! Laws of reading keys from the byte stream.

use vstd::prelude::*;

use crate::ui::input;
use crate::ui::input::{Parsed, Token};

verus! {

/// How the last token of a read was decided.
pub enum Cut {
    /// By its own bytes, or left pending.
    Clean,
    /// An ESC was taken for the Esc key because nothing came after it.
    LoneEsc,
    /// A control sequence was given up on because it grew too long.
    Overlong,
}

/// How a read that holds `s` ends.
pub open spec fn cut(s: Seq<u8>) -> Cut
    decreases s.len(),
{
    if s.len() == 0 {
        Cut::Clean
    } else if s == seq![0x1bu8] {
        Cut::LoneEsc
    } else if s.len() > input::MAX_PENDING && s[0] == 0x1b && s[1] == 0x5b && input::csi_end(s, 2)
        == s.len() {
        Cut::Overlong
    } else {
        match input::token(s, false) {
            Token::Wait => Cut::Clean,
            Token::Done { len, .. } => if 0 < len <= s.len() {
                cut(s.skip(len))
            } else {
                Cut::Clean
            },
        }
    }
}

/// Whether a read that ends as `c` says may be followed by one that holds
/// `b` with nothing lost: `b` must not go on with what was given up.
pub open spec fn may_follow(c: Cut, b: Seq<u8>) -> bool {
    match c {
        Cut::Clean => true,
        Cut::LoneEsc => b.len() == 0 || (b[0] != 0x5b && b[0] != 0x4f),
        Cut::Overlong => b.len() == 0 || !(0x20 <= b[0] <= 0x7e),
    }
}

proof fn lemma_csi_prefix(a: Seq<u8>, b: Seq<u8>, i: int)
    requires
        0 <= i <= a.len(),
    ensures
        input::csi_end(a, i) < a.len() ==> input::csi_end(a + b, i) == input::csi_end(a, i),
        input::csi_end(a, i) == a.len() ==> input::csi_end(a + b, i) == input::csi_end(
            a + b,
            a.len() as int,
        ),
    decreases a.len() - i,
{
    input::lemma_csi_end(a, i);
    if i < a.len() {
        assert((a + b)[i] == a[i]);
        if input::csi_inner(a[i]) {
            lemma_csi_prefix(a, b, i + 1);
        }
    }
}

/// A token that its own bytes decide stays the same when more bytes follow.
proof fn lemma_token_prefix(a: Seq<u8>, b: Seq<u8>, after_cr: bool)
    requires
        a.len() > 0,
        input::token(a, after_cr) is Done,
        a != seq![0x1bu8],
        !(a.len() > input::MAX_PENDING && a[0] == 0x1b && a[1] == 0x5b && input::csi_end(a, 2)
            == a.len()),
    ensures
        input::token(a + b, after_cr) == input::token(a, after_cr),
{
    let s = a + b;
    assert(s[0] == a[0]);
    if a[0] == 0x1b {
        if a.len() == 1 {
            assert(a =~= seq![0x1bu8]);
        }
        assert(s[1] == a[1]);
        if a[1] == 0x5b {
            lemma_csi_prefix(a, b, 2);
            input::lemma_csi_end(a, 2);
            let i = input::csi_end(a, 2);
            assert(s[i] == a[i]);
            assert(s.subrange(2, i) =~= a.subrange(2, i));
        } else if a[1] == 0x4f {
            assert(s[2] == a[2]);
        }
    } else {
        let n = input::utf8_width(a[0]);
        if n <= a.len() {
            assert(s.take(n) =~= a.take(n));
        }
    }
}

/// Bytes mean the same however the reads cut them, but for what a read had
/// to give up at its end: reading `a` and then `b` gives the keys of `a`
/// and `b` read at once, and leaves the parser the same.
pub proof fn law_reads_may_be_cut(a: Seq<u8>, b: Seq<u8>, after_cr: bool)
    requires
        may_follow(cut(a), b),
    ensures
        ({
            let first = input::parsed(a, after_cr);
            let second = input::parsed(first.rest + b, first.after_cr);
            input::parsed(a + b, after_cr) == (Parsed {
                keys: first.keys + second.keys,
                rest: second.rest,
                after_cr: second.after_cr,
            })
        }),
    decreases a.len(),
{
    let first = input::parsed(a, after_cr);
    let second = input::parsed(first.rest + b, first.after_cr);
    let whole = input::parsed(a + b, after_cr);
    if a.len() == 0 {
        assert(a + b =~= b);
        assert(first.rest + b =~= b);
        assert(first.keys + second.keys =~= second.keys);
    } else {
        input::lemma_token_len(a, after_cr);
        input::lemma_token_len(a, false);
        assert((a + b)[0] == a[0]);
        if a == seq![0x1bu8] {
            assert(a.skip(1) =~= Seq::empty());
            assert(first.rest + b =~= b);
            assert((a + b).skip(1) =~= b);
            assert(first.keys =~= seq![input::Key::Esc]);
            if b.len() > 0 {
                assert((a + b)[1] == b[0]);
            } else {
                assert(a + b =~= a);
            }
            assert(whole.keys =~= first.keys + second.keys);
            assert(whole.rest == second.rest);
            assert(whole.after_cr == second.after_cr);
        } else if a.len() > input::MAX_PENDING && a[0] == 0x1b && a[1] == 0x5b && input::csi_end(
            a,
            2,
        ) == a.len() {
            let n = a.len() as int;
            assert(a.skip(n) =~= Seq::empty());
            assert(first.rest + b =~= b);
            assert((a + b).skip(n) =~= b);
            assert((a + b)[1] == a[1]);
            lemma_csi_prefix(a, b, 2);
            if b.len() > 0 {
                assert((a + b)[n] == b[0]);
            } else {
                assert(a + b =~= a);
            }
            assert(whole.keys =~= first.keys + second.keys);
            assert(whole.rest == second.rest);
            assert(whole.after_cr == second.after_cr);
        } else if input::token(a, after_cr) is Wait {
            assert(input::token(a + b, after_cr) == input::token(a + b, false));
            input::lemma_token_len(a + b, after_cr);
            assert(first.keys + second.keys =~= second.keys);
        } else {
            lemma_token_prefix(a, b, after_cr);
            let len = input::token(a, after_cr)->len;
            assert(input::token(a, false)->len == len);
            assert(input::token(a, false) is Done);
            assert((a + b).skip(len) =~= a.skip(len) + b);
            law_reads_may_be_cut(a.skip(len), b, a[0] == 0x0d);
            assert(whole.keys =~= first.keys + second.keys);
            assert(whole.rest == second.rest);
            assert(whole.after_cr == second.after_cr);
        }
    }
}

} // verus!
