//! Text output through the VDU drivers.
use vstd::prelude::*;
use crate::helper::char_byte;


verus! {

/// The bytes that one character is sent to the VDU drivers as: its low byte, preceded
/// by a carriage return when it is a line feed.
pub open spec fn vdu_char_bytes(c: char) -> Seq<u8> {
    if c == '\n' {
        seq![13u8, char_byte(c)]
    } else {
        seq![char_byte(c)]
    }
}

/// The bytes that a string is sent to the VDU drivers as, character by character.
pub open spec fn vdu_bytes(s: Seq<char>) -> Seq<u8>
    decreases s.len(),
{
    if s.len() == 0 {
        Seq::empty()
    } else {
        vdu_bytes(s.drop_last()) + vdu_char_bytes(s.last())
    }
}

/// The number of line feeds in `s`.
pub open spec fn line_feeds(s: Seq<char>) -> nat
    decreases s.len(),
{
    if s.len() == 0 {
        0
    } else {
        line_feeds(s.drop_last()) + if s.last() == '\n' {
            1nat
        } else {
            0nat
        }
    }
}

/// A prefix of a string holds no more line feeds than the string.
proof fn lemma_line_feeds_prefix(s: Seq<char>, k: int)
    requires
        0 <= k <= s.len(),
    ensures
        line_feeds(s.take(k)) <= line_feeds(s),
    decreases s.len(),
{
    if k == s.len() {
        assert(s.take(k) =~= s);
    } else {
        assert(s.take(k) =~= s.drop_last().take(k));
        lemma_line_feeds_prefix(s.drop_last(), k);
    }
}

/// What writing a string sends, for every string: one byte per character and one more
/// per line feed; character `i` is sent as the low byte of its code point, at position
/// `i` plus the number of line feeds up to and including it; a line feed comes right
/// after a carriage return (13).
pub proof fn lemma_vdu_bytes_layout(s: Seq<char>)
    ensures
        vdu_bytes(s).len() == s.len() + line_feeds(s),
        forall|i: int|
            0 <= i < s.len() ==> vdu_bytes(s)[i + line_feeds(s.take(i + 1))] == (#[trigger] s[i]
                as u32) as u8,
        forall|i: int|
            0 <= i < s.len() && #[trigger] s[i] == '\n' ==> vdu_bytes(s)[i + line_feeds(
                s.take(i + 1),
            ) - 1] == 13,
    decreases s.len(),
{
    if s.len() > 0 {
        let init = s.drop_last();
        let c = s.last();
        let n = init.len() as int;
        lemma_vdu_bytes_layout(init);
        let out = vdu_bytes(s);
        let before = vdu_bytes(init);
        assert(out == before + vdu_char_bytes(c));
        assert(s.take(n + 1) =~= s);
        assert forall|i: int| 0 <= i < s.len() implies out[i + line_feeds(s.take(i + 1))] == (
        #[trigger] s[i] as u32) as u8 && (s[i] == '\n' ==> out[i + line_feeds(s.take(i + 1)) - 1]
            == 13) by {
            if i < n {
                assert(s.take(i + 1) =~= init.take(i + 1));
                assert(s[i] == init[i]);
                lemma_line_feeds_prefix(init, i + 1);
                assert(i + line_feeds(init.take(i + 1)) < before.len());
            } else {
                assert(s[i] == c);
            }
        }
    }
}

/// The bytes, in order, that writing `s` sends to the VDU drivers one at a time:
/// each character's low byte, with a carriage return before each line feed.
pub fn write_str_bytes(s: &str) -> (r: Vec<u8>)
    ensures
        r@ == vdu_bytes(s@),
        r@.len() == s@.len() + line_feeds(s@),
        forall|i: int|
            0 <= i < s@.len() ==> r@[i + line_feeds(s@.take(i + 1))] == (#[trigger] s@[i]
                as u32) as u8,
        forall|i: int|
            0 <= i < s@.len() && #[trigger] s@[i] == '\n' ==> r@[i + line_feeds(
                s@.take(i + 1),
            ) - 1] == 13,
{
    proof {
        lemma_vdu_bytes_layout(s@);
    }
    let mut out: Vec<u8> = Vec::new();
    for c in it: s.chars()
        invariant
            it.seq() == s@,
            out@ == vdu_bytes(s@.take(it.index() as int)),
    {
        if c == '\n' {
            out.push(13u8);
        }
        out.push((c as u32) as u8);
        proof {
            let i = it.index() as int;
            let next = s@.take(i + 1);
            assert(next.drop_last() == s@.take(i));
            assert(next.last() == c);
        }
    }
    proof {
        assert(s@.take(s@.len() as int) == s@);
    }
    out
}

/// Writing two strings one after the other sends the same bytes as writing them joined.
pub proof fn lemma_vdu_bytes_concat(s1: Seq<char>, s2: Seq<char>)
    ensures
        vdu_bytes(s1 + s2) == vdu_bytes(s1) + vdu_bytes(s2),
    decreases s2.len(),
{
    if s2.len() == 0 {
        assert(s1 + s2 =~= s1);
        assert(vdu_bytes(s1) + vdu_bytes(s2) =~= vdu_bytes(s1));
    } else {
        lemma_vdu_bytes_concat(s1, s2.drop_last());
        assert((s1 + s2).drop_last() =~= s1 + s2.drop_last());
        assert((s1 + s2).last() == s2.last());
        assert(vdu_bytes(s1) + vdu_bytes(s2.drop_last()) + vdu_char_bytes(s2.last()) =~= vdu_bytes(
            s1,
        ) + vdu_bytes(s2));
    }
}

/// When every character of a string is below 256, each line feed that writing it sends
/// comes straight after a carriage return.
pub proof fn lemma_vdu_line_feeds_follow_returns(s: Seq<char>)
    requires
        forall|i: int| 0 <= i < s.len() ==> (#[trigger] s[i] as u32) < 256,
    ensures
        forall|j: int|
            0 <= j < vdu_bytes(s).len() && #[trigger] vdu_bytes(s)[j] == 10 ==> j > 0
                && vdu_bytes(s)[j - 1] == 13,
    decreases s.len(),
{
    if s.len() > 0 {
        let init = s.drop_last();
        let c = s.last();
        assert forall|i: int| 0 <= i < init.len() implies (#[trigger] init[i] as u32) < 256 by {
            assert(init[i] == s[i]);
        }
        lemma_vdu_line_feeds_follow_returns(init);
        assert(s[s.len() - 1] == c);
        let out = vdu_bytes(s);
        let before = vdu_bytes(init);
        assert forall|j: int| 0 <= j < out.len() && #[trigger] out[j] == 10 implies j > 0 && out[j
            - 1] == 13 by {
            if j < before.len() {
                assert(out[j] == before[j]);
                assert(out[j - 1] == before[j - 1]);
            } else if c == '\n' {
                if j == before.len() {
                    assert(out[j] == 13);
                }
            } else {
                assert(out[j] == char_byte(c));
                assert(char_byte(c) as u32 == c as u32);
                vstd::utf8::char_u32_cast(c, c as u32);
                vstd::utf8::char_u32_cast('\n', 10u32);
                assert(c as u32 != 10);
            }
        }
    }
}

} // verus!
