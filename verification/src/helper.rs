use vstd::prelude::*;

verus! {

/// A NUL-terminated byte string in the form RISC OS calls expect.
pub struct ROString(Vec<u8>);

impl View for ROString {
    type V = Seq<u8>;

    closed spec fn view(&self) -> Seq<u8> {
        self.0@
    }
}

/// The byte a character becomes in a RISC OS string: its code point, truncated to eight bits.
pub open spec fn char_byte(c: char) -> u8 {
    (c as u32) as u8
}

/// The byte a character becomes is its code point modulo 256.
pub proof fn lemma_char_byte_low_byte(c: char)
    ensures
        char_byte(c) as u32 == (c as u32) % 256,
{
    let u = c as u32;
    assert((u as u8) as u32 == u % 256) by (bit_vector);
}

/// The bytes of a string converted for RISC OS: each character's byte, then a zero.
pub open spec fn ro_bytes(s: Seq<char>) -> Seq<u8> {
    s.map_values(|c: char| char_byte(c)).push(0u8)
}

/// A string converted for RISC OS holds one byte per character, each the character's
/// code point modulo 256, and then a single terminating zero.
pub proof fn lemma_ro_bytes(s: Seq<char>)
    ensures
        ro_bytes(s).len() == s.len() + 1,
        ro_bytes(s)[s.len() as int] == 0,
        forall|i: int| 0 <= i < s.len() ==> #[trigger] ro_bytes(s)[i] as u32 == (s[i] as u32) % 256,
{
    let r = ro_bytes(s);
    assert forall|i: int| 0 <= i < s.len() implies #[trigger] r[i] as u32 == (s[i] as u32)
        % 256 by {
        lemma_char_byte_low_byte(s[i]);
    }
}

impl ROString {
    /// Converts `s` character by character, each to the low byte of its code point,
    /// and terminates the result with a zero byte.
    pub fn from_str(s: &str) -> (r: ROString)
        ensures
            r@ == ro_bytes(s@),
            r@.len() == s@.len() + 1,
            r@[s@.len() as int] == 0,
            forall|i: int| 0 <= i < s@.len() ==> #[trigger] r@[i] as u32 == (s@[i] as u32) % 256,
    {
        proof {
            lemma_ro_bytes(s@);
        }
        let mut v: Vec<u8> = Vec::new();
        for c in it: s.chars()
            invariant
                it.seq() == s@,
                v@ == s@.take(it.index() as int).map_values(|c: char| char_byte(c)),
        {
            v.push((c as u32) as u8);
            assert(s@.take(it.index() + 1) == s@.take(it.index() as int).push(c));
        }
        v.push(0);
        ROString(v)
    }

    /// The bytes of the string, the terminating zero included.
    pub fn as_bytes(&self) -> (r: &[u8])
        ensures
            r@ == self@,
    {
        self.0.as_slice()
    }
}

} // verus!
