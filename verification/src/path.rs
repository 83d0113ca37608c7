//! Paths, and the NUL-terminated form in which file calls take them.
use vstd::prelude::*;
use vstd::string::StringSliceAdditionalSpecFns;

verus! {

/// The room that file calls give a path, its terminating zero included.
pub const MAX_PATH_LENGTH: usize = 256;

/// Why a path cannot be handed to a file call.
#[derive(Debug, PartialEq, Eq, Structural)]
pub enum Error {
    /// The path and its terminating zero do not fit in the buffer.
    PathTooLong,
    /// The path holds a zero byte.
    InvalidPath,
}

/// A path, as the bytes that name it.
pub struct Path<'a>(&'a [u8]);

impl<'a> View for Path<'a> {
    type V = Seq<u8>;

    closed spec fn view(&self) -> Seq<u8> {
        self.0@
    }
}

/// Whether `bytes` hold a zero byte.
pub open spec fn has_nul(bytes: Seq<u8>) -> bool {
    exists|i: int| 0 <= i < bytes.len() && bytes[i] == 0
}

impl<'a> From<&'a str> for Path<'a> {
    /// The path named by the string's UTF-8 bytes.
    fn from(s: &'a str) -> (r: Path<'a>)
        ensures
            r@ == s.spec_bytes(),
    {
        let p = Path(s.as_bytes());
        proof {
            lemma_path_of_view(p);
        }
        p
    }
}

impl<'a> vstd::std_specs::convert::FromSpecImpl<&'a str> for Path<'a> {
    open spec fn obeys_from_spec() -> bool {
        true
    }

    open spec fn from_spec(s: &'a str) -> Path<'a> {
        path_with_bytes(s.spec_bytes())
    }
}

impl<'a> From<&'a [u8]> for Path<'a> {
    /// The path named by the bytes.
    fn from(s: &'a [u8]) -> (r: Path<'a>)
        ensures
            r@ == s@,
    {
        let p = Path(s);
        proof {
            lemma_path_of_view(p);
        }
        p
    }
}

impl<'a> vstd::std_specs::convert::FromSpecImpl<&'a [u8]> for Path<'a> {
    open spec fn obeys_from_spec() -> bool {
        true
    }

    open spec fn from_spec(s: &'a [u8]) -> Path<'a> {
        path_with_bytes(s@)
    }
}

/// The path named by `bytes`.
pub closed spec fn path_with_bytes<'a>(bytes: Seq<u8>) -> Path<'a> {
    choose|p: Path<'a>| p@ == bytes
}

/// Two paths that name the same bytes are the same path.
proof fn lemma_path_of_view<'a>(p: Path<'a>)
    ensures
        path_with_bytes::<'a>(p@) == p,
        path_with_bytes::<'a>(p@)@ == p@,
{
    let q = path_with_bytes::<'a>(p@);
    assert(q@ == p@);
    assert(q.0 == p.0) by {
        broadcast use vstd::slice::axiom_slice_ext_equal;
        assert(q.0@ =~= p.0@);
    }
}

/// The path named by the bytes of a slice names exactly those bytes.
pub proof fn lemma_path_with_slice_bytes<'a>(s: &'a [u8])
    ensures
        path_with_bytes::<'a>(s@)@ == s@,
{
    lemma_path_of_view(Path(s));
}

impl<'a> Path<'a> {
    /// The bytes that name the path.
    pub fn as_bytes(&self) -> (r: &'a [u8])
        ensures
            r@ == self@,
    {
        self.0
    }

    /// Writes the path and a terminating zero to the start of `buffer`, and returns the
    /// length of what was written, the zero included.
    ///
    /// `PathTooLong` when the path and its zero do not fit (the buffer is left as it was);
    /// `InvalidPath` when the path holds a zero byte (the path and zero are written all
    /// the same).
    pub fn to_c_str(&self, buffer: &mut [u8]) -> (r: Result<usize, Error>)
        ensures
            self@.len() >= old(buffer)@.len() ==> r == Err::<usize, Error>(Error::PathTooLong)
                && final(buffer)@ == old(buffer)@,
            self@.len() < old(buffer)@.len() ==> final(buffer)@ == self@ + seq![0u8] + old(
                buffer,
            )@.skip(self@.len() + 1int),
            self@.len() < old(buffer)@.len() && has_nul(self@) ==> r == Err::<usize, Error>(
                Error::InvalidPath,
            ),
            self@.len() < old(buffer)@.len() && !has_nul(self@) ==> r == Ok::<usize, Error>(
                (self@.len() + 1) as usize,
            ),
    {
        let path_len = self.0.len();
        if path_len < buffer.len() {
            let ghost original = buffer@;
            let mut i: usize = 0;
            let mut nul = false;
            while i < path_len
                invariant
                    path_len == self.0@.len(),
                    path_len < buffer@.len(),
                    buffer@.len() == original.len(),
                    i <= path_len,
                    buffer@ == self.0@.take(i as int) + original.skip(i as int),
                    nul == (exists|j: int| 0 <= j < i && self.0@[j] == 0),
                decreases path_len - i,
            {
                let c = self.0[i];
                buffer[i] = c;
                if c == 0 {
                    nul = true;
                }
                proof {
                    assert(self.0@.take(i + 1) == self.0@.take(i as int).push(c));
                    assert(buffer@ =~= self.0@.take(i + 1) + original.skip(i + 1));
                }
                i = i + 1;
            }
            buffer[path_len] = 0;
            proof {
                assert(self.0@.take(path_len as int) == self.0@);
                assert(buffer@ =~= self@ + seq![0u8] + original.skip(path_len + 1));
            }
            if nul {
                Err(Error::InvalidPath)
            } else {
                Ok(path_len + 1)
            }
        } else {
            Err(Error::PathTooLong)
        }
    }
}

} // verus!
