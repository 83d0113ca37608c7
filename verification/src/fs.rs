//! Files: opening by path and reading.
use vstd::prelude::*;
use crate::path::{has_nul, Path, MAX_PATH_LENGTH};

verus! {

/// Why a file operation failed.
#[derive(Copy, Clone, PartialEq, Eq, Debug, Structural)]
pub enum Error {
    NotFound,
    InvalidPath,
    PermissionDenied,
}

/// An open file, by its file handle.
pub struct File(u32);

impl File {
    /// The file handle.
    pub closed spec fn spec_handle(&self) -> u32 {
        self.0
    }

    /// The file handle.
    pub fn handle(&self) -> (r: u32)
        ensures
            r == self.spec_handle(),
    {
        self.0
    }

    /// The buffer that OS_Find is given to open `path`: the path and a terminating zero,
    /// then zeros; `InvalidPath` when the path does not fit in it with its zero or holds
    /// a zero byte.
    pub fn open_request<'a>(path: Path<'a>) -> (r: Result<[u8; 256], Error>)
        ensures
            path@.len() < MAX_PATH_LENGTH && !has_nul(path@) ==> (r matches Ok(b) && b@ == path@
                + Seq::new((MAX_PATH_LENGTH - path@.len()) as nat, |i: int| 0u8)),
            !(path@.len() < MAX_PATH_LENGTH && !has_nul(path@)) ==> r == Err::<[u8; 256], Error>(
                Error::InvalidPath,
            ),
    {
        let mut buffer = [0u8; 256];
        let ghost zeros = buffer@;
        assert(zeros =~= Seq::new(256, |i: int| 0u8));
        match path.to_c_str(&mut buffer) {
            Ok(_) => {
                assert(buffer@ =~= path@ + Seq::new(
                    (MAX_PATH_LENGTH - path@.len()) as nat,
                    |i: int| 0u8,
                ));
                Ok(buffer)
            },
            Err(_) => Err(Error::InvalidPath),
        }
    }

    /// The outcome of OS_Find returning `handle`: the open file, or `NotFound` for a zero handle.
    pub fn from_handle(handle: u32) -> (r: Result<File, Error>)
        ensures
            handle == 0 ==> r == Err::<File, Error>(Error::NotFound),
            handle != 0 ==> (r matches Ok(f) && f.spec_handle() == handle),
    {
        if handle == 0 {
            Err(Error::NotFound)
        } else {
            Ok(File(handle))
        }
    }

    /// The outcome of a read by OS_GBPB that transferred `count` bytes: the count, or
    /// `PermissionDenied` when the call reported an error.
    pub fn read_outcome(count: usize, success: bool) -> (r: Result<usize, Error>)
        ensures
            success ==> r == Ok::<usize, Error>(count),
            !success ==> r == Err::<usize, Error>(Error::PermissionDenied),
    {
        if !success {
            Err(Error::PermissionDenied)
        } else {
            Ok(count)
        }
    }
}

} // verus!
