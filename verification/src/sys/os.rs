//! The operating system's file calls: what a transfer reports.
use vstd::prelude::*;

verus! {

/// The number of bytes that OS_GBPB transferred when it was asked for `requested` bytes
/// and left `bytes_left` of them untransferred.
pub fn gbpb_transferred(requested: usize, bytes_left: usize) -> (r: usize)
    requires
        bytes_left <= requested,
    ensures
        r == requested - bytes_left,
{
    requested - bytes_left
}

} // verus!
