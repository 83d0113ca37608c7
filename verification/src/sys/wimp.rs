//! The window manager's slot size call.
use vstd::prelude::*;

verus! {

/// The memory sizes that Wimp_SlotSize reports, in bytes.
pub struct SlotSize {
    pub current: usize,
    pub next: usize,
    pub free: usize,
}

/// The register value that asks Wimp_SlotSize for a new size: the size, at most
/// `i32::MAX`, or -1 to leave that size as it is.
pub fn slot_size_arg(size: Option<usize>) -> (r: i32)
    ensures
        size is None ==> r == -1,
        size matches Some(v) ==> r == (if v <= i32::MAX { v as int } else { i32::MAX as int }),
{
    match size {
        Some(v) => {
            if v <= i32::MAX as usize {
                v as i32
            } else {
                i32::MAX
            }
        },
        None => -1,
    }
}

} // verus!
