//! The values that the library passes to and reads from the operating system's calls.
pub mod os;
pub mod socket;
pub mod wimp;
