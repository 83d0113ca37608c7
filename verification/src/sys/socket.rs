//! The Internet socket calls' constants and address block.
use vstd::prelude::*;

verus! {

/// The stream socket type.
pub const STREAM: i32 = 1;

/// The Internet address family.
pub const AF_INET: i32 = 2;

/// An IPv4 socket address as the socket calls read it; the port and address in
/// network byte order.
pub struct AddrIpv4 {
    pub family: i16,
    pub port: u16,
    pub ip: u32,
    pub pad0: u32,
    pub pad1: u32,
}

} // verus!
