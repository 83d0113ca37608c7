//! IPv4 addresses, socket addresses and TCP streams.
use vstd::prelude::*;
use crate::bounded::{host_buffer_bytes, host_buffer_new, host_buffer_push};
use crate::helper::{char_byte, lemma_ro_bytes, ro_bytes};
use crate::sys::socket::{AddrIpv4, AF_INET};
use crate::text::{decimal, push_decimal_u8, string_push};

verus! {

/// A connected TCP stream, by its socket handle.
pub struct TcpStream(u32);

/// Why a network operation failed.
#[derive(Debug, PartialEq, Eq, Structural)]
pub enum Error {
    Generic,
}

/// A socket address: an IPv4 address and a port.
pub struct SocketAddr(u32, u16);

/// An IPv4 address, its first octet in the least significant byte.
pub struct IpAddr(u32);

/// The address word of four octets, the first in the least significant byte.
pub open spec fn octets_word(a: Seq<u8>) -> u32 {
    (a[0] + 256 * a[1] + 65536 * a[2] + 16777216 * a[3]) as u32
}

/// The octet of `w` that stands `k` bytes from the least significant end.
pub open spec fn word_octet(w: u32, k: int) -> u8 {
    ((w as int / pow256(k)) % 256) as u8
}

/// 256 to the power `k`, for `k` from 0 to 3.
pub open spec fn pow256(k: int) -> int {
    if k == 0 {
        1
    } else if k == 1 {
        256
    } else if k == 2 {
        65536
    } else {
        16777216
    }
}

/// The dotted decimal form of an address word: its octets from the least significant one.
pub open spec fn dotted(w: u32) -> Seq<char> {
    decimal(word_octet(w, 0) as nat) + seq!['.'] + decimal(word_octet(w, 1) as nat) + seq!['.']
        + decimal(word_octet(w, 2) as nat) + seq!['.'] + decimal(word_octet(w, 3) as nat)
}

/// A 16-bit value with its two bytes exchanged.
pub open spec fn swapped(p: u16) -> u16 {
    ((p % 256) * 256 + p / 256) as u16
}

impl IpAddr {
    /// The address word, first octet in the least significant byte.
    pub closed spec fn spec_word(&self) -> u32 {
        self.0
    }

    /// The address word, first octet in the least significant byte.
    pub fn to_bits(&self) -> (r: u32)
        ensures
            r == self.spec_word(),
    {
        self.0
    }

    /// The four octets, first to last.
    pub fn octets(&self) -> (r: [u8; 4])
        ensures
            forall|k: int| 0 <= k < 4 ==> r@[k] == word_octet(self.spec_word(), k),
    {
        let a = self.0;
        [(a % 256) as u8, ((a / 256) % 256) as u8, ((a / 65536) % 256) as u8, (a / 16777216) as u8]
    }

    /// The address in dotted decimal form, as `a.b.c.d`.
    pub fn to_dotted_string(&self) -> (r: std::string::String)
        ensures
            r@ == dotted(self.spec_word()),
    {
        let o = self.octets();
        let mut s = std::string::String::new();
        push_decimal_u8(&mut s, o[0]);
        string_push(&mut s, '.');
        push_decimal_u8(&mut s, o[1]);
        string_push(&mut s, '.');
        push_decimal_u8(&mut s, o[2]);
        string_push(&mut s, '.');
        push_decimal_u8(&mut s, o[3]);
        s
    }
}

impl From<[u8; 4]> for IpAddr {
    fn from(a: [u8; 4]) -> (r: IpAddr) {
        let w = (a[0] as u32) | ((a[1] as u32) << 8) | ((a[2] as u32) << 16) | ((a[3] as u32) << 24);
        proof {
            let (b0, b1, b2, b3) = (a[0], a[1], a[2], a[3]);
            assert((b0 as u32) | ((b1 as u32) << 8) | ((b2 as u32) << 16) | ((b3 as u32) << 24)
                == b0 as u32 + (b1 as u32) * 256 + (b2 as u32) * 65536 + (b3 as u32) * 16777216)
                by (bit_vector);
        }
        IpAddr(w)
    }
}

impl vstd::std_specs::convert::FromSpecImpl<[u8; 4]> for IpAddr {
    open spec fn obeys_from_spec() -> bool {
        true
    }

    closed spec fn from_spec(a: [u8; 4]) -> IpAddr {
        IpAddr(octets_word(a@))
    }
}

/// The octets of a word built from four octets are those octets.
pub(crate) proof fn lemma_octets_word(b0: int, b1: int, b2: int, b3: int)
    requires
        0 <= b0 < 256,
        0 <= b1 < 256,
        0 <= b2 < 256,
        0 <= b3 < 256,
    ensures
        (b0 + 256 * b1 + 65536 * b2 + 16777216 * b3) % 256 == b0,
        ((b0 + 256 * b1 + 65536 * b2 + 16777216 * b3) / 256) % 256 == b1,
        ((b0 + 256 * b1 + 65536 * b2 + 16777216 * b3) / 65536) % 256 == b2,
        ((b0 + 256 * b1 + 65536 * b2 + 16777216 * b3) / 16777216) % 256 == b3,
        0 <= b0 + 256 * b1 + 65536 * b2 + 16777216 * b3 <= u32::MAX,
{
    let w = b0 + 256 * b1 + 65536 * b2 + 16777216 * b3;
    assert(w % 256 == b0) by (nonlinear_arith)
        requires
            w == b0 + 256 * (b1 + 256 * b2 + 65536 * b3),
            0 <= b0 < 256,
            0 <= b1 + 256 * b2 + 65536 * b3,
    ;
    assert(w / 256 == b1 + 256 * b2 + 65536 * b3) by (nonlinear_arith)
        requires
            w == b0 + 256 * (b1 + 256 * b2 + 65536 * b3),
            0 <= b0 < 256,
            0 <= b1 + 256 * b2 + 65536 * b3,
    ;
    assert(w / 65536 == b2 + 256 * b3) by (nonlinear_arith)
        requires
            w == (b0 + 256 * b1) + 65536 * (b2 + 256 * b3),
            0 <= b0 + 256 * b1 < 65536,
            0 <= b2 + 256 * b3,
    ;
    assert(w / 16777216 == b3) by (nonlinear_arith)
        requires
            w == (b0 + 256 * b1 + 65536 * b2) + 16777216 * b3,
            0 <= b0 + 256 * b1 + 65536 * b2 < 16777216,
            0 <= b3,
    ;
    assert((b1 + 256 * b2 + 65536 * b3) % 256 == b1) by (nonlinear_arith)
        requires
            0 <= b1 < 256,
            0 <= b2 + 256 * b3,
    ;
    assert((b2 + 256 * b3) % 256 == b2) by (nonlinear_arith)
        requires
            0 <= b2 < 256,
            0 <= b3,
    ;
}

/// The address made from four octets holds them first to last from its least
/// significant byte, and gives them back in that order.
pub proof fn lemma_ip_from_octets(a: [u8; 4])
    ensures
        <IpAddr as vstd::std_specs::convert::FromSpec<[u8; 4]>>::from_spec(a).spec_word()
            == octets_word(a@),
        forall|k: int|
            0 <= k < 4 ==> word_octet(
                #[trigger] <IpAddr as vstd::std_specs::convert::FromSpec<[u8; 4]>>::from_spec(
                    a,
                ).spec_word(),
                k,
            ) == a@[k],
{
    lemma_octets_word(a@[0] as int, a@[1] as int, a@[2] as int, a@[3] as int);
}

impl SocketAddr {
    /// The address word of the socket address.
    pub closed spec fn spec_ip(&self) -> u32 {
        self.0
    }

    /// The port of the socket address.
    pub closed spec fn spec_port(&self) -> u16 {
        self.1
    }

    /// The socket address of `addr` and `port`.
    pub fn new<A: Into<IpAddr>>(addr: A, port: u16) -> (r: SocketAddr)
        ensures
            r.spec_port() == port,
            <A as vstd::std_specs::convert::IntoSpec<IpAddr>>::obeys_into_spec() ==> r.spec_ip()
                == <A as vstd::std_specs::convert::IntoSpec<IpAddr>>::into_spec(addr).spec_word(),
    {
        let ip: IpAddr = addr.into();
        SocketAddr(ip.0, port)
    }

    /// The IPv4 address.
    pub fn ip(&self) -> (r: IpAddr)
        ensures
            r.spec_word() == self.spec_ip(),
    {
        IpAddr(self.0)
    }

    /// The port.
    pub fn port(&self) -> (r: u16)
        ensures
            r == self.spec_port(),
    {
        self.1
    }

    /// The address block that the socket connect call is given for this address: the
    /// Internet family, the port with its bytes exchanged into network order, the address
    /// word as it is held, and zero padding.
    pub fn to_addr_ipv4(&self) -> (r: AddrIpv4)
        ensures
            r.family == AF_INET,
            r.port == swapped(self.spec_port()),
            r.port % 256 == self.spec_port() / 256,
            r.port / 256 == self.spec_port() % 256,
            r.ip == self.spec_ip(),
            r.pad0 == 0,
            r.pad1 == 0,
    {
        proof {
            lemma_swapped_exchanges_bytes(self.1);
        }
        AddrIpv4 { family: AF_INET as i16, port: swap_bytes(self.1), ip: self.0, pad0: 0, pad1: 0 }
    }
}

/// The value with its two bytes exchanged.
fn swap_bytes(p: u16) -> (r: u16)
    ensures
        r == swapped(p),
        r % 256 == p / 256,
        r / 256 == p % 256,
{
    proof {
        lemma_swapped_exchanges_bytes(p);
    }
    (p % 256) * 256 + p / 256
}

/// The host name as the resolver call takes it: each character's low byte, as many as
/// fit in 128 bytes, then a terminating zero.
pub open spec fn host_name_bytes(name: Seq<char>) -> Seq<u8> {
    ro_bytes(name)
}

/// The longest host name, in characters, that leaves room for the terminating zero.
pub const MAX_HOST_NAME_LEN: usize = 127;

impl IpAddr {
    /// The buffer that the resolver is called with to look `name` up, or `Err` when the
    /// name and its terminating zero do not fit in 128 bytes.
    pub fn host_name(name: &str) -> (r: Result<heapless::Vec<u8, 128>, ()>)
        ensures
            name@.len() <= MAX_HOST_NAME_LEN ==> (r matches Ok(v) && host_buffer_bytes(v)
                == host_name_bytes(name@) && host_buffer_bytes(v).len() == name@.len() + 1
                && host_buffer_bytes(v)[name@.len() as int] == 0 && forall|i: int|
                0 <= i < name@.len() ==> #[trigger] host_buffer_bytes(v)[i] as u32 == (name@[i]
                as u32) % 256),
            name@.len() > MAX_HOST_NAME_LEN ==> r is Err,
    {
        proof {
            lemma_ro_bytes(name@);
        }
        let mut host = host_buffer_new();
        for c in it: name.chars()
            invariant
                it.seq() == name@,
                host_buffer_bytes(host) == name@.take(
                    if it.index() <= 128 {
                        it.index() as int
                    } else {
                        128
                    },
                ).map_values(|c: char| char_byte(c)),
        {
            let ghost before = host_buffer_bytes(host);
            let _ = host_buffer_push(&mut host, (c as u32) as u8);
            proof {
                let i = it.index() as int;
                if i < 128 {
                    assert(name@.take(i + 1) == name@.take(i).push(c));
                }
            }
        }
        if host_buffer_push(&mut host, 0u8).is_err() {
            return Err(());
        }
        proof {
            assert(name@.take(name@.len() as int) == name@);
        }
        Ok(host)
    }

    /// The address that a resolver lookup gives: `found` when it returned a host entry,
    /// with the entry's address length and its first address word (`None` when the
    /// first address pointer is null); `Err` unless a four-byte address was found.
    pub fn from_host_entry(found: bool, address_size: i32, first: Option<u32>) -> (r: Result<
        IpAddr,
        (),
    >)
        ensures
            found && address_size == 4 && first is Some ==> (r matches Ok(a) && a.spec_word()
                == first->0),
            !(found && address_size == 4 && first is Some) ==> r is Err,
    {
        if !found {
            return Err(());
        }
        if address_size != 4 {
            return Err(());
        }
        match first {
            Some(w) => Ok(IpAddr(w)),
            None => Err(()),
        }
    }
}

impl TcpStream {
    /// The socket handle.
    pub closed spec fn spec_handle(&self) -> u32 {
        self.0
    }

    /// The socket handle.
    pub fn handle(&self) -> (r: u32)
        ensures
            r == self.spec_handle(),
    {
        self.0
    }

    /// The outcome of connecting the socket `handle`: the stream when the connect call
    /// succeeded, else `Error::Generic` (and the caller closes the socket).
    pub fn from_connect(handle: u32, success: bool) -> (r: Result<TcpStream, Error>)
        ensures
            success ==> (r matches Ok(t) && t.spec_handle() == handle),
            !success ==> r == Err::<TcpStream, Error>(Error::Generic),
    {
        if success {
            Ok(TcpStream(handle))
        } else {
            Err(Error::Generic)
        }
    }
}

/// Exchanging the two bytes of a value twice gives the value back: a port converted to
/// network order converts back to itself.
pub proof fn lemma_swapped_twice(p: u16)
    ensures
        swapped(swapped(p)) == p,
{
    let lo = p % 256;
    let hi = p / 256;
    assert(p == hi * 256 + lo);
    assert(swapped(p) == lo * 256 + hi);
    assert((lo * 256 + hi) % 256 == hi);
    assert((lo * 256 + hi) / 256 == lo);
}

/// The dotted form of the address made from four octets lists those octets in decimal,
/// first to last.
pub proof fn lemma_dotted_from_octets(a: [u8; 4])
    ensures
        dotted(<IpAddr as vstd::std_specs::convert::FromSpec<[u8; 4]>>::from_spec(a).spec_word())
            == decimal(a@[0] as nat) + seq!['.'] + decimal(a@[1] as nat) + seq!['.'] + decimal(
            a@[2] as nat,
        ) + seq!['.'] + decimal(a@[3] as nat),
{
    lemma_ip_from_octets(a);
    let w = <IpAddr as vstd::std_specs::convert::FromSpec<[u8; 4]>>::from_spec(a).spec_word();
    assert(word_octet(w, 0) == a@[0]);
    assert(word_octet(w, 1) == a@[1]);
    assert(word_octet(w, 2) == a@[2]);
    assert(word_octet(w, 3) == a@[3]);
}

/// The port in network order has the two bytes of the port exchanged, for every port:
/// its low byte is the port's high byte and its high byte the port's low byte.
pub proof fn lemma_swapped_exchanges_bytes(p: u16)
    ensures
        swapped(p) % 256 == p / 256,
        swapped(p) / 256 == p % 256,
{
    let lo = p % 256;
    let hi = p / 256;
    assert(p == hi * 256 + lo);
    assert(lo * 256 + hi <= 65535);
    assert(swapped(p) == lo * 256 + hi);
    assert((lo * 256 + hi) % 256 == hi);
    assert((lo * 256 + hi) / 256 == lo);
}

/// The dotted form of an address is the decimal forms of its four octets, first to last,
/// with a '.' between each two and nothing else: its length is theirs plus three, the
/// dots stand right after each of the first three fields, and each field is its octet's
/// decimal form.
pub proof fn lemma_dotted_layout(w: u32)
    ensures
        ({
            let d0 = decimal(word_octet(w, 0) as nat);
            let d1 = decimal(word_octet(w, 1) as nat);
            let d2 = decimal(word_octet(w, 2) as nat);
            let d3 = decimal(word_octet(w, 3) as nat);
            let (l0, l1, l2, l3) = (d0.len() as int, d1.len() as int, d2.len() as int, d3.len() as int);
            let s = dotted(w);
            &&& s.len() == l0 + l1 + l2 + l3 + 3
            &&& s[l0] == '.'
            &&& s[l0 + 1 + l1] == '.'
            &&& s[l0 + l1 + l2 + 2] == '.'
            &&& s.subrange(0, l0) == d0
            &&& s.subrange(l0 + 1, l0 + 1 + l1) == d1
            &&& s.subrange(l0 + l1 + 2, l0 + l1 + l2 + 2) == d2
            &&& s.subrange(l0 + l1 + l2 + 3, s.len() as int) == d3
        }),
{
    let d0 = decimal(word_octet(w, 0) as nat);
    let d1 = decimal(word_octet(w, 1) as nat);
    let d2 = decimal(word_octet(w, 2) as nat);
    let d3 = decimal(word_octet(w, 3) as nat);
    let s = dotted(w);
    let a = d0.len() as int;
    let b = a + 1 + d1.len();
    let c = b + 1 + d2.len();
    assert(s.subrange(0, a) =~= d0);
    assert(s.subrange(a + 1, b) =~= d1);
    assert(s.subrange(b + 1, c) =~= d2);
    assert(s.subrange(c + 1, s.len() as int) =~= d3);
}

} // verus!
