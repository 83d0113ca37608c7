use riscos::net::{Error, IpAddr, SocketAddr, TcpStream};
use riscos::sys::socket::AF_INET;

#[test]
fn ip_from_octets() {
    let ip = IpAddr::from([192, 168, 1, 2]);
    assert_eq!(ip.to_bits(), 0x0201_a8c0);
    assert_eq!(ip.octets(), [192, 168, 1, 2]);
    assert_eq!(ip.to_dotted_string(), "192.168.1.2");
}

#[test]
fn dotted_string_of_extremes() {
    assert_eq!(IpAddr::from([0, 0, 0, 0]).to_dotted_string(), "0.0.0.0");
    assert_eq!(IpAddr::from([255, 255, 255, 255]).to_dotted_string(), "255.255.255.255");
    assert_eq!(IpAddr::from([10, 9, 100, 99]).to_dotted_string(), "10.9.100.99");
}

#[test]
fn socket_addr_block() {
    let addr = SocketAddr::new([127, 0, 0, 1], 80);
    assert_eq!(addr.port(), 80);
    assert_eq!(addr.ip().to_bits(), 0x0100_007f);
    let block = addr.to_addr_ipv4();
    assert_eq!(block.family as i32, AF_INET);
    assert_eq!(block.port, 0x5000);
    assert_eq!(block.port, 80u16.swap_bytes());
    assert_eq!(block.ip, 0x0100_007f);
    assert_eq!((block.pad0, block.pad1), (0, 0));
}

#[test]
fn socket_addr_from_ip() {
    let addr = SocketAddr::new(IpAddr::from([1, 2, 3, 4]), 0x1234);
    assert_eq!(addr.to_addr_ipv4().port, 0x3412);
}

#[test]
fn host_name_buffer() {
    let buf = IpAddr::host_name("example.org").unwrap();
    assert_eq!(buf.as_slice(), b"example.org\0");
    let name127: String = std::iter::repeat('h').take(127).collect();
    assert_eq!(IpAddr::host_name(&name127).unwrap().len(), 128);
    let name128: String = std::iter::repeat('h').take(128).collect();
    assert!(IpAddr::host_name(&name128).is_err());
}

#[test]
fn host_entry_outcomes() {
    assert_eq!(IpAddr::from_host_entry(true, 4, Some(0x0100_007f)).unwrap().to_bits(), 0x0100_007f);
    assert!(IpAddr::from_host_entry(false, 4, Some(1)).is_err());
    assert!(IpAddr::from_host_entry(true, 16, Some(1)).is_err());
    assert!(IpAddr::from_host_entry(true, 4, None).is_err());
}

#[test]
fn connect_outcomes() {
    assert_eq!(TcpStream::from_connect(9, true).unwrap().handle(), 9);
    assert_eq!(TcpStream::from_connect(9, false).err(), Some(Error::Generic));
}

#[test]
fn port_swapped_twice_is_unchanged() {
    for port in [0u16, 1, 80, 0x1234, 0xff00, 0xffff] {
        let once = SocketAddr::new([0, 0, 0, 0], port).to_addr_ipv4().port;
        let twice = SocketAddr::new([0, 0, 0, 0], once).to_addr_ipv4().port;
        assert_eq!(twice, port);
    }
}

#[test]
fn octets_round_trip() {
    for a in [[1u8, 2, 3, 4], [255, 0, 255, 0], [0, 0, 0, 1]] {
        assert_eq!(IpAddr::from(a).octets(), a);
    }
}
