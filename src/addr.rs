use vstd::prelude::*;

verus! {

/// The four bytes of an IPv4 address, most significant first.
#[derive(Clone, Copy, Debug, PartialEq, Eq, Structural)]
pub struct Octets {
    pub a: u8,
    pub b: u8,
    pub c: u8,
    pub d: u8,
}

/// A remote endpoint: an IPv4 or IPv6 address with its port.
#[derive(Clone, Copy, Debug, PartialEq, Eq, Structural)]
pub enum PeerAddr {
    V4 { ip: Octets, port: u16 },
    V6 { bits: u128, port: u16, flowinfo: u32, scope_id: u32 },
}

/// The four address bytes that go on the wire: those of an IPv4 address,
/// zeros for any other.
pub open spec fn wire_ip(addr: PeerAddr) -> Seq<u8> {
    match addr {
        PeerAddr::V4 { ip, .. } => seq![ip.a, ip.b, ip.c, ip.d],
        PeerAddr::V6 { .. } => seq![0u8, 0u8, 0u8, 0u8],
    }
}

/// The port that goes on the wire: that of an IPv4 address, zero for any other.
pub open spec fn wire_port(addr: PeerAddr) -> u16 {
    match addr {
        PeerAddr::V4 { port, .. } => port,
        PeerAddr::V6 { .. } => 0,
    }
}

/// The address read from four wire bytes and a port: absent for 0.0.0.0:0,
/// which stands for an address that could not be sent.
pub open spec fn addr_from_wire(ip: Seq<u8>, port: u16) -> Option<PeerAddr> {
    if ip.len() != 4 || (ip == seq![0u8, 0u8, 0u8, 0u8] && port == 0) {
        None
    } else {
        Some(PeerAddr::V4 { ip: Octets { a: ip[0], b: ip[1], c: ip[2], d: ip[3] }, port })
    }
}

/// The IPv4 address bytes and port of an address, `None` for an IPv6 one.
pub fn get_ip_and_port_from_socket_addr(addr: PeerAddr) -> (r: Option<(Octets, u16)>)
    ensures
        match addr {
            PeerAddr::V4 { ip, port } => r == Some((ip, port)),
            PeerAddr::V6 { .. } => r is None,
        },
{
    match addr {
        PeerAddr::V4 { ip, port } => Some((ip, port)),
        PeerAddr::V6 { .. } => None,
    }
}

/// The address that four wire bytes and a port stand for.
pub fn create_addr_from_ip_and_port(ip_vec: Vec<u8>, port: u16) -> (r: Option<PeerAddr>)
    ensures
        r == addr_from_wire(ip_vec@, port),
{
    if ip_vec.len() != 4 {
        return None;
    }
    if ip_vec[0] == 0 && ip_vec[1] == 0 && ip_vec[2] == 0 && ip_vec[3] == 0 && port == 0 {
        assert(ip_vec@ =~= seq![0u8, 0u8, 0u8, 0u8]);
        return None;
    }
    let ip = Octets { a: ip_vec[0], b: ip_vec[1], c: ip_vec[2], d: ip_vec[3] };
    Some(PeerAddr::V4 { ip, port })
}

/// The wire bytes and port of an address.
pub fn wire_ip_and_port(addr: PeerAddr) -> (r: (Vec<u8>, u16))
    ensures
        r.0@ == wire_ip(addr),
        r.1 == wire_port(addr),
{
    match get_ip_and_port_from_socket_addr(addr) {
        Some((ip, port)) => {
            let v = vec![ip.a, ip.b, ip.c, ip.d];
            assert(v@ =~= seq![ip.a, ip.b, ip.c, ip.d]);
            (v, port)
        },
        None => {
            let v = vec![0u8, 0u8, 0u8, 0u8];
            assert(v@ =~= seq![0u8, 0u8, 0u8, 0u8]);
            (v, 0)
        },
    }
}

} // verus!
