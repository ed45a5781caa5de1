//! Header views of the three protocol layers: Ethernet, IPv4 and TCP.
//!
//! The byte layout of each header is stated here as spec functions over the
//! frame bytes; the decoding itself is done by `pnet`'s packet views.
use pnet::packet::ethernet::EthernetPacket;
use pnet::packet::ipv4::Ipv4Packet;
use pnet::packet::tcp::TcpPacket;
use pnet::packet::Packet;
use vstd::prelude::*;

verus! {

/// Length of an Ethernet II header: two addresses and the ethertype.
pub const ETHERNET_HEADER_LEN: usize = 14;

/// Length of an IPv4 header without options.
pub const IPV4_MIN_HEADER_LEN: usize = 20;

/// Length of a TCP header without options.
pub const TCP_MIN_HEADER_LEN: usize = 20;

/// Ethertype that tags an IPv4 payload.
pub const ETHERTYPE_IPV4: u16 = 0x0800;

/// IPv4 next-protocol number of TCP.
pub const IP_PROTOCOL_TCP: u8 = 6;

/// An IPv4 address as its four octets, most significant first.
#[derive(Clone, Copy, Debug, PartialEq, Eq, Hash)]
pub struct Ipv4Address {
    pub octets: [u8; 4],
}

/// What the Ethernet layer yields: the ethertype and the bytes after the header.
pub struct EthernetView {
    pub ethertype: u16,
    pub payload: Vec<u8>,
}

/// What the IPv4 layer yields: next protocol, both addresses and the payload.
pub struct Ipv4View {
    pub protocol: u8,
    pub source: Ipv4Address,
    pub destination: Ipv4Address,
    pub payload: Vec<u8>,
}

/// The big-endian 16-bit value at offset `i`.
pub open spec fn be16(b: Seq<u8>, i: int) -> u16 {
    (b[i] * 256 + b[i + 1]) as u16
}

pub open spec fn min_int(a: int, b: int) -> int {
    if a <= b {
        a
    } else {
        b
    }
}

pub open spec fn max_int(a: int, b: int) -> int {
    if a >= b {
        a
    } else {
        b
    }
}

/// The ethertype field of an Ethernet frame.
pub open spec fn ethertype_of(f: Seq<u8>) -> u16 {
    be16(f, 12)
}

/// The bytes after the Ethernet header.
pub open spec fn ethernet_payload_of(f: Seq<u8>) -> Seq<u8> {
    f.subrange(ETHERNET_HEADER_LEN as int, f.len() as int)
}

/// The header length field of an IPv4 header, in bytes (four times the
/// low nibble of the first byte).
pub open spec fn ipv4_header_len_of(b: Seq<u8>) -> int {
    (b[0] % 16) * 4
}

/// The total length field of an IPv4 header.
pub open spec fn ipv4_total_len_of(b: Seq<u8>) -> int {
    be16(b, 2) as int
}

/// Where the IPv4 payload starts: after the options, never before the fixed header.
pub open spec fn ipv4_payload_start(b: Seq<u8>) -> int {
    max_int(IPV4_MIN_HEADER_LEN as int, ipv4_header_len_of(b))
}

/// Where the IPv4 payload ends: as the total length says, cut at the end of the bytes.
pub open spec fn ipv4_payload_end(b: Seq<u8>) -> int {
    min_int(
        ipv4_payload_start(b) + max_int(0, ipv4_total_len_of(b) - ipv4_header_len_of(b)),
        b.len() as int,
    )
}

/// The payload of an IPv4 packet; empty where the header claims more than there is.
pub open spec fn ipv4_payload_of(b: Seq<u8>) -> Seq<u8> {
    if b.len() <= ipv4_payload_start(b) {
        Seq::empty()
    } else {
        b.subrange(ipv4_payload_start(b), ipv4_payload_end(b))
    }
}

/// The next-protocol field of an IPv4 header.
pub open spec fn ipv4_protocol_of(b: Seq<u8>) -> u8 {
    b[9]
}

/// The four octets of an address stored at offset `i`.
pub open spec fn address_at(b: Seq<u8>, i: int) -> Seq<u8> {
    b.subrange(i, i + 4)
}

/// Relies on pnet's `EthernetPacket::new` (a view when at least the 14 header
/// bytes are there), `get_ethertype` (bytes 12 and 13, big-endian) and
/// `payload` (every byte after the header).
#[verifier::external_body]
pub(crate) fn ethernet_header(frame: &[u8]) -> (r: Option<EthernetView>)
    ensures
        r is None <==> frame@.len() < ETHERNET_HEADER_LEN,
        r matches Some(v) ==> v.ethertype == ethertype_of(frame@)
            && v.payload@ == ethernet_payload_of(frame@),
{
    match EthernetPacket::new(frame) {
        Some(p) => Some(EthernetView { ethertype: p.get_ethertype().0, payload: p.payload().to_vec() }),
        None => None,
    }
}

/// Relies on pnet's `Ipv4Packet::new` (a view when at least the 20 fixed header
/// bytes are there), its field getters at their fixed offsets, and `payload`
/// (bounded by the header length and total length fields, cut at the end).
#[verifier::external_body]
pub(crate) fn ipv4_header(b: &[u8]) -> (r: Option<Ipv4View>)
    ensures
        r is None <==> b@.len() < IPV4_MIN_HEADER_LEN,
        r matches Some(v) ==> v.protocol == ipv4_protocol_of(b@)
            && v.source.octets@ == address_at(b@, 12)
            && v.destination.octets@ == address_at(b@, 16)
            && v.payload@ == ipv4_payload_of(b@),
{
    match Ipv4Packet::new(b) {
        Some(p) => Some(Ipv4View {
            protocol: p.get_next_level_protocol().0,
            source: Ipv4Address { octets: p.get_source().octets() },
            destination: Ipv4Address { octets: p.get_destination().octets() },
            payload: p.payload().to_vec(),
        }),
        None => None,
    }
}

/// Relies on pnet's `TcpPacket::new` (a view when at least the 20 fixed header
/// bytes are there) and its port getters (bytes 0-1 and 2-3, big-endian).
#[verifier::external_body]
pub(crate) fn tcp_ports(b: &[u8]) -> (r: Option<(u16, u16)>)
    ensures
        r is None <==> b@.len() < TCP_MIN_HEADER_LEN,
        r matches Some(ports) ==> ports.0 == be16(b@, 0) && ports.1 == be16(b@, 2),
{
    match TcpPacket::new(b) {
        Some(p) => Some((p.get_source(), p.get_destination())),
        None => None,
    }
}

} // verus!
