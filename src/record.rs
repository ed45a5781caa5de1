//! The record kept for each TCP/IPv4 frame, and the extractor that chains the
//! three header decoders to produce it.
use crate::wire::{
    address_at, ethernet_header, ethernet_payload_of, ethertype_of, ipv4_header,
    ipv4_payload_of, ipv4_protocol_of, tcp_ports, be16, Ipv4Address, ETHERNET_HEADER_LEN,
    ETHERTYPE_IPV4, IPV4_MIN_HEADER_LEN, IP_PROTOCOL_TCP, TCP_MIN_HEADER_LEN,
};
use vstd::prelude::*;

verus! {

/// Addresses and ports of one TCP segment carried over IPv4.
#[derive(Clone, Copy, Debug, PartialEq, Eq)]
pub struct PktInfo {
    pub src_ip: Ipv4Address,
    pub dst_ip: Ipv4Address,
    pub src_port: u16,
    pub dst_port: u16,
}

/// The decimal digit `d` as a character.
pub open spec fn digit_char(d: nat) -> char {
    seq!['0', '1', '2', '3', '4', '5', '6', '7', '8', '9'][d as int]
}

/// The decimal form of `n`, without leading zeros.
pub open spec fn decimal(n: nat) -> Seq<char>
    decreases n,
{
    if n < 10 {
        seq![digit_char(n)]
    } else {
        decimal(n / 10) + seq![digit_char(n % 10)]
    }
}

/// The dotted-decimal form of an IPv4 address.
pub open spec fn dotted(a: Ipv4Address) -> Seq<char> {
    decimal(a.octets[0] as nat) + seq!['.'] + decimal(a.octets[1] as nat) + seq!['.']
        + decimal(a.octets[2] as nat) + seq!['.'] + decimal(a.octets[3] as nat)
}

/// Relies on std's `format!` with the `Display` of `u8`, which writes an
/// integer in decimal without leading zeros.
#[verifier::external_body]
fn dotted_text(a: Ipv4Address) -> (r: String)
    ensures
        r@ == dotted(a),
{
    format!("{}.{}.{}.{}", a.octets[0], a.octets[1], a.octets[2], a.octets[3])
}

impl Ipv4Address {
    /// The address with the four octets given, most significant first.
    pub fn new(a: u8, b: u8, c: u8, d: u8) -> (r: Ipv4Address)
        ensures
            r.octets@ == seq![a, b, c, d],
    {
        let r = Ipv4Address { octets: [a, b, c, d] };
        assert(r.octets@ =~= seq![a, b, c, d]);
        r
    }

    /// The dotted-decimal text of the address, such as `10.0.0.1`.
    pub fn to_text(&self) -> (r: String)
        ensures
            r@ == dotted(*self),
    {
        dotted_text(*self)
    }
}

impl PktInfo {
    /// The record with the given addresses and ports.
    pub fn new(src_ip: Ipv4Address, dst_ip: Ipv4Address, src_port: u16, dst_port: u16) -> (r:
        PktInfo)
        ensures
            r == (PktInfo { src_ip, dst_ip, src_port, dst_port }),
    {
        PktInfo { src_ip, dst_ip, src_port, dst_port }
    }

    /// The source address in dotted-decimal text.
    pub fn src_ip(&self) -> (r: String)
        ensures
            r@ == dotted(self.src_ip),
    {
        self.src_ip.to_text()
    }

    /// The destination address in dotted-decimal text.
    pub fn dst_ip(&self) -> (r: String)
        ensures
            r@ == dotted(self.dst_ip),
    {
        self.dst_ip.to_text()
    }
}

/// The IPv4 layer of a frame: the Ethernet payload.
pub open spec fn ip_layer(f: Seq<u8>) -> Seq<u8> {
    ethernet_payload_of(f)
}

/// The TCP layer of a frame: the IPv4 payload.
pub open spec fn tcp_layer(f: Seq<u8>) -> Seq<u8> {
    ipv4_payload_of(ip_layer(f))
}

/// Whether a frame is Ethernet carrying IPv4 carrying TCP, each header complete.
pub open spec fn is_tcp_ipv4_frame(f: Seq<u8>) -> bool {
    &&& f.len() >= ETHERNET_HEADER_LEN
    &&& ethertype_of(f) == ETHERTYPE_IPV4
    &&& ip_layer(f).len() >= IPV4_MIN_HEADER_LEN
    &&& ipv4_protocol_of(ip_layer(f)) == IP_PROTOCOL_TCP
    &&& tcp_layer(f).len() >= TCP_MIN_HEADER_LEN
}

/// The record of a frame that passes all three layers.
pub open spec fn record_of(f: Seq<u8>) -> PktInfo {
    PktInfo {
        src_ip: Ipv4Address { octets: seq_to_octets(address_at(ip_layer(f), 12)) },
        dst_ip: Ipv4Address { octets: seq_to_octets(address_at(ip_layer(f), 16)) },
        src_port: be16(tcp_layer(f), 0),
        dst_port: be16(tcp_layer(f), 2),
    }
}

/// The record of a frame, or none where any layer does not apply.
pub open spec fn decode_spec(f: Seq<u8>) -> Option<PktInfo> {
    if is_tcp_ipv4_frame(f) {
        Some(record_of(f))
    } else {
        None
    }
}

/// The array whose view is `s`, for a sequence of four octets.
pub open spec fn seq_to_octets(s: Seq<u8>) -> [u8; 4] {
    choose|a: [u8; 4]| a@ == s
}

/// An array is the one that `seq_to_octets` picks for its own view.
proof fn lemma_octets_of_view(a: [u8; 4])
    ensures
        seq_to_octets(a@) == a,
{
    let b = seq_to_octets(a@);
    assert(b@ == a@);
    assert(forall|i: int| 0 <= i < 4 ==> b[i] == b@[i] && a[i] == a@[i]);
    assert(b =~= a);
}

/// Turns one frame into its record: Ethernet, then IPv4 when the ethertype
/// says so, then TCP when the next-protocol field says so. A frame that is
/// too short for a header, or of another protocol, gives none.
pub fn decode_frame(frame: &[u8]) -> (r: Option<PktInfo>)
    ensures
        r == decode_spec(frame@),
{
    let eth = match ethernet_header(frame) {
        Some(v) => v,
        None => return None,
    };
    if eth.ethertype != ETHERTYPE_IPV4 {
        return None;
    }
    let ip = match ipv4_header(eth.payload.as_slice()) {
        Some(v) => v,
        None => return None,
    };
    if ip.protocol != IP_PROTOCOL_TCP {
        return None;
    }
    let (src_port, dst_port) = match tcp_ports(ip.payload.as_slice()) {
        Some(ports) => ports,
        None => return None,
    };
    proof {
        lemma_octets_of_view(ip.source.octets);
        lemma_octets_of_view(ip.destination.octets);
    }
    Some(PktInfo { src_ip: ip.source, dst_ip: ip.destination, src_port, dst_port })
}

} // verus!
