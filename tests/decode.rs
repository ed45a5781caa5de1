use pktinfo::record::{decode_frame, PktInfo};
use pktinfo::wire::Ipv4Address;

fn ethernet(ethertype: u16, payload: &[u8]) -> Vec<u8> {
    let mut f = vec![0x00, 0x11, 0x22, 0x33, 0x44, 0x55, 0x66, 0x77, 0x88, 0x99, 0xaa, 0xbb];
    f.push((ethertype >> 8) as u8);
    f.push((ethertype & 0xff) as u8);
    f.extend_from_slice(payload);
    f
}

fn ipv4(protocol: u8, src: [u8; 4], dst: [u8; 4], options: &[u8], payload: &[u8]) -> Vec<u8> {
    let header_len = 20 + options.len();
    let total = header_len + payload.len();
    let mut p = vec![0x40 | (header_len / 4) as u8, 0];
    p.push((total >> 8) as u8);
    p.push((total & 0xff) as u8);
    p.extend_from_slice(&[0, 1, 0x40, 0, 64, protocol, 0, 0]);
    p.extend_from_slice(&src);
    p.extend_from_slice(&dst);
    p.extend_from_slice(options);
    p.extend_from_slice(payload);
    p
}

fn tcp(src_port: u16, dst_port: u16) -> Vec<u8> {
    let mut t = vec![(src_port >> 8) as u8, src_port as u8, (dst_port >> 8) as u8, dst_port as u8];
    t.extend_from_slice(&[0, 0, 0, 1, 0, 0, 0, 0, 0x50, 0x02, 0x72, 0x10, 0, 0, 0, 0]);
    t
}

#[test]
fn decodes_tcp_over_ipv4_over_ethernet() {
    let f = ethernet(0x0800, &ipv4(6, [10, 0, 0, 1], [192, 168, 1, 20], &[], &tcp(80, 51000)));
    let r = decode_frame(&f).unwrap();
    assert_eq!(
        r,
        PktInfo::new(Ipv4Address::new(10, 0, 0, 1), Ipv4Address::new(192, 168, 1, 20), 80, 51000)
    );
    assert_eq!(r.src_ip(), "10.0.0.1");
    assert_eq!(r.dst_ip(), "192.168.1.20");
}

#[test]
fn ports_follow_ipv4_options() {
    let f = ethernet(0x0800, &ipv4(6, [1, 2, 3, 4], [5, 6, 7, 8], &[1, 1, 1, 0], &tcp(443, 1234)));
    let r = decode_frame(&f).unwrap();
    assert_eq!(r.src_port, 443);
    assert_eq!(r.dst_port, 1234);
    assert_eq!(r.src_ip.octets, [1, 2, 3, 4]);
    assert_eq!(r.dst_ip.octets, [5, 6, 7, 8]);
}

#[test]
fn short_ethernet_header_gives_no_record() {
    let f = ethernet(0x0800, &[]);
    assert_eq!(decode_frame(&f[..13]), None);
    assert_eq!(decode_frame(&[]), None);
}

#[test]
fn non_ipv4_ethertype_gives_no_record() {
    let ip = ipv4(6, [10, 0, 0, 1], [10, 0, 0, 2], &[], &tcp(80, 81));
    assert_eq!(decode_frame(&ethernet(0x0806, &ip)), None);
    assert_eq!(decode_frame(&ethernet(0x86dd, &ip)), None);
}

#[test]
fn non_tcp_protocol_gives_no_record() {
    let f = ethernet(0x0800, &ipv4(17, [10, 0, 0, 1], [10, 0, 0, 2], &[], &tcp(53, 53)));
    assert_eq!(decode_frame(&f), None);
}

#[test]
fn short_ipv4_header_gives_no_record() {
    let ip = ipv4(6, [10, 0, 0, 1], [10, 0, 0, 2], &[], &[]);
    assert_eq!(decode_frame(&ethernet(0x0800, &ip[..19])), None);
}

#[test]
fn short_tcp_header_gives_no_record() {
    let t = tcp(80, 81);
    let f = ethernet(0x0800, &ipv4(6, [10, 0, 0, 1], [10, 0, 0, 2], &[], &t[..19]));
    assert_eq!(decode_frame(&f), None);
}

#[test]
fn ipv4_total_length_bounds_the_tcp_header() {
    let mut ip = ipv4(6, [10, 0, 0, 1], [10, 0, 0, 2], &[], &tcp(80, 81));
    // total length claims a 10-byte payload although 20 bytes follow
    ip[2] = 0;
    ip[3] = 30;
    assert_eq!(decode_frame(&ethernet(0x0800, &ip)), None);
    ip[3] = 40;
    assert!(decode_frame(&ethernet(0x0800, &ip)).is_some());
}

#[test]
fn address_text_is_dotted_decimal() {
    assert_eq!(Ipv4Address::new(0, 0, 0, 0).to_text(), "0.0.0.0");
    assert_eq!(Ipv4Address::new(192, 168, 100, 255).to_text(), "192.168.100.255");
    assert_eq!(Ipv4Address::new(7, 10, 99, 100).to_text(), "7.10.99.100");
}
