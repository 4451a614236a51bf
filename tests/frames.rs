use libtraceroute::util::address::parse_ipv4;
use libtraceroute::util::frame_classifier::{classify_frame, LinkHeader};
use libtraceroute::util::packet_builder::PacketBuilder;
use libtraceroute::util::{min_frame_size, Protocol};

const SRC_MAC: [u8; 6] = [0x02, 0x11, 0x22, 0x33, 0x44, 0x55];
const DST_MAC: [u8; 6] = [0x0a, 0x0b, 0x0c, 0x0d, 0x0e, 0x0f];
const SRC_IP: [u8; 4] = [192, 168, 1, 2];
const DST_IP: [u8; 4] = [8, 8, 8, 8];

fn sum_words(data: &[u8]) -> u32 {
    let mut sum = 0u32;
    let mut i = 0;
    while i + 1 < data.len() {
        sum += ((data[i] as u32) << 8) | data[i + 1] as u32;
        i += 2;
    }
    if i < data.len() {
        sum += (data[i] as u32) << 8;
    }
    sum
}

fn fold(mut sum: u32) -> u16 {
    while sum >> 16 != 0 {
        sum = (sum >> 16) + (sum & 0xffff);
    }
    !(sum as u16)
}

fn be16(b: &[u8], at: usize) -> u16 {
    ((b[at] as u16) << 8) | b[at + 1] as u16
}

fn cleared(b: &[u8], at: usize) -> Vec<u8> {
    let mut v = b.to_vec();
    v[at] = 0;
    v[at + 1] = 0;
    v
}

fn pseudo_sum(protocol: u8, len: usize) -> u32 {
    sum_words(&SRC_IP) + sum_words(&DST_IP) + protocol as u32 + len as u32
}

fn check_common(f: &[u8], mtu: usize, ttl: u8, protocol: u8) {
    assert_eq!(f.len(), mtu);
    assert_eq!(&f[0..6], &DST_MAC);
    assert_eq!(&f[6..12], &SRC_MAC);
    assert_eq!(&f[12..14], &[0x08, 0x00]);
    assert_eq!(f[14], 0x45);
    assert_eq!(be16(f, 16) as usize, mtu - 14);
    assert_eq!(f[20], 0x40);
    assert_eq!(f[22], ttl);
    assert_eq!(f[23], protocol);
    assert_eq!(&f[26..30], &SRC_IP);
    assert_eq!(&f[30..34], &DST_IP);
    let ip = &f[14..34];
    assert_eq!(fold(sum_words(&cleared(ip, 10))), be16(f, 24));
    assert_ne!(be16(f, 24), 0);
}

#[test]
fn udp_frame_layout_and_checksums() {
    let b = PacketBuilder::new(Protocol::UDP, SRC_MAC, SRC_IP);
    let f = b.build_packet_from_port(DST_MAC, DST_IP, 7, 33434, 50000, 80);
    check_common(&f, 80, 7, 17);
    assert_eq!(be16(&f, 34), 50000);
    assert_eq!(be16(&f, 36), 33434);
    assert_eq!(be16(&f, 38), 46);
    assert!(f[42..].iter().all(|&x| x == 0));
    let seg = &f[34..];
    let expected = fold(pseudo_sum(17, seg.len()) + sum_words(&cleared(seg, 6)));
    assert_eq!(be16(&f, 40), expected);
}

#[test]
fn tcp_frame_layout_and_checksums() {
    let b = PacketBuilder::new(Protocol::TCP, SRC_MAC, SRC_IP);
    let f = b.build_packet_from_port(DST_MAC, DST_IP, 12, 80, 60000, 100);
    check_common(&f, 100, 12, 6);
    assert_eq!(be16(&f, 34), 60000);
    assert_eq!(be16(&f, 36), 80);
    assert!(f[38..46].iter().all(|&x| x == 0));
    assert_eq!(f[46], 0x50);
    assert_eq!(f[47], 0x02);
    assert_eq!(be16(&f, 48), 0);
    assert!(f[52..].iter().all(|&x| x == 0));
    let seg = &f[34..];
    let expected = fold(pseudo_sum(6, seg.len()) + sum_words(&cleared(seg, 16)));
    assert_eq!(be16(&f, 50), expected);
}

#[test]
fn icmp_frame_layout_and_checksums() {
    let b = PacketBuilder::new(Protocol::ICMP, SRC_MAC, SRC_IP);
    let f = b.build_packet_from_port(DST_MAC, DST_IP, 1, 33434, 50000, 42);
    check_common(&f, 42, 1, 1);
    assert_eq!(f[34], 8);
    assert_eq!(f[35], 0);
    assert!(f[38..].iter().all(|&x| x == 0));
    assert_eq!(be16(&f, 36), fold(sum_words(&cleared(&f[34..], 2))));
    assert_eq!(be16(&f, 36), 0xf7ff);
}

#[test]
fn random_source_port_in_ephemeral_range() {
    let b = PacketBuilder::new(Protocol::UDP, SRC_MAC, SRC_IP);
    for _ in 0..50 {
        let f = b.build_packet(DST_MAC, DST_IP, 3, 33434, 1500);
        assert_eq!(f.len(), 1500);
        let p = be16(&f, 34);
        assert!((49152..65535).contains(&p));
        let seg = &f[34..];
        assert_eq!(be16(&f, 40), fold(pseudo_sum(17, seg.len()) + sum_words(&cleared(seg, 6))));
    }
}

#[test]
fn minimum_frame_sizes() {
    assert_eq!(min_frame_size(Protocol::ICMP), 42);
    assert_eq!(min_frame_size(Protocol::UDP), 42);
    assert_eq!(min_frame_size(Protocol::TCP), 54);
}

fn icmp_reply(icmp_type: u8) -> Vec<u8> {
    let mut f = vec![0u8; 14 + 20 + 8 + 28];
    f[12] = 0x08;
    f[14] = 0x45;
    f[23] = 1;
    f[26..30].copy_from_slice(&[10, 0, 0, 1]);
    f[30..34].copy_from_slice(&SRC_IP);
    f[34] = icmp_type;
    // the quoted probe inside the message names another source
    f[42 + 12..42 + 16].copy_from_slice(&[172, 16, 0, 9]);
    f
}

#[test]
fn classifier_accepts_time_exceeded_and_unreachable() {
    assert_eq!(classify_frame(&icmp_reply(11), LinkHeader::Ethernet), Some([10, 0, 0, 1]));
    assert_eq!(classify_frame(&icmp_reply(3), LinkHeader::Ethernet), Some([10, 0, 0, 1]));
    let stripped = icmp_reply(11)[10..].to_vec();
    assert_eq!(classify_frame(&stripped, LinkHeader::Stripped { len: 4 }), Some([10, 0, 0, 1]));
}

#[test]
fn classifier_rejects_other_frames() {
    assert_eq!(classify_frame(&icmp_reply(0), LinkHeader::Ethernet), None);
    assert_eq!(classify_frame(&icmp_reply(8), LinkHeader::Ethernet), None);
    let mut not_ipv4 = icmp_reply(11);
    not_ipv4[12] = 0x86;
    not_ipv4[13] = 0xdd;
    assert_eq!(classify_frame(&not_ipv4, LinkHeader::Ethernet), None);
    let mut udp = icmp_reply(11);
    udp[23] = 17;
    assert_eq!(classify_frame(&udp, LinkHeader::Ethernet), None);
    assert_eq!(classify_frame(&icmp_reply(11)[..37], LinkHeader::Ethernet), None);
    assert_eq!(classify_frame(&[], LinkHeader::Ethernet), None);
    assert_eq!(classify_frame(&[0u8; 3], LinkHeader::Stripped { len: 4 }), None);
    let mut long_header = icmp_reply(11);
    long_header[14] = 0x46;
    assert_eq!(classify_frame(&long_header, LinkHeader::Ethernet), None);
}

#[test]
fn dotted_quad_parser() {
    assert_eq!(parse_ipv4(b"192.168.1.2"), Some([192, 168, 1, 2]));
    assert_eq!(parse_ipv4(b"10.0.0.1"), Some([10, 0, 0, 1]));
    assert_eq!(parse_ipv4(b"255.255.255.255"), Some([255, 255, 255, 255]));
    assert_eq!(parse_ipv4(b"255.255.255.256"), None);
    assert_eq!(parse_ipv4(b"1.2.3.004"), None);
    assert_eq!(parse_ipv4(b"1.2.3.1000"), None);
    assert_eq!(parse_ipv4(b".1.2.3"), None);
    assert_eq!(parse_ipv4(b"1.2.3."), None);
    assert_eq!(parse_ipv4(b"1,2,3,4"), None);
}
