//! Probe frames: Ethernet II, then IPv4 without options, then an ICMP echo
//! request, a UDP datagram or a TCP SYN, zero-padded to the frame size.
use crate::util::{frame_size_ok, transport_header_len, Protocol};
use rand::Rng;
use vstd::prelude::*;

verus! {

/// Two bytes of `v` in network byte order.
pub open spec fn be16(v: u16) -> Seq<u8> {
    seq![(v / 256) as u8, (v % 256) as u8]
}

/// The big-endian 16-bit value stored at `at` in `s`.
pub open spec fn read_be16(s: Seq<u8>, at: int) -> int {
    s[at] as int * 256 + s[at + 1] as int
}

/// `n` zero bytes.
pub open spec fn zeros(n: nat) -> Seq<u8> {
    Seq::new(n, |_i: int| 0u8)
}

/// `s` with the 16-bit field at `at` cleared.
pub open spec fn clear_be16(s: Seq<u8>, at: int) -> Seq<u8> {
    s.update(at, 0u8).update(at + 1, 0u8)
}

/// Ethernet II header with EtherType IPv4.
pub open spec fn ethernet_header(destination: Seq<u8>, source: Seq<u8>) -> Seq<u8> {
    destination + source + seq![0x08u8, 0x00u8]
}

/// The IPv4 protocol number of a probe's transport.
pub open spec fn ip_protocol_number(p: Protocol) -> u8 {
    match p {
        Protocol::ICMP => 1,
        Protocol::UDP => 17,
        Protocol::TCP => 6,
    }
}

/// IPv4 header: version 4, five words, identification 0, Don't Fragment.
pub open spec fn ipv4_header(
    total_length: u16,
    ttl: u8,
    protocol: u8,
    checksum: u16,
    source: Seq<u8>,
    destination: Seq<u8>,
) -> Seq<u8> {
    seq![0x45u8, 0x00u8] + be16(total_length) + seq![0u8, 0u8, 0x40u8, 0u8, ttl, protocol]
        + be16(checksum) + source + destination
}

/// UDP header.
pub open spec fn udp_header(source_port: u16, destination_port: u16, length: u16, checksum: u16) -> Seq<u8> {
    be16(source_port) + be16(destination_port) + be16(length) + be16(checksum)
}

/// TCP header: sequence and acknowledgement 0, five words, SYN alone, window 0.
pub open spec fn tcp_header(source_port: u16, destination_port: u16, checksum: u16) -> Seq<u8> {
    be16(source_port) + be16(destination_port) + zeros(8) + seq![0x50u8, 0x02u8, 0u8, 0u8]
        + be16(checksum) + zeros(2)
}

/// ICMP echo request header: code 0, identifier and sequence number 0.
pub open spec fn icmp_echo_header(checksum: u16) -> Seq<u8> {
    seq![8u8, 0u8] + be16(checksum) + zeros(4)
}

/// The transport part of a probe, `len` bytes long, with the given checksum field.
pub open spec fn transport_segment(
    p: Protocol,
    source_port: u16,
    destination_port: u16,
    len: nat,
    checksum: u16,
) -> Seq<u8> {
    match p {
        Protocol::ICMP => icmp_echo_header(checksum) + zeros((len - 8) as nat),
        Protocol::UDP => udp_header(source_port, destination_port, len as u16, checksum) + zeros(
            (len - 8) as nat,
        ),
        Protocol::TCP => tcp_header(source_port, destination_port, checksum) + zeros(
            (len - 20) as nat,
        ),
    }
}

/// What pnet's `ipv4::checksum` computes over an IPv4 header.
pub uninterp spec fn ipv4_checksum_of(header: Seq<u8>) -> u16;

/// What pnet's `icmp::checksum` computes over an ICMP message.
pub uninterp spec fn icmp_checksum_of(message: Seq<u8>) -> u16;

/// What pnet's `udp::ipv4_checksum` computes over a datagram and its pseudo-header addresses.
pub uninterp spec fn udp_checksum_of(datagram: Seq<u8>, source: Seq<u8>, destination: Seq<u8>) -> u16;

/// What pnet's `tcp::ipv4_checksum` computes over a segment and its pseudo-header addresses.
pub uninterp spec fn tcp_checksum_of(segment: Seq<u8>, source: Seq<u8>, destination: Seq<u8>) -> u16;

/// The checksum of a transport part: ICMP over the message alone, UDP and
/// TCP with the IPv4 pseudo-header.
pub open spec fn transport_checksum(p: Protocol, segment: Seq<u8>, source: Seq<u8>, destination: Seq<u8>) -> u16 {
    match p {
        Protocol::ICMP => icmp_checksum_of(segment),
        Protocol::UDP => udp_checksum_of(segment, source, destination),
        Protocol::TCP => tcp_checksum_of(segment, source, destination),
    }
}

/// The IPv4 header of a probe, its checksum computed over the header with a zero checksum field.
pub open spec fn probe_ipv4_header(p: Protocol, ttl: u8, mtu: nat, source: Seq<u8>, destination: Seq<u8>) -> Seq<u8> {
    let zeroed = ipv4_header((mtu - 14) as u16, ttl, ip_protocol_number(p), 0, source, destination);
    ipv4_header((mtu - 14) as u16, ttl, ip_protocol_number(p), ipv4_checksum_of(zeroed), source, destination)
}

/// The transport part of a probe, its checksum computed with a zero checksum field.
pub open spec fn probe_segment(
    p: Protocol,
    source_port: u16,
    destination_port: u16,
    mtu: nat,
    source: Seq<u8>,
    destination: Seq<u8>,
) -> Seq<u8> {
    let len = (mtu - 34) as nat;
    let zeroed = transport_segment(p, source_port, destination_port, len, 0);
    transport_segment(p, source_port, destination_port, len, transport_checksum(p, zeroed, source, destination))
}

/// The whole probe frame of `mtu` bytes.
pub open spec fn probe_frame(
    p: Protocol,
    source_mac: Seq<u8>,
    source_ip: Seq<u8>,
    destination_mac: Seq<u8>,
    destination_ip: Seq<u8>,
    ttl: u8,
    port: u16,
    source_port: u16,
    mtu: nat,
) -> Seq<u8> {
    ethernet_header(destination_mac, source_mac) + probe_ipv4_header(p, ttl, mtu, source_ip, destination_ip)
        + probe_segment(p, source_port, port, mtu, source_ip, destination_ip)
}

/// Offset of the checksum field within a probe's transport part.
pub open spec fn transport_checksum_offset(p: Protocol) -> int {
    match p {
        Protocol::ICMP => 2,
        Protocol::UDP => 6,
        Protocol::TCP => 16,
    }
}

proof fn lemma_be16_read(v: u16)
    ensures
        read_be16(be16(v), 0) == v,
{
    assert(be16(v)[0] == v / 256);
    assert(be16(v)[1] == v % 256);
}

proof fn lemma_clear_checksum(p: Protocol, source_port: u16, destination_port: u16, len: nat, checksum: u16)
    requires
        len >= transport_header_len(p),
        len < 65536,
    ensures
        clear_be16(transport_segment(p, source_port, destination_port, len, checksum), transport_checksum_offset(p))
            =~= transport_segment(p, source_port, destination_port, len, 0),
        transport_segment(p, source_port, destination_port, len, checksum).len() == len,
        read_be16(transport_segment(p, source_port, destination_port, len, checksum), transport_checksum_offset(p))
            == checksum,
{
    let s = transport_segment(p, source_port, destination_port, len, checksum);
    let at = transport_checksum_offset(p);
    lemma_be16_read(checksum);
    assert(s.subrange(at, at + 2) =~= be16(checksum));
    assert(s[at] == be16(checksum)[0] && s[at + 1] == be16(checksum)[1]);
}

/// Every checksum in a probe frame round-trips: recomputing it over the
/// emitted header (or transport part) with the checksum field cleared gives
/// the value stored in that field.
pub proof fn lemma_checksums_round_trip(
    p: Protocol,
    source_mac: Seq<u8>,
    source_ip: Seq<u8>,
    destination_mac: Seq<u8>,
    destination_ip: Seq<u8>,
    ttl: u8,
    port: u16,
    source_port: u16,
    mtu: nat,
)
    requires
        frame_size_ok(p, mtu),
        source_mac.len() == 6,
        destination_mac.len() == 6,
        source_ip.len() == 4,
        destination_ip.len() == 4,
    ensures
        ({
            let f = probe_frame(p, source_mac, source_ip, destination_mac, destination_ip, ttl, port, source_port, mtu);
            &&& ipv4_checksum_of(clear_be16(f.subrange(14, 34), 10)) == read_be16(f, 24)
            &&& transport_checksum(
                p,
                clear_be16(f.subrange(34, mtu as int), transport_checksum_offset(p)),
                source_ip,
                destination_ip,
            ) == read_be16(f, 34 + transport_checksum_offset(p))
        }),
{
    let f = probe_frame(p, source_mac, source_ip, destination_mac, destination_ip, ttl, port, source_port, mtu);
    let eth = ethernet_header(destination_mac, source_mac);
    let ip = probe_ipv4_header(p, ttl, mtu, source_ip, destination_ip);
    let seg = probe_segment(p, source_port, port, mtu, source_ip, destination_ip);
    let total = (mtu - 14) as u16;
    let proto = ip_protocol_number(p);
    let zeroed_ip = ipv4_header(total, ttl, proto, 0, source_ip, destination_ip);
    let len = (mtu - 34) as nat;
    let zeroed_seg = transport_segment(p, source_port, port, len, 0);
    let c = transport_checksum(p, zeroed_seg, source_ip, destination_ip);
    assert(eth.len() == 14);
    assert(ip.len() == 20);
    assert(f.subrange(14, 34) =~= ip);
    assert(clear_be16(ip, 10) =~= zeroed_ip);
    lemma_be16_read(ipv4_checksum_of(zeroed_ip));
    assert(ip.subrange(10, 12) =~= be16(ipv4_checksum_of(zeroed_ip)));
    assert(f[24] == ip[10] && f[25] == ip[11]);
    lemma_clear_checksum(p, source_port, port, len, c);
    assert(f.subrange(34, mtu as int) =~= seg);
    let at = transport_checksum_offset(p);
    assert(f[34 + at] == seg[at] && f[35 + at] == seg[at + 1]);
}

/// A probe frame is exactly `mtu` bytes long, and its length fields agree
/// with the offsets that the frame uses: the IPv4 total length covers all
/// that follows the Ethernet header, the header length covers 20 bytes, the
/// UDP length covers the whole transport part and the TCP data offset
/// covers 20 bytes.
pub proof fn lemma_frame_size(
    p: Protocol,
    source_mac: Seq<u8>,
    source_ip: Seq<u8>,
    destination_mac: Seq<u8>,
    destination_ip: Seq<u8>,
    ttl: u8,
    port: u16,
    source_port: u16,
    mtu: nat,
)
    requires
        frame_size_ok(p, mtu),
        source_mac.len() == 6,
        destination_mac.len() == 6,
        source_ip.len() == 4,
        destination_ip.len() == 4,
    ensures
        ({
            let f = probe_frame(p, source_mac, source_ip, destination_mac, destination_ip, ttl, port, source_port, mtu);
            &&& f.len() == mtu
            &&& read_be16(f, 16) == mtu - 14
            &&& (f[14] % 16) * 4 == 20
            &&& p == Protocol::UDP ==> read_be16(f, 38) == mtu - 34
            &&& p == Protocol::TCP ==> (f[46] / 16) * 4 == 20
        }),
{
    let f = probe_frame(p, source_mac, source_ip, destination_mac, destination_ip, ttl, port, source_port, mtu);
    let ip = probe_ipv4_header(p, ttl, mtu, source_ip, destination_ip);
    let seg = probe_segment(p, source_port, port, mtu, source_ip, destination_ip);
    let len = (mtu - 34) as nat;
    let c = transport_checksum(
        p,
        transport_segment(p, source_port, port, len, 0),
        source_ip,
        destination_ip,
    );
    lemma_clear_checksum(p, source_port, port, len, c);
    assert(ip.len() == 20);
    assert(f.len() == mtu);
    let total = (mtu - 14) as u16;
    lemma_be16_read(total);
    assert(f[16] == be16(total)[0] && f[17] == be16(total)[1]);
    assert(f[14] == 0x45u8);
    assert(f.subrange(34, mtu as int) =~= seg);
    if p == Protocol::UDP {
        lemma_be16_read(len as u16);
        assert(f[38] == seg[4] && f[39] == seg[5]);
        assert(seg[4] == be16(len as u16)[0] && seg[5] == be16(len as u16)[1]);
    }
    if p == Protocol::TCP {
        assert(f[46] == seg[12]);
        assert(seg[12] == 0x50u8);
    }
}

/// Lowest ephemeral source port.
pub const EPHEMERAL_PORT_LOW: u16 = 49152;

/// Relies on rand's `thread_rng` and `Rng::gen_range`, which draws a value
/// from the half-open range it is given (the range here is not empty).
#[verifier::external_body]
fn ephemeral_port() -> (r: u16)
    ensures
        EPHEMERAL_PORT_LOW <= r < 65535,
{
    rand::thread_rng().gen_range(49152..65535)
}

/// Relies on pnet's `ipv4::checksum`, a function of the header bytes.
#[verifier::external_body]
fn ipv4_header_checksum(header: &Vec<u8>) -> (r: u16)
    requires
        header@.len() == 20,
    ensures
        r == ipv4_checksum_of(header@),
{
    pnet::packet::ipv4::checksum(&pnet::packet::ipv4::Ipv4Packet::new(header).unwrap())
}

/// Relies on pnet's `icmp::checksum`, a function of the message bytes.
#[verifier::external_body]
fn icmp_checksum(message: &Vec<u8>) -> (r: u16)
    requires
        8 <= message@.len() <= 65535,
    ensures
        r == icmp_checksum_of(message@),
{
    pnet::packet::icmp::checksum(&pnet::packet::icmp::IcmpPacket::new(message).unwrap())
}

/// Relies on pnet's `udp::ipv4_checksum`, a function of the datagram bytes
/// and the two addresses of the pseudo-header.
#[verifier::external_body]
fn udp_checksum(datagram: &Vec<u8>, source: [u8; 4], destination: [u8; 4]) -> (r: u16)
    requires
        8 <= datagram@.len() <= 65535,
    ensures
        r == udp_checksum_of(datagram@, source@, destination@),
{
    let packet = pnet::packet::udp::UdpPacket::new(datagram).unwrap();
    pnet::packet::udp::ipv4_checksum(&packet, &From::from(source), &From::from(destination))
}

/// Relies on pnet's `tcp::ipv4_checksum`, a function of the segment bytes
/// and the two addresses of the pseudo-header.
#[verifier::external_body]
fn tcp_checksum(segment: &Vec<u8>, source: [u8; 4], destination: [u8; 4]) -> (r: u16)
    requires
        20 <= segment@.len() <= 65535,
    ensures
        r == tcp_checksum_of(segment@, source@, destination@),
{
    let packet = pnet::packet::tcp::TcpPacket::new(segment).unwrap();
    pnet::packet::tcp::ipv4_checksum(&packet, &From::from(source), &From::from(destination))
}

fn push_be16(buf: &mut Vec<u8>, v: u16)
    ensures
        final(buf)@ == old(buf)@ + be16(v),
{
    buf.push((v / 256) as u8);
    buf.push((v % 256) as u8);
    assert(final(buf)@ =~= old(buf)@ + be16(v));
}

fn push_zeros(buf: &mut Vec<u8>, n: usize)
    ensures
        final(buf)@ == old(buf)@ + zeros(n as nat),
{
    let ghost start = buf@;
    let mut i: usize = 0;
    while i < n
        invariant
            i <= n,
            buf@ =~= start + zeros(i as nat),
        decreases n - i,
    {
        buf.push(0u8);
        i = i + 1;
        assert(buf@ =~= start + zeros(i as nat));
    }
}

fn push_ipv4_address(buf: &mut Vec<u8>, a: [u8; 4])
    ensures
        final(buf)@ == old(buf)@ + a@,
{
    buf.push(a[0]);
    buf.push(a[1]);
    buf.push(a[2]);
    buf.push(a[3]);
    assert(final(buf)@ =~= old(buf)@ + a@);
}

fn push_mac_address(buf: &mut Vec<u8>, a: [u8; 6])
    ensures
        final(buf)@ == old(buf)@ + a@,
{
    buf.push(a[0]);
    buf.push(a[1]);
    buf.push(a[2]);
    buf.push(a[3]);
    buf.push(a[4]);
    buf.push(a[5]);
    assert(final(buf)@ =~= old(buf)@ + a@);
}

fn ipv4_header_bytes(
    total_length: u16,
    ttl: u8,
    protocol: u8,
    checksum: u16,
    source: [u8; 4],
    destination: [u8; 4],
) -> (r: Vec<u8>)
    ensures
        r@ == ipv4_header(total_length, ttl, protocol, checksum, source@, destination@),
{
    let mut buf: Vec<u8> = Vec::new();
    buf.push(0x45u8);
    buf.push(0u8);
    push_be16(&mut buf, total_length);
    buf.push(0u8);
    buf.push(0u8);
    buf.push(0x40u8);
    buf.push(0u8);
    buf.push(ttl);
    buf.push(protocol);
    push_be16(&mut buf, checksum);
    push_ipv4_address(&mut buf, source);
    push_ipv4_address(&mut buf, destination);
    assert(buf@ =~= ipv4_header(total_length, ttl, protocol, checksum, source@, destination@));
    buf
}

fn protocol_number(p: Protocol) -> (r: u8)
    ensures
        r == ip_protocol_number(p),
{
    match p {
        Protocol::ICMP => 1,
        Protocol::UDP => 17,
        Protocol::TCP => 6,
    }
}

/// The IPv4 header of a probe, checksum included.
fn build_ipv4_header(p: Protocol, ttl: u8, mtu: usize, source: [u8; 4], destination: [u8; 4]) -> (r: Vec<u8>)
    requires
        frame_size_ok(p, mtu as nat),
    ensures
        r@ == probe_ipv4_header(p, ttl, mtu as nat, source@, destination@),
{
    let total_length = (mtu - 14) as u16;
    let protocol = protocol_number(p);
    let zeroed = ipv4_header_bytes(total_length, ttl, protocol, 0, source, destination);
    let checksum = ipv4_header_checksum(&zeroed);
    ipv4_header_bytes(total_length, ttl, protocol, checksum, source, destination)
}

fn udp_packet_bytes(source_port: u16, destination_port: u16, len: usize, checksum: u16) -> (r: Vec<u8>)
    requires
        8 <= len <= 65535,
    ensures
        r@ == transport_segment(Protocol::UDP, source_port, destination_port, len as nat, checksum),
{
    let mut buf: Vec<u8> = Vec::new();
    push_be16(&mut buf, source_port);
    push_be16(&mut buf, destination_port);
    push_be16(&mut buf, len as u16);
    push_be16(&mut buf, checksum);
    push_zeros(&mut buf, len - 8);
    assert(buf@ =~= transport_segment(Protocol::UDP, source_port, destination_port, len as nat, checksum));
    buf
}

fn tcp_packet_bytes(source_port: u16, destination_port: u16, len: usize, checksum: u16) -> (r: Vec<u8>)
    requires
        20 <= len <= 65535,
    ensures
        r@ == transport_segment(Protocol::TCP, source_port, destination_port, len as nat, checksum),
{
    let mut buf: Vec<u8> = Vec::new();
    push_be16(&mut buf, source_port);
    push_be16(&mut buf, destination_port);
    push_zeros(&mut buf, 8);
    buf.push(0x50u8);
    buf.push(0x02u8);
    buf.push(0u8);
    buf.push(0u8);
    push_be16(&mut buf, checksum);
    push_zeros(&mut buf, 2);
    push_zeros(&mut buf, len - 20);
    assert(buf@ =~= transport_segment(Protocol::TCP, source_port, destination_port, len as nat, checksum));
    buf
}

fn icmp_packet_bytes(len: usize, checksum: u16) -> (r: Vec<u8>)
    requires
        8 <= len <= 65535,
    ensures
        r@ == transport_segment(Protocol::ICMP, 0, 0, len as nat, checksum),
{
    let mut buf: Vec<u8> = Vec::new();
    buf.push(8u8);
    buf.push(0u8);
    push_be16(&mut buf, checksum);
    push_zeros(&mut buf, 4);
    push_zeros(&mut buf, len - 8);
    assert(buf@ =~= transport_segment(Protocol::ICMP, 0, 0, len as nat, checksum));
    buf
}

/// A UDP datagram of `len` bytes with its pseudo-header checksum.
fn build_udp_packet(source_port: u16, port: u16, len: usize, source: [u8; 4], destination: [u8; 4]) -> (r: Vec<u8>)
    requires
        8 <= len <= 65535,
    ensures
        r@ == transport_segment(
            Protocol::UDP,
            source_port,
            port,
            len as nat,
            udp_checksum_of(transport_segment(Protocol::UDP, source_port, port, len as nat, 0), source@, destination@),
        ),
{
    let zeroed = udp_packet_bytes(source_port, port, len, 0);
    let checksum = udp_checksum(&zeroed, source, destination);
    udp_packet_bytes(source_port, port, len, checksum)
}

/// A TCP SYN segment of `len` bytes with its pseudo-header checksum.
fn build_tcp_packet(source_port: u16, port: u16, len: usize, source: [u8; 4], destination: [u8; 4]) -> (r: Vec<u8>)
    requires
        20 <= len <= 65535,
    ensures
        r@ == transport_segment(
            Protocol::TCP,
            source_port,
            port,
            len as nat,
            tcp_checksum_of(transport_segment(Protocol::TCP, source_port, port, len as nat, 0), source@, destination@),
        ),
{
    let zeroed = tcp_packet_bytes(source_port, port, len, 0);
    let checksum = tcp_checksum(&zeroed, source, destination);
    tcp_packet_bytes(source_port, port, len, checksum)
}

/// An ICMP echo request of `len` bytes with its checksum.
fn build_icmp_packet(len: usize) -> (r: Vec<u8>)
    requires
        8 <= len <= 65535,
    ensures
        r@ == transport_segment(
            Protocol::ICMP,
            0,
            0,
            len as nat,
            icmp_checksum_of(transport_segment(Protocol::ICMP, 0, 0, len as nat, 0)),
        ),
{
    let zeroed = icmp_packet_bytes(len, 0);
    let checksum = icmp_checksum(&zeroed);
    icmp_packet_bytes(len, checksum)
}

/// Builds probe frames from one interface: its MAC address and IPv4 address
/// are the source of every frame.
pub struct PacketBuilder {
    pub protocol: Protocol,
    pub source_mac: [u8; 6],
    pub source_ip: [u8; 4],
}

impl PacketBuilder {
    pub fn new(protocol: Protocol, source_mac: [u8; 6], source_ip: [u8; 4]) -> (r: Self)
        ensures
            r.protocol == protocol,
            r.source_mac == source_mac,
            r.source_ip == source_ip,
    {
        PacketBuilder { source_mac, source_ip, protocol }
    }

    /// The probe frame for `ttl`, `mtu` bytes long, with the given ephemeral
    /// source port (which an ICMP probe does not carry).
    pub fn build_packet_from_port(
        &self,
        destination_mac: [u8; 6],
        destination_ip: [u8; 4],
        ttl: u8,
        port: u16,
        source_port: u16,
        mtu: usize,
    ) -> (r: Vec<u8>)
        requires
            frame_size_ok(self.protocol, mtu as nat),
        ensures
            r@ == probe_frame(
                self.protocol,
                self.source_mac@,
                self.source_ip@,
                destination_mac@,
                destination_ip@,
                ttl,
                port,
                source_port,
                mtu as nat,
            ),
    {
        let mut frame: Vec<u8> = Vec::new();
        push_mac_address(&mut frame, destination_mac);
        push_mac_address(&mut frame, self.source_mac);
        frame.push(0x08u8);
        frame.push(0x00u8);
        assert(frame@ =~= ethernet_header(destination_mac@, self.source_mac@));
        let mut ip = build_ipv4_header(self.protocol, ttl, mtu, self.source_ip, destination_ip);
        frame.append(&mut ip);
        let len = mtu - 34;
        let mut segment = match self.protocol {
            Protocol::UDP => build_udp_packet(source_port, port, len, self.source_ip, destination_ip),
            Protocol::TCP => build_tcp_packet(source_port, port, len, self.source_ip, destination_ip),
            Protocol::ICMP => build_icmp_packet(len),
        };
        assert(segment@ =~= probe_segment(self.protocol, source_port, port, mtu as nat, self.source_ip@, destination_ip@));
        frame.append(&mut segment);
        frame
    }

    /// The probe frame for `ttl`, `mtu` bytes long; UDP and TCP probes get a
    /// source port drawn from the ephemeral range.
    pub fn build_packet(
        &self,
        destination_mac: [u8; 6],
        destination_ip: [u8; 4],
        ttl: u8,
        port: u16,
        mtu: usize,
    ) -> (r: Vec<u8>)
        requires
            frame_size_ok(self.protocol, mtu as nat),
        ensures
            exists|source_port: u16|
                EPHEMERAL_PORT_LOW <= source_port < 65535 && r@ == #[trigger] probe_frame(
                    self.protocol,
                    self.source_mac@,
                    self.source_ip@,
                    destination_mac@,
                    destination_ip@,
                    ttl,
                    port,
                    source_port,
                    mtu as nat,
                ),
    {
        let source_port = ephemeral_port();
        self.build_packet_from_port(destination_mac, destination_ip, ttl, port, source_port, mtu)
    }
}

} // verus!
