//! Packet headers, read by `smoltcp` and held as plain values.

use crate::addr::{be16, be32, be48, EthernetAddress, Ipv4Address};
use vstd::prelude::*;

verus! {

pub const ETHERTYPE_IPV4: u16 = 0x0800;

pub const ETHERTYPE_ARP: u16 = 0x0806;

pub const PROTOCOL_ICMP: u8 = 1;

pub const PROTOCOL_TCP: u8 = 6;

pub const PROTOCOL_UDP: u8 = 17;

pub const ICMP_ECHO_REPLY: u8 = 0;

pub const ICMP_ECHO_REQUEST: u8 = 8;

pub const ARP_REQUEST: u16 = 1;

pub const ARP_REPLY: u16 = 2;

/// An Ethernet frame.
#[derive(Clone, Copy, Debug)]
pub struct EthernetFrame<'a> {
    pub dst_addr: EthernetAddress,
    pub src_addr: EthernetAddress,
    pub ethertype: u16,
    pub payload: &'a [u8],
}

/// A frame has a header of 14 bytes: destination, source and type.
pub open spec fn is_frame(f: EthernetFrame, b: Seq<u8>) -> bool {
    &&& b.len() >= 14
    &&& f.dst_addr.bits == be48(b, 0)
    &&& f.src_addr.bits == be48(b, 6)
    &&& f.ethertype == be16(b, 12)
    &&& f.payload@ == b.subrange(14, b.len() as int)
}

/// The fields of a frame as they stand in it.
struct RawFrame<'a> {
    dst: [u8; 6],
    src: [u8; 6],
    ethertype: u16,
    payload: &'a [u8],
}

spec fn is_raw_frame(f: RawFrame, b: Seq<u8>) -> bool {
    &&& b.len() >= 14
    &&& f.dst@ == b.subrange(0, 6)
    &&& f.src@ == b.subrange(6, 12)
    &&& f.ethertype == be16(b, 12)
    &&& f.payload@ == b.subrange(14, b.len() as int)
}

/// `smoltcp::wire::EthernetFrame::new_checked` and the frame's accessors: accepts
/// every buffer that holds the 14 bytes of a header, and reads its fields.
#[verifier::external_body]
fn read_frame<'a>(bytes: &'a [u8]) -> (r: Option<RawFrame<'a>>)
    ensures
        match r {
            Some(f) => is_raw_frame(f, bytes@),
            None => bytes@.len() < 14,
        },
{
    let frame = smoltcp::wire::EthernetFrame::new_checked(bytes).ok()?;
    let (dst, src) = (frame.dst_addr().0, frame.src_addr().0);
    Some(RawFrame { dst, src, ethertype: frame.ethertype().into(), payload: frame.payload() })
}

impl<'a> EthernetFrame<'a> {
    /// Reads a frame from a buffer; fails where the buffer is too short for a header.
    pub fn new_checked(bytes: &'a [u8]) -> (r: Option<EthernetFrame<'a>>)
        ensures
            match r {
                Some(f) => is_frame(f, bytes@),
                None => bytes@.len() < 14,
            },
    {
        match read_frame(bytes) {
            None => None,
            Some(raw) => {
                assert(be48(raw.dst@, 0) == be48(bytes@, 0));
                assert(be48(raw.src@, 0) == be48(bytes@, 6));
                Some(
                    EthernetFrame {
                        dst_addr: EthernetAddress::new(raw.dst),
                        src_addr: EthernetAddress::new(raw.src),
                        ethertype: raw.ethertype,
                        payload: raw.payload,
                    },
                )
            },
        }
    }
}

/// An IPv4 packet.
#[derive(Clone, Copy, Debug)]
pub struct Ipv4Packet<'a> {
    pub src_addr: Ipv4Address,
    pub dst_addr: Ipv4Address,
    pub next_header: u8,
    pub more_frags: bool,
    pub frag_offset: u16,
    pub header_len: u8,
    pub payload: &'a [u8],
}

/// The length of an IPv4 header in bytes, as its first byte gives it.
pub open spec fn ipv4_header_len(b: Seq<u8>) -> int {
    b[0] as int % 16 * 4
}

/// The lengths in an IPv4 header agree with each other and with the buffer.
pub open spec fn ipv4_lengths_agree(b: Seq<u8>) -> bool {
    &&& b.len() >= 20
    &&& 20 <= ipv4_header_len(b) <= be16(b, 2) <= b.len()
}

/// An IPv4 packet of version 4 whose lengths agree.
pub open spec fn ipv4_acceptable(b: Seq<u8>) -> bool {
    &&& ipv4_lengths_agree(b)
    &&& b[0] as int / 16 == 4
}

pub open spec fn is_ipv4(p: Ipv4Packet, b: Seq<u8>) -> bool {
    &&& p.src_addr.bits == be32(b, 12)
    &&& p.dst_addr.bits == be32(b, 16)
    &&& p.next_header == b[9]
    &&& p.more_frags == (b[6] as int / 32 % 2 == 1)
    &&& p.frag_offset == be16(b, 6) % 8192 * 8
    &&& p.header_len == ipv4_header_len(b)
    &&& p.payload@ == b.subrange(ipv4_header_len(b), be16(b, 2))
}

impl<'a> Ipv4Packet<'a> {
    /// A packet's length is a 16-bit number.
    pub open spec fn wf(&self) -> bool {
        self.payload@.len() <= 65535
    }

    /// The packet is a part of a larger one.
    pub open spec fn is_fragment(&self) -> bool {
        self.more_frags || self.frag_offset != 0
    }

    /// Reads a packet whose lengths agree.
    pub fn new_checked(bytes: &'a [u8]) -> (r: Option<Ipv4Packet<'a>>)
        ensures
            match r {
                Some(p) => ipv4_lengths_agree(bytes@) && is_ipv4(p, bytes@) && p.wf(),
                None => !ipv4_lengths_agree(bytes@),
            },
    {
        read_ipv4(bytes)
    }

    /// Reads a packet of version 4 whose lengths agree. Header checksums are not looked at.
    pub fn parse(bytes: &'a [u8]) -> (r: Option<Ipv4Packet<'a>>)
        ensures
            match r {
                Some(p) => ipv4_acceptable(bytes@) && is_ipv4(p, bytes@) && p.wf(),
                None => !ipv4_acceptable(bytes@),
            },
    {
        if ipv4_repr_parses(bytes) {
            read_ipv4(bytes)
        } else {
            None
        }
    }
}

/// `smoltcp::wire::Ipv4Packet::new_checked` and the packet's accessors: accepts a buffer
/// in which header length, total length and buffer length do not decrease and the header
/// has at least 20 bytes, and reads the fields.
#[verifier::external_body]
fn read_ipv4<'a>(bytes: &'a [u8]) -> (r: Option<Ipv4Packet<'a>>)
    ensures
        match r {
            Some(p) => ipv4_lengths_agree(bytes@) && is_ipv4(p, bytes@),
            None => !ipv4_lengths_agree(bytes@),
        },
{
    let packet = smoltcp::wire::Ipv4Packet::new_checked(bytes).ok()?;
    Some(Ipv4Packet {
        src_addr: Ipv4Address { bits: packet.src_addr().into() },
        dst_addr: Ipv4Address { bits: packet.dst_addr().into() },
        next_header: packet.next_header().into(),
        more_frags: packet.more_frags(),
        frag_offset: packet.frag_offset(),
        header_len: packet.header_len(),
        payload: packet.payload(),
    })
}

/// `smoltcp::wire::Ipv4Repr::parse` with checksums ignored: succeeds on packets whose lengths
/// agree and whose version is 4. Fragments are accepted, as the crate's feature
/// `proto-ipv4-fragmentation` is on, which it is by default.
#[verifier::external_body]
fn ipv4_repr_parses(bytes: &[u8]) -> (r: bool)
    ensures
        r == ipv4_acceptable(bytes@),
{
    let packet = smoltcp::wire::Ipv4Packet::new_unchecked(bytes);
    let ignored = smoltcp::phy::ChecksumCapabilities::ignored();
    smoltcp::wire::Ipv4Repr::parse(&packet, &ignored).is_ok()
}

/// A UDP datagram.
#[derive(Clone, Copy, Debug)]
pub struct UdpPacket<'a> {
    pub src_port: u16,
    pub dst_port: u16,
    pub payload: &'a [u8],
}

/// A UDP header has 8 bytes, and its length field covers them and no more than there is.
pub open spec fn udp_valid(b: Seq<u8>) -> bool {
    &&& b.len() >= 8
    &&& 8 <= be16(b, 4) <= b.len()
}

pub open spec fn udp_src_port(b: Seq<u8>) -> u16 {
    be16(b, 0) as u16
}

pub open spec fn udp_dst_port(b: Seq<u8>) -> u16 {
    be16(b, 2) as u16
}

pub open spec fn udp_payload(b: Seq<u8>) -> Seq<u8> {
    b.subrange(8, be16(b, 4))
}

pub open spec fn is_udp(u: UdpPacket, b: Seq<u8>) -> bool {
    &&& udp_valid(b)
    &&& u.src_port == udp_src_port(b)
    &&& u.dst_port == udp_dst_port(b)
    &&& u.payload@ == udp_payload(b)
}

/// `smoltcp::wire::UdpPacket::new_checked` and the packet's accessors: accepts a buffer whose
/// length field lies between 8 and the buffer's length, and reads the fields.
#[verifier::external_body]
fn read_udp<'a>(bytes: &'a [u8]) -> (r: Option<UdpPacket<'a>>)
    ensures
        match r {
            Some(u) => is_udp(u, bytes@),
            None => !udp_valid(bytes@),
        },
{
    let packet = smoltcp::wire::UdpPacket::new_checked(bytes).ok()?;
    Some(UdpPacket {
        src_port: packet.src_port(),
        dst_port: packet.dst_port(),
        payload: packet.payload(),
    })
}

impl<'a> UdpPacket<'a> {
    pub fn new_checked(bytes: &'a [u8]) -> (r: Option<UdpPacket<'a>>)
        ensures
            match r {
                Some(u) => is_udp(u, bytes@),
                None => !udp_valid(bytes@),
            },
    {
        read_udp(bytes)
    }
}

/// The ports and flags of a TCP segment.
#[derive(Clone, Copy, Debug, PartialEq, Eq, Structural)]
pub struct TcpSegment {
    pub src_port: u16,
    pub dst_port: u16,
    pub fin: bool,
    pub syn: bool,
    pub rst: bool,
    pub ack: bool,
}

/// What the bytes of a TCP segment say; nothing where its header is cut short.
pub open spec fn tcp_segment(b: Seq<u8>) -> Option<TcpSegment> {
    if b.len() >= 20 && 20 <= b[12] as int / 16 * 4 <= b.len() {
        Some(
            TcpSegment {
                src_port: be16(b, 0) as u16,
                dst_port: be16(b, 2) as u16,
                fin: b[13] as int % 2 == 1,
                syn: b[13] as int / 2 % 2 == 1,
                rst: b[13] as int / 4 % 2 == 1,
                ack: b[13] as int / 16 % 2 == 1,
            },
        )
    } else {
        None
    }
}

/// `smoltcp::wire::TcpPacket::new_checked` and the segment's accessors: accepts a buffer whose
/// header length lies between 20 and the buffer's length, and reads ports and flags.
#[verifier::external_body]
fn read_tcp(bytes: &[u8]) -> (r: Option<TcpSegment>)
    ensures
        r == tcp_segment(bytes@),
{
    let packet = smoltcp::wire::TcpPacket::new_checked(bytes).ok()?;
    Some(TcpSegment {
        src_port: packet.src_port(),
        dst_port: packet.dst_port(),
        fin: packet.fin(),
        syn: packet.syn(),
        rst: packet.rst(),
        ack: packet.ack(),
    })
}

impl TcpSegment {
    /// The segment opens a connection.
    pub open spec fn opens(&self) -> bool {
        self.syn && !self.ack && !self.fin && !self.rst
    }

    pub fn new_checked(bytes: &[u8]) -> (r: Option<TcpSegment>)
        ensures
            r == tcp_segment(bytes@),
    {
        read_tcp(bytes)
    }
}

/// Whether a segment can only be the first of a connection.
pub fn is_initial_syn(tcp: &TcpSegment) -> (r: bool)
    ensures
        r == tcp.opens(),
{
    tcp.syn && !tcp.ack && !tcp.fin && !tcp.rst
}

/// The head of an ICMP message.
#[derive(Clone, Copy, Debug, PartialEq, Eq, Structural)]
pub struct EchoHeader {
    pub msg_type: u8,
    pub msg_code: u8,
    pub echo_ident: u16,
    pub checksum_ok: bool,
}

/// The sum of the big-endian 16-bit words of `b`, an odd last byte being the upper half of a
/// word.
pub open spec fn word_sum(b: Seq<u8>) -> int
    decreases b.len(),
{
    if b.len() == 0 {
        0
    } else if b.len() == 1 {
        b[0] * 256
    } else {
        be16(b, 0) + word_sum(b.subrange(2, b.len() as int))
    }
}

/// The ones' complement sum of the words is all ones.
pub open spec fn checksum_valid(b: Seq<u8>) -> bool {
    word_sum(b) != 0 && word_sum(b) % 65535 == 0
}

pub open spec fn echo_header(b: Seq<u8>) -> Option<EchoHeader> {
    if b.len() >= 8 {
        Some(
            EchoHeader {
                msg_type: b[0],
                msg_code: b[1],
                echo_ident: be16(b, 4) as u16,
                checksum_ok: checksum_valid(b),
            },
        )
    } else {
        None
    }
}

/// `smoltcp::wire::Icmpv4Packet::new_checked`, its accessors and `verify_checksum`: accepts a
/// buffer of at least 8 bytes, reads type, code and echo identifier, and says whether
/// the Internet checksum over the whole message holds.
#[verifier::external_body]
fn read_echo(bytes: &[u8]) -> (r: Option<EchoHeader>)
    requires
        bytes@.len() <= 65535,
    ensures
        r == echo_header(bytes@),
{
    let packet = smoltcp::wire::Icmpv4Packet::new_checked(bytes).ok()?;
    Some(EchoHeader {
        msg_type: packet.msg_type().into(),
        msg_code: packet.msg_code(),
        echo_ident: packet.echo_ident(),
        checksum_ok: packet.verify_checksum(),
    })
}

impl EchoHeader {
    pub fn new_checked(bytes: &[u8]) -> (r: Option<EchoHeader>)
        requires
            bytes@.len() <= 65535,
        ensures
            r == echo_header(bytes@),
    {
        read_echo(bytes)
    }
}

/// An ARP packet that maps an IPv4 address to an Ethernet address.
#[derive(Clone, Copy, Debug, PartialEq, Eq, Structural)]
pub struct ArpPacket {
    pub operation: u16,
    pub source_hardware_addr: EthernetAddress,
    pub source_protocol_addr: Ipv4Address,
}

/// The packet is whole, and about Ethernet and IPv4 addresses.
pub open spec fn is_ethernet_arp(b: Seq<u8>) -> bool {
    b.len() >= 28 && be16(b, 0) == 1 && be16(b, 2) == 0x0800 && b[4] == 6 && b[5] == 4
}

/// What the bytes of an ARP packet say; nothing where it is cut short or is not about
/// Ethernet and IPv4 addresses.
pub open spec fn arp_packet(b: Seq<u8>) -> Option<ArpPacket> {
    if is_ethernet_arp(b) {
        Some(
            ArpPacket {
                operation: be16(b, 6) as u16,
                source_hardware_addr: EthernetAddress { bits: be48(b, 8) as u64 },
                source_protocol_addr: Ipv4Address { bits: be32(b, 14) as u32 },
            },
        )
    } else {
        None
    }
}

/// The fields of an ARP packet as they stand in it.
struct RawArp {
    operation: u16,
    source_hardware_addr: [u8; 6],
    source_protocol_addr: u32,
}

spec fn is_raw_arp(a: RawArp, b: Seq<u8>) -> bool {
    &&& a.operation == be16(b, 6)
    &&& a.source_hardware_addr@ == b.subrange(8, 14)
    &&& a.source_protocol_addr == be32(b, 14)
}

/// `smoltcp::wire::ArpPacket::new_checked` and `smoltcp::wire::ArpRepr::parse`: accept a
/// packet that holds the addresses whose lengths it gives and whose types and lengths
/// are those of Ethernet and IPv4, and read operation and source addresses.
#[verifier::external_body]
fn read_arp(bytes: &[u8]) -> (r: Option<RawArp>)
    ensures
        match r {
            Some(a) => is_ethernet_arp(bytes@) && is_raw_arp(a, bytes@),
            None => !is_ethernet_arp(bytes@),
        },
{
    let packet = smoltcp::wire::ArpPacket::new_checked(bytes).ok()?;
    match smoltcp::wire::ArpRepr::parse(&packet).ok()? {
        smoltcp::wire::ArpRepr::EthernetIpv4 {
            operation, source_hardware_addr, source_protocol_addr, ..
        } => Some(RawArp {
            operation: operation.into(),
            source_hardware_addr: source_hardware_addr.0,
            source_protocol_addr: source_protocol_addr.into(),
        }),
        _ => None,
    }
}

impl ArpPacket {
    pub fn new_checked(bytes: &[u8]) -> (r: Option<ArpPacket>)
        ensures
            r == arp_packet(bytes@),
    {
        match read_arp(bytes) {
            None => None,
            Some(raw) => {
                assert(be48(raw.source_hardware_addr@, 0) == be48(bytes@, 8));
                Some(
                    ArpPacket {
                        operation: raw.operation,
                        source_hardware_addr: EthernetAddress::new(raw.source_hardware_addr),
                        source_protocol_addr: Ipv4Address { bits: raw.source_protocol_addr },
                    },
                )
            },
        }
    }
}

} // verus!
