//! What may leave the virtual machine.

use crate::addr::{be16, be32, be48, octet, EthernetAddress, Ipv4Address};
use crate::clock::Instant;
use crate::dhcp::client_message;
use crate::dhcp_snooper::LeaseView;
use crate::laws::flows::{known, tick_after};
use crate::proxy::flow_map::{FlowDirection, FlowKey};
use crate::proxy::flows::FlowMatch;
use crate::proxy::rule::Direction;
use crate::proxy::rules::PolicyDecision;
use crate::proxy::state::{consulted, is_global_address, FlowsView, Outcome, ProxyView};
use crate::proxy::vm::{is_vm_verdict, vm_ipv4_outcome};
use crate::wire::{is_ipv4, tcp_segment, EthernetFrame, Ipv4Packet, TcpSegment};
use vstd::prelude::*;

verus! {

/// The lease is about the address, and has not run out.
pub open spec fn holds(lease: Option<LeaseView>, address: Ipv4Address, now: Instant) -> bool {
    lease matches Some(l) && l.address == address && now.ticks < l.valid_until.ticks
}

/// The bytes are a UDP datagram between these ports.
pub open spec fn is_datagram(b: Seq<u8>, src_port: int, dst_port: int) -> bool {
    &&& b.len() >= 8
    &&& 8 <= be16(b, 4) <= b.len()
    &&& be16(b, 0) == src_port
    &&& be16(b, 2) == dst_port
}

/// The bytes are a DHCP message of a kind, about the Ethernet client with the hardware address.
pub open spec fn is_message_about(b: Seq<u8>, opcode: int, mac: EthernetAddress) -> bool {
    &&& client_message(b) matches Some(m)
    &&& m.opcode == opcode
    &&& m.htype == 1
    &&& m.chaddr.len() == 6
    &&& be48(m.chaddr, 0) == mac.bits
}

/// The packet is a request of the client to a DHCP server.
pub open spec fn asks_for_a_lease(p: Ipv4Packet, mac: EthernetAddress) -> bool {
    let b = p.payload@;
    &&& p.next_header == 17
    &&& is_datagram(b, 68, 67)
    &&& is_message_about(b.subrange(8, be16(b, 4)), 1, mac)
}

/// The address lies between these, both included.
pub open spec fn within(bits: u32, first: int, last: int) -> bool {
    first <= bits <= last
}

/// The address is none that is private, local, reserved or for documentation.
pub open spec fn is_public(bits: u32) -> bool {
    ||| bits == 0xc000_0009
    ||| bits == 0xc000_000a
    ||| {
        &&& !within(bits, 0x0000_0000, 0x00ff_ffff)
        &&& !within(bits, 0x0a00_0000, 0x0aff_ffff)
        &&& !within(bits, 0x6440_0000, 0x647f_ffff)
        &&& !within(bits, 0x7f00_0000, 0x7fff_ffff)
        &&& !within(bits, 0xa9fe_0000, 0xa9fe_ffff)
        &&& !within(bits, 0xac10_0000, 0xac1f_ffff)
        &&& !within(bits, 0xc000_0000, 0xc000_00ff)
        &&& !within(bits, 0xc000_0200, 0xc000_02ff)
        &&& !within(bits, 0xc0a8_0000, 0xc0a8_ffff)
        &&& !within(bits, 0xc612_0000, 0xc613_ffff)
        &&& !within(bits, 0xc633_6400, 0xc633_64ff)
        &&& !within(bits, 0xcb00_7100, 0xcb00_71ff)
        &&& !within(bits, 0xf000_0000, 0xffff_ffff)
    }
}

#[verifier::spinoff_prover]
proof fn lemma_octets_of(bits: u32)
    ensures
        bits == octet(bits, 0) * 0x100_0000 + octet(bits, 1) * 0x1_0000 + octet(bits, 2) * 0x100
            + octet(bits, 3),
        0 <= octet(bits, 0) < 256,
        0 <= octet(bits, 1) < 256,
        0 <= octet(bits, 2) < 256,
        0 <= octet(bits, 3) < 256,
{
}

#[verifier::spinoff_prover]
proof fn lemma_public_octets(bits: u32, a: int, b: int, c: int, d: int)
    requires
        bits == a * 0x100_0000 + b * 0x1_0000 + c * 0x100 + d,
        0 <= a < 256,
        0 <= b < 256,
        0 <= c < 256,
        0 <= d < 256,
    ensures
        is_public(bits) <==> {
            ||| a == 192 && b == 0 && c == 0 && (d == 9 || d == 10)
            ||| {
                &&& a != 0 && a != 10 && a != 127 && a < 240
                &&& !(a == 172 && 16 <= b < 32)
                &&& !(a == 192 && b == 168)
                &&& !(a == 192 && b == 0 && c == 0)
                &&& !(a == 100 && 64 <= b < 128)
                &&& !(a == 169 && b == 254)
                &&& !(a == 192 && b == 0 && c == 2)
                &&& !(a == 198 && b == 51 && c == 100)
                &&& !(a == 203 && b == 0 && c == 113)
                &&& !(a == 198 && (b == 18 || b == 19))
            }
        },
{
}

/// The global Internet is every address outside the ranges that are set aside, and two addresses
/// of services in one of them.
pub proof fn law_global_addresses_are_the_public_ones(bits: u32)
    ensures
        is_global_address(bits) == is_public(bits),
{
    lemma_octets_of(bits);
    lemma_public_octets(bits, octet(bits, 0), octet(bits, 1), octet(bits, 2), octet(bits, 3));
}

/// There is room for the flow that the packet would start: it is known, or there are fewer than
/// 32768. A packet that starts none needs no room.
pub open spec fn has_room(flows: Option<FlowsView>, matched: FlowMatch) -> bool {
    match matched {
        FlowMatch::Candidate(pending) => flows matches Some(table) && (table.flows.contains_key(
            pending.key,
        ) || table.flows.len() < 32768),
        _ => true,
    }
}

/// The table with the flow that the packet would start, if it would start one.
pub open spec fn with_flow(flows: Option<FlowsView>, matched: FlowMatch) -> Option<FlowsView> {
    match (flows, matched) {
        (Some(table), FlowMatch::Candidate(pending)) => Some(
            FlowsView { flows: table.flows.insert(pending.key, pending.flow), ..table },
        ),
        _ => flows,
    }
}

/// From an address that is not leased nothing leaves but a request for a lease, from no address
/// to everyone.
pub proof fn law_unleased_addresses_only_ask_for_a_lease(s: ProxyView, p: Ipv4Packet, now: Instant)
    requires
        !holds(s.lease, p.src_addr, now),
    ensures
        vm_ipv4_outcome(s, p, now).allowed <==> p.src_addr.bits == 0 && p.dst_addr.bits
            == 0xffff_ffff && asks_for_a_lease(p, s.vm_mac_address),
        vm_ipv4_outcome(s, p, now).flows == s.flows,
{
}

/// From the leased address, a request to the gateway or to everyone to renew the lease leaves,
/// whatever the rules and the table of flows say.
pub proof fn law_renewals_always_leave(s: ProxyView, p: Ipv4Packet, now: Instant)
    requires
        holds(s.lease, p.src_addr, now),
        p.dst_addr == s.gateway_ip || p.dst_addr.bits == 0xffff_ffff,
        asks_for_a_lease(p, s.vm_mac_address),
    ensures
        vm_ipv4_outcome(s, p, now).allowed,
        vm_ipv4_outcome(s, p, now).flows == s.flows,
{
}

/// The packet comes from the leased address and is no renewal of the lease.
pub open spec fn is_ordinary(s: ProxyView, p: Ipv4Packet, now: Instant) -> bool {
    &&& holds(s.lease, p.src_addr, now)
    &&& !((p.dst_addr == s.gateway_ip || p.dst_addr.bits == 0xffff_ffff) && asks_for_a_lease(
        p,
        s.vm_mac_address,
    ))
}

/// What answers a flow that was let in leaves, whatever the rules say, and what the table denies
/// does not.
pub proof fn law_the_table_comes_before_the_rules(s: ProxyView, p: Ipv4Packet, now: Instant)
    requires
        is_ordinary(s, p, now),
    ensures
        ({
            let (flows, matched) = consulted(s.flows, p, FlowDirection::FromVm, now);
            let o = vm_ipv4_outcome(s, p, now);
            &&& matched is Allowed ==> o.allowed && o.flows == flows
            &&& matched is Denied ==> !o.allowed && o.flows == flows
        }),
{
}

/// To a blocked destination nothing leaves that does not answer a flow, and no flow is entered.
pub proof fn law_nothing_leaves_for_blocked_destinations(s: ProxyView, p: Ipv4Packet, now: Instant)
    requires
        is_ordinary(s, p, now),
        s.rules.decision(p.dst_addr.bits, Direction::Out) == Some(PolicyDecision::Block),
    ensures
        ({
            let (flows, matched) = consulted(s.flows, p, FlowDirection::FromVm, now);
            let o = vm_ipv4_outcome(s, p, now);
            &&& matched !is Allowed ==> !o.allowed
            &&& o.flows == flows
        }),
{
}

/// To a destination that bare rules alone allow every packet leaves, of whatever protocol.
pub proof fn law_bare_rules_let_everything_out(s: ProxyView, p: Ipv4Packet, now: Instant)
    requires
        is_ordinary(s, p, now),
        s.flows is None,
        s.rules.decision(p.dst_addr.bits, Direction::Out) == Some(PolicyDecision::AllowStateless),
    ensures
        vm_ipv4_outcome(s, p, now).allowed,
        vm_ipv4_outcome(s, p, now).flows is None,
{
}

/// To a destination that stateful rules allow, a packet leaves if it starts or continues a flow
/// for which there is room, and the flow is entered; a packet of no flow does not leave.
pub proof fn law_stateful_rules_let_flows_out(s: ProxyView, p: Ipv4Packet, now: Instant)
    requires
        is_ordinary(s, p, now),
        s.rules.decision(p.dst_addr.bits, Direction::Out) == Some(PolicyDecision::AllowStateful),
    ensures
        ({
            let (flows, matched) = consulted(s.flows, p, FlowDirection::FromVm, now);
            let o = vm_ipv4_outcome(s, p, now);
            &&& matched is Candidate ==> o.allowed == has_room(flows, matched)
            &&& matched is Candidate && has_room(flows, matched) ==> o.flows == with_flow(
                flows,
                matched,
            )
            &&& matched is Untracked ==> !o.allowed
            &&& !o.allowed ==> o.flows == flows
        }),
{
}

/// The packet asks a name server of the lease.
pub open spec fn asks_a_name_server(s: ProxyView, p: Ipv4Packet) -> bool {
    let b = p.payload@;
    &&& p.next_header == 17
    &&& b.len() >= 8
    &&& 8 <= be16(b, 4) <= b.len()
    &&& be16(b, 2) == 53
    &&& s.lease matches Some(l) && l.dns_ips.contains(p.dst_addr.bits)
}

/// Where no rule says anything of the destination, packets of every protocol leave for public
/// addresses and for the gateway, and questions for the name servers of the lease, as long as there
/// is room for the flows that they start. These flows are entered. Nothing else leaves.
pub proof fn law_default_destinations_are_reached(s: ProxyView, p: Ipv4Packet, now: Instant)
    requires
        is_ordinary(s, p, now),
        s.rules.decision(p.dst_addr.bits, Direction::Out) is None,
    ensures
        ({
            let (flows, matched) = consulted(s.flows, p, FlowDirection::FromVm, now);
            let o = vm_ipv4_outcome(s, p, now);
            let reachable = is_public(p.dst_addr.bits) || p.dst_addr == s.gateway_ip
                || asks_a_name_server(s, p);
            &&& matched is Candidate || matched is Untracked ==> o.allowed == (reachable
                && has_room(flows, matched))
            &&& matched is Candidate && o.allowed ==> o.flows == with_flow(flows, matched)
            &&& !o.allowed || matched is Untracked ==> o.flows == flows
        }),
{
    law_global_addresses_are_the_public_ones(p.dst_addr.bits);
}

/// Without rules, and so without a table, every packet to a public address or to the gateway
/// leaves, of whatever protocol.
pub proof fn law_without_rules_the_internet_is_reached(s: ProxyView, p: Ipv4Packet, now: Instant)
    requires
        holds(s.lease, p.src_addr, now),
        s.flows is None,
        s.rules.outbound == Map::<(u32, u8), crate::proxy::rules::Action>::empty(),
        is_public(p.dst_addr.bits) || p.dst_addr == s.gateway_ip,
    ensures
        vm_ipv4_outcome(s, p, now).allowed,
{
    crate::proxy::rules::law_no_prefix_no_decision(s.rules, p.dst_addr.bits, Direction::Out);
    law_global_addresses_are_the_public_ones(p.dst_addr.bits);
}

/// The side that has opened a TCP connection can go on with it: under a stateful rule that allows
/// the destination, each further segment leaves as long as the flow is known, and makes it
/// known for five minutes more.
pub proof fn law_the_opener_goes_on(
    s: ProxyView,
    table: FlowsView,
    p: Ipv4Packet,
    t: TcpSegment,
    now: Instant,
    key: FlowKey,
)
    requires
        is_ordinary(s, p, now),
        s.flows == Some(table),
        s.rules.decision(p.dst_addr.bits, Direction::Out) == Some(PolicyDecision::AllowStateful),
        !p.more_frags,
        p.frag_offset == 0,
        p.next_header == 6,
        tcp_segment(p.payload@) == Some(t),
        t.src_port != 0,
        t.dst_port != 0,
        !(t.syn && !t.ack && !t.fin && !t.rst),
        key == (FlowKey::Tcp {
            host_addr: p.dst_addr,
            host_port: t.dst_port,
            vm_addr: p.src_addr,
            vm_port: t.src_port,
        }),
        known(table.flows, key, now),
        table.flows[key].initiating_direction is FromVm,
    ensures
        ({
            let o = vm_ipv4_outcome(s, p, now);
            &&& o.allowed
            &&& o.flows matches Some(after)
            &&& after.flows.contains_key(key)
            &&& after.flows[key].initiating_direction is FromVm
            &&& after.flows[key].expires_at.ticks == tick_after(now, 300)
        }),
{
    crate::laws::flows::law_tcp_segments_follow_their_flow(
        table.swept(now).flows,
        p,
        FlowDirection::FromVm,
        now,
        t,
        (p.dst_addr, t.dst_port),
        (p.src_addr, t.src_port),
    );
}

/// The bytes are an IPv4 packet without options whose lengths agree.
pub open spec fn is_plain_ipv4(b: Seq<u8>) -> bool {
    &&& b.len() >= 20
    &&& b[0] == 0x45
    &&& 20 <= be16(b, 2) <= b.len()
}

/// A frame from the virtual machine that carries an IPv4 packet without options leaves exactly if
/// its packet does; one with options, or with another hardware address, does not.
pub proof fn law_frames_leave_as_their_packets_do(
    s: ProxyView,
    frame: EthernetFrame,
    p: Ipv4Packet,
    now: Instant,
    o: Outcome,
)
    requires
        is_vm_verdict(s, frame, now, o),
        frame.ethertype == 0x0800,
        is_ipv4(p, frame.payload@),
    ensures
        frame.src_addr == s.vm_mac_address && is_plain_ipv4(frame.payload@) ==> o.allowed
            == vm_ipv4_outcome(s, p, now).allowed && o.flows == vm_ipv4_outcome(s, p, now).flows,
        frame.src_addr != s.vm_mac_address || !is_plain_ipv4(frame.payload@) ==> !o.allowed
            && o.flows == s.flows,
{
    let b = frame.payload@;
    if b.len() >= 20 {
        assert(b[0] as int / 16 == 4 && b[0] as int % 16 == 5 <==> b[0] == 0x45);
    }
}

/// A frame with an ARP packet leaves exactly if it carries the machine's own hardware address, inside
/// and outside, asks or answers for IPv4 over Ethernet, and names the leased address as its own
/// or, as long as there has been no lease, none.
pub proof fn law_arp_leaves_with_true_claims(
    s: ProxyView,
    frame: EthernetFrame,
    now: Instant,
    o: Outcome,
)
    requires
        is_vm_verdict(s, frame, now, o),
        frame.ethertype == 0x0806,
    ensures
        o.flows == s.flows,
        o.allowed <==> {
            let b = frame.payload@;
            &&& frame.src_addr == s.vm_mac_address
            &&& b.len() >= 28
            &&& be16(b, 0) == 1
            &&& be16(b, 2) == 0x0800
            &&& b[4] == 6
            &&& b[5] == 4
            &&& be16(b, 6) == 1 || be16(b, 6) == 2
            &&& be48(b, 8) == s.vm_mac_address.bits
            &&& match s.lease {
                Some(l) => be32(b, 14) == l.address.bits && now.ticks < l.valid_until.ticks,
                None => be32(b, 14) == 0,
            }
        },
{
}

/// Frames of other kinds do not leave.
pub proof fn law_other_frames_do_not_leave(
    s: ProxyView,
    frame: EthernetFrame,
    now: Instant,
    o: Outcome,
)
    requires
        is_vm_verdict(s, frame, now, o),
        frame.ethertype != 0x0800,
        frame.ethertype != 0x0806,
    ensures
        !o.allowed,
        o.flows == s.flows,
{
}

} // verus!
