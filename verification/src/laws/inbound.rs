//! What may reach the virtual machine.

use crate::addr::be16;
use crate::clock::{Duration, Instant};
use crate::dhcp_snooper::{lease_after_reply, LeaseView};
use crate::laws::flows::{known, tick_after};
use crate::laws::outbound::{has_room, holds, is_datagram, is_message_about, with_flow};
use crate::proxy::flow_map::{FlowDirection, FlowKey};
use crate::proxy::flows::{Flow, FlowMatch};
use crate::proxy::host::{
    disposition, host_ipv4_outcome, is_host_processing, is_host_verdict, snooped,
    DhcpResponseDisposition,
};
use crate::proxy::rule::Direction;
use crate::proxy::rules::PolicyDecision;
use crate::proxy::state::{consulted, FlowsView, Outcome, ProxyView};
use crate::wire::{is_ipv4, tcp_segment, EthernetFrame, Ipv4Packet, TcpSegment};
use vstd::prelude::*;

verus! {

/// The packet is a datagram of the gateway from a DHCP server to a client, in one piece.
pub open spec fn is_server_datagram(s: ProxyView, p: Ipv4Packet) -> bool {
    &&& p.src_addr == s.gateway_ip
    &&& p.next_header == 17
    &&& !p.more_frags
    &&& p.frag_offset == 0
    &&& is_datagram(p.payload@, 67, 68)
}

/// The packet is a part of a datagram of the gateway.
pub open spec fn is_gateway_fragment(s: ProxyView, p: Ipv4Packet) -> bool {
    &&& p.src_addr == s.gateway_ip
    &&& p.next_header == 17
    &&& p.more_frags || p.frag_offset != 0
}

/// The datagram holds a DHCP reply to this virtual machine.
pub open spec fn is_reply_to_this_client(s: ProxyView, p: Ipv4Packet) -> bool {
    is_message_about(p.payload@.subrange(8, be16(p.payload@, 4)), 2, s.vm_mac_address)
}

/// A DHCP reply of the gateway reaches the virtual machine exactly if it is about it, and no part
/// of a datagram of the gateway does. Neither touches the table of flows.
pub proof fn law_replies_reach_their_client(s: ProxyView, p: Ipv4Packet, now: Instant)
    ensures
        is_server_datagram(s, p) ==> host_ipv4_outcome(s, p, now).allowed
            == is_reply_to_this_client(s, p) && host_ipv4_outcome(s, p, now).flows == s.flows,
        is_gateway_fragment(s, p) ==> !host_ipv4_outcome(s, p, now).allowed && host_ipv4_outcome(
            s,
            p,
            now,
        ).flows == s.flows,
{
}

/// Packets are told apart as far as DHCP is concerned.
pub proof fn law_dhcp_replies_are_told_apart(s: ProxyView, p: Ipv4Packet)
    ensures
        disposition(p, s.gateway_ip, s.vm_mac_address) == if is_gateway_fragment(s, p) {
            DhcpResponseDisposition::Reject
        } else if !is_server_datagram(s, p) {
            DhcpResponseDisposition::NotDhcp
        } else if is_reply_to_this_client(s, p) {
            DhcpResponseDisposition::Allow
        } else {
            DhcpResponseDisposition::Reject
        },
{
}

/// The packet is no matter of DHCP.
pub open spec fn is_ordinary(s: ProxyView, p: Ipv4Packet) -> bool {
    !is_server_datagram(s, p) && !is_gateway_fragment(s, p)
}

/// Where no rule is directional, every ordinary packet from the host reaches the virtual machine.
pub proof fn law_the_host_gets_in_without_directional_rules(
    s: ProxyView,
    p: Ipv4Packet,
    now: Instant,
)
    requires
        is_ordinary(s, p),
        s.flows is None,
    ensures
        host_ipv4_outcome(s, p, now).allowed,
        host_ipv4_outcome(s, p, now).flows is None,
{
}

/// What the table makes of a packet from the host: it is asked about packets to the leased address
/// only.
pub open spec fn asked(s: ProxyView, p: Ipv4Packet, now: Instant) -> (Option<FlowsView>, FlowMatch) {
    if holds(s.lease, p.dst_addr, now) {
        consulted(s.flows, p, FlowDirection::FromHost, now)
    } else {
        (s.flows, FlowMatch::Untracked)
    }
}

/// What answers a flow of the virtual machine reaches it, whatever the rules say, and what the
/// table denies does not.
pub proof fn law_answers_get_in(s: ProxyView, p: Ipv4Packet, now: Instant)
    requires
        is_ordinary(s, p),
        s.flows is Some,
    ensures
        ({
            let (flows, matched) = asked(s, p, now);
            let o = host_ipv4_outcome(s, p, now);
            &&& matched is Allowed ==> o.allowed && o.flows == flows
            &&& matched is Denied ==> !o.allowed && o.flows == flows
        }),
{
}

/// From a blocked source nothing gets in that does not answer a flow.
pub proof fn law_nothing_gets_in_from_blocked_sources(s: ProxyView, p: Ipv4Packet, now: Instant)
    requires
        is_ordinary(s, p),
        s.flows is Some,
        s.rules.decision(p.src_addr.bits, Direction::In) == Some(PolicyDecision::Block),
    ensures
        asked(s, p, now).1 !is Allowed ==> !host_ipv4_outcome(s, p, now).allowed,
        host_ipv4_outcome(s, p, now).flows == asked(s, p, now).0,
{
}

/// From a source that a stateful rule allows, a packet gets in if it starts or continues a flow
/// with the leased address for which there is room, and the flow is entered; a packet of no
/// flow does not get in.
pub proof fn law_stateful_rules_let_flows_in(s: ProxyView, p: Ipv4Packet, now: Instant)
    requires
        is_ordinary(s, p),
        s.flows is Some,
        s.rules.decision(p.src_addr.bits, Direction::In) == Some(PolicyDecision::AllowStateful),
    ensures
        ({
            let (flows, matched) = asked(s, p, now);
            let o = host_ipv4_outcome(s, p, now);
            &&& matched is Candidate ==> o.allowed == has_room(flows, matched)
            &&& matched is Candidate && o.allowed ==> o.flows == with_flow(flows, matched)
            &&& matched is Untracked ==> !o.allowed
            &&& !o.allowed ==> o.flows == flows
        }),
{
}

/// From a source of which no rule about incoming flows says anything, every packet gets in that the
/// table does not deny. Where a rule about outgoing flows speaks of the source, so that the
/// answers would be judged by it, the flow must be entered first, for which there has to be
/// room.
pub proof fn law_unmentioned_sources_get_in(s: ProxyView, p: Ipv4Packet, now: Instant)
    requires
        is_ordinary(s, p),
        s.flows is Some,
        s.rules.mode is Stateful,
        s.rules.decision(p.src_addr.bits, Direction::In) is None,
    ensures
        ({
            let (flows, matched) = asked(s, p, now);
            let o = host_ipv4_outcome(s, p, now);
            let answers_judged = s.rules.decision(p.src_addr.bits, Direction::Out) is Some;
            &&& matched !is Denied && has_room(flows, matched) ==> o.allowed
            &&& matched !is Denied && !answers_judged ==> o.allowed && o.flows == flows
            &&& matched is Untracked ==> o.allowed && o.flows == flows
            &&& matched is Candidate && answers_judged ==> o.allowed == has_room(flows, matched)
            &&& matched is Candidate && answers_judged && o.allowed ==> o.flows == with_flow(
                flows,
                matched,
            )
            &&& !o.allowed ==> o.flows == flows
        }),
{
}

/// The side that has opened a TCP connection can go on with it: under a stateful rule that allows
/// the source, each further segment gets in as long as the flow is known, and makes it known
/// for five minutes more.
pub proof fn law_the_caller_goes_on(
    s: ProxyView,
    table: FlowsView,
    p: Ipv4Packet,
    t: TcpSegment,
    now: Instant,
    key: FlowKey,
)
    requires
        s.flows == Some(table),
        holds(s.lease, p.dst_addr, now),
        s.rules.decision(p.src_addr.bits, Direction::In) == Some(PolicyDecision::AllowStateful),
        !p.more_frags,
        p.frag_offset == 0,
        p.next_header == 6,
        tcp_segment(p.payload@) == Some(t),
        t.src_port != 0,
        t.dst_port != 0,
        !(t.syn && !t.ack && !t.fin && !t.rst),
        key == (FlowKey::Tcp {
            host_addr: p.src_addr,
            host_port: t.src_port,
            vm_addr: p.dst_addr,
            vm_port: t.dst_port,
        }),
        known(table.flows, key, now),
        table.flows[key].initiating_direction is FromHost,
    ensures
        ({
            let o = host_ipv4_outcome(s, p, now);
            &&& o.allowed
            &&& o.flows matches Some(after)
            &&& after.flows.contains_key(key)
            &&& after.flows[key].initiating_direction is FromHost
            &&& after.flows[key].expires_at.ticks == tick_after(now, 300)
        }),
{
    crate::laws::flows::law_tcp_segments_follow_their_flow(
        table.swept(now).flows,
        p,
        FlowDirection::FromHost,
        now,
        t,
        (p.src_addr, t.src_port),
        (p.dst_addr, t.dst_port),
    );
}

/// The bytes are an IPv4 packet whose lengths agree.
pub open spec fn is_ipv4_bytes(b: Seq<u8>) -> bool {
    &&& b.len() >= 20
    &&& b[0] as int / 16 == 4
    &&& 20 <= b[0] as int % 16 * 4 <= be16(b, 2) <= b.len()
}

/// A frame from the host that carries ARP gets in; one that carries an IPv4 packet gets in exactly
/// if its packet does; and no other frame does.
pub proof fn law_frames_get_in_as_their_packets_do(
    s: ProxyView,
    frame: EthernetFrame,
    p: Ipv4Packet,
    now: Instant,
    o: Outcome,
)
    requires
        is_host_verdict(s, frame, now, o),
        is_ipv4(p, frame.payload@),
    ensures
        frame.ethertype == 0x0806 ==> o.allowed && o.flows == s.flows,
        frame.ethertype == 0x0800 && is_ipv4_bytes(frame.payload@) ==> o.allowed
            == host_ipv4_outcome(s, p, now).allowed && o.flows == host_ipv4_outcome(
            s,
            p,
            now,
        ).flows,
        frame.ethertype == 0x0800 && !is_ipv4_bytes(frame.payload@) ==> !o.allowed && o.flows
            == s.flows,
        frame.ethertype != 0x0800 && frame.ethertype != 0x0806 ==> !o.allowed && o.flows == s.flows,
{
}

/// The lease is worth the same at a moment: the address and the name servers of one that has not run
/// out.
pub open spec fn same_worth(a: Option<LeaseView>, b: Option<LeaseView>, now: Instant) -> bool {
    let a_valid = a matches Some(l) && now.ticks < l.valid_until.ticks;
    let b_valid = b matches Some(l) && now.ticks < l.valid_until.ticks;
    &&& a_valid == b_valid
    &&& a_valid ==> a->0.address == b->0.address && a->0.dns_ips == b->0.dns_ips
}

/// From a DHCP reply of the gateway to this virtual machine, and from nothing else, the lease is
/// learned. All flows are forgotten if the address or the name servers are others than before;
/// a mere renewal keeps them.
pub proof fn law_replies_are_learned_from(
    s: ProxyView,
    uncertainty: Duration,
    frame: EthernetFrame,
    p: Ipv4Packet,
    now: Instant,
)
    requires
        is_ipv4(p, frame.payload@),
        is_ipv4_bytes(frame.payload@),
    ensures
        ({
            let after = snooped(s, uncertainty, frame, now);
            let learns = frame.ethertype == 0x0800 && is_server_datagram(s, p)
                && is_reply_to_this_client(s, p);
            &&& !learns ==> after == s
            &&& learns ==> after.lease == lease_after_reply(
                s.lease,
                s.vm_mac_address,
                uncertainty,
                p.payload@.subrange(8, be16(p.payload@, 4)),
                now,
            )
            &&& after.vm_mac_address == s.vm_mac_address
            &&& after.gateway_ip == s.gateway_ip
            &&& after.rules == s.rules
            &&& same_worth(s.lease, after.lease, now) ==> after.flows == s.flows
            &&& !same_worth(s.lease, after.lease, now) ==> match s.flows {
                Some(table) => after.flows == Some(
                    FlowsView {
                        flows: Map::<FlowKey, Flow>::empty(),
                        next_sweep: table.next_sweep,
                    },
                ),
                None => after.flows is None,
            }
        }),
{
    let b = frame.payload@;
    assert(p.payload@ =~= b.subrange(b[0] as int % 16 * 4, be16(b, 2)));
}

/// A frame goes on exactly if it may get in. It is learned from if it goes on and is addressed to the
/// virtual machine or to everyone; else nothing changes but the table of flows.
pub proof fn law_frames_for_the_machine_are_learned_from(
    s: ProxyView,
    uncertainty: Duration,
    frame: EthernetFrame,
    now: Instant,
    forward: bool,
    after: ProxyView,
)
    requires
        is_host_processing(s, uncertainty, frame, now, forward, after),
    ensures
        exists|o: Outcome| #[trigger]
            is_host_verdict(s, frame, now, o) && forward == o.allowed && {
                let passed = ProxyView { flows: o.flows, ..s };
                let addressed = frame.dst_addr.bits == s.vm_mac_address.bits || frame.dst_addr.bits
                    == 0xffff_ffff_ffff;
                &&& forward && addressed ==> after == snooped(passed, uncertainty, frame, now)
                &&& !(forward && addressed) ==> after == passed
            },
{
}

} // verus!
