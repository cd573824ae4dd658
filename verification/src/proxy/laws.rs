//! What holds of the filter as a whole.

use crate::addr::Ipv4Address;
use crate::clock::{Duration, Instant};
use crate::dhcp_snooper::{current_terms, leased};
use crate::proxy::conntrack;
use crate::proxy::flow_map::{FlowDirection, FlowKey};
use crate::proxy::flows::{
    flow_match, live, tcp_key, udp_key, Flow, FlowMatch, PendingFlow, MAX_FLOWS,
};
use crate::proxy::host::{
    disposition, host_ipv4_outcome, is_host_verdict, snooped, DhcpResponseDisposition,
};
use crate::proxy::rule::Direction;
use crate::proxy::rules::PolicyDecision;
use crate::proxy::state::{
    admitted, allowed_with, consulted, refused_with, FlowsView, Outcome, ProxyView,
};
use crate::proxy::vm::{allowed_by_default, is_client_request, is_vm_verdict, vm_ipv4_outcome};
use crate::wire::{
    arp_packet, echo_header, ipv4_header_len, is_ipv4, tcp_segment, udp_dst_port, udp_src_port,
    udp_valid, EthernetFrame, Ipv4Packet, ETHERTYPE_ARP, ETHERTYPE_IPV4, ICMP_ECHO_REPLY,
    ICMP_ECHO_REQUEST, PROTOCOL_ICMP, PROTOCOL_TCP, PROTOCOL_UDP,
};
use vstd::prelude::*;

verus! {

/// The packet `q` is return traffic of `p`: it travels between the same endpoints the other
/// way. A TCP segment that opens a connection is no return traffic, and an echo reply answers
/// only the request with its identifier.
pub open spec fn answers(q: Ipv4Packet, p: Ipv4Packet) -> bool {
    &&& !p.is_fragment() && !q.is_fragment()
    &&& q.next_header == p.next_header
    &&& q.src_addr == p.dst_addr
    &&& q.dst_addr == p.src_addr
    &&& {
        ||| {
            &&& p.next_header == PROTOCOL_UDP
            &&& udp_valid(p.payload@) && udp_valid(q.payload@)
            &&& udp_src_port(q.payload@) == udp_dst_port(p.payload@)
            &&& udp_dst_port(q.payload@) == udp_src_port(p.payload@)
        }
        ||| {
            &&& p.next_header == PROTOCOL_TCP
            &&& tcp_segment(p.payload@) matches Some(sent)
            &&& tcp_segment(q.payload@) matches Some(returned)
            &&& returned.src_port == sent.dst_port
            &&& returned.dst_port == sent.src_port
            &&& !returned.opens()
        }
        ||| {
            &&& p.next_header == PROTOCOL_ICMP
            &&& echo_header(p.payload@) matches Some(sent)
            &&& echo_header(q.payload@) matches Some(returned)
            &&& sent.checksum_ok && sent.msg_type == ICMP_ECHO_REQUEST && sent.msg_code == 0
            &&& returned.checksum_ok && returned.msg_type == ICMP_ECHO_REPLY
                && returned.msg_code == 0
            &&& returned.echo_ident == sent.echo_ident
        }
    }
}

/// Once a flow is entered, its return traffic is allowed until the entry expires.
pub proof fn law_return_traffic_is_allowed(
    m: Map<FlowKey, Flow>,
    p: Ipv4Packet,
    q: Ipv4Packet,
    direction: FlowDirection,
    sent: Instant,
    now: Instant,
    pending: PendingFlow,
)
    requires
        flow_match(m, p, direction, sent) == FlowMatch::Candidate(pending),
        answers(q, p),
        now.ticks < pending.flow.expires_at.ticks,
    ensures
        flow_match(m.insert(pending.key, pending.flow), q, direction.reversed(), now)
            == FlowMatch::Allowed,
{
}

/// Nothing is allowed by the table but traffic against the direction of an entry that has not
/// expired.
pub proof fn law_only_return_traffic_is_allowed(
    m: Map<FlowKey, Flow>,
    p: Ipv4Packet,
    direction: FlowDirection,
    now: Instant,
)
    requires
        flow_match(m, p, direction, now) == FlowMatch::Allowed,
    ensures
        exists|key: FlowKey| #[trigger]
            m.contains_key(key) && now.ticks < m[key].expires_at.ticks
                && m[key].initiating_direction == direction.reversed(),
{
}

/// Removing expired entries changes no verdict.
pub proof fn law_sweeping_changes_no_verdict(
    m: Map<FlowKey, Flow>,
    p: Ipv4Packet,
    direction: FlowDirection,
    now: Instant,
)
    ensures
        flow_match(live(m, now), p, direction, now) == flow_match(m, p, direction, now),
{
}

/// A full table refuses a new flow and keeps all that it has.
pub proof fn law_full_table_fails_closed(table: FlowsView, pending: PendingFlow)
    requires
        table.flows.len() >= MAX_FLOWS,
        !table.flows.contains_key(pending.key),
    ensures
        admitted(Some(table), pending) == refused_with(Some(table)),
{
}

/// A frame that does not carry the virtual machine's own hardware address never leaves it, and
/// neither does a packet with IPv4 options.
pub proof fn law_spoofed_frames_are_refused(
    s: ProxyView,
    frame: EthernetFrame,
    now: Instant,
    o: Outcome,
)
    requires
        is_vm_verdict(s, frame, now, o),
        frame.src_addr != s.vm_mac_address || (frame.ethertype == ETHERTYPE_IPV4 && ipv4_header_len(
            frame.payload@,
        ) != 20),
    ensures
        o == refused_with(s.flows),
{
}

/// Nothing but ARP and IPv4 passes the filter, in either direction.
pub proof fn law_only_arp_and_ipv4_pass(
    s: ProxyView,
    frame: EthernetFrame,
    now: Instant,
    o: Outcome,
)
    requires
        is_vm_verdict(s, frame, now, o) || is_host_verdict(s, frame, now, o),
        frame.ethertype != ETHERTYPE_ARP,
        frame.ethertype != ETHERTYPE_IPV4,
    ensures
        o == refused_with(s.flows),
{
}

/// An ARP packet leaves the virtual machine only if it claims nothing but its own hardware
/// address and the leased address or, as long as there is no lease, no address at all.
pub proof fn law_arp_claims_are_true(s: ProxyView, frame: EthernetFrame, now: Instant, o: Outcome)
    requires
        is_vm_verdict(s, frame, now, o),
        frame.ethertype == ETHERTYPE_ARP,
        o.allowed,
    ensures
        arp_packet(frame.payload@) matches Some(arp) && {
            &&& frame.src_addr == s.vm_mac_address
            &&& arp.source_hardware_addr == s.vm_mac_address
            &&& leased(s.lease, arp.source_protocol_addr, now) || (s.lease is None
                && arp.source_protocol_addr.bits == 0)
        },
{
}

/// From an address without a lease nothing leaves the virtual machine but its own broadcast
/// DHCP requests from the unspecified address.
pub proof fn law_unleased_sources_may_only_ask_for_a_lease(
    s: ProxyView,
    p: Ipv4Packet,
    now: Instant,
)
    requires
        !leased(s.lease, p.src_addr, now),
    ensures
        vm_ipv4_outcome(s, p, now).allowed <==> {
            &&& p.src_addr.bits == 0
            &&& p.dst_addr.bits == 0xffff_ffff
            &&& is_client_request(p, s.vm_mac_address)
        },
        vm_ipv4_outcome(s, p, now).flows == s.flows,
{
}

/// Whatever the rules say, the virtual machine can renew its lease.
pub proof fn law_lease_can_be_renewed(s: ProxyView, p: Ipv4Packet, now: Instant)
    requires
        leased(s.lease, p.src_addr, now),
        p.dst_addr == s.gateway_ip || p.dst_addr.bits == 0xffff_ffff,
        is_client_request(p, s.vm_mac_address),
    ensures
        vm_ipv4_outcome(s, p, now) == allowed_with(s.flows),
{
}

/// A blocked destination can only be reached within a flow that was admitted before, or by
/// asking for a lease.
pub proof fn law_blocked_destinations_are_unreachable(s: ProxyView, p: Ipv4Packet, now: Instant)
    requires
        s.rules.decision(p.dst_addr.bits, Direction::Out) == Some(PolicyDecision::Block),
        !is_client_request(p, s.vm_mac_address),
        consulted(s.flows, p, FlowDirection::FromVm, now).1 != FlowMatch::Allowed,
    ensures
        !vm_ipv4_outcome(s, p, now).allowed,
{
}

/// There is room for the flow that a packet would start, if it would start one.
pub open spec fn room_for(flows: Option<FlowsView>, matched: FlowMatch) -> bool {
    match (flows, matched) {
        (Some(table), FlowMatch::Candidate(pending)) => table.takes(pending),
        _ => true,
    }
}

/// Where no rule says anything, the virtual machine can start flows with the global Internet, the
/// host and the name servers of its lease, as long as there is room for them, and no others.
pub proof fn law_default_policy(s: ProxyView, p: Ipv4Packet, now: Instant)
    requires
        s.rules.decision(p.dst_addr.bits, Direction::Out) is None,
        leased(s.lease, p.src_addr, now),
        !is_client_request(p, s.vm_mac_address),
        consulted(s.flows, p, FlowDirection::FromVm, now).1 is Candidate || consulted(
            s.flows,
            p,
            FlowDirection::FromVm,
            now,
        ).1 is Untracked,
    ensures
        vm_ipv4_outcome(s, p, now).allowed == (allowed_by_default(s, p) && room_for(
            consulted(s.flows, p, FlowDirection::FromVm, now).0,
            consulted(s.flows, p, FlowDirection::FromVm, now).1,
        )),
{
}

/// A reply of the host's DHCP server reaches the virtual machine exactly if it is meant for it,
/// whatever the rules say; and no fragment of the host's datagrams reaches it.
pub proof fn law_foreign_leases_are_invisible(s: ProxyView, p: Ipv4Packet, now: Instant)
    requires
        disposition(p, s.gateway_ip, s.vm_mac_address) != DhcpResponseDisposition::NotDhcp,
    ensures
        host_ipv4_outcome(s, p, now).allowed <==> disposition(p, s.gateway_ip, s.vm_mac_address)
            == DhcpResponseDisposition::Allow,
        p.is_fragment() ==> !host_ipv4_outcome(s, p, now).allowed,
        host_ipv4_outcome(s, p, now).flows == s.flows,
{
}

/// Stateless rules do not concern traffic from the host.
pub proof fn law_stateless_rules_let_the_host_in(s: ProxyView, p: Ipv4Packet, now: Instant)
    requires
        s.flows is None,
        disposition(p, s.gateway_ip, s.vm_mac_address) == DhcpResponseDisposition::NotDhcp,
    ensures
        host_ipv4_outcome(s, p, now).allowed,
{
}

/// With stateful rules, traffic from a blocked source reaches the virtual machine only
/// within a flow that was admitted before.
pub proof fn law_blocked_sources_are_shut_out(s: ProxyView, p: Ipv4Packet, now: Instant)
    requires
        s.flows is Some,
        disposition(p, s.gateway_ip, s.vm_mac_address) == DhcpResponseDisposition::NotDhcp,
        s.rules.decision(p.src_addr.bits, Direction::In) == Some(PolicyDecision::Block),
        !leased(s.lease, p.dst_addr, now) || consulted(
            s.flows,
            p,
            FlowDirection::FromHost,
            now,
        ).1 != FlowMatch::Allowed,
    ensures
        !host_ipv4_outcome(s, p, now).allowed,
{
}

/// The flow that a packet would start is entered when the packet passes under a stateful rule.
proof fn lemma_entry_survives(
    table: FlowsView,
    p: Ipv4Packet,
    q: Ipv4Packet,
    direction: FlowDirection,
    sent: Instant,
    now: Instant,
    pending: PendingFlow,
)
    requires
        flow_match(table.flows, p, direction, sent) == FlowMatch::Candidate(pending),
        answers(q, p),
        now.ticks < pending.flow.expires_at.ticks,
    ensures
        consulted(
            Some(
                FlowsView { flows: table.flows.insert(pending.key, pending.flow), ..table },
            ),
            q,
            direction.reversed(),
            now,
        ).1 == FlowMatch::Allowed,
{
    let flows = table.flows.insert(pending.key, pending.flow);
    law_return_traffic_is_allowed(table.flows, p, q, direction, sent, now, pending);
    law_sweeping_changes_no_verdict(flows, q, direction.reversed(), now);
}

/// With stateful rules, every flow that the virtual machine was allowed to start is answered: the
/// return traffic passes until the flow expires, whatever the rules say of its source.
pub proof fn law_allowed_requests_are_answered(
    s: ProxyView,
    p: Ipv4Packet,
    q: Ipv4Packet,
    sent: Instant,
    now: Instant,
    pending: PendingFlow,
)
    requires
        leased(s.lease, p.src_addr, sent),
        !is_client_request(p, s.vm_mac_address),
        s.rules.mode is Stateful,
        consulted(s.flows, p, FlowDirection::FromVm, sent).1 == FlowMatch::Candidate(pending),
        vm_ipv4_outcome(s, p, sent).allowed,
        answers(q, p),
        leased(s.lease, q.dst_addr, now),
        disposition(q, s.gateway_ip, s.vm_mac_address) == DhcpResponseDisposition::NotDhcp,
        now.ticks < pending.flow.expires_at.ticks,
    ensures
        host_ipv4_outcome(
            (ProxyView { flows: vm_ipv4_outcome(s, p, sent).flows, ..s }),
            q,
            now,
        ).allowed,
{
    if let Some(table) = s.flows {
        lemma_entry_survives(
            table.swept(sent),
            p,
            q,
            FlowDirection::FromVm,
            sent,
            now,
            pending,
        );
    }
}

/// With stateful rules, every flow that was allowed to reach the virtual machine, and whose
/// answers a rule would otherwise decide on, is answered: the return traffic passes until the
/// flow expires, whatever the rules say of its destination.
pub proof fn law_admitted_visitors_are_answered(
    s: ProxyView,
    p: Ipv4Packet,
    q: Ipv4Packet,
    sent: Instant,
    now: Instant,
    pending: PendingFlow,
)
    requires
        leased(s.lease, p.dst_addr, sent),
        disposition(p, s.gateway_ip, s.vm_mac_address) == DhcpResponseDisposition::NotDhcp,
        consulted(s.flows, p, FlowDirection::FromHost, sent).1 == FlowMatch::Candidate(pending),
        s.rules.decision(p.src_addr.bits, Direction::In) is Some || s.rules.stateful_at(
            p.src_addr.bits,
            Direction::Out,
        ),
        host_ipv4_outcome(s, p, sent).allowed,
        answers(q, p),
        leased(s.lease, q.src_addr, now),
        now.ticks < pending.flow.expires_at.ticks,
    ensures
        vm_ipv4_outcome(
            (ProxyView { flows: host_ipv4_outcome(s, p, sent).flows, ..s }),
            q,
            now,
        ).allowed,
{
    if let Some(table) = s.flows {
        lemma_entry_survives(
            table.swept(sent),
            p,
            q,
            FlowDirection::FromHost,
            sent,
            now,
            pending,
        );
    }
}

/// A lease with other terms ends every flow; what was learned otherwise changes none.
pub proof fn law_new_lease_terms_end_all_flows(
    s: ProxyView,
    uncertainty: Duration,
    frame: EthernetFrame,
    now: Instant,
    table: FlowsView,
)
    requires
        s.flows == Some(table),
    ensures
        ({
            let after = snooped(s, uncertainty, frame, now);
            &&& after.flows matches Some(kept)
            &&& kept.next_sweep == table.next_sweep
            &&& kept.flows == if current_terms(s.lease, now) == current_terms(after.lease, now) {
                table.flows
            } else {
                Map::<FlowKey, Flow>::empty()
            }
        }),
{
}

/// Nobody but the gateway can change the lease, and only with an unfragmented DHCP reply to this
/// virtual machine.
pub proof fn law_only_the_gateway_changes_the_lease(
    s: ProxyView,
    uncertainty: Duration,
    frame: EthernetFrame,
    now: Instant,
    p: Ipv4Packet,
)
    requires
        snooped(s, uncertainty, frame, now).lease != s.lease,
        is_ipv4(p, frame.payload@),
    ensures
        frame.ethertype == ETHERTYPE_IPV4,
        p.src_addr == s.gateway_ip,
        !p.is_fragment(),
        disposition(p, s.gateway_ip, s.vm_mac_address) == DhcpResponseDisposition::Allow,
{
}

/// To look at a packet makes no entry: only a commit does.
pub proof fn law_inspection_makes_no_entry(
    m: Map<FlowKey, conntrack::Flow>,
    p: Ipv4Packet,
    direction: FlowDirection,
    now: Instant,
)
    ensures
        conntrack::inspection(m, p, direction, now).1.dom().subset_of(m.dom()),
        conntrack::inspection(m, p, direction, now).0 is Allowed || conntrack::inspection(
            m,
            p,
            direction,
            now,
        ).1 == m,
{
}

/// A packet is allowed only within a flow that was entered, in either direction.
pub proof fn law_only_known_flows_are_allowed(
    m: Map<FlowKey, conntrack::Flow>,
    p: Ipv4Packet,
    direction: FlowDirection,
    now: Instant,
)
    requires
        conntrack::inspection(m, p, direction, now).0 is Allowed,
    ensures
        exists|key: FlowKey| #[trigger]
            m.contains_key(key) && (key == udp_key(
                direction,
                (p.src_addr, udp_src_port(p.payload@)),
                (p.dst_addr, udp_dst_port(p.payload@)),
            ) || (tcp_segment(p.payload@) matches Some(t) && key == tcp_key(
                direction,
                (p.src_addr, t.src_port),
                (p.dst_addr, t.dst_port),
            ))),
{
}

/// Until the handshake is finished, the side that was called may send nothing but the answer
/// to the handshake, or a reset.
pub proof fn law_called_side_waits_for_handshake(
    m: Map<FlowKey, conntrack::Flow>,
    p: Ipv4Packet,
    direction: FlowDirection,
    now: Instant,
    key: FlowKey,
    state: crate::proxy::conntrack_tcp::TcpState,
)
    requires
        p.next_header == PROTOCOL_TCP,
        tcp_segment(p.payload@) matches Some(t) && key == tcp_key(
            direction,
            (p.src_addr, t.src_port),
            (p.dst_addr, t.dst_port),
        ),
        m.contains_key(key),
        m[key].state == conntrack::FlowState::Tcp(state),
        m[key].initiator != conntrack::sender(direction),
        state is SynSent || state is SynReceived,
        conntrack::inspection(m, p, direction, now).0 is Allowed,
    ensures
        tcp_segment(p.payload@) matches Some(t) && (t.rst || (t.syn && t.ack && !t.fin)),
{
}

/// A reset ends a connection for both sides: nothing passes afterwards until it is opened anew.
pub proof fn law_reset_ends_a_connection(
    m: Map<FlowKey, conntrack::Flow>,
    p: Ipv4Packet,
    q: Ipv4Packet,
    direction: FlowDirection,
    now: Instant,
    later: Instant,
)
    requires
        p.next_header == PROTOCOL_TCP,
        tcp_segment(p.payload@) matches Some(t) && t.rst,
        conntrack::inspection(m, p, direction, now).0 is Allowed,
        answers(q, p),
    ensures
        conntrack::inspection(
            conntrack::inspection(m, p, direction, now).1,
            q,
            direction.reversed(),
            later,
        ).0 is Denied,
{
}

/// A datagram that was let through is answered.
pub proof fn law_committed_datagram_is_answered(
    m: Map<FlowKey, conntrack::Flow>,
    p: Ipv4Packet,
    q: Ipv4Packet,
    direction: FlowDirection,
    sent: Instant,
    now: Instant,
    pending: conntrack::PendingFlow,
)
    requires
        p.next_header == PROTOCOL_UDP,
        conntrack::inspection(m, p, direction, sent).0 == conntrack::ConntrackResult::New(pending),
        answers(q, p),
    ensures
        conntrack::inspection(m.insert(pending.key, pending.flow), q, direction.reversed(), now).0
            is Allowed,
{
}

/// No source has more unfinished handshakes than the limit after it has started one more.
pub proof fn law_handshakes_per_source_are_limited(
    m: Map<FlowKey, conntrack::Flow>,
    key: FlowKey,
    flow: conntrack::Flow,
    source: Ipv4Address,
)
    requires
        m.dom().finite(),
        conntrack::has_room(m, key, flow),
        conntrack::embryonic_source_of(key, flow) == Some(source),
    ensures
        conntrack::embryonic_from(m.insert(key, flow), source).len()
            <= conntrack::MAX_EMBRYONIC_FLOWS_PER_SOURCE,
{
    let before = conntrack::embryonic_from(m, source);
    vstd::set_lib::lemma_set_subset_finite(m.dom(), before);
    assert(conntrack::embryonic_from(m.insert(key, flow), source) =~= before.insert(key));
}

} // verus!
