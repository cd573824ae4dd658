//! The table of admitted flows.

use crate::addr::{be16, Ipv4Address};
use crate::clock::Instant;
use crate::proxy::flow_map::{FlowDirection, FlowKey};
use crate::proxy::flows::{flow_match, live, Flow, FlowMatch, FlowTable, PendingFlow};
use crate::proxy::state::{admitted, consulted, FlowsView};
use crate::wire::{echo_header, tcp_segment, EchoHeader, Ipv4Packet, TcpSegment};
use vstd::prelude::*;

verus! {

/// The tick that lies a number of seconds after an instant, or the last one there is.
pub open spec fn tick_after(now: Instant, secs: int) -> int {
    let tick = now.ticks + secs * 0x1_0000_0000;
    if tick <= 0xffff_ffff_ffff_ffff {
        tick
    } else {
        0xffff_ffff_ffff_ffff
    }
}

/// What goes from `src` to `dst` in the direction goes between these ends.
pub open spec fn between(
    direction: FlowDirection,
    src: (Ipv4Address, u16),
    dst: (Ipv4Address, u16),
    host: (Ipv4Address, u16),
    vm: (Ipv4Address, u16),
) -> bool {
    match direction {
        FlowDirection::FromVm => src == vm && dst == host,
        FlowDirection::FromHost => src == host && dst == vm,
    }
}

/// There is an entry for the flow that has not expired.
pub open spec fn known(m: Map<FlowKey, Flow>, key: FlowKey, now: Instant) -> bool {
    m.contains_key(key) && now.ticks < m[key].expires_at.ticks
}

/// The packet is to go to the policy, which may enter this flow for a number of seconds.
pub open spec fn proposes(
    r: FlowMatch,
    key: FlowKey,
    direction: FlowDirection,
    now: Instant,
    secs: int,
) -> bool {
    &&& r matches FlowMatch::Candidate(pending)
    &&& pending.key == key
    &&& pending.flow.initiating_direction == direction
    &&& pending.flow.expires_at.ticks == tick_after(now, secs)
}

/// A TCP segment with a whole header and with ports other than zero is never denied. A bare SYN
/// always goes to the policy, for a minute. Any other segment passes where it travels
/// against the direction of a known flow; where it travels in the direction that the flow
/// was started in, from whichever side, it goes to the policy again, for five minutes; and
/// of a flow that is not known the table says nothing.
pub proof fn law_tcp_segments_follow_their_flow(
    m: Map<FlowKey, Flow>,
    p: Ipv4Packet,
    direction: FlowDirection,
    now: Instant,
    t: TcpSegment,
    host: (Ipv4Address, u16),
    vm: (Ipv4Address, u16),
)
    requires
        !p.more_frags,
        p.frag_offset == 0,
        p.next_header == 6,
        tcp_segment(p.payload@) == Some(t),
        between(direction, (p.src_addr, t.src_port), (p.dst_addr, t.dst_port), host, vm),
    ensures
        ({
            let r = flow_match(m, p, direction, now);
            let key = FlowKey::Tcp {
                host_addr: host.0,
                host_port: host.1,
                vm_addr: vm.0,
                vm_port: vm.1,
            };
            let bare_syn = t.syn && !t.ack && !t.fin && !t.rst;
            let valid = host.1 != 0 && vm.1 != 0;
            &&& r is Denied <==> !valid
            &&& valid && bare_syn ==> proposes(r, key, direction, now, 60)
            &&& valid && !bare_syn && known(m, key, now) && m[key].initiating_direction == direction
                ==> proposes(r, key, direction, now, 300)
            &&& valid && !bare_syn && known(m, key, now) && m[key].initiating_direction != direction
                ==> r is Allowed
            &&& valid && !bare_syn && !known(m, key, now) ==> r is Untracked
        }),
{
}

/// A TCP packet whose header is cut short is denied.
pub proof fn law_cut_tcp_headers_are_denied(
    m: Map<FlowKey, Flow>,
    p: Ipv4Packet,
    direction: FlowDirection,
    now: Instant,
)
    requires
        !p.more_frags,
        p.frag_offset == 0,
        p.next_header == 6,
        p.payload@.len() < 20 || p.payload@[12] < 80 || p.payload@[12] / 16 * 4 > p.payload@.len(),
    ensures
        flow_match(m, p, direction, now) is Denied,
{
}

/// A UDP datagram with a whole header and with ports other than zero is never denied. It passes
/// where it travels against the direction of a known flow, and else goes to the policy, for
/// half a minute.
pub proof fn law_udp_datagrams_follow_their_flow(
    m: Map<FlowKey, Flow>,
    p: Ipv4Packet,
    direction: FlowDirection,
    now: Instant,
    host: (Ipv4Address, u16),
    vm: (Ipv4Address, u16),
)
    requires
        !p.more_frags,
        p.frag_offset == 0,
        p.next_header == 17,
        p.payload@.len() >= 8,
        between(
            direction,
            (p.src_addr, be16(p.payload@, 0) as u16),
            (p.dst_addr, be16(p.payload@, 2) as u16),
            host,
            vm,
        ),
    ensures
        ({
            let r = flow_match(m, p, direction, now);
            let key = FlowKey::Udp {
                host_addr: host.0,
                host_port: host.1,
                vm_addr: vm.0,
                vm_port: vm.1,
            };
            let valid = 8 <= be16(p.payload@, 4) <= p.payload@.len() && host.1 != 0 && vm.1 != 0;
            let answer = known(m, key, now) && m[key].initiating_direction != direction;
            &&& r is Denied <==> !valid
            &&& valid && answer ==> r is Allowed
            &&& valid && !answer ==> proposes(r, key, direction, now, 30)
        }),
{
}

/// A UDP packet that is too short for a header is denied.
pub proof fn law_cut_udp_headers_are_denied(
    m: Map<FlowKey, Flow>,
    p: Ipv4Packet,
    direction: FlowDirection,
    now: Instant,
)
    requires
        !p.more_frags,
        p.frag_offset == 0,
        p.next_header == 17,
        p.payload@.len() < 8,
    ensures
        flow_match(m, p, direction, now) is Denied,
{
}

/// An echo request goes to the policy, for half a minute, under a flow that is named after the
/// ends, the identifier and the direction of the request. An echo reply passes where the request
/// with its identifier came the other way and is not forgotten, and of any other reply and
/// of other ICMP messages the table says nothing. Only what fails its checksum is denied.
pub proof fn law_echo_replies_follow_their_request(
    m: Map<FlowKey, Flow>,
    p: Ipv4Packet,
    direction: FlowDirection,
    now: Instant,
    h: EchoHeader,
    host: Ipv4Address,
    vm: Ipv4Address,
)
    requires
        !p.more_frags,
        p.frag_offset == 0,
        p.next_header == 1,
        echo_header(p.payload@) == Some(h),
        between(direction, (p.src_addr, 0), (p.dst_addr, 0), (host, 0), (vm, 0)),
        forall|k: FlowKey| #[trigger]
            m.contains_key(k) ==> (k matches FlowKey::Echo { initiating_direction, .. }
                ==> initiating_direction == m[k].initiating_direction),
    ensures
        ({
            let r = flow_match(m, p, direction, now);
            let asked = FlowKey::Echo {
                host_addr: host,
                vm_addr: vm,
                ident: h.echo_ident,
                initiating_direction: direction,
            };
            let asked_of_us = FlowKey::Echo {
                host_addr: host,
                vm_addr: vm,
                ident: h.echo_ident,
                initiating_direction: if direction is FromVm {
                    FlowDirection::FromHost
                } else {
                    FlowDirection::FromVm
                },
            };
            let request = h.msg_type == 8 && h.msg_code == 0;
            let reply = h.msg_type == 0 && h.msg_code == 0;
            &&& r is Denied <==> !h.checksum_ok
            &&& h.checksum_ok && request ==> proposes(r, asked, direction, now, 30)
            &&& h.checksum_ok && reply && known(m, asked_of_us, now) ==> r is Allowed
            &&& h.checksum_ok && reply && !known(m, asked_of_us, now) ==> r is Untracked
            &&& h.checksum_ok && !request && !reply ==> r is Untracked
        }),
{
}

/// An ICMP packet that is too short for a header is denied.
pub proof fn law_cut_icmp_headers_are_denied(
    m: Map<FlowKey, Flow>,
    p: Ipv4Packet,
    direction: FlowDirection,
    now: Instant,
)
    requires
        !p.more_frags,
        p.frag_offset == 0,
        p.next_header == 1,
        p.payload@.len() < 8,
    ensures
        flow_match(m, p, direction, now) is Denied,
{
}

/// Of fragments and of other protocols the table says nothing.
pub proof fn law_untrackable_packets_are_left_to_the_policy(
    m: Map<FlowKey, Flow>,
    p: Ipv4Packet,
    direction: FlowDirection,
    now: Instant,
)
    requires
        p.more_frags || p.frag_offset != 0 || (p.next_header != 1 && p.next_header != 6
            && p.next_header != 17),
    ensures
        flow_match(m, p, direction, now) is Untracked,
{
}

/// What an echo request proposes is a flow of the direction in its name, so that a table that is
/// filled from proposals never holds an echo flow of another direction.
pub proof fn law_echo_flows_are_named_after_their_direction(
    m: Map<FlowKey, Flow>,
    p: Ipv4Packet,
    direction: FlowDirection,
    now: Instant,
    pending: PendingFlow,
)
    requires
        flow_match(m, p, direction, now) == FlowMatch::Candidate(pending),
        forall|k: FlowKey| #[trigger]
            m.contains_key(k) ==> (k matches FlowKey::Echo { initiating_direction, .. }
                ==> initiating_direction == m[k].initiating_direction),
    ensures
        pending.flow.initiating_direction == direction,
        pending.key matches FlowKey::Echo { initiating_direction, .. } ==> initiating_direction
            == direction,
{
}

/// The sweep takes away the entries that have expired and no others, and leaves the others as
/// they are.
pub proof fn law_sweep_takes_the_expired(m: Map<FlowKey, Flow>, now: Instant, key: FlowKey)
    ensures
        live(m, now).contains_key(key) <==> m.contains_key(key) && now.ticks
            < m[key].expires_at.ticks,
        live(m, now).contains_key(key) ==> live(m, now)[key] == m[key],
{
}

/// The table is swept when a second has passed since it was swept last, and not before.
pub proof fn law_sweeps_are_a_second_apart(table: FlowTable, view: FlowsView, now: Instant)
    requires
        view.flows == table@,
        view.next_sweep == table.next_sweep,
    ensures
        view.swept(now).flows == table.swept(now),
        view.swept(now).next_sweep == table.sweep_after(now),
        now.ticks < view.next_sweep.ticks ==> table.swept(now) == table@ && table.sweep_after(now)
            == table.next_sweep,
        now.ticks >= view.next_sweep.ticks ==> table.sweep_after(now).ticks == tick_after(now, 1)
            && forall|key: FlowKey|
            {
                &&& #[trigger] table.swept(now).contains_key(key) <==> known(table@, key, now)
                &&& known(table@, key, now) ==> table.swept(now)[key] == table@[key]
            },
{
}

/// To consult the table sweeps it if a sweep is due, and says what its entries make of the packet.
/// Without a table nothing is said.
pub proof fn law_consulting_sweeps_first(
    flows: Option<FlowsView>,
    p: Ipv4Packet,
    direction: FlowDirection,
    now: Instant,
)
    ensures
        flows is None ==> consulted(flows, p, direction, now).0 is None && consulted(
            flows,
            p,
            direction,
            now,
        ).1 is Untracked,
        flows matches Some(table) ==> {
            let (after, r) = consulted(flows, p, direction, now);
            &&& after == Some(table.swept(now))
            &&& r == flow_match(table.flows, p, direction, now)
        },
{
    if let Some(table) = flows {
        crate::proxy::laws::law_sweeping_changes_no_verdict(table.flows, p, direction, now);
    }
}

/// A flow is entered, and its packet passes, where it is known already or the table holds fewer
/// than 32768 flows; else the table stays as it is and the packet does not pass.
pub proof fn law_flows_are_entered_up_to_the_limit(table: FlowsView, pending: PendingFlow)
    ensures
        ({
            let o = admitted(Some(table), pending);
            let room = table.flows.contains_key(pending.key) || table.flows.len() < 32768;
            &&& o.allowed == room
            &&& o.flows matches Some(after)
            &&& after.next_sweep == table.next_sweep
            &&& after.flows == if room {
                table.flows.insert(pending.key, pending.flow)
            } else {
                table.flows
            }
        }),
{
}

/// Where there is no table of flows, no flow can be entered: the packet stops, and there is still no
/// table.
pub proof fn law_without_a_table_no_flow_is_entered(pending: PendingFlow)
    ensures
        !admitted(None, pending).allowed,
        admitted(None, pending).flows is None,
{
}

} // verus!
