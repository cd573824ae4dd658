//! Connection tracking: who may send within a flow, and until when.

use crate::addr::{be16, Ipv4Address};
use crate::clock::Instant;
use crate::laws::flows::between;
use crate::proxy::conntrack::{
    embryonic_from, embryonic_source_of, has_room, inspection, is_live, unexpired, vm_initiated,
    ConntrackResult, Flow, FlowState, Initiator,
};
use crate::proxy::conntrack_tcp::TcpState;
use crate::proxy::flow_map::{FlowDirection, FlowKey};
use crate::wire::{tcp_segment, Ipv4Packet, TcpSegment};
use vstd::prelude::*;

verus! {

/// The packet is whole, and a TCP segment with these ports and flags between these ends, no port
/// being zero.
pub open spec fn is_segment(
    p: Ipv4Packet,
    direction: FlowDirection,
    t: TcpSegment,
    host: (Ipv4Address, u16),
    vm: (Ipv4Address, u16),
) -> bool {
    &&& !p.more_frags
    &&& p.frag_offset == 0
    &&& p.next_header == 6
    &&& tcp_segment(p.payload@) == Some(t)
    &&& between(direction, (p.src_addr, t.src_port), (p.dst_addr, t.dst_port), host, vm)
    &&& host.1 != 0
    &&& vm.1 != 0
}

/// The flow of TCP between two ends.
pub open spec fn tcp_between(host: (Ipv4Address, u16), vm: (Ipv4Address, u16)) -> FlowKey {
    FlowKey::Tcp { host_addr: host.0, host_port: host.1, vm_addr: vm.0, vm_port: vm.1 }
}

/// The flow of UDP between two ends.
pub open spec fn udp_between(host: (Ipv4Address, u16), vm: (Ipv4Address, u16)) -> FlowKey {
    FlowKey::Udp { host_addr: host.0, host_port: host.1, vm_addr: vm.0, vm_port: vm.1 }
}

/// The packet comes from the side that started the flow.
pub open spec fn comes_from(direction: FlowDirection, side: Initiator) -> bool {
    match side {
        Initiator::Host => direction is FromHost,
        Initiator::Vm => direction is FromVm,
    }
}

pub open spec fn is_bare_syn(t: TcpSegment) -> bool {
    t.syn && !t.ack && !t.fin && !t.rst
}

/// The packet passes, and its flow is known to have come to a state just now. All else that was
/// known is known as before.
pub open spec fn passes_to(
    m: Map<FlowKey, Flow>,
    r: (ConntrackResult, Map<FlowKey, Flow>),
    key: FlowKey,
    state: FlowState,
    now: Instant,
) -> bool {
    &&& r.0 is Allowed
    &&& r.1.contains_key(key)
    &&& r.1[key].initiator == m[key].initiator
    &&& r.1[key].state == state
    &&& r.1[key].last_seen == now
    &&& forall|k: FlowKey|
        k != key ==> (#[trigger] r.1.contains_key(k) == m.contains_key(k) && (m.contains_key(k)
            ==> r.1[k] == m[k]))
}

/// The packet does not pass, and what is known stays as it is.
pub open spec fn is_stopped(
    m: Map<FlowKey, Flow>,
    r: (ConntrackResult, Map<FlowKey, Flow>),
) -> bool {
    r.0 is Denied && r.1 == m
}

/// A connection that is not known can be started by a bare SYN only, from either side; it is then
/// proposed as one that its sender has started, and nothing is entered yet.
pub proof fn law_connections_start_with_a_syn(
    m: Map<FlowKey, Flow>,
    p: Ipv4Packet,
    direction: FlowDirection,
    now: Instant,
    t: TcpSegment,
    host: (Ipv4Address, u16),
    vm: (Ipv4Address, u16),
)
    requires
        is_segment(p, direction, t, host, vm),
        !m.contains_key(tcp_between(host, vm)),
    ensures
        ({
            let r = inspection(m, p, direction, now);
            &&& r.1 == m
            &&& !is_bare_syn(t) ==> r.0 is Denied
            &&& is_bare_syn(t) ==> {
                &&& r.0 matches ConntrackResult::New(pending)
                &&& pending.key == tcp_between(host, vm)
                &&& comes_from(direction, pending.flow.initiator)
                &&& pending.flow.state == FlowState::Tcp(TcpState::SynSent)
                &&& pending.flow.last_seen == now
            }
        }),
{
}

/// A reset passes within a known connection, from either side, and ends it.
pub proof fn law_resets_end_connections(
    m: Map<FlowKey, Flow>,
    p: Ipv4Packet,
    direction: FlowDirection,
    now: Instant,
    t: TcpSegment,
    host: (Ipv4Address, u16),
    vm: (Ipv4Address, u16),
    state: TcpState,
)
    requires
        is_segment(p, direction, t, host, vm),
        t.rst,
        m.contains_key(tcp_between(host, vm)),
        m[tcp_between(host, vm)].state == FlowState::Tcp(state),
    ensures
        inspection(m, p, direction, now).0 is Allowed,
        inspection(m, p, direction, now).1 == m.remove(tcp_between(host, vm)),
{
}

/// While the first SYN is not answered, its sender may repeat it, the other side may answer it with
/// a SYN that acknowledges, and nothing else passes.
pub proof fn law_the_first_syn_is_to_be_answered(
    m: Map<FlowKey, Flow>,
    p: Ipv4Packet,
    direction: FlowDirection,
    now: Instant,
    t: TcpSegment,
    host: (Ipv4Address, u16),
    vm: (Ipv4Address, u16),
)
    requires
        is_segment(p, direction, t, host, vm),
        !t.rst,
        m.contains_key(tcp_between(host, vm)),
        m[tcp_between(host, vm)].state == FlowState::Tcp(TcpState::SynSent),
    ensures
        ({
            let key = tcp_between(host, vm);
            let r = inspection(m, p, direction, now);
            if comes_from(direction, m[key].initiator) {
                &&& is_bare_syn(t) ==> passes_to(m, r, key, FlowState::Tcp(TcpState::SynSent), now)
                &&& !is_bare_syn(t) ==> is_stopped(m, r)
            } else {
                &&& t.syn && t.ack && !t.fin ==> passes_to(
                    m,
                    r,
                    key,
                    FlowState::Tcp(TcpState::SynReceived),
                    now,
                )
                &&& !(t.syn && t.ack && !t.fin) ==> is_stopped(m, r)
            }
        }),
{
}

/// Once the SYN is answered, its sender finishes the handshake with an acknowledgement, which may
/// close its side at once, or repeats the SYN; the other side may repeat the answer; and
/// nothing else passes.
pub proof fn law_the_handshake_is_to_be_finished(
    m: Map<FlowKey, Flow>,
    p: Ipv4Packet,
    direction: FlowDirection,
    now: Instant,
    t: TcpSegment,
    host: (Ipv4Address, u16),
    vm: (Ipv4Address, u16),
)
    requires
        is_segment(p, direction, t, host, vm),
        !t.rst,
        m.contains_key(tcp_between(host, vm)),
        m[tcp_between(host, vm)].state == FlowState::Tcp(TcpState::SynReceived),
    ensures
        ({
            let key = tcp_between(host, vm);
            let r = inspection(m, p, direction, now);
            let waiting = FlowState::Tcp(TcpState::SynReceived);
            let closing = FlowState::Tcp(
                TcpState::Closing { host_fin: direction is FromHost, vm_fin: direction is FromVm },
            );
            if comes_from(direction, m[key].initiator) {
                &&& is_bare_syn(t) ==> passes_to(m, r, key, waiting, now)
                &&& t.ack && !t.syn && !t.fin ==> passes_to(
                    m,
                    r,
                    key,
                    FlowState::Tcp(TcpState::Established),
                    now,
                )
                &&& t.ack && !t.syn && t.fin ==> passes_to(m, r, key, closing, now)
                &&& !is_bare_syn(t) && !(t.ack && !t.syn) ==> is_stopped(m, r)
            } else {
                &&& t.syn && t.ack && !t.fin ==> passes_to(m, r, key, waiting, now)
                &&& !(t.syn && t.ack && !t.fin) ==> is_stopped(m, r)
            }
        }),
{
}

/// Once the handshake is finished, everything passes both ways but a bare SYN of the side that was
/// called. A FIN marks its sender's side as closed; a bare SYN of the side that called starts
/// the connection anew; all else leaves it as it was.
pub proof fn law_finished_handshakes_let_both_sides_send(
    m: Map<FlowKey, Flow>,
    p: Ipv4Packet,
    direction: FlowDirection,
    now: Instant,
    t: TcpSegment,
    host: (Ipv4Address, u16),
    vm: (Ipv4Address, u16),
    state: TcpState,
)
    requires
        is_segment(p, direction, t, host, vm),
        !t.rst,
        m.contains_key(tcp_between(host, vm)),
        m[tcp_between(host, vm)].state == FlowState::Tcp(state),
        state == TcpState::Established || state is Closing,
    ensures
        ({
            let key = tcp_between(host, vm);
            let r = inspection(m, p, direction, now);
            let host_closed = state matches TcpState::Closing { host_fin, .. } && host_fin;
            let vm_closed = state matches TcpState::Closing { vm_fin, .. } && vm_fin;
            let calls = comes_from(direction, m[key].initiator);
            &&& is_bare_syn(t) && calls ==> passes_to(
                m,
                r,
                key,
                FlowState::Tcp(TcpState::SynSent),
                now,
            )
            &&& is_bare_syn(t) && !calls ==> is_stopped(m, r)
            &&& !is_bare_syn(t) && t.fin ==> passes_to(
                m,
                r,
                key,
                FlowState::Tcp(
                    TcpState::Closing {
                        host_fin: host_closed || direction is FromHost,
                        vm_fin: vm_closed || direction is FromVm,
                    },
                ),
                now,
            )
            &&& !is_bare_syn(t) && !t.fin ==> passes_to(m, r, key, FlowState::Tcp(state), now)
        }),
{
}

/// The packet is whole, and a UDP datagram between these ends, no port being zero.
pub open spec fn is_whole_datagram(
    p: Ipv4Packet,
    direction: FlowDirection,
    host: (Ipv4Address, u16),
    vm: (Ipv4Address, u16),
) -> bool {
    let b = p.payload@;
    &&& !p.more_frags
    &&& p.frag_offset == 0
    &&& p.next_header == 17
    &&& b.len() >= 8
    &&& 8 <= be16(b, 4) <= b.len()
    &&& between(
        direction,
        (p.src_addr, be16(b, 0) as u16),
        (p.dst_addr, be16(b, 2) as u16),
        host,
        vm,
    )
    &&& host.1 != 0
    &&& vm.1 != 0
}

/// A datagram of an unknown flow is proposed as its first. Within a known flow datagrams pass both
/// ways, and the flow counts as answered from the first datagram of the other side on.
pub proof fn law_datagrams_pass_both_ways(
    m: Map<FlowKey, Flow>,
    p: Ipv4Packet,
    direction: FlowDirection,
    now: Instant,
    host: (Ipv4Address, u16),
    vm: (Ipv4Address, u16),
)
    requires
        is_whole_datagram(p, direction, host, vm),
    ensures
        ({
            let key = udp_between(host, vm);
            let r = inspection(m, p, direction, now);
            &&& !m.contains_key(key) ==> {
                &&& r.1 == m
                &&& r.0 matches ConntrackResult::New(pending)
                &&& pending.key == key
                &&& comes_from(direction, pending.flow.initiator)
                &&& pending.flow.state matches FlowState::Udp(u)
                &&& !u.replied
                &&& pending.flow.last_seen == now
            }
            &&& m.contains_key(key) && m[key].state is Udp ==> {
                let answered = m[key].state->Udp_0.replied || !comes_from(
                    direction,
                    m[key].initiator,
                );
                passes_to(
                    m,
                    r,
                    key,
                    FlowState::Udp(crate::proxy::conntrack_udp::UdpState { replied: answered }),
                    now,
                )
            }
        }),
{
}

/// Fragments, other protocols, headers that are cut short and ports of zero do not pass.
pub proof fn law_malformed_packets_are_stopped(
    m: Map<FlowKey, Flow>,
    p: Ipv4Packet,
    direction: FlowDirection,
    now: Instant,
)
    requires
        ({
            let b = p.payload@;
            ||| p.more_frags || p.frag_offset != 0
            ||| p.next_header != 6 && p.next_header != 17
            ||| p.next_header == 17 && (b.len() < 8 || be16(b, 4) < 8 || be16(b, 4) > b.len())
            ||| p.next_header == 6 && (b.len() < 20 || b[12] < 80 || b[12] as int / 16 * 4 > b.len())
            ||| b.len() >= 8 && (be16(b, 0) == 0 || be16(b, 2) == 0)
        }),
    ensures
        is_stopped(m, inspection(m, p, direction, now)),
{
}

/// The seconds of silence that a flow outlives: a minute during the handshake, five days once the
/// connection stands, two minutes once it closes, half a minute for an unanswered datagram and
/// three minutes for an exchange of datagrams.
pub open spec fn patience(state: FlowState) -> int {
    match state {
        FlowState::Tcp(TcpState::SynSent) => 60,
        FlowState::Tcp(TcpState::SynReceived) => 60,
        FlowState::Tcp(TcpState::Established) => 432_000,
        FlowState::Tcp(TcpState::Closing { .. }) => 120,
        FlowState::Udp(u) => if u.replied {
            180
        } else {
            30
        },
    }
}

/// A flow is forgotten when nothing was seen of it for as long as its state allows, and is kept as
/// it is until then.
pub proof fn law_silent_flows_are_forgotten(m: Map<FlowKey, Flow>, now: Instant, key: FlowKey)
    ensures
        is_live(m[key], now) <==> now.ticks - m[key].last_seen.ticks < patience(m[key].state)
            * 0x1_0000_0000,
        unexpired(m, now).contains_key(key) <==> m.contains_key(key) && now.ticks
            - m[key].last_seen.ticks < patience(m[key].state) * 0x1_0000_0000,
        unexpired(m, now).contains_key(key) ==> unexpired(m, now)[key] == m[key],
{
}

/// The flow is a TCP connection whose handshake is not finished, started from the address.
pub open spec fn is_opening_from(key: FlowKey, flow: Flow, source: Ipv4Address) -> bool {
    &&& key matches FlowKey::Tcp { host_addr, vm_addr, .. }
    &&& source == if flow.initiator == Initiator::Vm {
        vm_addr
    } else {
        host_addr
    }
    &&& flow.state == FlowState::Tcp(TcpState::SynSent) || flow.state == FlowState::Tcp(
        TcpState::SynReceived,
    )
}

/// Unfinished handshakes are counted for the address that has started them.
pub proof fn law_unfinished_handshakes_are_counted_by_source(
    m: Map<FlowKey, Flow>,
    key: FlowKey,
    flow: Flow,
    source: Ipv4Address,
)
    ensures
        embryonic_source_of(key, flow) == Some(source) <==> is_opening_from(key, flow, source),
        embryonic_from(m, source).contains(key) <==> m.contains_key(key) && is_opening_from(
            key,
            m[key],
            source,
        ),
        vm_initiated(m).contains(key) <==> m.contains_key(key) && m[key].initiator == Initiator::Vm,
{
}

/// There is room for a flow if fewer than 4096 are known, if fewer than 1024 of them were started by
/// the virtual machine in case it starts this one, and if its source has fewer than 256 handshakes
/// unfinished in case it opens another.
pub proof fn law_there_is_room_up_to_the_limits(
    m: Map<FlowKey, Flow>,
    key: FlowKey,
    flow: Flow,
    source: Ipv4Address,
)
    requires
        is_opening_from(key, flow, source) || forall|a: Ipv4Address|
            !#[trigger] is_opening_from(key, flow, a),
    ensures
        has_room(m, key, flow) <==> {
            &&& m.len() < 4096
            &&& flow.initiator == Initiator::Vm ==> vm_initiated(m).len() < 1024
            &&& is_opening_from(key, flow, source) ==> embryonic_from(m, source).len() < 256
        },
{
    law_unfinished_handshakes_are_counted_by_source(m, key, flow, source);
    if let Some(a) = embryonic_source_of(key, flow) {
        law_unfinished_handshakes_are_counted_by_source(m, key, flow, a);
    }
}

} // verus!
