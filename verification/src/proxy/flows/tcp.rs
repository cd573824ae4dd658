//! TCP segments.

use super::{
    candidate_for, existing_match, Flow, FlowMatch, FlowTable, SYN_TIMEOUT_SECS, TCP_TIMEOUT_SECS,
};
use crate::addr::Ipv4Address;
use crate::clock::Instant;
use crate::proxy::flow_map::{FlowDirection, FlowKey};
use crate::wire::{is_initial_syn, tcp_segment, Ipv4Packet, TcpSegment};
use vstd::prelude::*;

verus! {

/// The flow of a TCP segment that travels from `src` to `dst`.
pub open spec fn tcp_key(
    direction: FlowDirection,
    src: (Ipv4Address, u16),
    dst: (Ipv4Address, u16),
) -> FlowKey {
    match direction {
        FlowDirection::FromHost => FlowKey::Tcp {
            host_addr: src.0,
            host_port: src.1,
            vm_addr: dst.0,
            vm_port: dst.1,
        },
        FlowDirection::FromVm => FlowKey::Tcp {
            host_addr: dst.0,
            host_port: dst.1,
            vm_addr: src.0,
            vm_port: src.1,
        },
    }
}

/// What the entries make of a TCP packet: one that is cut short or names port 0 is
/// denied, the first segment of a connection is always a candidate, and any other
/// needs an entry.
pub open spec fn tcp_match(
    m: Map<FlowKey, Flow>,
    p: Ipv4Packet,
    direction: FlowDirection,
    now: Instant,
) -> FlowMatch {
    match tcp_segment(p.payload@) {
        None => FlowMatch::Denied,
        Some(t) => {
            let key = tcp_key(direction, (p.src_addr, t.src_port), (p.dst_addr, t.dst_port));
            if t.src_port == 0 || t.dst_port == 0 {
                FlowMatch::Denied
            } else if t.opens() {
                candidate_for(key, direction, now, SYN_TIMEOUT_SECS)
            } else {
                match existing_match(m, key, direction, now, TCP_TIMEOUT_SECS) {
                    Some(matched) => matched,
                    None => FlowMatch::Untracked,
                }
            }
        },
    }
}

impl FlowTable {
    pub fn inspect_tcp(
        &self,
        ipv4_pkt: &Ipv4Packet,
        direction: FlowDirection,
        now: Instant,
    ) -> (r: FlowMatch)
        requires
            self.wf(),
        ensures
            r == tcp_match(self@, *ipv4_pkt, direction, now),
    {
        let tcp = match TcpSegment::new_checked(ipv4_pkt.payload) {
            Some(tcp) => tcp,
            None => {
                return FlowMatch::Denied;
            },
        };
        if tcp.src_port == 0 || tcp.dst_port == 0 {
            return FlowMatch::Denied;
        }
        let key = FlowKey::tcp(
            direction,
            (ipv4_pkt.src_addr, tcp.src_port),
            (ipv4_pkt.dst_addr, tcp.dst_port),
        );

        // A bare SYN is either a retransmission or a new connection that reuses the tuple, from
        // either side. It always goes to the policy, and a known permission stays in
        // place until the candidate is committed.
        if is_initial_syn(&tcp) {
            return FlowMatch::candidate(key, direction, now, SYN_TIMEOUT_SECS);
        }
        match self.match_existing_flow(key, direction, now, TCP_TIMEOUT_SECS) {
            Some(matched) => matched,
            None => FlowMatch::Untracked,
        }
    }
}

impl FlowKey {
    pub fn tcp(direction: FlowDirection, src: (Ipv4Address, u16), dst: (Ipv4Address, u16)) -> (r:
        FlowKey)
        ensures
            r == tcp_key(direction, src, dst),
    {
        let (host, vm) = direction.host_vm_pair(src, dst);
        FlowKey::Tcp { host_addr: host.0, host_port: host.1, vm_addr: vm.0, vm_port: vm.1 }
    }
}

} // verus!
