//! UDP datagrams.

use super::{candidate_for, existing_match, Flow, FlowMatch, FlowTable, UDP_TIMEOUT_SECS};
use crate::addr::Ipv4Address;
use crate::clock::Instant;
use crate::proxy::flow_map::{FlowDirection, FlowKey};
use crate::wire::{udp_dst_port, udp_src_port, udp_valid, Ipv4Packet, UdpPacket};
use vstd::prelude::*;

verus! {

/// The flow of a UDP datagram that travels from `src` to `dst`.
pub open spec fn udp_key(
    direction: FlowDirection,
    src: (Ipv4Address, u16),
    dst: (Ipv4Address, u16),
) -> FlowKey {
    match direction {
        FlowDirection::FromHost => FlowKey::Udp {
            host_addr: src.0,
            host_port: src.1,
            vm_addr: dst.0,
            vm_port: dst.1,
        },
        FlowDirection::FromVm => FlowKey::Udp {
            host_addr: dst.0,
            host_port: dst.1,
            vm_addr: src.0,
            vm_port: src.1,
        },
    }
}

/// What the entries make of a UDP packet: one that is cut short or names port 0 is denied, and
/// any other that no entry allows is a candidate.
pub open spec fn udp_match(
    m: Map<FlowKey, Flow>,
    p: Ipv4Packet,
    direction: FlowDirection,
    now: Instant,
) -> FlowMatch {
    let b = p.payload@;
    let key = udp_key(direction, (p.src_addr, udp_src_port(b)), (p.dst_addr, udp_dst_port(b)));
    if !udp_valid(b) || udp_dst_port(b) == 0 || udp_src_port(b) == 0 {
        FlowMatch::Denied
    } else {
        match existing_match(m, key, direction, now, UDP_TIMEOUT_SECS) {
            Some(matched) => matched,
            None => candidate_for(key, direction, now, UDP_TIMEOUT_SECS),
        }
    }
}

impl FlowTable {
    pub fn inspect_udp(
        &self,
        ipv4_pkt: &Ipv4Packet,
        direction: FlowDirection,
        now: Instant,
    ) -> (r: FlowMatch)
        requires
            self.wf(),
        ensures
            r == udp_match(self@, *ipv4_pkt, direction, now),
    {
        let udp = match UdpPacket::new_checked(ipv4_pkt.payload) {
            Some(udp) => udp,
            None => {
                return FlowMatch::Denied;
            },
        };
        if udp.dst_port == 0 {
            return FlowMatch::Denied;
        }
        // RFC 8085, section 5.1, says that senders should not use source port zero. Enforcing
        // it keeps the source port's entropy as a protection against injected packets.
        if udp.src_port == 0 {
            return FlowMatch::Denied;
        }
        let key = FlowKey::udp(
            direction,
            (ipv4_pkt.src_addr, udp.src_port),
            (ipv4_pkt.dst_addr, udp.dst_port),
        );
        if let Some(matched) = self.match_existing_flow(key, direction, now, UDP_TIMEOUT_SECS) {
            return matched;
        }
        FlowMatch::candidate(key, direction, now, UDP_TIMEOUT_SECS)
    }
}

impl FlowKey {
    pub fn udp(direction: FlowDirection, src: (Ipv4Address, u16), dst: (Ipv4Address, u16)) -> (r:
        FlowKey)
        ensures
            r == udp_key(direction, src, dst),
    {
        let (host, vm) = direction.host_vm_pair(src, dst);
        FlowKey::Udp { host_addr: host.0, host_port: host.1, vm_addr: vm.0, vm_port: vm.1 }
    }
}

} // verus!
