//! The life of a UDP exchange, as far as it decides who may send.

use crate::clock::Instant;
use crate::proxy::conntrack::{
    initiator, oriented_transport_key, sender, Conntrack, ConntrackResult, Flow, FlowState,
    PendingFlow,
};
use crate::proxy::flow_map::{FlowDirection, FlowKey};
use crate::proxy::flows::udp_key;
use crate::wire::{udp_dst_port, udp_src_port, udp_valid, Ipv4Packet, UdpPacket};
use vstd::prelude::*;

verus! {

pub const UNREPLIED_TIMEOUT_SECS: u64 = 30;

pub const REPLIED_TIMEOUT_SECS: u64 = 180;

/// Whether a flow's first datagram has been answered.
#[derive(Clone, Copy, Debug, PartialEq, Eq, Structural)]
pub struct UdpState {
    pub replied: bool,
}

pub open spec fn udp_timeout_secs(s: UdpState) -> u64 {
    if s.replied {
        REPLIED_TIMEOUT_SECS
    } else {
        UNREPLIED_TIMEOUT_SECS
    }
}

/// What a UDP packet does to the flows: one that is cut short or names port 0 is denied, one of
/// a known flow passes and keeps the flow alive, and any other starts a new flow.
pub open spec fn udp_inspection(
    m: Map<FlowKey, Flow>,
    p: Ipv4Packet,
    direction: FlowDirection,
    now: Instant,
) -> (ConntrackResult, Map<FlowKey, Flow>) {
    let b = p.payload@;
    let key = udp_key(direction, (p.src_addr, udp_src_port(b)), (p.dst_addr, udp_dst_port(b)));
    if !udp_valid(b) || udp_src_port(b) == 0 || udp_dst_port(b) == 0 {
        (ConntrackResult::Denied, m)
    } else if !m.contains_key(key) {
        (
            ConntrackResult::New(
                PendingFlow {
                    key: key,
                    flow: Flow {
                        initiator: sender(direction),
                        state: FlowState::Udp(UdpState { replied: false }),
                        last_seen: now,
                    },
                },
            ),
            m,
        )
    } else {
        match m[key].state {
            FlowState::Tcp(_) => (ConntrackResult::Denied, m),
            FlowState::Udp(s) => (
                ConntrackResult::Allowed,
                m.insert(
                    key,
                    Flow {
                        initiator: m[key].initiator,
                        state: FlowState::Udp(
                            UdpState { replied: s.replied || m[key].initiator != sender(direction) },
                        ),
                        last_seen: now,
                    },
                ),
            ),
        }
    }
}

impl UdpState {
    pub fn timeout_secs(self) -> (r: u64)
        ensures
            r == udp_timeout_secs(self),
    {
        if self.replied {
            REPLIED_TIMEOUT_SECS
        } else {
            UNREPLIED_TIMEOUT_SECS
        }
    }
}

impl Conntrack {
    pub fn inspect_udp(
        &mut self,
        packet: &Ipv4Packet,
        direction: FlowDirection,
        now: Instant,
    ) -> (r: ConntrackResult)
        requires
            old(self).wf(),
        ensures
            final(self).wf(),
            final(self).next_sweep == old(self).next_sweep,
            (r, final(self)@) == udp_inspection(old(self)@, *packet, direction, now),
    {
        let udp = match UdpPacket::new_checked(packet.payload) {
            Some(udp) => udp,
            None => {
                return ConntrackResult::Denied;
            },
        };
        if udp.src_port == 0 || udp.dst_port == 0 {
            return ConntrackResult::Denied;
        }
        let key = oriented_transport_key(packet, direction, false, udp.src_port, udp.dst_port);
        if let Some(flow) = self.flows.get(key) {
            let state = match flow.state {
                FlowState::Udp(state) => state,
                FlowState::Tcp(_) => {
                    return ConntrackResult::Denied;
                },
            };
            let is_reply = flow.initiator != initiator(direction);
            self.update(
                key,
                Flow {
                    initiator: flow.initiator,
                    state: FlowState::Udp(UdpState { replied: state.replied || is_reply }),
                    last_seen: now,
                },
            );
            return ConntrackResult::Allowed;
        }
        ConntrackResult::New(
            PendingFlow {
                key,
                flow: Flow {
                    initiator: initiator(direction),
                    state: FlowState::Udp(UdpState { replied: false }),
                    last_seen: now,
                },
            },
        )
    }
}

} // verus!
