//! The life of a TCP connection, as far as it decides who may send.

use crate::clock::Instant;
use crate::proxy::conntrack::{
    initiator, oriented_transport_key, sender, Conntrack, ConntrackResult, Flow, FlowState,
    PendingFlow,
};
use crate::proxy::flow_map::{FlowDirection, FlowKey};
use crate::proxy::flows::tcp_key;
use crate::wire::{is_initial_syn, tcp_segment, Ipv4Packet, TcpSegment};
use vstd::prelude::*;

verus! {

pub const HANDSHAKE_TIMEOUT_SECS: u64 = 60;

/// Five days.
pub const ESTABLISHED_TIMEOUT_SECS: u64 = 432_000;

pub const CLOSING_TIMEOUT_SECS: u64 = 120;

#[derive(Clone, Copy, Debug, PartialEq, Eq, Structural)]
pub enum TcpState {
    SynSent,
    SynReceived,
    Established,
    Closing { host_fin: bool, vm_fin: bool },
}

pub open spec fn tcp_timeout_secs(s: TcpState) -> u64 {
    match s {
        TcpState::SynSent | TcpState::SynReceived => HANDSHAKE_TIMEOUT_SECS,
        TcpState::Established => ESTABLISHED_TIMEOUT_SECS,
        TcpState::Closing { .. } => CLOSING_TIMEOUT_SECS,
    }
}

/// A connection that the sender has closed on its side.
pub open spec fn closed_by(direction: FlowDirection) -> TcpState {
    TcpState::Closing { host_fin: direction is FromHost, vm_fin: direction is FromVm }
}

/// Where a segment without a reset leads: nowhere if it is not allowed.
///
/// Until the handshake is finished, the initiator may repeat its first segment and
/// acknowledge the answer, and the other side may only answer. After that everything
/// passes, except that only the initiator may start the connection anew.
pub open spec fn tcp_step(
    s: TcpState,
    t: TcpSegment,
    from_initiator: bool,
    direction: FlowDirection,
) -> Option<TcpState> {
    let answers = t.syn && t.ack && !t.fin;
    match s {
        TcpState::SynSent => if from_initiator && t.opens() {
            Some(TcpState::SynSent)
        } else if !from_initiator && answers {
            Some(TcpState::SynReceived)
        } else {
            None
        },
        TcpState::SynReceived => if from_initiator && t.opens() {
            Some(TcpState::SynReceived)
        } else if from_initiator && t.ack && !t.syn {
            if t.fin {
                Some(closed_by(direction))
            } else {
                Some(TcpState::Established)
            }
        } else if !from_initiator && answers {
            Some(TcpState::SynReceived)
        } else {
            None
        },
        _ => if t.opens() {
            if from_initiator {
                Some(TcpState::SynSent)
            } else {
                None
            }
        } else if t.fin {
            match s {
                TcpState::Closing { host_fin, vm_fin } => Some(
                    TcpState::Closing {
                        host_fin: host_fin || direction is FromHost,
                        vm_fin: vm_fin || direction is FromVm,
                    },
                ),
                _ => Some(closed_by(direction)),
            }
        } else {
            Some(s)
        },
    }
}

/// What a TCP packet does to the flows.
pub open spec fn tcp_inspection(
    m: Map<FlowKey, Flow>,
    p: Ipv4Packet,
    direction: FlowDirection,
    now: Instant,
) -> (ConntrackResult, Map<FlowKey, Flow>) {
    match tcp_segment(p.payload@) {
        None => (ConntrackResult::Denied, m),
        Some(t) => {
            let key = tcp_key(direction, (p.src_addr, t.src_port), (p.dst_addr, t.dst_port));
            if t.src_port == 0 || t.dst_port == 0 {
                (ConntrackResult::Denied, m)
            } else if m.contains_key(key) {
                known_tcp_inspection(m, key, t, direction, now)
            } else if t.opens() {
                (
                    ConntrackResult::New(
                        PendingFlow {
                            key: key,
                            flow: Flow {
                                initiator: sender(direction),
                                state: FlowState::Tcp(TcpState::SynSent),
                                last_seen: now,
                            },
                        },
                    ),
                    m,
                )
            } else {
                (ConntrackResult::Denied, m)
            }
        },
    }
}

/// What a segment of a known flow does: a reset ends the flow, an allowed segment moves it on
/// and keeps it alive, and a denied one leaves it as it is.
pub open spec fn known_tcp_inspection(
    m: Map<FlowKey, Flow>,
    key: FlowKey,
    t: TcpSegment,
    direction: FlowDirection,
    now: Instant,
) -> (ConntrackResult, Map<FlowKey, Flow>) {
    let flow = m[key];
    match flow.state {
        FlowState::Udp(_) => (ConntrackResult::Denied, m),
        FlowState::Tcp(s) => if t.rst {
            (ConntrackResult::Allowed, m.remove(key))
        } else {
            match tcp_step(s, t, flow.initiator == sender(direction), direction) {
                None => (ConntrackResult::Denied, m),
                Some(next) => (
                    ConntrackResult::Allowed,
                    m.insert(
                        key,
                        Flow {
                            initiator: flow.initiator,
                            state: FlowState::Tcp(next),
                            last_seen: now,
                        },
                    ),
                ),
            }
        },
    }
}

fn fins(direction: FlowDirection) -> (r: TcpState)
    ensures
        r == closed_by(direction),
{
    match direction {
        FlowDirection::FromHost => TcpState::Closing { host_fin: true, vm_fin: false },
        FlowDirection::FromVm => TcpState::Closing { host_fin: false, vm_fin: true },
    }
}

impl TcpState {
    pub fn timeout_secs(self) -> (r: u64)
        ensures
            r == tcp_timeout_secs(self),
    {
        match self {
            TcpState::SynSent | TcpState::SynReceived => HANDSHAKE_TIMEOUT_SECS,
            TcpState::Established => ESTABLISHED_TIMEOUT_SECS,
            TcpState::Closing { .. } => CLOSING_TIMEOUT_SECS,
        }
    }

    /// The state after a segment without a reset, or nothing if the segment is not allowed.
    pub fn step(self, tcp: &TcpSegment, from_initiator: bool, direction: FlowDirection) -> (r:
        Option<TcpState>)
        ensures
            r == tcp_step(self, *tcp, from_initiator, direction),
    {
        let opens = is_initial_syn(tcp);
        let answers = tcp.syn && tcp.ack && !tcp.fin;
        match self {
            TcpState::SynSent => if from_initiator {
                if opens {
                    Some(TcpState::SynSent)
                } else {
                    None
                }
            } else if answers {
                Some(TcpState::SynReceived)
            } else {
                None
            },
            TcpState::SynReceived => if from_initiator {
                if opens {
                    Some(TcpState::SynReceived)
                } else if tcp.ack && !tcp.syn {
                    if tcp.fin {
                        Some(fins(direction))
                    } else {
                        Some(TcpState::Established)
                    }
                } else {
                    None
                }
            } else if answers {
                Some(TcpState::SynReceived)
            } else {
                None
            },
            TcpState::Established => if opens {
                if from_initiator {
                    Some(TcpState::SynSent)
                } else {
                    None
                }
            } else if tcp.fin {
                Some(fins(direction))
            } else {
                Some(TcpState::Established)
            },
            TcpState::Closing { host_fin, vm_fin } => if opens {
                if from_initiator {
                    Some(TcpState::SynSent)
                } else {
                    None
                }
            } else if tcp.fin {
                match direction {
                    FlowDirection::FromHost => Some(TcpState::Closing { host_fin: true, vm_fin }),
                    FlowDirection::FromVm => Some(TcpState::Closing { host_fin, vm_fin: true }),
                }
            } else {
                Some(TcpState::Closing { host_fin, vm_fin })
            },
        }
    }
}

impl Conntrack {
    pub fn inspect_tcp(
        &mut self,
        packet: &Ipv4Packet,
        direction: FlowDirection,
        now: Instant,
    ) -> (r: ConntrackResult)
        requires
            old(self).wf(),
        ensures
            final(self).wf(),
            final(self).next_sweep == old(self).next_sweep,
            (r, final(self)@) == tcp_inspection(old(self)@, *packet, direction, now),
    {
        let tcp = match TcpSegment::new_checked(packet.payload) {
            Some(tcp) => tcp,
            None => {
                return ConntrackResult::Denied;
            },
        };
        if tcp.src_port == 0 || tcp.dst_port == 0 {
            return ConntrackResult::Denied;
        }
        let key = oriented_transport_key(packet, direction, true, tcp.src_port, tcp.dst_port);
        if let Some(flow) = self.flows.get(key) {
            let from_initiator = flow.initiator == initiator(direction);
            let state = match flow.state {
                FlowState::Tcp(state) => state,
                FlowState::Udp(_) => {
                    return ConntrackResult::Denied;
                },
            };
            if tcp.rst {
                self.forget(key);
                return ConntrackResult::Allowed;
            }
            return match state.step(&tcp, from_initiator, direction) {
                Some(next) => {
                    self.update(
                        key,
                        Flow {
                            initiator: flow.initiator,
                            state: FlowState::Tcp(next),
                            last_seen: now,
                        },
                    );
                    ConntrackResult::Allowed
                },
                None => ConntrackResult::Denied,
            };
        }
        if !is_initial_syn(&tcp) {
            return ConntrackResult::Denied;
        }
        ConntrackResult::New(
            PendingFlow {
                key,
                flow: Flow {
                    initiator: initiator(direction),
                    state: FlowState::Tcp(TcpState::SynSent),
                    last_seen: now,
                },
            },
        )
    }
}

} // verus!
