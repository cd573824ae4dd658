//! Frames from the host to the virtual machine.

use crate::addr::{be16, EthernetAddress, Ipv4Address};
use crate::clock::Instant;
use crate::dhcp::{
    client_message, is_for_client, message_matches_bootp_client, DhcpMessage, BOOT_REPLY,
};
use crate::dhcp_snooper::{
    current_terms, has_valid_lease, lease_after_reply, leased, same_terms,
};
use crate::proxy::flow_map::{FlowDirection, FlowKey};
use crate::proxy::flows::{Flow, FlowMatch};
use crate::proxy::rule::Direction;
use crate::proxy::rules::PolicyDecision;
use crate::proxy::state::{
    admitted, admitted_if_stateful, allowed_with, consulted, pending_of, refused_with, FlowsView,
    Outcome, Proxy, ProxyView,
};
use crate::proxy::udp_packet_helper::response_ports;
use crate::wire::{
    ipv4_acceptable, ipv4_header_len, ipv4_lengths_agree, is_ipv4, udp_dst_port, udp_payload,
    udp_src_port, udp_valid, EthernetFrame, Ipv4Packet, UdpPacket, ETHERTYPE_ARP, ETHERTYPE_IPV4,
    PROTOCOL_UDP,
};
use vstd::prelude::*;

verus! {

/// Tells traffic that is not DHCP from replies that may pass and replies that may not.
#[derive(Clone, Copy, Debug, PartialEq, Eq, Structural)]
pub enum DhcpResponseDisposition {
    NotDhcp,
    Allow,
    Reject,
}

/// What an IPv4 packet from the host is, as far as DHCP is concerned. Fragments of the
/// gateway's datagrams cannot be told apart and are rejected.
pub open spec fn disposition(
    p: Ipv4Packet,
    gateway_ip: Ipv4Address,
    mac: EthernetAddress,
) -> DhcpResponseDisposition {
    let u = p.payload@;
    if p.src_addr != gateway_ip || p.next_header != PROTOCOL_UDP {
        DhcpResponseDisposition::NotDhcp
    } else if p.is_fragment() {
        DhcpResponseDisposition::Reject
    } else if !udp_valid(u) || !response_ports(udp_src_port(u), udp_dst_port(u)) {
        DhcpResponseDisposition::NotDhcp
    } else if client_message(udp_payload(u)) matches Some(m) && is_for_client(m, BOOT_REPLY, mac) {
        DhcpResponseDisposition::Allow
    } else {
        DhcpResponseDisposition::Reject
    }
}

/// Classifies an IPv4 packet from the host.
pub fn classify_dhcp_response(
    ipv4_pkt: &Ipv4Packet,
    gateway_ip: Ipv4Address,
    vm_mac_address: EthernetAddress,
) -> (r: DhcpResponseDisposition)
    ensures
        r == disposition(*ipv4_pkt, gateway_ip, vm_mac_address),
{
    if ipv4_pkt.src_addr != gateway_ip || ipv4_pkt.next_header != PROTOCOL_UDP {
        return DhcpResponseDisposition::NotDhcp;
    }
    // The first fragment's UDP length covers the whole datagram and later ones have no
    // UDP header. To call them anything but rejected would let a guest piece together a
    // reply that is meant for another.
    if ipv4_pkt.more_frags || ipv4_pkt.frag_offset != 0 {
        return DhcpResponseDisposition::Reject;
    }
    let udp_pkt = match UdpPacket::new_checked(ipv4_pkt.payload) {
        Some(udp_pkt) => udp_pkt,
        None => {
            return DhcpResponseDisposition::NotDhcp;
        },
    };
    if !udp_pkt.is_dhcp_response() {
        return DhcpResponseDisposition::NotDhcp;
    }
    let message = match DhcpMessage::decode(udp_pkt.payload) {
        Some(message) => message,
        None => {
            return DhcpResponseDisposition::Reject;
        },
    };
    if message_matches_bootp_client(&message, BOOT_REPLY, vm_mac_address) {
        DhcpResponseDisposition::Allow
    } else {
        DhcpResponseDisposition::Reject
    }
}

/// The verdict on an IPv4 packet from the host. DHCP replies are judged by the client they name.
/// Everything else passes where the rules are stateless; else the flow table is consulted
/// for packets to the leased address, and then the policy.
pub open spec fn host_ipv4_outcome(s: ProxyView, p: Ipv4Packet, now: Instant) -> Outcome {
    match disposition(p, s.gateway_ip, s.vm_mac_address) {
        DhcpResponseDisposition::Allow => allowed_with(s.flows),
        DhcpResponseDisposition::Reject => refused_with(s.flows),
        DhcpResponseDisposition::NotDhcp => if s.flows is None {
            allowed_with(s.flows)
        } else {
            let (flows, matched) = if leased(s.lease, p.dst_addr, now) {
                consulted(s.flows, p, FlowDirection::FromHost, now)
            } else {
                (s.flows, FlowMatch::Untracked)
            };
            match matched {
                FlowMatch::Allowed => allowed_with(flows),
                FlowMatch::Denied => refused_with(flows),
                _ => match s.rules.decision(p.src_addr.bits, Direction::In) {
                    Some(PolicyDecision::Block) => refused_with(flows),
                    Some(PolicyDecision::AllowStateless) => refused_with(flows),
                    Some(PolicyDecision::AllowStateful) => match pending_of(matched) {
                        Some(pending) => admitted(flows, pending),
                        None => refused_with(flows),
                    },
                    None => admitted_if_stateful(
                        flows,
                        pending_of(matched),
                        s.rules,
                        p.src_addr,
                        Direction::Out,
                    ),
                },
            }
        },
    }
}

/// The verdict `o` is the right one for a frame from the host.
pub open spec fn is_host_verdict(
    s: ProxyView,
    frame: EthernetFrame,
    now: Instant,
    o: Outcome,
) -> bool {
    let b = frame.payload@;
    if frame.ethertype == ETHERTYPE_ARP {
        o == allowed_with(s.flows)
    } else if frame.ethertype == ETHERTYPE_IPV4 && ipv4_acceptable(b) {
        exists|p: Ipv4Packet| #[trigger] is_ipv4(p, b) && o == host_ipv4_outcome(s, p, now)
    } else {
        o == refused_with(s.flows)
    }
}

/// The DHCP reply for this client that a frame's payload carries, if it carries one.
pub open spec fn snooped_reply(s: ProxyView, b: Seq<u8>) -> Option<Seq<u8>> {
    let u = b.subrange(ipv4_header_len(b), be16(b, 2));
    if ipv4_lengths_agree(b) && crate::addr::be32(b, 12) == s.gateway_ip.bits && b[9] == PROTOCOL_UDP
        && b[6] as int / 32 % 2 == 0 && be16(b, 6) % 8192 == 0 && udp_valid(u) && response_ports(
        udp_src_port(u),
        udp_dst_port(u),
    ) && (client_message(udp_payload(u)) matches Some(m) && is_for_client(
        m,
        BOOT_REPLY,
        s.vm_mac_address,
    )) {
        Some(udp_payload(u))
    } else {
        None
    }
}

/// What snooping on a frame has taught: the lease after the reply that it carries, and a flow
/// table that is emptied if the terms of the lease have changed.
pub open spec fn snooped(
    s: ProxyView,
    uncertainty: crate::clock::Duration,
    frame: EthernetFrame,
    now: Instant,
) -> ProxyView {
    let reply = if frame.ethertype == ETHERTYPE_IPV4 {
        snooped_reply(s, frame.payload@)
    } else {
        None
    };
    match reply {
        None => s,
        Some(bytes) => {
            let lease = lease_after_reply(s.lease, s.vm_mac_address, uncertainty, bytes, now);
            ProxyView {
                lease: lease,
                flows: match s.flows {
                    Some(table) => if current_terms(s.lease, now) != current_terms(lease, now) {
                        Some(
                            FlowsView {
                                flows: Map::<FlowKey, Flow>::empty(),
                                next_sweep: table.next_sweep,
                            },
                        )
                    } else {
                        s.flows
                    },
                    None => None,
                },
                ..s
            }
        },
    }
}

/// What a frame from the host leads to: if it may pass and is addressed to the virtual machine,
/// it is snooped on.
pub open spec fn is_host_processing(
    s: ProxyView,
    uncertainty: crate::clock::Duration,
    frame: EthernetFrame,
    now: Instant,
    forward: bool,
    after: ProxyView,
) -> bool {
    exists|o: Outcome|
        {
            &&& #[trigger] is_host_verdict(s, frame, now, o)
            &&& forward == o.allowed
            &&& after == if o.allowed && (frame.dst_addr == s.vm_mac_address || frame.dst_addr.bits
                == 0xffff_ffff_ffff) {
                snooped((ProxyView { flows: o.flows, ..s }), uncertainty, frame, now)
            } else {
                ProxyView { flows: o.flows, ..s }
            }
        }
}

impl Proxy {
    /// Decides whether a frame from the host goes on to the virtual machine, and learns from it,
    /// as of the latest clock update.
    pub fn process_frame_from_host(&mut self, frame: &EthernetFrame) -> (r: bool)
        requires
            old(self).wf(),
        ensures
            final(self).wf(),
            final(self).conntrack == old(self).conntrack,
            final(self).enobufs_encountered == old(self).enobufs_encountered,
            final(self).dhcp_snooper.uncertainty_duration == old(
                self,
            ).dhcp_snooper.uncertainty_duration,
            exists|now: Instant| #[trigger]
                is_host_processing(
                    old(self)@,
                    old(self).dhcp_snooper.uncertainty_duration,
                    *frame,
                    now,
                    r,
                    final(self)@,
                ),
    {
        self.process_frame_from_host_at(frame, Instant::recent())
    }

    pub fn process_frame_from_host_at(&mut self, frame: &EthernetFrame, now: Instant) -> (r: bool)
        requires
            old(self).wf(),
        ensures
            final(self).wf(),
            final(self).conntrack == old(self).conntrack,
            final(self).enobufs_encountered == old(self).enobufs_encountered,
            final(self).dhcp_snooper.uncertainty_duration == old(
                self,
            ).dhcp_snooper.uncertainty_duration,
            is_host_processing(
                old(self)@,
                old(self).dhcp_snooper.uncertainty_duration,
                *frame,
                now,
                r,
                final(self)@,
            ),
    {
        let forward = self.allowed_from_host_at(frame, now);
        let ghost o = Outcome { allowed: forward, flows: self@.flows };
        assert(is_host_verdict(old(self)@, *frame, now, o));
        assert(self@ == (ProxyView { flows: o.flows, ..old(self)@ }));
        if forward && (frame.dst_addr == self.vm_mac_address || frame.dst_addr.is_broadcast()) {
            self.snoop_at(frame, now);
        }
        forward
    }

    /// Decides whether a frame from the host goes on to the virtual machine.
    pub fn allowed_from_host_at(&mut self, frame: &EthernetFrame, now: Instant) -> (r: bool)
        requires
            old(self).wf(),
        ensures
            final(self).wf(),
            final(self).only_flows_differ(old(self)),
            is_host_verdict(
                old(self)@,
                *frame,
                now,
                (Outcome { allowed: r, flows: final(self)@.flows }),
            ),
    {
        if frame.ethertype == ETHERTYPE_ARP {
            true
        } else if frame.ethertype == ETHERTYPE_IPV4 {
            match Ipv4Packet::parse(frame.payload) {
                Some(ipv4_pkt) => {
                    let r = self.allowed_from_host_ipv4_at(&ipv4_pkt, now);
                    assert(is_ipv4(ipv4_pkt, frame.payload@));
                    r
                },
                None => false,
            }
        } else {
            false
        }
    }

    pub fn allowed_from_host_ipv4_at(&mut self, ipv4_pkt: &Ipv4Packet, now: Instant) -> (r: bool)
        requires
            old(self).wf(),
            ipv4_pkt.wf(),
        ensures
            final(self).wf(),
            final(self).only_flows_differ(old(self)),
            (Outcome { allowed: r, flows: final(self)@.flows }) == host_ipv4_outcome(
                old(self)@,
                *ipv4_pkt,
                now,
            ),
    {
        match self.dhcp_response_disposition(ipv4_pkt) {
            DhcpResponseDisposition::NotDhcp => {},
            DhcpResponseDisposition::Allow => {
                return true;
            },
            DhcpResponseDisposition::Reject => {
                return false;
            },
        }
        if self.flows.is_none() {
            return true;
        }
        // The flow table comes before the policy, so that established flows are not taken for
        // new traffic.
        let pending = if has_valid_lease(self.dhcp_snooper.lease(), ipv4_pkt.dst_addr, now) {
            match self.consult(ipv4_pkt, FlowDirection::FromHost, now) {
                FlowMatch::Allowed => {
                    return true;
                },
                FlowMatch::Denied => {
                    return false;
                },
                FlowMatch::Candidate(pending) => Some(pending),
                FlowMatch::Untracked => None,
            }
        } else {
            None
        };
        match self.rules.policy_decision(ipv4_pkt.src_addr, Direction::In) {
            Some(PolicyDecision::Block) => false,
            // Stateless rules concern outgoing packets only; fail closed all the same.
            Some(PolicyDecision::AllowStateless) => false,
            // What cannot be tracked cannot satisfy a stateful policy.
            Some(PolicyDecision::AllowStateful) => match pending {
                Some(pending) => self.admit_with_tracking(pending),
                None => false,
            },
            // Such traffic is tracked only where its replies would be taken for new
            // outgoing flows.
            None => self.admit_with_tracking_if_stateful(
                pending,
                ipv4_pkt.src_addr,
                Direction::Out,
            ),
        }
    }

    /// Learns from a DHCP reply, if the frame carries one for this client.
    pub fn snoop_at(&mut self, frame: &EthernetFrame, now: Instant)
        requires
            old(self).wf(),
        ensures
            final(self).wf(),
            final(self).conntrack == old(self).conntrack,
            final(self).enobufs_encountered == old(self).enobufs_encountered,
            final(self).dhcp_snooper.uncertainty_duration == old(
                self,
            ).dhcp_snooper.uncertainty_duration,
            final(self)@ == snooped(
                old(self)@,
                old(self).dhcp_snooper.uncertainty_duration,
                *frame,
                now,
            ),
    {
        if frame.ethertype != ETHERTYPE_IPV4 {
            return ;
        }
        let ipv4_pkt = match Ipv4Packet::new_checked(frame.payload) {
            Some(ipv4_pkt) => ipv4_pkt,
            None => {
                return ;
            },
        };
        match self.dhcp_response_disposition(&ipv4_pkt) {
            DhcpResponseDisposition::Allow => {},
            _ => {
                return ;
            },
        }
        let udp_pkt = match UdpPacket::new_checked(ipv4_pkt.payload) {
            Some(udp_pkt) => udp_pkt,
            None => {
                return ;
            },
        };
        let saved = self.dhcp_snooper.address_and_dns_ips_at(now);
        self.dhcp_snooper.register_dhcp_reply_at(udp_pkt.payload, now);
        let current = self.dhcp_snooper.address_and_dns_ips_at(now);
        if !same_terms(&saved, &current) {
            if let Some(flows) = &mut self.flows {
                flows.clear();
            }
        }
    }

    pub fn dhcp_response_disposition(&self, ipv4_pkt: &Ipv4Packet) -> (r: DhcpResponseDisposition)
        ensures
            r == disposition(*ipv4_pkt, self@.gateway_ip, self@.vm_mac_address),
    {
        classify_dhcp_response(ipv4_pkt, self.gateway_ip, self.vm_mac_address)
    }
}

} // verus!
