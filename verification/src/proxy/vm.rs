//! Frames from the virtual machine to the host.

use crate::addr::{EthernetAddress, Ipv4Address};
use crate::clock::Instant;
use crate::dhcp::{
    client_message, is_for_client, message_matches_bootp_client, DhcpMessage, BOOT_REQUEST,
};
use crate::dhcp_snooper::{has_valid_lease, leased, opt_lease_view, Lease, LeaseView};
use crate::proxy::flow_map::FlowDirection;
use crate::proxy::flows::{FlowMatch, PendingFlow};
use crate::proxy::rule::Direction;
use crate::proxy::rules::PolicyDecision;
use crate::proxy::state::{
    admitted, admitted_if_stateful, admitted_if_trackable, allowed_with, consulted, is_global,
    is_global_address, pending_of, refused_with, FlowsView, Outcome, Proxy, ProxyView,
};
use crate::proxy::udp_packet_helper::{request_ports, DNS_PORT};
use crate::wire::{
    arp_packet, ipv4_acceptable, is_ipv4, udp_dst_port, udp_payload, udp_src_port,
    udp_valid, ArpPacket, EthernetFrame, Ipv4Packet, UdpPacket, ARP_REPLY, ARP_REQUEST,
    ETHERTYPE_ARP, ETHERTYPE_IPV4, PROTOCOL_UDP,
};
use vstd::prelude::*;

verus! {

/// The length of an IPv4 header without options.
pub const IPV4_HEADER_LEN_WITHOUT_OPTIONS: u8 = 20;

/// The datagram is a DHCP request of the client.
pub open spec fn is_client_request(p: Ipv4Packet, mac: EthernetAddress) -> bool {
    let u = p.payload@;
    &&& p.next_header == PROTOCOL_UDP
    &&& udp_valid(u)
    &&& request_ports(udp_src_port(u), udp_dst_port(u))
    &&& client_message(udp_payload(u)) matches Some(m) && is_for_client(m, BOOT_REQUEST, mac)
}

/// A DHCP request may pass: it comes from the leased address or, where only the broadcast
/// address is a permitted target, from no address; it goes to the broadcast address or to
/// the permitted target; and it is the client's own.
pub open spec fn dhcp_request_allowed(
    p: Ipv4Packet,
    unicast_target: Option<Ipv4Address>,
    mac: EthernetAddress,
    lease: Option<LeaseView>,
    now: Instant,
) -> bool {
    &&& leased(lease, p.src_addr, now) || (unicast_target is None && p.src_addr.bits == 0)
    &&& p.dst_addr.bits == 0xffff_ffff || unicast_target == Some(p.dst_addr)
    &&& is_client_request(p, mac)
}

/// Whether a DHCP request may pass.
pub fn is_allowed_dhcp_request(
    ipv4_pkt: &Ipv4Packet,
    unicast_target: Option<Ipv4Address>,
    vm_mac_address: EthernetAddress,
    lease: &Option<Lease>,
    now: Instant,
) -> (r: bool)
    ensures
        r == dhcp_request_allowed(
            *ipv4_pkt,
            unicast_target,
            vm_mac_address,
            opt_lease_view(*lease),
            now,
        ),
{
    let src_has_valid_lease = has_valid_lease(lease, ipv4_pkt.src_addr, now);
    if !src_has_valid_lease && !(unicast_target.is_none() && ipv4_pkt.src_addr.is_unspecified()) {
        return false;
    }
    let dst_addr = ipv4_pkt.dst_addr;

    // Look into the datagram only if its target is permitted.
    let dst_is_target = match unicast_target {
        Some(target) => target == dst_addr,
        None => false,
    };
    if !dst_addr.is_broadcast() && !dst_is_target {
        return false;
    }
    if ipv4_pkt.next_header != PROTOCOL_UDP {
        return false;
    }
    let udp_pkt = match UdpPacket::new_checked(ipv4_pkt.payload) {
        Some(udp_pkt) => udp_pkt,
        None => {
            return false;
        },
    };
    if !udp_pkt.is_dhcp_request() {
        return false;
    }
    match DhcpMessage::decode(udp_pkt.payload) {
        Some(message) => message_matches_bootp_client(&message, BOOT_REQUEST, vm_mac_address),
        None => false,
    }
}

/// An ARP packet may pass: a request or a reply that names the virtual machine's own hardware
/// address and either the leased address or, without a lease, no address.
pub open spec fn arp_allowed(
    arp: ArpPacket,
    mac: EthernetAddress,
    lease: Option<LeaseView>,
    now: Instant,
) -> bool {
    &&& arp.operation == ARP_REQUEST || arp.operation == ARP_REPLY
    &&& arp.source_hardware_addr == mac
    &&& match lease {
        Some(l) => l.covers(arp.source_protocol_addr, now),
        None => arp.source_protocol_addr.bits == 0,
    }
}

/// Whether an ARP packet may pass.
pub fn vm_arp_allowed(
    arp_pkt: &ArpPacket,
    vm_mac_address: EthernetAddress,
    lease: &Option<Lease>,
    now: Instant,
) -> (r: bool)
    ensures
        r == arp_allowed(*arp_pkt, vm_mac_address, opt_lease_view(*lease), now),
{
    if arp_pkt.operation != ARP_REQUEST && arp_pkt.operation != ARP_REPLY {
        return false;
    }
    if arp_pkt.source_hardware_addr != vm_mac_address {
        return false;
    }
    match lease {
        Some(lease) => lease.is_valid_for_at(arp_pkt.source_protocol_addr, now),
        None => arp_pkt.source_protocol_addr.is_unspecified(),
    }
}

/// The last resort of an outgoing packet: a DHCP request to the broadcast address, without
/// which there would never be a lease.
pub open spec fn broadcast_request(
    s: ProxyView,
    flows: Option<FlowsView>,
    p: Ipv4Packet,
    now: Instant,
) -> Outcome {
    Outcome {
        allowed: dhcp_request_allowed(p, None, s.vm_mac_address, s.lease, now),
        flows: flows,
    }
}

/// What is allowed where no rule says anything: the global Internet, the host, and the name
/// servers that came with the lease.
pub open spec fn allowed_by_default(s: ProxyView, p: Ipv4Packet) -> bool {
    let u = p.payload@;
    ||| is_global_address(p.dst_addr.bits)
    ||| p.dst_addr == s.gateway_ip
    ||| {
        &&& p.next_header == PROTOCOL_UDP
        &&& udp_valid(u)
        &&& udp_dst_port(u) == DNS_PORT
        &&& s.lease matches Some(l) && l.dns_ips.contains(p.dst_addr.bits)
    }
}

/// What the policy makes of an outgoing packet from the leased address.
pub open spec fn outbound_policy(
    s: ProxyView,
    flows: Option<FlowsView>,
    pending: Option<PendingFlow>,
    p: Ipv4Packet,
    now: Instant,
) -> Outcome {
    match s.rules.decision(p.dst_addr.bits, Direction::Out) {
        Some(PolicyDecision::Block) => refused_with(flows),
        Some(PolicyDecision::AllowStateless) => admitted_if_stateful(
            flows,
            pending,
            s.rules,
            p.dst_addr,
            Direction::In,
        ),
        Some(PolicyDecision::AllowStateful) => match pending {
            Some(pending) => admitted(flows, pending),
            None => refused_with(flows),
        },
        None => if allowed_by_default(s, p) {
            admitted_if_trackable(flows, pending)
        } else {
            broadcast_request(s, flows, p, now)
        },
    }
}

/// The verdict on an IPv4 packet from the virtual machine. From the leased address, a lease
/// renewal always passes, then the flow table is consulted, then the policy. From any
/// other address only a broadcast DHCP request passes.
pub open spec fn vm_ipv4_outcome(s: ProxyView, p: Ipv4Packet, now: Instant) -> Outcome {
    if !leased(s.lease, p.src_addr, now) {
        broadcast_request(s, s.flows, p, now)
    } else if dhcp_request_allowed(p, Some(s.gateway_ip), s.vm_mac_address, s.lease, now) {
        allowed_with(s.flows)
    } else {
        let (flows, matched) = consulted(s.flows, p, FlowDirection::FromVm, now);
        match matched {
            FlowMatch::Allowed => allowed_with(flows),
            FlowMatch::Denied => refused_with(flows),
            _ => outbound_policy(s, flows, pending_of(matched), p, now),
        }
    }
}

/// The verdict `o` is the right one for a frame from the virtual machine.
pub open spec fn is_vm_verdict(s: ProxyView, frame: EthernetFrame, now: Instant, o: Outcome) -> bool {
    let b = frame.payload@;
    if frame.src_addr != s.vm_mac_address {
        o == refused_with(s.flows)
    } else if frame.ethertype == ETHERTYPE_ARP {
        &&& o.flows == s.flows
        &&& o.allowed == (arp_packet(b) matches Some(arp) && arp_allowed(
            arp,
            s.vm_mac_address,
            s.lease,
            now,
        ))
    } else if frame.ethertype == ETHERTYPE_IPV4 && ipv4_acceptable(b)
        && crate::wire::ipv4_header_len(b) == 20 {
        exists|p: Ipv4Packet| #[trigger] is_ipv4(p, b) && o == vm_ipv4_outcome(s, p, now)
    } else {
        o == refused_with(s.flows)
    }
}

impl Proxy {
    /// Decides whether a frame from the virtual machine goes on to the host, as of the latest
    /// clock update.
    pub fn process_frame_from_vm(&mut self, frame: &EthernetFrame) -> (r: bool)
        requires
            old(self).wf(),
        ensures
            final(self).wf(),
            final(self).only_flows_differ(old(self)),
            exists|now: Instant| #[trigger]
                is_vm_verdict(
                    old(self)@,
                    *frame,
                    now,
                    (Outcome { allowed: r, flows: final(self)@.flows }),
                ),
    {
        self.allowed_from_vm_at(frame, Instant::recent())
    }

    /// Decides whether a frame from the virtual machine goes on to the host.
    pub fn allowed_from_vm_at(&mut self, frame: &EthernetFrame, now: Instant) -> (r: bool)
        requires
            old(self).wf(),
        ensures
            final(self).wf(),
            final(self).only_flows_differ(old(self)),
            is_vm_verdict(
                old(self)@,
                *frame,
                now,
                (Outcome { allowed: r, flows: final(self)@.flows }),
            ),
    {
        if frame.src_addr != self.vm_mac_address {
            return false;
        }
        if frame.ethertype == ETHERTYPE_ARP {
            match ArpPacket::new_checked(frame.payload) {
                Some(arp_pkt) => self.allowed_from_vm_arp_at(&arp_pkt, now),
                None => false,
            }
        } else if frame.ethertype == ETHERTYPE_IPV4 {
            let ipv4_pkt = match Ipv4Packet::parse(frame.payload) {
                Some(ipv4_pkt) => ipv4_pkt,
                None => {
                    return false;
                },
            };

            // Source routing could get around a policy that goes by destinations.
            if ipv4_pkt.header_len != IPV4_HEADER_LEN_WITHOUT_OPTIONS {
                return false;
            }
            let r = self.allowed_from_vm_ipv4_at(&ipv4_pkt, now);
            assert(is_ipv4(ipv4_pkt, frame.payload@));
            r
        } else {
            false
        }
    }

    pub fn allowed_from_vm_arp_at(&self, arp_pkt: &ArpPacket, now: Instant) -> (r: bool)
        ensures
            r == arp_allowed(*arp_pkt, self@.vm_mac_address, self@.lease, now),
    {
        vm_arp_allowed(arp_pkt, self.vm_mac_address, self.dhcp_snooper.lease(), now)
    }

    /// Decides whether an IPv4 packet from the virtual machine goes on, as of the latest
    /// clock update.
    pub fn allowed_from_vm_ipv4(&mut self, ipv4_pkt: &Ipv4Packet) -> (r: bool)
        requires
            old(self).wf(),
            ipv4_pkt.wf(),
        ensures
            final(self).wf(),
            final(self).only_flows_differ(old(self)),
            exists|now: Instant|
                (Outcome { allowed: r, flows: final(self)@.flows }) == #[trigger] vm_ipv4_outcome(
                    old(self)@,
                    *ipv4_pkt,
                    now,
                ),
    {
        self.allowed_from_vm_ipv4_at(ipv4_pkt, Instant::recent())
    }

    pub fn allowed_from_vm_ipv4_at(&mut self, ipv4_pkt: &Ipv4Packet, now: Instant) -> (r: bool)
        requires
            old(self).wf(),
            ipv4_pkt.wf(),
        ensures
            final(self).wf(),
            final(self).only_flows_differ(old(self)),
            (Outcome { allowed: r, flows: final(self)@.flows }) == vm_ipv4_outcome(
                old(self)@,
                *ipv4_pkt,
                now,
            ),
    {
        // Does the packet come from the address that was learned from DHCP?
        if has_valid_lease(self.dhcp_snooper.lease(), ipv4_pkt.src_addr, now) {
            // A unicast renewal keeps the lease alive and must get past the rules.
            if is_allowed_dhcp_request(
                ipv4_pkt,
                Some(self.gateway_ip),
                self.vm_mac_address,
                self.dhcp_snooper.lease(),
                now,
            ) {
                return true;
            }

            // The flow table comes before the policy, so that established flows are not
            // taken for new traffic.
            let pending = match self.consult(ipv4_pkt, FlowDirection::FromVm, now) {
                FlowMatch::Allowed => {
                    return true;
                },
                FlowMatch::Denied => {
                    return false;
                },
                FlowMatch::Candidate(pending) => Some(pending),
                FlowMatch::Untracked => None,
            };
            let dst_addr = ipv4_pkt.dst_addr;
            match self.rules.policy_decision(dst_addr, Direction::Out) {
                Some(PolicyDecision::Block) => {
                    return false;
                },
                // Such traffic is tracked only where its replies would be taken for new
                // incoming flows.
                Some(PolicyDecision::AllowStateless) => {
                    return self.admit_with_tracking_if_stateful(pending, dst_addr, Direction::In);
                },
                // What cannot be tracked cannot satisfy a stateful policy.
                Some(PolicyDecision::AllowStateful) => {
                    return match pending {
                        Some(pending) => self.admit_with_tracking(pending),
                        None => false,
                    };
                },
                None => {},
            }

            // Without a rule, the global Internet may be reached.
            if is_global(dst_addr.bits) {
                return self.admit_with_tracking_if_trackable(pending);
            }
            // So may the host, or nobody could log in to the virtual machine.
            if dst_addr == self.gateway_ip {
                return self.admit_with_tracking_if_trackable(pending);
            }
            // So may the name servers that the host's DHCP server has announced.
            if ipv4_pkt.next_header == PROTOCOL_UDP {
                let udp_pkt = match UdpPacket::new_checked(ipv4_pkt.payload) {
                    Some(udp_pkt) => udp_pkt,
                    None => {
                        return false;
                    },
                };
                if udp_pkt.is_dns_request() && self.dhcp_snooper.valid_dns_target(&dst_addr) {
                    return self.admit_with_tracking_if_trackable(pending);
                }
            }
        }
        is_allowed_dhcp_request(
            ipv4_pkt,
            None,
            self.vm_mac_address,
            self.dhcp_snooper.lease(),
            now,
        )
    }
}

} // verus!
