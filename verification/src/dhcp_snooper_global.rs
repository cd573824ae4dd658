//! The leases of all machines on a bridge, learned from the DHCP traffic on it.

use crate::addr::{be16, be48, EthernetAddress, Ipv4Address};
use crate::clock::{instant_after, ticks_of, Duration, Instant};
use crate::dhcp::{
    client_message, mac_of, DhcpMessage, DhcpMessageView, BOOT_REPLY,
    MESSAGE_ACK, MESSAGE_NAK,
};
use crate::dhcp_snooper::{certain_span, secs_less, Lease, LeaseView};
use crate::text::{ipv4_text, mac_text, push_ipv4, push_mac};
use crate::wire::{
    ipv4_header_len, ipv4_lengths_agree, udp_dst_port, udp_payload, udp_src_port, udp_valid,
    EthernetFrame, Ipv4Packet, UdpPacket, ETHERTYPE_IPV4, PROTOCOL_UDP,
};
use std::collections::{HashMap, HashSet};
use vstd::prelude::*;

verus! {

broadcast use vstd::std_specs::hash::group_hash_axioms;

/// The seconds between two prints of the table.
pub const TABLE_PRINT_INTERVAL_SECS: u64 = 5;

/// The lease time assumed of a server that gives none.
pub const DEFAULT_LEASE_SECS: u32 = 600;

pub const SERVER_PORT: u16 = 67;

pub const CLIENT_PORT: u16 = 68;

pub open spec fn is_dhcp_port(port: u16) -> bool {
    port == SERVER_PORT || port == CLIENT_PORT
}

/// The payload of an IPv4 packet that starts behind the frame's header.
pub open spec fn frame_ipv4_payload(b: Seq<u8>) -> Seq<u8> {
    let p = b.subrange(14, b.len() as int);
    p.subrange(ipv4_header_len(p), be16(p, 2))
}

/// The payload of a UDP datagram in an Ethernet frame, if one of its ports is a DHCP port.
pub open spec fn dhcp_payload_of(b: Seq<u8>) -> Option<Seq<u8>> {
    let p = b.subrange(14, b.len() as int);
    let u = frame_ipv4_payload(b);
    if b.len() >= 14 && be16(b, 12) == ETHERTYPE_IPV4 && ipv4_lengths_agree(p) && p[9]
        == PROTOCOL_UDP && udp_valid(u) && (is_dhcp_port(udp_src_port(u)) || is_dhcp_port(
        udp_dst_port(u),
    )) {
        Some(udp_payload(u))
    } else {
        None
    }
}

/// The client that a reply is about, if it has an Ethernet address.
pub open spec fn reply_mac(m: DhcpMessageView) -> Option<EthernetAddress> {
    if m.opcode == BOOT_REPLY && m.chaddr.len() == 6 {
        Some(EthernetAddress { bits: be48(m.chaddr, 0) as u64 })
    } else {
        None
    }
}

/// What has become of a lease.
#[derive(Clone, Copy, Debug, PartialEq, Eq, Structural)]
pub enum LeaseEvent {
    Learned { mac: EthernetAddress, address: Ipv4Address },
    Removed { mac: EthernetAddress },
}

/// The leases after a message, and what has become of one of them.
pub open spec fn leases_after(
    leases: Map<u64, LeaseView>,
    uncertainty: Duration,
    m: DhcpMessageView,
    now: Instant,
) -> (Map<u64, LeaseView>, Option<LeaseEvent>) {
    match reply_mac(m) {
        None => (leases, None),
        Some(mac) => if m.msg_type == Some(MESSAGE_ACK) {
            let secs = match m.lease_time {
                Some(secs) => secs,
                None => DEFAULT_LEASE_SECS,
            };
            let lease = LeaseView {
                address: m.yiaddr,
                valid_until: instant_after(now, ticks_of(secs_less(secs, uncertainty))),
                dns_ips: Set::empty(),
            };
            (
                leases.insert(mac.bits, lease),
                Some(LeaseEvent::Learned { mac: mac, address: m.yiaddr }),
            )
        } else if m.msg_type == Some(MESSAGE_NAK) {
            (leases.remove(mac.bits), Some(LeaseEvent::Removed { mac: mac }))
        } else {
            (leases, None)
        },
    }
}

/// The leases after a frame, which may hold no message at all.
pub open spec fn leases_after_frame(
    leases: Map<u64, LeaseView>,
    uncertainty: Duration,
    frame: Seq<u8>,
    now: Instant,
) -> (Map<u64, LeaseView>, Option<LeaseEvent>) {
    match dhcp_payload_of(frame) {
        None => (leases, None),
        Some(payload) => match client_message(payload) {
            None => (leases, None),
            Some(m) => leases_after(leases, uncertainty, m, now),
        },
    }
}

/// The machine with the hardware address holds a lease about the IP address.
pub open spec fn leased_to(
    leases: Map<u64, LeaseView>,
    mac: EthernetAddress,
    ip: Ipv4Address,
    now: Instant,
) -> bool {
    leases.contains_key(mac.bits) && leases[mac.bits].covers(ip, now)
}

/// The line of the table for a lease.
pub open spec fn lease_line(mac: u64, lease: LeaseView, now: Instant) -> Seq<char> {
    "  "@ + mac_text(mac) + " -> "@ + ipv4_text(lease.address.bits) + if lease.valid_at(now) {
        " (valid)"@
    } else {
        " (expired)"@
    }
}

/// The text of an event.
pub open spec fn event_text(e: LeaseEvent) -> Seq<char> {
    match e {
        LeaseEvent::Learned { mac, address } => "DHCP global lease learned: "@ + mac_text(mac.bits)
            + " -> "@ + ipv4_text(address.bits),
        LeaseEvent::Removed { mac } => "DHCP global lease removed: "@ + mac_text(mac.bits),
    }
}

impl LeaseEvent {
    pub open spec fn wf(&self) -> bool {
        match *self {
            LeaseEvent::Learned { mac, .. } => mac.wf(),
            LeaseEvent::Removed { mac } => mac.wf(),
        }
    }

    /// The event as text.
    pub fn text(&self) -> (r: String)
        requires
            self.wf(),
        ensures
            r@ == event_text(*self),
    {
        match *self {
            LeaseEvent::Learned { mac, address } => {
                let mut text = String::from_str("DHCP global lease learned: ");
                push_mac(&mut text, mac);
                text.append(" -> ");
                push_ipv4(&mut text, address);
                text
            },
            LeaseEvent::Removed { mac } => {
                let mut text = String::from_str("DHCP global lease removed: ");
                push_mac(&mut text, mac);
                text
            },
        }
    }
}

/// Leases by hardware address.
#[derive(Debug)]
pub struct DhcpSnooperGlobal {
    pub leases_by_mac: HashMap<u64, Lease>,
    pub uncertainty_duration: Duration,
    /// When the table was last printed, counted from a fixed moment.
    pub last_table_print: Option<Duration>,
}

impl View for DhcpSnooperGlobal {
    type V = Map<u64, LeaseView>;

    open spec fn view(&self) -> Map<u64, LeaseView> {
        Map::new(
            |mac: u64| self.leases_by_mac@.contains_key(mac),
            |mac: u64| self.leases_by_mac@[mac]@,
        )
    }
}

impl DhcpSnooperGlobal {
    pub open spec fn wf(&self) -> bool {
        &&& self.uncertainty_duration.wf()
        &&& self.last_table_print matches Some(t) ==> t.wf()
        &&& forall|mac: u64| #[trigger]
            self.leases_by_mac@.contains_key(mac) ==> mac <= 0xffff_ffff_ffff
    }

    /// A snooper that knows no leases.
    pub fn disabled(uncertainty_duration: Duration) -> (r: DhcpSnooperGlobal)
        requires
            uncertainty_duration.wf(),
        ensures
            r.wf(),
            r@ == Map::<u64, LeaseView>::empty(),
            r.uncertainty_duration == uncertainty_duration,
            r.last_table_print is None,
    {
        let r = DhcpSnooperGlobal {
            leases_by_mac: HashMap::new(),
            uncertainty_duration,
            last_table_print: None,
        };
        assert(r@ =~= Map::<u64, LeaseView>::empty());
        r
    }

    /// Takes a frame into account, as of the latest clock update.
    pub fn register_ethernet_packet(&mut self, packet: &[u8]) -> (r: Option<LeaseEvent>)
        requires
            old(self).wf(),
        ensures
            final(self).wf(),
            final(self).uncertainty_duration == old(self).uncertainty_duration,
            final(self).last_table_print == old(self).last_table_print,
            r matches Some(e) ==> e.wf(),
            exists|now: Instant|
                (final(self)@, r) == #[trigger] leases_after_frame(
                    old(self)@,
                    old(self).uncertainty_duration,
                    packet@,
                    now,
                ),
    {
        self.register_ethernet_packet_at(packet, Instant::recent())
    }

    pub fn register_ethernet_packet_at(&mut self, packet: &[u8], now: Instant) -> (r: Option<
        LeaseEvent,
    >)
        requires
            old(self).wf(),
        ensures
            final(self).wf(),
            final(self).uncertainty_duration == old(self).uncertainty_duration,
            final(self).last_table_print == old(self).last_table_print,
            r matches Some(e) ==> e.wf(),
            (final(self)@, r) == leases_after_frame(
                old(self)@,
                old(self).uncertainty_duration,
                packet@,
                now,
            ),
    {
        let payload = match DhcpSnooperGlobal::dhcp_payload(packet) {
            Some(payload) => payload,
            None => {
                return None;
            },
        };
        match DhcpMessage::decode(payload) {
            Some(message) => self.register_message_at(&message, now),
            None => None,
        }
    }

    /// Takes a message into account: an acknowledgement makes a lease, a refusal ends it.
    pub fn register_message_at(&mut self, message: &DhcpMessage, now: Instant) -> (r: Option<
        LeaseEvent,
    >)
        requires
            old(self).wf(),
        ensures
            final(self).wf(),
            final(self).uncertainty_duration == old(self).uncertainty_duration,
            final(self).last_table_print == old(self).last_table_print,
            r matches Some(e) ==> e.wf(),
            (final(self)@, r) == leases_after(
                old(self)@,
                old(self).uncertainty_duration,
                message@,
                now,
            ),
    {
        let mac = match DhcpSnooperGlobal::message_mac(message) {
            Some(mac) => mac,
            None => {
                return None;
            },
        };
        let msg_type: u8 = match message.msg_type {
            Some(msg_type) => msg_type,
            None => {
                return None;
            },
        };
        if msg_type == MESSAGE_ACK {
            let secs: u32 = match message.lease_time {
                Some(secs) => secs,
                None => DEFAULT_LEASE_SECS,
            };
            let span = certain_span(secs, self.uncertainty_duration);
            let lease = Lease::new_at(message.yiaddr, span, HashSet::new(), now);
            let ghost after = leases_after(
                old(self)@,
                old(self).uncertainty_duration,
                message@,
                now,
            ).0;
            assert(lease@ =~= after[mac.bits]);
            self.leases_by_mac.insert(mac.bits, lease);
            assert(self@ =~= after);
            Some(LeaseEvent::Learned { mac, address: message.yiaddr })
        } else if msg_type == MESSAGE_NAK {
            self.leases_by_mac.remove(&mac.bits);
            assert(self@ =~= old(self)@.remove(mac.bits));
            Some(LeaseEvent::Removed { mac })
        } else {
            None
        }
    }

    /// Whether the machine with a hardware address holds a lease about an IP address.
    pub fn valid_ip_for_mac(&self, mac: &EthernetAddress, ip: Ipv4Address) -> (r: bool)
        ensures
            exists|now: Instant| r == #[trigger] leased_to(self@, *mac, ip, now),
            !self@.contains_key(mac.bits) ==> !r,
    {
        self.valid_ip_for_mac_at(mac, ip, Instant::recent())
    }

    pub fn valid_ip_for_mac_at(&self, mac: &EthernetAddress, ip: Ipv4Address, now: Instant) -> (r:
        bool)
        ensures
            r == leased_to(self@, *mac, ip, now),
    {
        match self.leases_by_mac.get(&mac.bits) {
            Some(lease) => lease.is_valid_for_at(ip, now),
            None => false,
        }
    }

    /// Whether the table is to be printed now, which it is at most once per interval. `now` is
    /// counted from the same moment at every call.
    pub fn print_table_periodically(&mut self, now: Duration) -> (r: bool)
        requires
            old(self).wf(),
            now.wf(),
        ensures
            final(self).wf(),
            final(self)@ == old(self)@,
            final(self).uncertainty_duration == old(self).uncertainty_duration,
            r == !(old(self).last_table_print matches Some(last) && now.total() - last.total()
                < TABLE_PRINT_INTERVAL_SECS * 1_000_000_000),
            final(self).last_table_print == if r {
                Some(now)
            } else {
                old(self).last_table_print
            },
    {
        if let Some(last) = self.last_table_print {
            let since = now.saturating_sub(last);
            if since.secs < TABLE_PRINT_INTERVAL_SECS {
                return false;
            }
        }
        self.last_table_print = Some(now);
        true
    }

    /// The lines of the table, a heading and one line per lease, the leases in no particular order.
    pub fn table_lines(&self, now: Instant) -> (r: Vec<String>)
        requires
            self.wf(),
        ensures
            self@.is_empty() ==> r@.len() == 1 && r@[0]@ == "DHCP global leases: <empty>"@,
            !self@.is_empty() ==> r@.len() > 0 && r@[0]@ == "DHCP global leases:"@ && exists|
                macs: Seq<u64>,
            |
                {
                    &&& #[trigger] macs.no_duplicates()
                    &&& macs.to_set() == self@.dom()
                    &&& r@.len() == macs.len() + 1
                    &&& forall|i: int|
                        0 <= i < macs.len() ==> #[trigger] r@[i + 1]@ == lease_line(
                            macs[i],
                            self@[macs[i]],
                            now,
                        )
                },
    {
        let mut lines: Vec<String> = Vec::new();
        if self.leases_by_mac.is_empty() {
            lines.push(String::from_str("DHCP global leases: <empty>"));
            assert(self@.dom() =~= Set::<u64>::empty());
            return lines;
        }
        proof {
            assert(self.leases_by_mac@.dom() =~= self@.dom());
        }
        lines.push(String::from_str("DHCP global leases:"));
        let macs = self.leases_by_mac.keys();
        let ghost all: Seq<&u64> = vstd::std_specs::iter::IteratorSpec::remaining(&macs);
        for mac in iter: macs
            invariant
                self.wf(),
                iter.seq() == all,
                all.unref().to_set() == self.leases_by_mac@.dom(),
                lines.len() == iter.index() + 1,
                lines@[0]@ == "DHCP global leases:"@,
                forall|i: int|
                    0 <= i < iter.index() ==> #[trigger] lines@[i + 1]@ == lease_line(
                        *all[i],
                        self@[*all[i]],
                        now,
                    ),
        {
            proof {
                assert(all.unref()[iter.index() as int] == *mac);
                assert(all.unref().to_set().contains(*mac));
            }
            if let Some(lease) = self.leases_by_mac.get(mac) {
                let mut line = String::from_str("  ");
                push_mac(&mut line, EthernetAddress { bits: *mac });
                line.append(" -> ");
                push_ipv4(&mut line, lease.address());
                if lease.valid_at(now) {
                    line.append(" (valid)");
                } else {
                    line.append(" (expired)");
                }
                lines.push(line);
            }
        }
        proof {
            let list = all.unref();
            assert(list.no_duplicates());
        }
        lines
    }

    /// The DHCP message in an Ethernet frame, as far as the ports tell.
    pub fn dhcp_payload<'a>(packet: &'a [u8]) -> (r: Option<&'a [u8]>)
        ensures
            match r {
                Some(payload) => dhcp_payload_of(packet@) == Some(payload@),
                None => dhcp_payload_of(packet@) is None,
            },
    {
        let frame = match EthernetFrame::new_checked(packet) {
            Some(frame) => frame,
            None => {
                return None;
            },
        };
        if frame.ethertype != ETHERTYPE_IPV4 {
            return None;
        }
        let ipv4_packet = match Ipv4Packet::new_checked(frame.payload) {
            Some(ipv4_packet) => ipv4_packet,
            None => {
                return None;
            },
        };
        if ipv4_packet.next_header != PROTOCOL_UDP {
            return None;
        }
        let udp_packet = match UdpPacket::new_checked(ipv4_packet.payload) {
            Some(udp_packet) => udp_packet,
            None => {
                return None;
            },
        };
        let to_or_from_dhcp = udp_packet.src_port == SERVER_PORT || udp_packet.src_port
            == CLIENT_PORT || udp_packet.dst_port == SERVER_PORT || udp_packet.dst_port
            == CLIENT_PORT;
        if !to_or_from_dhcp {
            return None;
        }
        Some(udp_packet.payload)
    }

    /// The client that a reply is about, if it has an Ethernet address.
    pub fn message_mac(message: &DhcpMessage) -> (r: Option<EthernetAddress>)
        ensures
            r == reply_mac(message@),
            r matches Some(mac) ==> mac.wf(),
    {
        if message.opcode != BOOT_REPLY {
            return None;
        }
        mac_of(&message.chaddr)
    }

    /// A hardware address as text.
    pub fn format_mac(mac: &EthernetAddress) -> (r: String)
        requires
            mac.wf(),
        ensures
            r@ == mac_text(mac.bits),
    {
        let mut text = String::new();
        push_mac(&mut text, *mac);
        assert(Seq::<char>::empty() + mac_text(mac.bits) =~= mac_text(mac.bits));
        text
    }
}

/// A message says nothing about any client but the one that it names.
pub proof fn law_other_leases_stay(
    leases: Map<u64, LeaseView>,
    uncertainty: Duration,
    m: DhcpMessageView,
    now: Instant,
    mac: EthernetAddress,
    ip: Ipv4Address,
    later: Instant,
)
    requires
        reply_mac(m) != Some(mac),
    ensures
        leased_to(leases_after(leases, uncertainty, m, now).0, mac, ip, later) == leased_to(
            leases,
            mac,
            ip,
            later,
        ),
{
    assert(reply_mac(m) matches Some(named) ==> named.bits != mac.bits);
}

/// A client that was granted an address may use it, and no other, for the granted time less
/// the uncertainty; a client that was denied one may use none.
pub proof fn law_last_reply_decides(
    leases: Map<u64, LeaseView>,
    uncertainty: Duration,
    m: DhcpMessageView,
    now: Instant,
    mac: EthernetAddress,
    ip: Ipv4Address,
    later: Instant,
)
    requires
        reply_mac(m) == Some(mac),
    ensures
        m.msg_type == Some(MESSAGE_NAK) ==> !leased_to(
            leases_after(leases, uncertainty, m, now).0,
            mac,
            ip,
            later,
        ),
        (m.msg_type == Some(MESSAGE_ACK) && m.lease_time is Some) ==> (leased_to(
            leases_after(leases, uncertainty, m, now).0,
            mac,
            ip,
            later,
        ) <==> ip == m.yiaddr && later.ticks < instant_after(
            now,
            ticks_of(secs_less(m.lease_time->0, uncertainty)),
        ).ticks),
{
}

} // verus!
