//! What is learned of leases, and for how long it holds.

use crate::addr::{be16, be48, EthernetAddress, Ipv4Address};
use crate::clock::{instant_after, ticks_of, ticks_of_secs, within_secs, Duration, Instant};
use crate::dhcp::{client_message, is_for_client, DhcpMessageView};
use crate::dhcp_snooper::{
    current_terms, lease_after, lease_after_reply, leased, secs_less, LeaseView,
};
use crate::dhcp_snooper_global::{
    dhcp_payload_of, leased_to, leases_after, leases_after_frame, LeaseEvent,
};
use crate::laws::flows::tick_after;
use crate::laws::outbound::holds;
use vstd::prelude::*;

verus! {

/// The message is a reply to the Ethernet client with the hardware address.
pub open spec fn replies_to(m: DhcpMessageView, mac: EthernetAddress) -> bool {
    &&& m.opcode == 2
    &&& m.htype == 1
    &&& m.chaddr.len() == 6
    &&& be48(m.chaddr, 0) == mac.bits
}

/// The message grants an address for a time.
pub open spec fn grants(m: DhcpMessageView, secs: u32) -> bool {
    m.msg_type == Some(5u8) && m.lease_time == Some(secs)
}

/// A span in nanoseconds.
pub open spec fn nanos_of(d: Duration) -> int {
    d.secs * 1_000_000_000 + d.nanos
}

/// A span of seconds lasts for that many seconds, to the last instant there is at most.
pub proof fn law_seconds_are_counted_exactly(now: Instant, secs: u64, later: Instant)
    ensures
        instant_after(now, ticks_of_secs(secs)).ticks == tick_after(now, secs as int),
        within_secs(later, now, secs) <==> secs > 0 && (later.ticks - now.ticks < secs
            * 0x1_0000_0000 && later.ticks - now.ticks < 0xffff_ffff_ffff_ffff),
{
}

/// The ticks of a span are its length in units of 2^-32 seconds: not less than the whole ones in it,
/// and less than one more.
proof fn lemma_ticks_of_span(d: Duration)
    requires
        d.nanos < 1_000_000_000,
        d.secs < 0x1_0000_0000,
    ensures
        nanos_of(d) * 0x1_0000_0000 < (ticks_of(d) + 1) * 1_000_000_000,
        (ticks_of(d) - 1) * 1_000_000_000 < nanos_of(d) * 0x1_0000_0000,
        d.nanos == 0 ==> ticks_of(d) == d.secs * 0x1_0000_0000,
        ticks_of(d) < 0x1_0000_0000_0000_0000,
{
    let part = d.nanos * 9223372037 / 0x8000_0000;
    assert(0 <= part < 0x1_0000_0000);
    assert(part * 0x8000_0000 <= d.nanos * 9223372037 < (part + 1) * 0x8000_0000);
    assert(ticks_of(d) == d.secs * 0x1_0000_0000 + part);
}

proof fn lemma_secs_less(secs: u32, less: Duration)
    requires
        less.nanos < 1_000_000_000,
    ensures
        secs_less(secs, less).nanos < 1_000_000_000,
        secs_less(secs, less).secs <= secs,
        nanos_of(secs_less(secs, less)) == if secs * 1_000_000_000 >= nanos_of(less) {
            secs * 1_000_000_000 - nanos_of(less)
        } else {
            0
        },
        less.nanos == 0 ==> secs_less(secs, less).nanos == 0 && secs_less(secs, less).secs == if secs
            >= less.secs {
            secs - less.secs
        } else {
            0
        },
{
}

/// An address that was granted is leased from then on, whatever lease was held before, until the
/// granted time less the uncertainty has passed, to the nearest tick; and no other address is.
pub proof fn law_granted_addresses_are_leased(
    lease: Option<LeaseView>,
    mac: EthernetAddress,
    uncertainty: Duration,
    m: DhcpMessageView,
    secs: u32,
    now: Instant,
    later: Instant,
    address: Ipv4Address,
)
    requires
        replies_to(m, mac),
        grants(m, secs),
        uncertainty.nanos < 1_000_000_000,
        later.ticks < 0xffff_ffff_ffff_ffff,
    ensures
        ({
            let after = lease_after(lease, mac, uncertainty, m, now);
            let span = secs * 1_000_000_000 - nanos_of(uncertainty);
            let passed = later.ticks - now.ticks;
            &&& address == m.yiaddr && (passed + 1) * 1_000_000_000 <= span * 0x1_0000_0000 ==> holds(
                after,
                address,
                later,
            )
            &&& holds(after, address, later) ==> address == m.yiaddr
            &&& passed >= 0 && (passed - 1) * 1_000_000_000 >= span * 0x1_0000_0000 ==> !holds(
                after,
                address,
                later,
            )
            &&& span <= 0 && passed >= 0 ==> !holds(after, address, later)
            &&& leased(after, address, later) == holds(after, address, later)
        }),
{
    lemma_secs_less(secs, uncertainty);
    lemma_ticks_of_span(secs_less(secs, uncertainty));
    let d = secs_less(secs, uncertainty);
    let span = secs * 1_000_000_000 - nanos_of(uncertainty);
    let ticks = ticks_of(d) as int;
    if span <= 0 {
        assert(nanos_of(d) == 0);
        assert(d.secs == 0 && d.nanos == 0);
        assert(ticks == 0);
    }
}

/// With an uncertainty of whole seconds, an address that was granted is leased for exactly the
/// granted seconds less these, whatever lease was held before.
pub proof fn law_whole_seconds_of_a_lease(
    lease: Option<LeaseView>,
    mac: EthernetAddress,
    uncertainty: Duration,
    m: DhcpMessageView,
    secs: u32,
    now: Instant,
    later: Instant,
    address: Ipv4Address,
)
    requires
        replies_to(m, mac),
        grants(m, secs),
        uncertainty.nanos == 0,
        uncertainty.secs <= secs,
        later.ticks < 0xffff_ffff_ffff_ffff,
    ensures
        holds(lease_after(lease, mac, uncertainty, m, now), address, later) <==> address == m.yiaddr
            && later.ticks - now.ticks < (secs - uncertainty.secs) * 0x1_0000_0000,
{
    lemma_secs_less(secs, uncertainty);
    lemma_ticks_of_span(secs_less(secs, uncertainty));
}

/// What was learned from a grant does not depend on what was known before.
pub proof fn law_grants_replace_the_lease(
    one: Option<LeaseView>,
    other: Option<LeaseView>,
    mac: EthernetAddress,
    uncertainty: Duration,
    m: DhcpMessageView,
    secs: u32,
    now: Instant,
)
    requires
        replies_to(m, mac),
        grants(m, secs),
    ensures
        lease_after(one, mac, uncertainty, m, now) == lease_after(other, mac, uncertainty, m, now),
{
}

/// The name servers of a lease are those that came with the grant.
pub proof fn law_name_servers_come_with_the_grant(
    lease: Option<LeaseView>,
    mac: EthernetAddress,
    uncertainty: Duration,
    m: DhcpMessageView,
    secs: u32,
    now: Instant,
    server: u32,
)
    requires
        replies_to(m, mac),
        grants(m, secs),
    ensures
        lease_after(lease, mac, uncertainty, m, now) matches Some(l) && (l.dns_ips.contains(server)
            <==> exists|i: int| 0 <= i < m.dns_servers.len() && m.dns_servers[i] == server),
{
}

/// A refusal to this client ends the lease. A message to another client, one that is neither a grant
/// nor a refusal, and an acknowledgement that names no time leave the lease as it is.
pub proof fn law_only_grants_and_refusals_count(
    lease: Option<LeaseView>,
    mac: EthernetAddress,
    uncertainty: Duration,
    m: DhcpMessageView,
    now: Instant,
)
    ensures
        replies_to(m, mac) && m.msg_type == Some(6u8) ==> lease_after(
            lease,
            mac,
            uncertainty,
            m,
            now,
        ) is None,
        !replies_to(m, mac) || (m.msg_type != Some(5u8) && m.msg_type != Some(6u8)) || (m.msg_type
            == Some(5u8) && m.lease_time is None) ==> lease_after(lease, mac, uncertainty, m, now)
            == lease,
{
}

/// What holds no message leaves the lease as it is, and a message counts as it is read.
pub proof fn law_replies_count_as_they_are_read(
    lease: Option<LeaseView>,
    mac: EthernetAddress,
    uncertainty: Duration,
    bytes: Seq<u8>,
    now: Instant,
)
    ensures
        client_message(bytes) is None ==> lease_after_reply(lease, mac, uncertainty, bytes, now)
            == lease,
        client_message(bytes) matches Some(m) ==> lease_after_reply(
            lease,
            mac,
            uncertainty,
            bytes,
            now,
        ) == lease_after(lease, mac, uncertainty, m, now),
{
}

/// A message is about a client if it is of the given kind, names an Ethernet address, and that
/// address is the client's.
pub proof fn law_messages_name_their_client(m: DhcpMessageView, opcode: u8, mac: EthernetAddress)
    ensures
        is_for_client(m, opcode, mac) <==> m.opcode == opcode && m.htype == 1 && m.chaddr.len() == 6
            && be48(m.chaddr, 0) == mac.bits,
{
}

/// The terms in force are the address and the name servers of a lease that has not run out.
pub proof fn law_terms_end_with_the_lease(lease: Option<LeaseView>, now: Instant)
    ensures
        current_terms(lease, now) == match lease {
            Some(l) => if now.ticks < l.valid_until.ticks {
                Some((l.address, l.dns_ips))
            } else {
                None
            },
            None => None,
        },
{
}

/// The message is a reply to a machine on the bridge with the hardware address.
pub open spec fn concerns(m: DhcpMessageView, mac: EthernetAddress) -> bool {
    m.opcode == 2 && m.chaddr.len() == 6 && be48(m.chaddr, 0) == mac.bits
}

/// Of all machines on a bridge: one that was granted an address holds it, and no other, until the
/// granted time less the uncertainty has passed, ten minutes being taken as granted where no
/// time is named.
pub proof fn law_grants_to_any_machine_are_learned(
    leases: Map<u64, LeaseView>,
    uncertainty: Duration,
    m: DhcpMessageView,
    mac: EthernetAddress,
    secs: u32,
    now: Instant,
    later: Instant,
    ip: Ipv4Address,
)
    requires
        mac.bits <= 0xffff_ffff_ffff,
        concerns(m, mac),
        m.msg_type == Some(5u8),
        m.lease_time == Some(secs) || (m.lease_time is None && secs == 600),
        uncertainty.nanos == 0,
        uncertainty.secs <= secs,
        later.ticks < 0xffff_ffff_ffff_ffff,
    ensures
        ({
            let (after, event) = leases_after(leases, uncertainty, m, now);
            &&& leased_to(after, mac, ip, later) <==> ip == m.yiaddr && later.ticks - now.ticks < (
            secs - uncertainty.secs) * 0x1_0000_0000
            &&& event == Some(LeaseEvent::Learned { mac: mac, address: m.yiaddr })
        }),
{
    lemma_secs_less(secs, uncertainty);
    lemma_ticks_of_span(secs_less(secs, uncertainty));
}

/// A machine that was refused an address holds none, and any other reply changes nothing.
pub proof fn law_refusals_to_any_machine_are_learned(
    leases: Map<u64, LeaseView>,
    uncertainty: Duration,
    m: DhcpMessageView,
    mac: EthernetAddress,
    now: Instant,
    later: Instant,
    ip: Ipv4Address,
)
    requires
        mac.bits <= 0xffff_ffff_ffff,
        concerns(m, mac),
    ensures
        ({
            let (after, event) = leases_after(leases, uncertainty, m, now);
            &&& m.msg_type == Some(6u8) ==> !leased_to(after, mac, ip, later) && event == Some(
                LeaseEvent::Removed { mac: mac },
            )
            &&& m.msg_type != Some(5u8) && m.msg_type != Some(6u8) ==> after == leases && event
                is None
        }),
{
}

/// What is known of a machine changes only with a reply to it.
pub proof fn law_replies_to_others_change_nothing(
    leases: Map<u64, LeaseView>,
    uncertainty: Duration,
    m: DhcpMessageView,
    now: Instant,
    mac: EthernetAddress,
)
    requires
        mac.bits <= 0xffff_ffff_ffff,
        !concerns(m, mac),
    ensures
        leases_after(leases, uncertainty, m, now).0.contains_key(mac.bits) == leases.contains_key(
            mac.bits,
        ),
        leases.contains_key(mac.bits) ==> leases_after(leases, uncertainty, m, now).0[mac.bits]
            == leases[mac.bits],
        m.opcode != 2 || m.chaddr.len() != 6 ==> leases_after(leases, uncertainty, m, now).1 is None
            && leases_after(leases, uncertainty, m, now).0 == leases,
{
}

/// A machine holds an address while what was learned of it names the address and has not run out.
pub proof fn law_addresses_are_held_by_their_lessee(
    leases: Map<u64, LeaseView>,
    mac: EthernetAddress,
    ip: Ipv4Address,
    now: Instant,
)
    ensures
        leased_to(leases, mac, ip, now) <==> leases.contains_key(mac.bits) && leases[mac.bits].address
            == ip && now.ticks < leases[mac.bits].valid_until.ticks,
{
}

/// A frame is taken for DHCP if it carries a UDP datagram over IPv4 that goes from or to port 67 or
/// 68, and what is taken from it is the payload of the datagram.
pub proof fn law_dhcp_is_known_by_its_ports(b: Seq<u8>, ip: Seq<u8>, u: Seq<u8>)
    requires
        b.len() >= 14,
        ip == b.subrange(14, b.len() as int),
        ip.len() >= 20,
        20 <= ip[0] as int % 16 * 4 <= be16(ip, 2) <= ip.len(),
        u == ip.subrange(ip[0] as int % 16 * 4, be16(ip, 2)),
        u.len() >= 8,
    ensures
        ({
            let src = be16(u, 0);
            let dst = be16(u, 2);
            let taken = be16(b, 12) == 0x0800 && ip[9] == 17 && 8 <= be16(u, 4) <= u.len() && (src
                == 67 || src == 68 || dst == 67 || dst == 68);
            &&& taken ==> dhcp_payload_of(b) == Some(u.subrange(8, be16(u, 4)))
            &&& !taken ==> dhcp_payload_of(b) is None
        }),
{
}

/// What is no such frame teaches nothing, and neither does one without a message in it.
pub proof fn law_other_frames_teach_nothing(
    leases: Map<u64, LeaseView>,
    uncertainty: Duration,
    frame: Seq<u8>,
    now: Instant,
)
    ensures
        match dhcp_payload_of(frame) {
            Some(payload) => match client_message(payload) {
                Some(m) => leases_after_frame(leases, uncertainty, frame, now) == leases_after(
                    leases,
                    uncertainty,
                    m,
                    now,
                ),
                None => leases_after_frame(leases, uncertainty, frame, now).0 == leases
                    && leases_after_frame(leases, uncertainty, frame, now).1 is None,
            },
            None => leases_after_frame(leases, uncertainty, frame, now).0 == leases
                && leases_after_frame(leases, uncertainty, frame, now).1 is None,
        },
{
}

} // verus!
