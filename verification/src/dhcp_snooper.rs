//! The lease of a virtual machine, learned from the replies of the DHCP server.

use crate::addr::{EthernetAddress, Ipv4Address};
use crate::clock::{instant_after, ticks_of, Duration, Instant};
use crate::dhcp::{
    client_message, is_for_client, message_matches_bootp_client, DhcpMessage, DhcpMessageView,
    BOOT_REPLY, MESSAGE_ACK, MESSAGE_NAK,
};
use std::collections::HashSet;
use vstd::prelude::*;

verus! {

broadcast use vstd::std_specs::hash::group_hash_axioms;

/// A leased address, the end of the lease, and the name servers that came with it.
#[derive(Debug)]
pub struct Lease {
    pub address: Ipv4Address,
    pub valid_until: Instant,
    pub dns_ips: HashSet<u32>,
}

/// A lease, seen from outside.
#[verifier::ext_equal]
pub struct LeaseView {
    pub address: Ipv4Address,
    pub valid_until: Instant,
    pub dns_ips: Set<u32>,
}

impl View for Lease {
    type V = LeaseView;

    open spec fn view(&self) -> LeaseView {
        LeaseView {
            address: self.address,
            valid_until: self.valid_until,
            dns_ips: self.dns_ips@,
        }
    }
}

pub open spec fn opt_lease_view(lease: Option<Lease>) -> Option<LeaseView> {
    match lease {
        Some(lease) => Some(lease@),
        None => None,
    }
}

impl LeaseView {
    pub open spec fn valid_at(self, now: Instant) -> bool {
        now.ticks < self.valid_until.ticks
    }

    /// The lease is about the address and has not run out.
    pub open spec fn covers(self, address: Ipv4Address, now: Instant) -> bool {
        self.address == address && self.valid_at(now)
    }
}

/// There is a lease about the address that has not run out.
pub open spec fn leased(lease: Option<LeaseView>, address: Ipv4Address, now: Instant) -> bool {
    lease matches Some(l) && l.covers(address, now)
}

impl Lease {
    /// A lease that runs out `lease_time` from `now`.
    pub fn new_at(
        address: Ipv4Address,
        lease_time: Duration,
        dns_ips: HashSet<u32>,
        now: Instant,
    ) -> (r: Lease)
        requires
            lease_time.wf(),
        ensures
            r@ == (LeaseView {
                address: address,
                valid_until: instant_after(now, ticks_of(lease_time)),
                dns_ips: dns_ips@,
            }),
    {
        Lease { address, valid_until: now.plus(lease_time), dns_ips }
    }

    /// A lease that runs out `lease_time` from the latest clock update.
    pub fn new(address: Ipv4Address, lease_time: Duration, dns_ips: HashSet<u32>) -> (r: Lease)
        requires
            lease_time.wf(),
        ensures
            exists|now: Instant|
                r@ == (LeaseView {
                    address: address,
                    valid_until: #[trigger] instant_after(now, ticks_of(lease_time)),
                    dns_ips: dns_ips@,
                }),
    {
        Lease::new_at(address, lease_time, dns_ips, Instant::recent())
    }

    pub fn address(&self) -> (r: Ipv4Address)
        ensures
            r == self@.address,
    {
        self.address
    }

    pub fn valid_at(&self, now: Instant) -> (r: bool)
        ensures
            r == self@.valid_at(now),
    {
        now.ticks < self.valid_until.ticks
    }

    /// Whether the lease has not run out by the latest clock update.
    pub fn valid(&self) -> (r: bool)
        ensures
            exists|now: Instant| r == #[trigger] self@.valid_at(now),
    {
        self.valid_at(Instant::recent())
    }

    pub fn is_valid_for_at(&self, address: Ipv4Address, now: Instant) -> (r: bool)
        ensures
            r == self@.covers(address, now),
    {
        self.address == address && self.valid_at(now)
    }

    /// Whether the lease is about the address and has not run out by the latest clock update.
    pub fn is_valid_for(&self, address: Ipv4Address) -> (r: bool)
        ensures
            exists|now: Instant| r == #[trigger] self@.covers(address, now),
            self@.address != address ==> !r,
    {
        self.is_valid_for_at(address, Instant::recent())
    }
}

/// Whether there is a lease about the address that has not run out.
pub fn has_valid_lease(lease: &Option<Lease>, address: Ipv4Address, now: Instant) -> (r: bool)
    ensures
        r == leased(opt_lease_view(*lease), address, now),
{
    match lease {
        Some(lease) => lease.is_valid_for_at(address, now),
        None => false,
    }
}

/// A span of whole seconds, less another span; nothing where that is longer.
pub open spec fn secs_less(secs: u32, less: Duration) -> Duration {
    let total = secs * 1_000_000_000 - less.total();
    if total <= 0 {
        Duration { secs: 0, nanos: 0 }
    } else {
        Duration { secs: (total / 1_000_000_000) as u64, nanos: (total % 1_000_000_000) as u32 }
    }
}

/// A span of whole seconds, less the uncertainty of a coarse clock.
pub fn certain_span(secs: u32, uncertainty: Duration) -> (r: Duration)
    requires
        uncertainty.wf(),
    ensures
        r == secs_less(secs, uncertainty),
        r.wf(),
{
    let r = Duration::from_secs(secs as u64).saturating_sub(uncertainty);
    proof {
        let s = secs_less(secs, uncertainty);
        assert(s.total() == r.total() && s.wf());
        assert(s.secs == r.secs && s.nanos == r.nanos);
    }
    r
}

/// The lease after a message: an acknowledgement for the client that gives a lease time
/// replaces it, a refusal for the client ends it, and nothing else touches it.
pub open spec fn lease_after(
    lease: Option<LeaseView>,
    mac: EthernetAddress,
    uncertainty: Duration,
    m: DhcpMessageView,
    now: Instant,
) -> Option<LeaseView> {
    if !is_for_client(m, BOOT_REPLY, mac) {
        lease
    } else if m.msg_type == Some(MESSAGE_ACK) {
        match m.lease_time {
            Some(secs) => Some(
                LeaseView {
                    address: m.yiaddr,
                    valid_until: instant_after(now, ticks_of(secs_less(secs, uncertainty))),
                    dns_ips: m.dns_servers.to_set(),
                },
            ),
            None => lease,
        }
    } else if m.msg_type == Some(MESSAGE_NAK) {
        None
    } else {
        lease
    }
}

/// The lease after a datagram, which may hold no message at all.
pub open spec fn lease_after_reply(
    lease: Option<LeaseView>,
    mac: EthernetAddress,
    uncertainty: Duration,
    bytes: Seq<u8>,
    now: Instant,
) -> Option<LeaseView> {
    match client_message(bytes) {
        Some(m) => lease_after(lease, mac, uncertainty, m, now),
        None => lease,
    }
}

/// The address and the name servers of a lease that has not run out.
pub open spec fn current_terms(lease: Option<LeaseView>, now: Instant) -> Option<
    (Ipv4Address, Set<u32>),
> {
    match lease {
        Some(l) => if l.valid_at(now) {
            Some((l.address, l.dns_ips))
        } else {
            None
        },
        None => None,
    }
}

pub open spec fn terms_view(terms: Option<(Ipv4Address, HashSet<u32>)>) -> Option<
    (Ipv4Address, Set<u32>),
> {
    match terms {
        Some(t) => Some((t.0, t.1@)),
        None => None,
    }
}

/// The elements of a list as a set.
pub fn set_of(list: &Vec<u32>) -> (r: HashSet<u32>)
    ensures
        r@ == list@.to_set(),
{
    let mut set: HashSet<u32> = HashSet::new();
    let mut i: usize = 0;
    while i < list.len()
        invariant
            i <= list.len(),
            forall|x: u32| #[trigger] set@.contains(x) <==> list@.take(i as int).contains(x),
        decreases list.len() - i,
    {
        let x: u32 = list[i];
        set.insert(x);
        proof {
            let seen = list@.take(i as int);
            let more = list@.take(i + 1);
            assert(more =~= seen.push(x));
            assert forall|y: u32| #[trigger] more.contains(y) <==> seen.contains(y) || y == x by {
                if seen.contains(y) {
                    let j = choose|j: int| 0 <= j < seen.len() && seen[j] == y;
                    assert(more[j] == y);
                }
                if y == x {
                    assert(more[i as int] == y);
                }
            }
        }
        i = i + 1;
    }
    assert(list@.take(i as int) =~= list@);
    assert(set@ =~= list@.to_set());
    set
}

/// The elements of a set, once each.
fn elements(set: &HashSet<u32>) -> (r: Vec<u32>)
    ensures
        r@.to_set() == set@,
{
    let mut list: Vec<u32> = Vec::new();
    let items = set.iter();
    let ghost all: Seq<&u32> = vstd::std_specs::iter::IteratorSpec::remaining(&items);
    for x in iter: items
        invariant
            iter.seq() == all,
            list.len() == iter.index(),
            forall|i: int| 0 <= i < list.len() ==> #[trigger] list@[i] == *all[i],
    {
        list.push(*x);
    }
    proof {
        assert(list@ =~= all.unref());
    }
    list
}

/// Whether every element of `a` is in `b`.
fn is_subset(a: &HashSet<u32>, b: &HashSet<u32>) -> (r: bool)
    ensures
        r == a@.subset_of(b@),
{
    let list = elements(a);
    let mut i: usize = 0;
    while i < list.len()
        invariant
            i <= list.len(),
            list@.to_set() == a@,
            forall|j: int| 0 <= j < i ==> b@.contains(#[trigger] list@[j]),
        decreases list.len() - i,
    {
        if !b.contains(&list[i]) {
            assert(list@.to_set().contains(list@[i as int]));
            return false;
        }
        i = i + 1;
    }
    assert forall|x: u32| a@.contains(x) implies b@.contains(x) by {
        assert(list@.to_set().contains(x));
    }
    true
}

/// Whether two sets have the same elements.
fn same_set(a: &HashSet<u32>, b: &HashSet<u32>) -> (r: bool)
    ensures
        r == (a@ == b@),
{
    let r = is_subset(a, b) && is_subset(b, a);
    assert(r ==> a@ =~= b@);
    r
}

/// Whether two sets of terms are the same.
pub fn same_terms(
    a: &Option<(Ipv4Address, HashSet<u32>)>,
    b: &Option<(Ipv4Address, HashSet<u32>)>,
) -> (r: bool)
    ensures
        r == (terms_view(*a) == terms_view(*b)),
{
    match (a, b) {
        (Some(a), Some(b)) => a.0 == b.0 && same_set(&a.1, &b.1),
        (None, None) => true,
        _ => false,
    }
}

/// Learns the lease of one virtual machine.
#[derive(Debug)]
pub struct DhcpSnooper {
    pub vm_mac_address: EthernetAddress,
    pub vm_lease: Option<Lease>,
    pub uncertainty_duration: Duration,
}

impl DhcpSnooper {
    pub open spec fn wf(&self) -> bool {
        self.uncertainty_duration.wf()
    }

    /// The lease, seen from outside.
    pub open spec fn lease_view(&self) -> Option<LeaseView> {
        opt_lease_view(self.vm_lease)
    }

    pub fn new(uncertainty_duration: Duration, vm_mac_address: EthernetAddress) -> (r: DhcpSnooper)
        requires
            uncertainty_duration.wf(),
        ensures
            r.wf(),
            r.vm_mac_address == vm_mac_address,
            r.uncertainty_duration == uncertainty_duration,
            r.lease_view() is None,
    {
        DhcpSnooper { vm_mac_address, vm_lease: None, uncertainty_duration }
    }

    /// Takes a datagram from the server into account, as of the latest clock update.
    pub fn register_dhcp_reply(&mut self, dhcp_packet: &[u8])
        requires
            old(self).wf(),
        ensures
            final(self).wf(),
            final(self).vm_mac_address == old(self).vm_mac_address,
            final(self).uncertainty_duration == old(self).uncertainty_duration,
            exists|now: Instant|
                final(self).lease_view() == #[trigger] lease_after_reply(
                    old(self).lease_view(),
                    old(self).vm_mac_address,
                    old(self).uncertainty_duration,
                    dhcp_packet@,
                    now,
                ),
    {
        self.register_dhcp_reply_at(dhcp_packet, Instant::recent());
    }

    pub fn register_dhcp_reply_at(&mut self, dhcp_packet: &[u8], now: Instant)
        requires
            old(self).wf(),
        ensures
            final(self).wf(),
            final(self).vm_mac_address == old(self).vm_mac_address,
            final(self).uncertainty_duration == old(self).uncertainty_duration,
            final(self).lease_view() == lease_after_reply(
                old(self).lease_view(),
                old(self).vm_mac_address,
                old(self).uncertainty_duration,
                dhcp_packet@,
                now,
            ),
    {
        if let Some(message) = DhcpMessage::decode(dhcp_packet) {
            self.register_message_at(&message, now);
        }
    }

    /// Takes a message from the server into account. Replies may be broadcast, so the client
    /// that they name must be this one.
    pub fn register_message_at(&mut self, message: &DhcpMessage, now: Instant)
        requires
            old(self).wf(),
        ensures
            final(self).wf(),
            final(self).vm_mac_address == old(self).vm_mac_address,
            final(self).uncertainty_duration == old(self).uncertainty_duration,
            final(self).lease_view() == lease_after(
                old(self).lease_view(),
                old(self).vm_mac_address,
                old(self).uncertainty_duration,
                message@,
                now,
            ),
    {
        if !message_matches_bootp_client(message, BOOT_REPLY, self.vm_mac_address) {
            return ;
        }
        let msg_type: u8 = match message.msg_type {
            Some(msg_type) => msg_type,
            None => {
                return ;
            },
        };
        if msg_type == MESSAGE_ACK {
            let lease_time: u32 = match message.lease_time {
                Some(lease_time) => lease_time,
                None => {
                    return ;
                },
            };
            let span = certain_span(lease_time, self.uncertainty_duration);
            let dns_ips = set_of(&message.dns_servers);
            self.vm_lease = Some(Lease::new_at(message.yiaddr, span, dns_ips, now));
        } else if msg_type == MESSAGE_NAK {
            self.vm_lease = None;
        }
    }

    pub fn set_lease(&mut self, vm_lease: Option<Lease>)
        requires
            old(self).wf(),
        ensures
            final(self).wf(),
            final(self).vm_mac_address == old(self).vm_mac_address,
            final(self).uncertainty_duration == old(self).uncertainty_duration,
            final(self).vm_lease == vm_lease,
    {
        self.vm_lease = vm_lease;
    }

    pub fn lease(&self) -> (r: &Option<Lease>)
        ensures
            *r == self.vm_lease,
    {
        &self.vm_lease
    }

    /// The address and the name servers of the lease, if it has not run out.
    pub fn address_and_dns_ips_at(&self, now: Instant) -> (r: Option<(Ipv4Address, HashSet<u32>)>)
        ensures
            terms_view(r) == current_terms(self.lease_view(), now),
    {
        match &self.vm_lease {
            Some(lease) => if lease.valid_at(now) {
                let dns_ips = set_of(&elements(&lease.dns_ips));
                Some((lease.address, dns_ips))
            } else {
                None
            },
            None => None,
        }
    }

    /// Whether an address is one of the name servers that came with the lease.
    pub fn valid_dns_target(&self, addr: &Ipv4Address) -> (r: bool)
        ensures
            r == (self.lease_view() matches Some(l) && l.dns_ips.contains(addr.bits)),
    {
        match &self.vm_lease {
            Some(lease) => lease.dns_ips.contains(&addr.bits),
            None => false,
        }
    }
}

/// A message about another client leaves the lease as it is.
pub proof fn law_other_clients_do_not_matter(
    lease: Option<LeaseView>,
    mac: EthernetAddress,
    uncertainty: Duration,
    m: DhcpMessageView,
    now: Instant,
)
    requires
        m.chaddr.len() != 6 || crate::addr::be48(m.chaddr, 0) != mac.bits,
    ensures
        lease_after(lease, mac, uncertainty, m, now) == lease,
{
}

/// A lease is never taken to last longer than the server granted it: from the moment at which
/// the granted time has passed, no address is covered.
pub proof fn law_lease_ends_in_time(
    lease: Option<LeaseView>,
    mac: EthernetAddress,
    uncertainty: Duration,
    m: DhcpMessageView,
    granted: Instant,
    now: Instant,
    address: Ipv4Address,
)
    requires
        is_for_client(m, BOOT_REPLY, mac),
        m.msg_type == Some(MESSAGE_ACK),
        m.lease_time is Some,
        uncertainty.wf(),
        now.ticks >= granted.ticks + m.lease_time->0 * 0x1_0000_0000,
    ensures
        !leased(lease_after(lease, mac, uncertainty, m, granted), address, now),
{
    let secs = m.lease_time->0;
    let span = secs_less(secs, uncertainty);
    assert(span.total() <= secs * 1_000_000_000);
    assert(span.secs <= secs);
    assert(span.secs == secs ==> span.nanos == 0);
    assert(ticks_of(span) <= secs * 0x1_0000_0000);
}

} // verus!
