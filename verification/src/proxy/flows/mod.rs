//! A bounded cache of exact-tuple permissions for return traffic.
//!
//! The table establishes only the direction in which a flow was authorized.
//! Handshakes, teardown, sequence numbers and windows remain the business of the
//! endpoints. Capacity is one fail-closed limit: a full table refuses new flows
//! rather than evicting known ones.

mod echo;
mod tcp;
mod udp;

pub use self::echo::{echo_key, echo_match, lemma_echo_directions_are_distinct};
pub use self::tcp::{tcp_key, tcp_match};
pub use self::udp::{udp_key, udp_match};

use crate::clock::{instant_after, ticks_of_secs, Instant};
use crate::proxy::flow_map::{FlowDirection, FlowKey, FlowMap};
use crate::wire::{Ipv4Packet, PROTOCOL_ICMP, PROTOCOL_TCP, PROTOCOL_UDP};
use vstd::prelude::*;

verus! {

/// The number of flows that a table holds at most.
pub const MAX_FLOWS: usize = 32_768;

/// The seconds between two removals of expired flows.
pub const SWEEP_INTERVAL_SECS: u64 = 1;

pub const ECHO_TIMEOUT_SECS: u64 = 30;

pub const SYN_TIMEOUT_SECS: u64 = 60;

pub const TCP_TIMEOUT_SECS: u64 = 300;

pub const UDP_TIMEOUT_SECS: u64 = 30;

/// What is kept of an admitted flow.
#[derive(Clone, Copy, Debug, PartialEq, Eq, Structural)]
pub struct Flow {
    pub initiating_direction: FlowDirection,
    pub expires_at: Instant,
}

/// A proposed entry that awaits the policy's decision.
#[derive(Clone, Copy, Debug, PartialEq, Eq, Structural)]
pub struct PendingFlow {
    pub key: FlowKey,
    pub flow: Flow,
}

/// What the table makes of a packet.
#[derive(Clone, Copy, Debug, PartialEq, Eq, Structural)]
pub enum FlowMatch {
    /// The packet is return traffic of an admitted flow.
    Allowed,
    /// The policy must authorize the packet before its flow is entered.
    Candidate(PendingFlow),
    /// The packet is malformed or breaks a rule of its transport that is enforced here.
    Denied,
    /// The table has nothing to say about the packet.
    Untracked,
}

/// A candidate whose entry would expire `timeout_secs` from now.
pub open spec fn candidate_for(
    key: FlowKey,
    direction: FlowDirection,
    now: Instant,
    timeout_secs: u64,
) -> FlowMatch {
    FlowMatch::Candidate(
        PendingFlow {
            key: key,
            flow: Flow {
                initiating_direction: direction,
                expires_at: instant_after(now, ticks_of_secs(timeout_secs)),
            },
        },
    )
}

impl FlowMatch {
    pub fn candidate(
        key: FlowKey,
        initiating_direction: FlowDirection,
        now: Instant,
        timeout_secs: u64,
    ) -> (r: FlowMatch)
        ensures
            r == candidate_for(key, initiating_direction, now, timeout_secs),
    {
        FlowMatch::Candidate(
            PendingFlow {
                key,
                flow: Flow { initiating_direction, expires_at: now.plus_secs(timeout_secs) },
            },
        )
    }
}

/// The entries that have not expired.
pub open spec fn live(m: Map<FlowKey, Flow>, now: Instant) -> Map<FlowKey, Flow> {
    m.restrict(m.dom().filter(|k: FlowKey| now.ticks < m[k].expires_at.ticks))
}

/// How an entry that has not expired bears on a packet: what flows against the initiating
/// direction is allowed, what flows with it goes back to the policy.
pub open spec fn existing_match(
    m: Map<FlowKey, Flow>,
    key: FlowKey,
    direction: FlowDirection,
    now: Instant,
    timeout_secs: u64,
) -> Option<FlowMatch> {
    if !m.contains_key(key) || now.ticks >= m[key].expires_at.ticks {
        None
    } else if direction == m[key].initiating_direction {
        Some(candidate_for(key, direction, now, timeout_secs))
    } else {
        Some(FlowMatch::Allowed)
    }
}

/// What the entries `m` make of a packet.
pub open spec fn flow_match(
    m: Map<FlowKey, Flow>,
    p: Ipv4Packet,
    direction: FlowDirection,
    now: Instant,
) -> FlowMatch {
    if p.is_fragment() {
        FlowMatch::Untracked
    } else if p.next_header == PROTOCOL_ICMP {
        echo_match(m, p, direction, now)
    } else if p.next_header == PROTOCOL_TCP {
        tcp_match(m, p, direction, now)
    } else if p.next_header == PROTOCOL_UDP {
        udp_match(m, p, direction, now)
    } else {
        FlowMatch::Untracked
    }
}

/// The table of admitted flows.
#[derive(Debug)]
pub struct FlowTable {
    pub flows: FlowMap<Flow>,
    pub next_sweep: Instant,
}

impl View for FlowTable {
    type V = Map<FlowKey, Flow>;

    open spec fn view(&self) -> Map<FlowKey, Flow> {
        self.flows@
    }
}

impl FlowTable {
    /// The table never exceeds its capacity.
    pub open spec fn wf(&self) -> bool {
        &&& self.flows.wf()
        &&& self@.len() <= MAX_FLOWS
    }

    /// The entries after a sweep at `now`, if one is due.
    pub open spec fn swept(&self, now: Instant) -> Map<FlowKey, Flow> {
        if now.ticks < self.next_sweep.ticks {
            self@
        } else {
            live(self@, now)
        }
    }

    /// When the next sweep is due, after one at `now` if one was due then.
    pub open spec fn sweep_after(&self, now: Instant) -> Instant {
        if now.ticks < self.next_sweep.ticks {
            self.next_sweep
        } else {
            instant_after(now, ticks_of_secs(SWEEP_INTERVAL_SECS))
        }
    }

    /// An empty table whose first sweep is due a second from `now`.
    pub fn new_at(now: Instant) -> (r: FlowTable)
        ensures
            r.wf(),
            r@ == Map::<FlowKey, Flow>::empty(),
            r.next_sweep == instant_after(now, ticks_of_secs(SWEEP_INTERVAL_SECS)),
    {
        FlowTable { flows: FlowMap::new(), next_sweep: now.plus_secs(SWEEP_INTERVAL_SECS) }
    }

    pub fn new() -> (r: FlowTable)
        ensures
            r.wf(),
            r@ == Map::<FlowKey, Flow>::empty(),
            exists|now: Instant|
                r.next_sweep == #[trigger] instant_after(now, ticks_of_secs(SWEEP_INTERVAL_SECS)),
    {
        FlowTable::new_at(Instant::recent())
    }

    /// Classifies a packet at the time of the latest clock update.
    pub fn inspect(&mut self, ipv4_pkt: &Ipv4Packet, direction: FlowDirection) -> (r: FlowMatch)
        requires
            old(self).wf(),
            ipv4_pkt.wf(),
        ensures
            final(self).wf(),
            exists|now: Instant| #[trigger]
                old(self).swept(now) == final(self)@ && final(self).next_sweep == old(
                    self,
                ).sweep_after(now) && r == flow_match(final(self)@, *ipv4_pkt, direction, now),
    {
        let now = Instant::recent();
        let r = self.inspect_at(ipv4_pkt, direction, now);
        assert(old(self).swept(now) == self@);
        r
    }

    /// Removes expired entries if a sweep is due, then classifies a packet.
    pub fn inspect_at(
        &mut self,
        ipv4_pkt: &Ipv4Packet,
        direction: FlowDirection,
        now: Instant,
    ) -> (r: FlowMatch)
        requires
            old(self).wf(),
            ipv4_pkt.wf(),
        ensures
            final(self).wf(),
            final(self)@ == old(self).swept(now),
            final(self).next_sweep == old(self).sweep_after(now),
            r == flow_match(final(self)@, *ipv4_pkt, direction, now),
    {
        self.sweep_if_due(now);

        // Later fragments do not carry the transport header that would bind them to
        // a flow, so the policy must decide.
        if ipv4_pkt.more_frags || ipv4_pkt.frag_offset != 0 {
            return FlowMatch::Untracked;
        }
        if ipv4_pkt.next_header == PROTOCOL_ICMP {
            self.inspect_icmp(ipv4_pkt, direction, now)
        } else if ipv4_pkt.next_header == PROTOCOL_TCP {
            self.inspect_tcp(ipv4_pkt, direction, now)
        } else if ipv4_pkt.next_header == PROTOCOL_UDP {
            self.inspect_udp(ipv4_pkt, direction, now)
        } else {
            FlowMatch::Untracked
        }
    }

    /// Enters a flow that the policy has authorized. A full table takes no new flow, but
    /// still replaces the entry of a known one.
    pub fn commit(&mut self, pending: PendingFlow) -> (r: bool)
        requires
            old(self).wf(),
        ensures
            final(self).wf(),
            r == (old(self)@.contains_key(pending.key) || old(self)@.len() < MAX_FLOWS),
            final(self)@ == if r {
                old(self)@.insert(pending.key, pending.flow)
            } else {
                old(self)@
            },
            final(self).next_sweep == old(self).next_sweep,
    {
        if !self.flows.contains_key(pending.key) && self.flows.len() >= MAX_FLOWS {
            return false;
        }
        proof {
            self.flows.lemma_len();
        }
        self.flows.insert(pending.key, pending.flow);
        true
    }

    /// Forgets every flow.
    pub fn clear(&mut self)
        ensures
            final(self).wf(),
            final(self)@ == Map::<FlowKey, Flow>::empty(),
            final(self).next_sweep == old(self).next_sweep,
    {
        self.flows.clear();
    }

    /// Removes expired entries, at most once per sweep interval.
    pub fn sweep_if_due(&mut self, now: Instant)
        requires
            old(self).wf(),
        ensures
            final(self).wf(),
            final(self)@ == old(self).swept(now),
            final(self).next_sweep == old(self).sweep_after(now),
    {
        if now.ticks < self.next_sweep.ticks {
            return ;
        }
        self.retain_live(now);
        self.next_sweep = now.plus_secs(SWEEP_INTERVAL_SECS);
    }

    fn retain_live(&mut self, now: Instant)
        requires
            old(self).wf(),
        ensures
            final(self).wf(),
            final(self)@ == live(old(self)@, now),
            final(self).next_sweep == old(self).next_sweep,
    {
        let ghost before = self@;
        let keys = self.flows.keys();
        let mut i: usize = 0;
        while i < keys.len()
            invariant
                self.flows.wf(),
                self.next_sweep == old(self).next_sweep,
                i <= keys.len(),
                keys@.no_duplicates(),
                keys@.to_set() == before.dom(),
                self@.submap_of(before),
                forall|k: FlowKey| #[trigger]
                    self@.contains_key(k) <==> before.contains_key(k) && (now.ticks
                        < before[k].expires_at.ticks || !keys@.take(i as int).contains(k)),
            decreases keys.len() - i,
        {
            let key = keys[i];
            proof {
                assert(keys@.take(i + 1) =~= keys@.take(i as int).push(key));
                assert(keys@.to_set().contains(key));
                assert forall|k: FlowKey| #[trigger] keys@.take(i + 1).contains(k) <==> keys@.take(
                    i as int,
                ).contains(k) || k == key by {
                    if k == key {
                        assert(keys@.take(i + 1)[i as int] == k);
                    }
                    if keys@.take(i as int).contains(k) {
                        let j = choose|j: int| 0 <= j < i && keys@.take(i as int)[j] == k;
                        assert(keys@.take(i + 1)[j] == k);
                    }
                }
                if keys@.take(i as int).contains(key) {
                    let j = choose|j: int| 0 <= j < i && keys@.take(i as int)[j] == key;
                    assert(keys@[j] == keys@[i as int]);
                }
            }
            if let Some(flow) = self.flows.get(key) {
                if now.ticks >= flow.expires_at.ticks {
                    self.flows.remove(key);
                }
            }
            i = i + 1;
        }
        proof {
            assert(keys@.take(i as int) =~= keys@);
            assert forall|k: FlowKey| before.contains_key(k) implies keys@.contains(k) by {
                assert(keys@.to_set().contains(k));
            }
            assert(self@ =~= live(before, now));
            self.flows.lemma_len();
            old(self).flows.lemma_len();
            vstd::set_lib::lemma_len_subset(self@.dom(), before.dom());
        }
    }

    /// How a known flow bears on a packet. Expired entries count as missing even
    /// before they are swept away.
    pub fn match_existing_flow(
        &self,
        key: FlowKey,
        direction: FlowDirection,
        now: Instant,
        timeout_secs: u64,
    ) -> (r: Option<FlowMatch>)
        requires
            self.wf(),
        ensures
            r == existing_match(self@, key, direction, now, timeout_secs),
    {
        match self.flows.get(key) {
            None => None,
            Some(existing) => if now.ticks >= existing.expires_at.ticks {
                None
            } else if direction == existing.initiating_direction {
                Some(
                    FlowMatch::candidate(key, existing.initiating_direction, now, timeout_secs),
                )
            } else {
                Some(FlowMatch::Allowed)
            },
        }
    }
}

} // verus!
