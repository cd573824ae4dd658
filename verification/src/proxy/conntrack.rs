//! Permission to use an exact flow between host and virtual machine.
//!
//! This does not replace either endpoint's transport stack: sequence numbers and
//! windows remain theirs to check. What is guarded is the start of a flow: only an
//! authorized first packet makes an entry, and traffic the other way must
//! match the reverse.

use crate::addr::Ipv4Address;
use crate::clock::{instant_after, ticks_of_secs, within_secs, Instant};
use crate::proxy::conntrack_tcp::{tcp_inspection, tcp_timeout_secs, TcpState};
use crate::proxy::conntrack_udp::{udp_inspection, udp_timeout_secs, UdpState};
use crate::proxy::flow_map::{FlowDirection, FlowKey, FlowMap};
use crate::wire::{Ipv4Packet, PROTOCOL_TCP, PROTOCOL_UDP};
use vstd::prelude::*;

verus! {

pub const MAX_FLOWS: usize = 4096;

pub const MAX_VM_INITIATED_FLOWS: usize = 1024;

pub const MAX_EMBRYONIC_FLOWS_PER_SOURCE: usize = 256;

pub const SWEEP_INTERVAL_SECS: u64 = 1;

/// The side that sent a flow's first packet.
#[derive(Clone, Copy, Debug, PartialEq, Eq, Structural)]
pub enum Initiator {
    Host,
    Vm,
}

/// How far a flow has come.
#[derive(Clone, Copy, Debug, PartialEq, Eq, Structural)]
pub enum FlowState {
    Tcp(TcpState),
    Udp(UdpState),
}

#[derive(Clone, Copy, Debug, PartialEq, Eq, Structural)]
pub struct Flow {
    pub initiator: Initiator,
    pub state: FlowState,
    pub last_seen: Instant,
}

/// A flow that awaits authorization.
#[derive(Clone, Copy, Debug, PartialEq, Eq, Structural)]
pub struct PendingFlow {
    pub key: FlowKey,
    pub flow: Flow,
}

impl PendingFlow {
    /// What is proposed is of the transport that the key names.
    pub open spec fn wf(&self) -> bool {
        of_one_transport(self.key, self.flow)
    }
}

#[derive(Clone, Copy, Debug, PartialEq, Eq, Structural)]
pub enum ConntrackResult {
    Allowed,
    New(PendingFlow),
    Denied,
}

/// The side that a packet comes from.
pub open spec fn sender(direction: FlowDirection) -> Initiator {
    match direction {
        FlowDirection::FromHost => Initiator::Host,
        FlowDirection::FromVm => Initiator::Vm,
    }
}

/// The side that a packet comes from: the initiator, where it is a flow's first.
pub fn initiator(direction: FlowDirection) -> (r: Initiator)
    ensures
        r == sender(direction),
{
    match direction {
        FlowDirection::FromHost => Initiator::Host,
        FlowDirection::FromVm => Initiator::Vm,
    }
}

/// The seconds of silence after which a flow is forgotten.
pub open spec fn flow_timeout_secs(state: FlowState) -> u64 {
    match state {
        FlowState::Tcp(s) => tcp_timeout_secs(s),
        FlowState::Udp(s) => udp_timeout_secs(s),
    }
}

/// A packet of the flow was seen within its timeout.
pub open spec fn is_live(flow: Flow, now: Instant) -> bool {
    within_secs(now, flow.last_seen, flow_timeout_secs(flow.state))
}

/// The flows that are not forgotten at `now`.
pub open spec fn unexpired(m: Map<FlowKey, Flow>, now: Instant) -> Map<FlowKey, Flow> {
    m.restrict(m.dom().filter(|k: FlowKey| is_live(m[k], now)))
}

/// The address that has started a TCP handshake which is not finished.
pub open spec fn embryonic_source_of(key: FlowKey, flow: Flow) -> Option<Ipv4Address> {
    match (key, flow.state) {
        (FlowKey::Tcp { host_addr, vm_addr, .. }, FlowState::Tcp(s)) => if s is SynSent
            || s is SynReceived {
            match flow.initiator {
                Initiator::Host => Some(host_addr),
                Initiator::Vm => Some(vm_addr),
            }
        } else {
            None
        },
        _ => None,
    }
}

/// The flows that the virtual machine started.
pub open spec fn vm_initiated(m: Map<FlowKey, Flow>) -> Set<FlowKey> {
    m.dom().filter(|k: FlowKey| m[k].initiator is Vm)
}

/// The flows with an unfinished handshake that `source` started.
pub open spec fn embryonic_from(m: Map<FlowKey, Flow>, source: Ipv4Address) -> Set<FlowKey> {
    m.dom().filter(|k: FlowKey| embryonic_source_of(k, m[k]) == Some(source))
}

/// There is room for a flow: in the whole table, among the flows of the virtual machine if
/// it is one of them, and among the unfinished handshakes of its source if it starts one.
pub open spec fn has_room(m: Map<FlowKey, Flow>, key: FlowKey, flow: Flow) -> bool {
    &&& m.len() < MAX_FLOWS
    &&& flow.initiator is Vm ==> vm_initiated(m).len() < MAX_VM_INITIATED_FLOWS
    &&& embryonic_source_of(key, flow) matches Some(source) ==> embryonic_from(m, source).len()
        < MAX_EMBRYONIC_FLOWS_PER_SOURCE
}

/// What is known of a flow is of the transport that its key names.
pub open spec fn of_one_transport(key: FlowKey, flow: Flow) -> bool {
    match key {
        FlowKey::Tcp { .. } => flow.state is Tcp,
        FlowKey::Udp { .. } => flow.state is Udp,
        FlowKey::Echo { .. } => false,
    }
}

/// Every flow is known by what its transport keeps, and nothing but TCP and UDP is known.
pub open spec fn of_their_transports(m: Map<FlowKey, Flow>) -> bool {
    forall|k: FlowKey| #[trigger] m.contains_key(k) ==> of_one_transport(k, m[k])
}

/// What a packet does: the verdict on it, and the flows afterwards.
pub open spec fn inspection(
    m: Map<FlowKey, Flow>,
    p: Ipv4Packet,
    direction: FlowDirection,
    now: Instant,
) -> (ConntrackResult, Map<FlowKey, Flow>) {
    if p.is_fragment() {
        (ConntrackResult::Denied, m)
    } else if p.next_header == PROTOCOL_TCP {
        tcp_inspection(m, p, direction, now)
    } else if p.next_header == PROTOCOL_UDP {
        udp_inspection(m, p, direction, now)
    } else {
        (ConntrackResult::Denied, m)
    }
}

/// The flow that a packet belongs to, over TCP or over UDP.
pub fn oriented_transport_key(
    packet: &Ipv4Packet,
    direction: FlowDirection,
    is_tcp: bool,
    src_port: u16,
    dst_port: u16,
) -> (r: FlowKey)
    ensures
        r == if is_tcp {
            crate::proxy::flows::tcp_key(
                direction,
                (packet.src_addr, src_port),
                (packet.dst_addr, dst_port),
            )
        } else {
            crate::proxy::flows::udp_key(
                direction,
                (packet.src_addr, src_port),
                (packet.dst_addr, dst_port),
            )
        },
{
    let src = (packet.src_addr, src_port);
    let dst = (packet.dst_addr, dst_port);
    if is_tcp {
        FlowKey::tcp(direction, src, dst)
    } else {
        FlowKey::udp(direction, src, dst)
    }
}

/// The address that has started an unfinished handshake, if the flow is one.
pub fn embryonic_source(key: FlowKey, flow: Flow) -> (r: Option<Ipv4Address>)
    ensures
        r == embryonic_source_of(key, flow),
{
    match (key, flow.state) {
        (FlowKey::Tcp { host_addr, vm_addr, .. }, FlowState::Tcp(state)) => match state {
            TcpState::SynSent | TcpState::SynReceived => match flow.initiator {
                Initiator::Host => Some(host_addr),
                Initiator::Vm => Some(vm_addr),
            },
            _ => None,
        },
        _ => None,
    }
}

impl Flow {
    pub fn timeout_secs(&self) -> (r: u64)
        ensures
            r == flow_timeout_secs(self.state),
    {
        match self.state {
            FlowState::Tcp(state) => state.timeout_secs(),
            FlowState::Udp(state) => state.timeout_secs(),
        }
    }
}

proof fn lemma_step<T>(keys: Seq<T>, i: int, p: spec_fn(T) -> bool)
    requires
        0 <= i < keys.len(),
        keys.no_duplicates(),
    ensures
        keys.take(i).to_set().finite(),
        keys.take(i + 1).to_set().filter(p).len() == keys.take(i).to_set().filter(p).len() + if p(
            keys[i],
        ) {
            1nat
        } else {
            0nat
        },
{
    let a = keys.take(i);
    let b = keys.take(i + 1);
    assert(b =~= a.push(keys[i]));
    vstd::seq_lib::seq_to_set_is_finite(a);
    assert(!a.contains(keys[i]));
    assert forall|x: T| b.to_set().contains(x) <==> a.to_set().insert(keys[i]).contains(x) by {
        if a.contains(x) {
            let j = choose|j: int| 0 <= j < a.len() && a[j] == x;
            assert(b[j] == x);
        }
        if x == keys[i] {
            assert(b[i] == x);
        }
    }
    assert(b.to_set() =~= a.to_set().insert(keys[i]));
    if p(keys[i]) {
        assert(b.to_set().filter(p) =~= a.to_set().filter(p).insert(keys[i]));
    } else {
        assert(b.to_set().filter(p) =~= a.to_set().filter(p));
    }
}

/// The flows that packets may use, and when to look for forgotten ones again.
#[derive(Debug)]
pub struct Conntrack {
    pub flows: FlowMap<Flow>,
    pub next_sweep: Instant,
}

impl View for Conntrack {
    type V = Map<FlowKey, Flow>;

    open spec fn view(&self) -> Map<FlowKey, Flow> {
        self.flows@
    }
}

impl Conntrack {
    /// Neither the table nor the virtual machine's share of it exceeds its limit, and every flow
    /// is kept as its transport asks.
    pub open spec fn wf(&self) -> bool {
        &&& self.flows.wf()
        &&& of_their_transports(self@)
        &&& self@.len() <= MAX_FLOWS
        &&& vm_initiated(self@).len() <= MAX_VM_INITIATED_FLOWS
    }

    pub fn new_at(now: Instant) -> (r: Conntrack)
        ensures
            r.wf(),
            r@ == Map::<FlowKey, Flow>::empty(),
            r.next_sweep == instant_after(now, ticks_of_secs(SWEEP_INTERVAL_SECS)),
    {
        let r = Conntrack {
            flows: FlowMap::new(),
            next_sweep: now.plus_secs(SWEEP_INTERVAL_SECS),
        };
        assert(vm_initiated(r@) =~= Set::<FlowKey>::empty());
        r
    }

    pub fn new() -> (r: Conntrack)
        ensures
            r.wf(),
            r@ == Map::<FlowKey, Flow>::empty(),
            exists|now: Instant|
                r.next_sweep == #[trigger] instant_after(now, ticks_of_secs(SWEEP_INTERVAL_SECS)),
    {
        Conntrack::new_at(Instant::recent())
    }

    pub fn inspect_from_host(&mut self, packet: &Ipv4Packet) -> (r: ConntrackResult)
        requires
            old(self).wf(),
        ensures
            final(self).wf(),
            r matches ConntrackResult::New(pending) ==> pending.wf(),
            final(self).next_sweep == old(self).next_sweep,
            exists|now: Instant|
                (r, final(self)@) == #[trigger] inspection(
                    old(self)@,
                    *packet,
                    FlowDirection::FromHost,
                    now,
                ),
    {
        self.inspect_at(packet, FlowDirection::FromHost, Instant::recent())
    }

    pub fn inspect_from_vm(&mut self, packet: &Ipv4Packet) -> (r: ConntrackResult)
        requires
            old(self).wf(),
        ensures
            final(self).wf(),
            r matches ConntrackResult::New(pending) ==> pending.wf(),
            final(self).next_sweep == old(self).next_sweep,
            exists|now: Instant|
                (r, final(self)@) == #[trigger] inspection(
                    old(self)@,
                    *packet,
                    FlowDirection::FromVm,
                    now,
                ),
    {
        self.inspect_at(packet, FlowDirection::FromVm, Instant::recent())
    }

    /// Decides on a packet that travels in `direction`, and moves its flow on.
    pub fn inspect_at(
        &mut self,
        packet: &Ipv4Packet,
        direction: FlowDirection,
        now: Instant,
    ) -> (r: ConntrackResult)
        requires
            old(self).wf(),
        ensures
            final(self).wf(),
            r matches ConntrackResult::New(pending) ==> pending.wf(),
            final(self).next_sweep == old(self).next_sweep,
            (r, final(self)@) == inspection(old(self)@, *packet, direction, now),
    {
        // Later fragments do not carry the transport header that would bind them to a flow.
        if packet.more_frags || packet.frag_offset != 0 {
            return ConntrackResult::Denied;
        }
        if packet.next_header == PROTOCOL_TCP {
            self.inspect_tcp(packet, direction, now)
        } else if packet.next_header == PROTOCOL_UDP {
            self.inspect_udp(packet, direction, now)
        } else {
            ConntrackResult::Denied
        }
    }

    /// Replaces what is known of a flow, its initiator staying the same.
    pub(crate) fn update(&mut self, key: FlowKey, flow: Flow)
        requires
            old(self).wf(),
            old(self)@.contains_key(key),
            old(self)@[key].initiator == flow.initiator,
            of_one_transport(key, flow),
        ensures
            final(self).wf(),
            final(self).next_sweep == old(self).next_sweep,
            final(self)@ == old(self)@.insert(key, flow),
    {
        proof {
            self.flows.lemma_len();
        }
        self.flows.insert(key, flow);
        assert(vm_initiated(self@) =~= vm_initiated(old(self)@));
    }

    /// Forgets a flow.
    pub(crate) fn forget(&mut self, key: FlowKey)
        requires
            old(self).wf(),
        ensures
            final(self).wf(),
            final(self).next_sweep == old(self).next_sweep,
            final(self)@ == old(self)@.remove(key),
    {
        proof {
            self.flows.lemma_len();
        }
        self.flows.remove(key);
        proof {
            self.flows.lemma_len();
            vstd::set_lib::lemma_len_subset(self@.dom(), old(self)@.dom());
            vstd::set_lib::lemma_set_subset_finite(old(self)@.dom(), vm_initiated(old(self)@));
            vstd::set_lib::lemma_len_subset(vm_initiated(self@), vm_initiated(old(self)@));
        }
    }

    /// Enters a flow that has been authorized, as of the latest clock update.
    pub fn commit(&mut self, pending: PendingFlow) -> (r: bool)
        requires
            old(self).wf(),
            pending.wf(),
        ensures
            final(self).wf(),
            final(self).next_sweep == old(self).next_sweep,
            exists|now: Instant|
                {
                    let seen = (Flow { last_seen: now, ..pending.flow });
                    let kept = #[trigger] unexpired(old(self)@, now);
                    &&& r == has_room(kept, pending.key, seen)
                    &&& final(self)@ == if r {
                        kept.insert(pending.key, seen)
                    } else {
                        kept
                    }
                },
    {
        let now = Instant::recent();
        let r = self.commit_at(pending, now);
        proof {
            let kept = unexpired(old(self)@, now);
        }
        r
    }

    pub fn commit_at(&mut self, pending: PendingFlow, now: Instant) -> (r: bool)
        requires
            old(self).wf(),
            pending.wf(),
        ensures
            final(self).wf(),
            final(self).next_sweep == old(self).next_sweep,
            r == has_room(
                unexpired(old(self)@, now),
                pending.key,
                (Flow { last_seen: now, ..pending.flow }),
            ),
            final(self)@ == if r {
                unexpired(old(self)@, now).insert(
                    pending.key,
                    (Flow { last_seen: now, ..pending.flow }),
                )
            } else {
                unexpired(old(self)@, now)
            },
    {
        let flow = Flow {
            initiator: pending.flow.initiator,
            state: pending.flow.state,
            last_seen: now,
        };
        self.insert(pending.key, flow, now)
    }

    /// Forgets expired flows, at most once per sweep interval.
    pub fn tick(&mut self)
        requires
            old(self).wf(),
        ensures
            final(self).wf(),
            exists|now: Instant|
                {
                    let kept = #[trigger] unexpired(old(self)@, now);
                    if now.ticks >= old(self).next_sweep.ticks {
                        &&& final(self)@ == kept
                        &&& final(self).next_sweep == instant_after(
                            now,
                            ticks_of_secs(SWEEP_INTERVAL_SECS),
                        )
                    } else {
                        &&& final(self)@ == old(self)@
                        &&& final(self).next_sweep == old(self).next_sweep
                    }
                },
    {
        let now = Instant::recent();
        self.tick_at(now);
        proof {
            let kept = unexpired(old(self)@, now);
        }
    }

    pub fn tick_at(&mut self, now: Instant)
        requires
            old(self).wf(),
        ensures
            final(self).wf(),
            now.ticks >= old(self).next_sweep.ticks ==> {
                &&& final(self)@ == unexpired(old(self)@, now)
                &&& final(self).next_sweep == instant_after(
                    now,
                    ticks_of_secs(SWEEP_INTERVAL_SECS),
                )
            },
            now.ticks < old(self).next_sweep.ticks ==> {
                &&& final(self)@ == old(self)@
                &&& final(self).next_sweep == old(self).next_sweep
            },
    {
        if now.ticks >= self.next_sweep.ticks {
            self.expire(now);
            self.next_sweep = now.plus_secs(SWEEP_INTERVAL_SECS);
        }
    }

    /// Forgets every flow.
    pub fn clear(&mut self)
        ensures
            final(self).wf(),
            final(self)@ == Map::<FlowKey, Flow>::empty(),
            final(self).next_sweep == old(self).next_sweep,
    {
        self.flows.clear();
        assert(vm_initiated(self@) =~= Set::<FlowKey>::empty());
    }

    /// Forgets expired flows, then enters a new one if there is room for it.
    pub fn insert(&mut self, key: FlowKey, flow: Flow, now: Instant) -> (r: bool)
        requires
            old(self).wf(),
            of_one_transport(key, flow),
        ensures
            final(self).wf(),
            final(self).next_sweep == old(self).next_sweep,
            r == has_room(unexpired(old(self)@, now), key, flow),
            final(self)@ == if r {
                unexpired(old(self)@, now).insert(key, flow)
            } else {
                unexpired(old(self)@, now)
            },
    {
        self.expire(now);
        let ghost kept = self@;
        if self.flows.len() >= MAX_FLOWS {
            return false;
        }
        if flow.initiator == Initiator::Vm && self.count_vm_initiated() >= MAX_VM_INITIATED_FLOWS {
            return false;
        }
        if let Some(source) = embryonic_source(key, flow) {
            if self.count_embryonic(source) >= MAX_EMBRYONIC_FLOWS_PER_SOURCE {
                return false;
            }
        }
        proof {
            self.flows.lemma_len();
        }
        self.flows.insert(key, flow);
        proof {
            vstd::set_lib::lemma_set_subset_finite(kept.dom(), vm_initiated(kept));
            if flow.initiator is Vm {
                assert(vm_initiated(self@) =~= vm_initiated(kept).insert(key));
            } else {
                vstd::set_lib::lemma_len_subset(vm_initiated(self@), vm_initiated(kept));
            }
        }
        true
    }

    /// How many flows the virtual machine has started.
    pub fn count_vm_initiated(&self) -> (r: usize)
        requires
            self.wf(),
        ensures
            r == vm_initiated(self@).len(),
    {
        let keys = self.flows.keys();
        let ghost p = |k: FlowKey| self@[k].initiator is Vm;
        let mut count: usize = 0;
        let mut i: usize = 0;
        assert(keys@.take(0).to_set().filter(p) =~= Set::<FlowKey>::empty());
        while i < keys.len()
            invariant
                self.wf(),
                i <= keys.len(),
                count <= i,
                keys@.no_duplicates(),
                keys@.to_set() == self@.dom(),
                p == (|k: FlowKey| self@[k].initiator is Vm),
                count == keys@.take(i as int).to_set().filter(p).len(),
            decreases keys.len() - i,
        {
            let key = keys[i];
            proof {
                lemma_step(keys@, i as int, p);
                assert(keys@.to_set().contains(key));
            }
            if let Some(flow) = self.flows.get(key) {
                if flow.initiator == Initiator::Vm {
                    count = count + 1;
                }
            }
            i = i + 1;
        }
        assert(keys@.take(i as int) =~= keys@);
        count
    }

    /// How many unfinished handshakes a source has started.
    pub fn count_embryonic(&self, source: Ipv4Address) -> (r: usize)
        requires
            self.wf(),
        ensures
            r == embryonic_from(self@, source).len(),
    {
        let keys = self.flows.keys();
        let ghost p = |k: FlowKey| embryonic_source_of(k, self@[k]) == Some(source);
        let mut count: usize = 0;
        let mut i: usize = 0;
        assert(keys@.take(0).to_set().filter(p) =~= Set::<FlowKey>::empty());
        while i < keys.len()
            invariant
                self.wf(),
                i <= keys.len(),
                count <= i,
                keys@.no_duplicates(),
                keys@.to_set() == self@.dom(),
                p == (|k: FlowKey| embryonic_source_of(k, self@[k]) == Some(source)),
                count == keys@.take(i as int).to_set().filter(p).len(),
            decreases keys.len() - i,
        {
            let key = keys[i];
            proof {
                lemma_step(keys@, i as int, p);
                assert(keys@.to_set().contains(key));
            }
            if let Some(flow) = self.flows.get(key) {
                if let Some(from) = embryonic_source(key, flow) {
                    if from == source {
                        count = count + 1;
                    }
                }
            }
            i = i + 1;
        }
        assert(keys@.take(i as int) =~= keys@);
        count
    }

    /// Forgets the flows of which nothing was seen within their timeout.
    pub fn expire(&mut self, now: Instant)
        requires
            old(self).wf(),
        ensures
            final(self).wf(),
            final(self).next_sweep == old(self).next_sweep,
            final(self)@ == unexpired(old(self)@, now),
    {
        let ghost before = self@;
        let keys = self.flows.keys();
        let mut i: usize = 0;
        while i < keys.len()
            invariant
                self.wf(),
                self.next_sweep == old(self).next_sweep,
                i <= keys.len(),
                keys@.no_duplicates(),
                keys@.to_set() == before.dom(),
                self@.submap_of(before),
                forall|k: FlowKey| #[trigger]
                    self@.contains_key(k) <==> before.contains_key(k) && (is_live(before[k], now)
                        || !keys@.take(i as int).contains(k)),
            decreases keys.len() - i,
        {
            let key = keys[i];
            proof {
                assert(keys@.take(i + 1) =~= keys@.take(i as int).push(key));
                assert(keys@.to_set().contains(key));
                assert forall|k: FlowKey| #[trigger] keys@.take(i + 1).contains(k) <==> keys@.take(
                    i as int,
                ).contains(k) || k == key by {
                    if k == key {
                        assert(keys@.take(i + 1)[i as int] == k);
                    }
                    if keys@.take(i as int).contains(k) {
                        let j = choose|j: int| 0 <= j < i && keys@.take(i as int)[j] == k;
                        assert(keys@.take(i + 1)[j] == k);
                    }
                }
                if keys@.take(i as int).contains(key) {
                    let j = choose|j: int| 0 <= j < i && keys@.take(i as int)[j] == key;
                    assert(keys@[j] == keys@[i as int]);
                }
            }
            if let Some(flow) = self.flows.get(key) {
                if !now.is_within_secs_of(flow.last_seen, flow.timeout_secs()) {
                    self.forget(key);
                }
            }
            i = i + 1;
        }
        proof {
            assert(keys@.take(i as int) =~= keys@);
            assert forall|k: FlowKey| before.contains_key(k) implies keys@.contains(k) by {
                assert(keys@.to_set().contains(k));
            }
            assert(self@ =~= unexpired(before, now));
        }
    }
}

} // verus!
