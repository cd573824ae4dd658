//! Flow identities, and maps from them.

use crate::addr::Ipv4Address;
use std::collections::HashMap;
use vstd::prelude::*;

verus! {

broadcast use vstd::std_specs::hash::group_hash_axioms;

/// A packet direction across the boundary between host and virtual machine.
#[derive(Clone, Copy, Debug, PartialEq, Eq, Structural)]
pub enum FlowDirection {
    FromHost,
    FromVm,
}

impl FlowDirection {
    /// The other direction.
    pub open spec fn reversed(self) -> FlowDirection {
        match self {
            FlowDirection::FromHost => FlowDirection::FromVm,
            FlowDirection::FromVm => FlowDirection::FromHost,
        }
    }

    /// Sorts what belongs to a packet's source and destination into what
    /// belongs to the host and to the virtual machine.
    pub fn host_vm_pair<T>(self, src: T, dst: T) -> (r: (T, T))
        ensures
            self is FromHost ==> r == (src, dst),
            self is FromVm ==> r == (dst, src),
    {
        match self {
            FlowDirection::FromHost => (src, dst),
            FlowDirection::FromVm => (dst, src),
        }
    }

    pub fn opposite(self) -> (r: FlowDirection)
        ensures
            r == self.reversed(),
    {
        match self {
            FlowDirection::FromHost => FlowDirection::FromVm,
            FlowDirection::FromVm => FlowDirection::FromHost,
        }
    }
}

/// The identity of a flow, the same for both of its directions.
#[derive(Clone, Copy, Debug, PartialEq, Eq, Structural)]
pub enum FlowKey {
    Echo {
        host_addr: Ipv4Address,
        vm_addr: Ipv4Address,
        ident: u16,
        initiating_direction: FlowDirection,
    },
    Tcp { host_addr: Ipv4Address, host_port: u16, vm_addr: Ipv4Address, vm_port: u16 },
    Udp { host_addr: Ipv4Address, host_port: u16, vm_addr: Ipv4Address, vm_port: u16 },
}

/// A tag, two addresses and two port numbers, packed into one number.
pub open spec fn packed(tag: int, host: u32, vm: u32, a: u16, b: u16) -> int {
    tag * 0x1_0000_0000_0000_0000_0000_0000 + host * 0x1_0000_0000_0000_0000 + vm * 0x1_0000_0000
        + a * 0x1_0000 + b
}

/// The number under which a flow is stored.
pub open spec fn flow_code(k: FlowKey) -> u128 {
    match k {
        FlowKey::Echo { host_addr, vm_addr, ident, initiating_direction } => {
            let tag: int = if initiating_direction is FromHost {
                0
            } else {
                1
            };
            packed(tag, host_addr.bits, vm_addr.bits, ident, 0) as u128
        },
        FlowKey::Tcp { host_addr, host_port, vm_addr, vm_port } => packed(
            2,
            host_addr.bits,
            vm_addr.bits,
            host_port,
            vm_port,
        ) as u128,
        FlowKey::Udp { host_addr, host_port, vm_addr, vm_port } => packed(
            3,
            host_addr.bits,
            vm_addr.bits,
            host_port,
            vm_port,
        ) as u128,
    }
}

proof fn lemma_packed_injective(
    t1: int,
    h1: u32,
    v1: u32,
    a1: u16,
    b1: u16,
    t2: int,
    h2: u32,
    v2: u32,
    a2: u16,
    b2: u16,
)
    requires
        0 <= t1 < 4,
        0 <= t2 < 4,
        packed(t1, h1, v1, a1, b1) as u128 == packed(t2, h2, v2, a2, b2) as u128,
    ensures
        t1 == t2 && h1 == h2 && v1 == v2 && a1 == a2 && b1 == b2,
{
}

/// Different flows are stored under different numbers.
pub proof fn lemma_flow_code_injective(a: FlowKey, b: FlowKey)
    requires
        flow_code(a) == flow_code(b),
    ensures
        a == b,
{
    let (t1, h1, v1, p1, q1) = parts(a);
    let (t2, h2, v2, p2, q2) = parts(b);
    lemma_packed_injective(t1, h1, v1, p1, q1, t2, h2, v2, p2, q2);
}

spec fn parts(k: FlowKey) -> (int, u32, u32, u16, u16) {
    match k {
        FlowKey::Echo { host_addr, vm_addr, ident, initiating_direction } => (
            if initiating_direction is FromHost {
                0
            } else {
                1
            },
            host_addr.bits,
            vm_addr.bits,
            ident,
            0,
        ),
        FlowKey::Tcp { host_addr, host_port, vm_addr, vm_port } => (
            2,
            host_addr.bits,
            vm_addr.bits,
            host_port,
            vm_port,
        ),
        FlowKey::Udp { host_addr, host_port, vm_addr, vm_port } => (
            3,
            host_addr.bits,
            vm_addr.bits,
            host_port,
            vm_port,
        ),
    }
}

fn pack(tag: u128, host: Ipv4Address, vm: Ipv4Address, a: u16, b: u16) -> (r: u128)
    requires
        tag < 4,
    ensures
        r == packed(tag as int, host.bits, vm.bits, a, b),
{
    tag * 0x1_0000_0000_0000_0000_0000_0000 + host.bits as u128 * 0x1_0000_0000_0000_0000
        + vm.bits as u128 * 0x1_0000_0000 + a as u128 * 0x1_0000 + b as u128
}

impl FlowKey {
    /// The number under which the flow is stored.
    pub fn code(&self) -> (r: u128)
        ensures
            r == flow_code(*self),
    {
        match *self {
            FlowKey::Echo { host_addr, vm_addr, ident, initiating_direction } => {
                let tag: u128 = match initiating_direction {
                    FlowDirection::FromHost => 0,
                    FlowDirection::FromVm => 1,
                };
                pack(tag, host_addr, vm_addr, ident, 0)
            },
            FlowKey::Tcp { host_addr, host_port, vm_addr, vm_port } => pack(
                2,
                host_addr,
                vm_addr,
                host_port,
                vm_port,
            ),
            FlowKey::Udp { host_addr, host_port, vm_addr, vm_port } => pack(
                3,
                host_addr,
                vm_addr,
                host_port,
                vm_port,
            ),
        }
    }
}

/// A map from flows to what is known of them.
#[derive(Debug)]
pub struct FlowMap<V> {
    pub entries: HashMap<u128, (FlowKey, V)>,
}

impl<V> View for FlowMap<V> {
    type V = Map<FlowKey, V>;

    open spec fn view(&self) -> Map<FlowKey, V> {
        Map::new(
            |k: FlowKey| self.entries@.contains_key(flow_code(k)),
            |k: FlowKey| self.entries@[flow_code(k)].1,
        )
    }
}

impl<V: Copy> FlowMap<V> {
    /// Every entry is stored under its own flow's number.
    pub open spec fn wf(&self) -> bool {
        forall|c: u128| #[trigger]
            self.entries@.contains_key(c) ==> flow_code(self.entries@[c].0) == c
    }

    /// There are as many flows as stored entries.
    pub proof fn lemma_len(&self)
        requires
            self.wf(),
        ensures
            self@.dom().finite(),
            self@.len() == self.entries@.len(),
    {
        let f = |c: u128| self.entries@[c].0;
        let image = self.entries@.dom().map(f);
        assert forall|k: FlowKey| image.contains(k) <==> self@.dom().contains(k) by {
            if self@.dom().contains(k) {
                let c = flow_code(k);
                lemma_flow_code_injective(self.entries@[c].0, k);
                assert(self.entries@.dom().contains(c) && f(c) == k);
            }
            if image.contains(k) {
                let c = choose|c: u128| #[trigger] self.entries@.dom().contains(c) && f(c) == k;
                assert(self.entries@.contains_key(c));
            }
        }
        assert(image =~= self@.dom());
        assert(vstd::relations::injective_on(f, self.entries@.dom())) by {
            assert forall|c1: u128, c2: u128|
                self.entries@.dom().contains(c1) && self.entries@.dom().contains(c2) && #[trigger] f(
                    c1,
                ) == #[trigger] f(c2) implies c1 == c2 by {
                assert(self.entries@.contains_key(c1));
                assert(self.entries@.contains_key(c2));
            }
        }
        vstd::set_lib::lemma_map_size(self.entries@.dom(), image, f);
    }

    pub fn new() -> (r: FlowMap<V>)
        ensures
            r.wf(),
            r@ == Map::<FlowKey, V>::empty(),
    {
        let r = FlowMap { entries: HashMap::new() };
        assert(r@ =~= Map::<FlowKey, V>::empty());
        r
    }

    pub fn get(&self, key: FlowKey) -> (r: Option<V>)
        requires
            self.wf(),
        ensures
            r == self@.get(key),
    {
        match self.entries.get(&key.code()) {
            Some(entry) => Some(entry.1),
            None => None,
        }
    }

    pub fn contains_key(&self, key: FlowKey) -> (r: bool)
        requires
            self.wf(),
        ensures
            r == self@.contains_key(key),
    {
        self.entries.contains_key(&key.code())
    }

    pub fn len(&self) -> (r: usize)
        requires
            self.wf(),
        ensures
            r == self@.len(),
    {
        proof {
            self.lemma_len();
        }
        self.entries.len()
    }

    pub fn insert(&mut self, key: FlowKey, value: V)
        requires
            old(self).wf(),
        ensures
            final(self).wf(),
            final(self)@ == old(self)@.insert(key, value),
    {
        let code: u128 = key.code();
        self.entries.insert(code, (key, value));
        proof {
            assert forall|k: FlowKey| flow_code(k) == code implies k == key by {
                lemma_flow_code_injective(k, key);
            }
            assert(self@ =~= old(self)@.insert(key, value));
        }
    }

    pub fn remove(&mut self, key: FlowKey)
        requires
            old(self).wf(),
        ensures
            final(self).wf(),
            final(self)@ == old(self)@.remove(key),
    {
        let code: u128 = key.code();
        self.entries.remove(&code);
        proof {
            assert forall|k: FlowKey| flow_code(k) == code implies k == key by {
                lemma_flow_code_injective(k, key);
            }
            assert(self@ =~= old(self)@.remove(key));
        }
    }

    pub fn clear(&mut self)
        ensures
            final(self).wf(),
            final(self)@ == Map::<FlowKey, V>::empty(),
    {
        self.entries.clear();
        assert(self@ =~= Map::<FlowKey, V>::empty());
    }

    /// Every flow in the map, once each, in no particular order.
    pub fn keys(&self) -> (r: Vec<FlowKey>)
        requires
            self.wf(),
        ensures
            r@.no_duplicates(),
            r@.to_set() == self@.dom(),
    {
        let mut keys: Vec<FlowKey> = Vec::new();
        let codes = self.entries.keys();
        let ghost all: Seq<&u128> = vstd::std_specs::iter::IteratorSpec::remaining(&codes);
        for code in iter: codes
            invariant
                self.wf(),
                iter.seq() == all,
                all.unref().to_set() == self.entries@.dom(),
                keys.len() == iter.index(),
                forall|i: int| 0 <= i < keys.len() ==> flow_code(#[trigger] keys@[i]) == *all[i],
        {
            proof {
                assert(all.unref()[iter.index() as int] == *code);
                assert(all.unref().to_set().contains(*code));
            }
            match self.entries.get(code) {
                Some(entry) => keys.push(entry.0),
                None => {},
            }
        }
        proof {
            assert forall|k: FlowKey| self@.dom().contains(k) implies keys@.contains(k) by {
                assert(all.unref().to_set().contains(flow_code(k)));
                let i = choose|i: int| 0 <= i < all.len() && all.unref()[i] == flow_code(k);
                assert(flow_code(keys@[i]) == *all[i]);
                lemma_flow_code_injective(keys@[i], k);
            }
            assert forall|i: int| 0 <= i < keys.len() implies self@.dom().contains(
                #[trigger] keys@[i],
            ) by {
                assert(all.unref()[i] == flow_code(keys@[i]));
                assert(all.unref().to_set().contains(flow_code(keys@[i])));
            }
            assert(keys@.to_set() =~= self@.dom());
        }
        keys
    }
}

} // verus!
