//! What the filter knows, and how it admits flows.

use crate::addr::{octet, EthernetAddress, Ipv4Address};
use crate::clock::{instant_after, ticks_of_secs, Duration, Instant};
use crate::dhcp_snooper::{DhcpSnooper, LeaseView};
use crate::net::Cidr;
use crate::proxy::conntrack::{unexpired, Conntrack};
use crate::proxy::flow_map::{FlowDirection, FlowKey};
use crate::proxy::flows::{
    flow_match, live, Flow, FlowMatch, FlowTable, PendingFlow, MAX_FLOWS, SWEEP_INTERVAL_SECS,
};
use crate::proxy::rule::{Direction, Rule, Target};
use crate::proxy::rules::{all_wf, policy_rules, Rules, RulesView};
use crate::wire::Ipv4Packet;
use vstd::prelude::*;

verus! {

/// A flow table, seen from outside.
pub struct FlowsView {
    pub flows: Map<FlowKey, Flow>,
    pub next_sweep: Instant,
}

impl FlowsView {
    /// The table after a sweep at `now`, if one is due.
    pub open spec fn swept(self, now: Instant) -> FlowsView {
        if now.ticks < self.next_sweep.ticks {
            self
        } else {
            FlowsView {
                flows: live(self.flows, now),
                next_sweep: instant_after(now, ticks_of_secs(SWEEP_INTERVAL_SECS)),
            }
        }
    }

    /// There is room for a flow, or it is known already.
    pub open spec fn takes(self, pending: PendingFlow) -> bool {
        self.flows.contains_key(pending.key) || self.flows.len() < MAX_FLOWS
    }

    /// The table after a flow has been offered to it.
    pub open spec fn offered(self, pending: PendingFlow) -> FlowsView {
        if self.takes(pending) {
            FlowsView { flows: self.flows.insert(pending.key, pending.flow), ..self }
        } else {
            self
        }
    }
}

pub open spec fn table_view(table: FlowTable) -> FlowsView {
    FlowsView { flows: table@, next_sweep: table.next_sweep }
}

pub open spec fn opt_table_view(table: Option<FlowTable>) -> Option<FlowsView> {
    match table {
        Some(table) => Some(table_view(table)),
        None => None,
    }
}

/// What the filter knows, seen from outside.
pub struct ProxyView {
    pub vm_mac_address: EthernetAddress,
    pub gateway_ip: Ipv4Address,
    pub lease: Option<LeaseView>,
    pub rules: RulesView,
    pub flows: Option<FlowsView>,
}

/// A verdict on a packet, and the flow table afterwards.
pub struct Outcome {
    pub allowed: bool,
    pub flows: Option<FlowsView>,
}

pub open spec fn allowed_with(flows: Option<FlowsView>) -> Outcome {
    Outcome { allowed: true, flows: flows }
}

pub open spec fn refused_with(flows: Option<FlowsView>) -> Outcome {
    Outcome { allowed: false, flows: flows }
}

/// What follows for a packet once the flow table has been consulted: either a verdict, or a
/// flow that may have to be entered.
pub open spec fn consulted(
    flows: Option<FlowsView>,
    p: Ipv4Packet,
    direction: FlowDirection,
    now: Instant,
) -> (Option<FlowsView>, FlowMatch) {
    match flows {
        None => (None, FlowMatch::Untracked),
        Some(table) => {
            let swept = table.swept(now);
            (Some(swept), flow_match(swept.flows, p, direction, now))
        },
    }
}

/// The flow to be entered, if the table has proposed one.
pub open spec fn pending_of(matched: FlowMatch) -> Option<PendingFlow> {
    match matched {
        FlowMatch::Candidate(pending) => Some(pending),
        _ => None,
    }
}

/// A packet passes once its flow is entered.
pub open spec fn admitted(flows: Option<FlowsView>, pending: PendingFlow) -> Outcome {
    match flows {
        None => refused_with(None),
        Some(table) => Outcome {
            allowed: table.takes(pending),
            flows: Some(table.offered(pending)),
        },
    }
}

/// A packet passes; its flow is entered first if there is one to enter.
pub open spec fn admitted_if_trackable(
    flows: Option<FlowsView>,
    pending: Option<PendingFlow>,
) -> Outcome {
    match pending {
        Some(pending) => admitted(flows, pending),
        None => allowed_with(flows),
    }
}

/// A packet passes; its flow is entered first if the rules would otherwise stop the replies.
pub open spec fn admitted_if_stateful(
    flows: Option<FlowsView>,
    pending: Option<PendingFlow>,
    rules: RulesView,
    address: Ipv4Address,
    direction: Direction,
) -> Outcome {
    if rules.stateful_at(address.bits, direction) {
        admitted_if_trackable(flows, pending)
    } else {
        allowed_with(flows)
    }
}

/// The address is one of the global Internet: it lies in none of the networks that are
/// private, local, reserved or for documentation.
pub open spec fn is_global_address(bits: u32) -> bool {
    let a = octet(bits, 0);
    let b = octet(bits, 1);
    let c = octet(bits, 2);
    let d = octet(bits, 3);
    ||| a == 192 && b == 0 && c == 0 && (d == 9 || d == 10)
    ||| {
        &&& a != 0 && a != 10 && a != 127 && a < 240
        &&& !(a == 172 && 16 <= b < 32)
        &&& !(a == 192 && b == 168)
        &&& !(a == 192 && b == 0 && c == 0)
        &&& !(a == 100 && 64 <= b < 128)
        &&& !(a == 169 && b == 254)
        &&& !(a == 192 && b == 0 && c == 2)
        &&& !(a == 198 && b == 51 && c == 100)
        &&& !(a == 203 && b == 0 && c == 113)
        &&& !(a == 198 && (b == 18 || b == 19))
    }
}

/// `ip_network::IpNetwork::is_global` on a single IPv4 address: true of the two anycast addresses
/// under 192.0.0.0/24, and else of the addresses in none of the networks 0.0.0.0/8,
/// 10.0.0.0/8, 172.16.0.0/12, 192.168.0.0/16, 192.0.0.0/24, 100.64.0.0/10, 127.0.0.0/8,
/// 169.254.0.0/16, 192.0.2.0/24, 198.51.100.0/24, 203.0.113.0/24, 198.18.0.0/15 and 240.0.0.0/4.
#[verifier::external_body]
pub(crate) fn is_global(bits: u32) -> (r: bool)
    ensures
        r == is_global_address(bits),
{
    ip_network::IpNetwork::from(smoltcp::wire::Ipv4Address::from_bits(bits)).is_global()
}

/// Whether the rules that allow traffic contain the one that allows everything.
pub fn zero_cidr_allowed(allow: &[Rule]) -> (r: bool)
    ensures
        r == allow@.contains(
            Rule::Stateless(
                Target::Prefix(Cidr { addr: Ipv4Address { bits: 0 }, prefix_len: 0 }),
            ),
        ),
{
    let everything = Rule::Stateless(
        Target::Prefix(Cidr { addr: Ipv4Address { bits: 0 }, prefix_len: 0 }),
    );
    let mut i: usize = 0;
    while i < allow.len()
        invariant
            i <= allow.len(),
            everything == Rule::Stateless(
                Target::Prefix(Cidr { addr: Ipv4Address { bits: 0 }, prefix_len: 0 }),
            ),
            forall|j: int| 0 <= j < i ==> allow@[j] != everything,
        decreases allow.len() - i,
    {
        if allow[i] == everything {
            assert(allow@[i as int] == everything);
            return true;
        }
        i = i + 1;
    }
    false
}

/// The filter of one virtual machine.
pub struct Proxy {
    pub vm_mac_address: EthernetAddress,
    pub gateway_ip: Ipv4Address,
    pub dhcp_snooper: DhcpSnooper,
    pub rules: Rules,
    /// Present exactly if the rules are stateful.
    pub flows: Option<FlowTable>,
    pub conntrack: Conntrack,
    /// Whether the virtual machine's socket has been out of buffers before.
    pub enobufs_encountered: bool,
}

impl View for Proxy {
    type V = ProxyView;

    open spec fn view(&self) -> ProxyView {
        ProxyView {
            vm_mac_address: self.vm_mac_address,
            gateway_ip: self.gateway_ip,
            lease: self.dhcp_snooper.lease_view(),
            rules: self.rules@,
            flows: opt_table_view(self.flows),
        }
    }
}

/// What to do when a frame could not be written to the virtual machine.
#[derive(Clone, Copy, Debug, PartialEq, Eq, Structural)]
pub enum WriteFailure {
    /// The frame is dropped, the first time with a report.
    Drop { report: bool },
    /// The filter cannot go on.
    Fail,
}

impl Proxy {
    pub open spec fn wf(&self) -> bool {
        &&& self.dhcp_snooper.wf()
        &&& self.dhcp_snooper.vm_mac_address == self.vm_mac_address
        &&& self.flows is Some <==> self.rules@.mode is Stateful
        &&& self.flows matches Some(table) ==> table.wf()
        &&& self.conntrack.wf()
    }

    /// All but the flow table is as it was.
    pub open spec fn only_flows_differ(&self, before: &Proxy) -> bool {
        &&& self.vm_mac_address == before.vm_mac_address
        &&& self.gateway_ip == before.gateway_ip
        &&& self.dhcp_snooper == before.dhcp_snooper
        &&& self.rules == before.rules
        &&& self.conntrack == before.conntrack
        &&& self.enobufs_encountered == before.enobufs_encountered
    }

    /// A filter with a policy and without a lease.
    pub fn new_at(
        vm_mac_address: EthernetAddress,
        gateway_ip: Ipv4Address,
        allow: &[Rule],
        block: &[Rule],
        uncertainty: Duration,
        now: Instant,
    ) -> (r: Proxy)
        requires
            all_wf(allow@),
            all_wf(block@),
            uncertainty.wf(),
        ensures
            r.wf(),
            r@.vm_mac_address == vm_mac_address,
            r@.gateway_ip == gateway_ip,
            r@.lease is None,
            r@.rules == policy_rules(gateway_ip, allow@, block@),
            r@.flows matches Some(table) ==> table.flows == Map::<FlowKey, Flow>::empty()
                && table.next_sweep == instant_after(now, ticks_of_secs(SWEEP_INTERVAL_SECS)),
            r.dhcp_snooper.uncertainty_duration == uncertainty,
            r.conntrack@ == Map::<FlowKey, crate::proxy::conntrack::Flow>::empty(),
            r.conntrack.next_sweep == instant_after(now, ticks_of_secs(SWEEP_INTERVAL_SECS)),
            !r.enobufs_encountered,
    {
        let rules = Rules::new(gateway_ip, allow, block);
        let flows = if rules.has_stateful() {
            Some(FlowTable::new_at(now))
        } else {
            None
        };
        Proxy {
            vm_mac_address,
            gateway_ip,
            dhcp_snooper: DhcpSnooper::new(uncertainty, vm_mac_address),
            rules,
            flows,
            conntrack: Conntrack::new_at(now),
            enobufs_encountered: false,
        }
    }

    /// A filter with a policy and without a lease, as of the latest clock update.
    pub fn new(
        vm_mac_address: EthernetAddress,
        gateway_ip: Ipv4Address,
        allow: &[Rule],
        block: &[Rule],
        uncertainty: Duration,
    ) -> (r: Proxy)
        requires
            all_wf(allow@),
            all_wf(block@),
            uncertainty.wf(),
        ensures
            r.wf(),
            r@.vm_mac_address == vm_mac_address,
            r@.gateway_ip == gateway_ip,
            r@.lease is None,
            r@.rules == policy_rules(gateway_ip, allow@, block@),
            r.dhcp_snooper.uncertainty_duration == uncertainty,
            r.conntrack@ == Map::<FlowKey, crate::proxy::conntrack::Flow>::empty(),
            exists|now: Instant|
                {
                    let due = #[trigger] instant_after(now, ticks_of_secs(SWEEP_INTERVAL_SECS));
                    &&& r.conntrack.next_sweep == due
                    &&& r@.flows matches Some(table) ==> table.flows == Map::<
                        FlowKey,
                        Flow,
                    >::empty() && table.next_sweep == due
                },
            !r.enobufs_encountered,
    {
        Proxy::new_at(vm_mac_address, gateway_ip, allow, block, uncertainty, Instant::recent())
    }

    /// Forgets expired flows between packets.
    pub fn tick_at(&mut self, now: Instant)
        requires
            old(self).wf(),
        ensures
            final(self).wf(),
            final(self)@ == old(self)@,
            final(self).dhcp_snooper == old(self).dhcp_snooper,
            final(self).enobufs_encountered == old(self).enobufs_encountered,
            final(self).conntrack@ == if now.ticks >= old(self).conntrack.next_sweep.ticks {
                unexpired(old(self).conntrack@, now)
            } else {
                old(self).conntrack@
            },
            final(self).conntrack.next_sweep == if now.ticks >= old(
                self,
            ).conntrack.next_sweep.ticks {
                instant_after(now, ticks_of_secs(SWEEP_INTERVAL_SECS))
            } else {
                old(self).conntrack.next_sweep
            },
    {
        self.conntrack.tick_at(now);
    }

    /// Decides what becomes of a frame that could not be written to the virtual machine. Running
    /// out of buffers loses the frame and no more.
    pub fn on_vm_write_error(&mut self, out_of_buffers: bool) -> (r: WriteFailure)
        ensures
            final(self)@ == old(self)@,
            final(self).conntrack == old(self).conntrack,
            final(self).dhcp_snooper == old(self).dhcp_snooper,
            old(self).wf() ==> final(self).wf(),
            r == if out_of_buffers {
                WriteFailure::Drop { report: !old(self).enobufs_encountered }
            } else {
                WriteFailure::Fail
            },
            final(self).enobufs_encountered == (old(self).enobufs_encountered || out_of_buffers),
    {
        if !out_of_buffers {
            return WriteFailure::Fail;
        }
        let report = !self.enobufs_encountered;
        self.enobufs_encountered = true;
        WriteFailure::Drop { report }
    }

    /// Consults the flow table about a packet.
    pub(crate) fn consult(
        &mut self,
        ipv4_pkt: &Ipv4Packet,
        direction: FlowDirection,
        now: Instant,
    ) -> (r: FlowMatch)
        requires
            old(self).wf(),
            ipv4_pkt.wf(),
        ensures
            final(self).wf(),
            final(self).only_flows_differ(old(self)),
            (final(self)@.flows, r) == consulted(old(self)@.flows, *ipv4_pkt, direction, now),
    {
        match &mut self.flows {
            Some(table) => table.inspect_at(ipv4_pkt, direction, now),
            None => FlowMatch::Untracked,
        }
    }

    /// Lets a packet pass if its flow can be entered.
    pub fn admit_with_tracking(&mut self, pending: PendingFlow) -> (r: bool)
        requires
            old(self).wf(),
        ensures
            final(self).wf(),
            final(self).only_flows_differ(old(self)),
            (Outcome { allowed: r, flows: final(self)@.flows }) == admitted(
                old(self)@.flows,
                pending,
            ),
    {
        match &mut self.flows {
            Some(table) => table.commit(pending),
            None => false,
        }
    }

    /// Lets a packet pass, after entering its flow if there is one to enter.
    pub fn admit_with_tracking_if_trackable(&mut self, pending: Option<PendingFlow>) -> (r: bool)
        requires
            old(self).wf(),
        ensures
            final(self).wf(),
            final(self).only_flows_differ(old(self)),
            (Outcome { allowed: r, flows: final(self)@.flows }) == admitted_if_trackable(
                old(self)@.flows,
                pending,
            ),
    {
        match pending {
            Some(pending) => self.admit_with_tracking(pending),
            None => true,
        }
    }

    /// Lets a packet pass, after entering its flow if the rules would otherwise stop replies.
    pub fn admit_with_tracking_if_stateful(
        &mut self,
        pending: Option<PendingFlow>,
        address: Ipv4Address,
        return_direction: Direction,
    ) -> (r: bool)
        requires
            old(self).wf(),
        ensures
            final(self).wf(),
            final(self).only_flows_differ(old(self)),
            (Outcome { allowed: r, flows: final(self)@.flows }) == admitted_if_stateful(
                old(self)@.flows,
                pending,
                old(self)@.rules,
                address,
                return_direction,
            ),
    {
        if self.rules.is_stateful(address, return_direction) {
            self.admit_with_tracking_if_trackable(pending)
        } else {
            true
        }
    }
}

} // verus!
