//! Echo requests and replies.

use super::{candidate_for, existing_match, Flow, FlowMatch, FlowTable, ECHO_TIMEOUT_SECS};
use crate::addr::Ipv4Address;
use crate::clock::Instant;
use crate::proxy::flow_map::{FlowDirection, FlowKey};
use crate::wire::{
    echo_header, EchoHeader, Ipv4Packet, ICMP_ECHO_REPLY, ICMP_ECHO_REQUEST,
};
use vstd::prelude::*;

verus! {

/// The flow of an echo message: the addresses, the identifier, and the direction that the
/// request took.
pub open spec fn echo_key(
    src: Ipv4Address,
    dst: Ipv4Address,
    direction: FlowDirection,
    initiating_direction: FlowDirection,
    ident: u16,
) -> FlowKey {
    match direction {
        FlowDirection::FromHost => FlowKey::Echo {
            host_addr: src,
            vm_addr: dst,
            ident,
            initiating_direction,
        },
        FlowDirection::FromVm => FlowKey::Echo {
            host_addr: dst,
            vm_addr: src,
            ident,
            initiating_direction,
        },
    }
}

/// A request that no entry allows becomes a candidate; a reply without a request is untracked.
pub open spec fn ping_match(
    m: Map<FlowKey, Flow>,
    p: Ipv4Packet,
    direction: FlowDirection,
    ident: u16,
    is_request: bool,
    now: Instant,
) -> FlowMatch {
    let initiating = if is_request {
        direction
    } else {
        direction.reversed()
    };
    let key = echo_key(p.src_addr, p.dst_addr, direction, initiating, ident);
    match existing_match(m, key, direction, now, ECHO_TIMEOUT_SECS) {
        Some(matched) => matched,
        None => if is_request {
            candidate_for(key, initiating, now, ECHO_TIMEOUT_SECS)
        } else {
            FlowMatch::Untracked
        },
    }
}

/// What the entries make of an ICMP packet: one that is cut short or fails its checksum is
/// denied, echo requests and replies are tracked, and all else is not.
pub open spec fn echo_match(
    m: Map<FlowKey, Flow>,
    p: Ipv4Packet,
    direction: FlowDirection,
    now: Instant,
) -> FlowMatch {
    match echo_header(p.payload@) {
        None => FlowMatch::Denied,
        Some(h) => if !h.checksum_ok {
            FlowMatch::Denied
        } else if h.msg_type == ICMP_ECHO_REQUEST && h.msg_code == 0 {
            ping_match(m, p, direction, h.echo_ident, true, now)
        } else if h.msg_type == ICMP_ECHO_REPLY && h.msg_code == 0 {
            ping_match(m, p, direction, h.echo_ident, false, now)
        } else {
            FlowMatch::Untracked
        },
    }
}

/// Echo flows that were started from opposite sides are different flows, even between the same
/// addresses and with the same identifier.
pub proof fn lemma_echo_directions_are_distinct(
    src: Ipv4Address,
    dst: Ipv4Address,
    direction: FlowDirection,
    ident: u16,
)
    ensures
        echo_key(src, dst, direction, FlowDirection::FromHost, ident) != echo_key(
            src,
            dst,
            direction,
            FlowDirection::FromVm,
            ident,
        ),
{
}

impl FlowTable {
    pub fn inspect_icmp(
        &self,
        ipv4_pkt: &Ipv4Packet,
        direction: FlowDirection,
        now: Instant,
    ) -> (r: FlowMatch)
        requires
            self.wf(),
            ipv4_pkt.wf(),
        ensures
            r == echo_match(self@, *ipv4_pkt, direction, now),
    {
        let echo = match EchoHeader::new_checked(ipv4_pkt.payload) {
            Some(echo) => echo,
            None => {
                return FlowMatch::Denied;
            },
        };
        if !echo.checksum_ok {
            return FlowMatch::Denied;
        }
        if echo.msg_type == ICMP_ECHO_REQUEST && echo.msg_code == 0 {
            self.inspect_echo(ipv4_pkt, direction, echo.echo_ident, true, now)
        } else if echo.msg_type == ICMP_ECHO_REPLY && echo.msg_code == 0 {
            self.inspect_echo(ipv4_pkt, direction, echo.echo_ident, false, now)
        } else {
            // Errors that quote a tracked tuple follow the ordinary policy: to relate them to
            // a flow would take more than this table holds.
            FlowMatch::Untracked
        }
    }

    pub fn inspect_echo(
        &self,
        ipv4_pkt: &Ipv4Packet,
        direction: FlowDirection,
        ident: u16,
        is_request: bool,
        now: Instant,
    ) -> (r: FlowMatch)
        requires
            self.wf(),
        ensures
            r == ping_match(self@, *ipv4_pkt, direction, ident, is_request, now),
    {
        let initiating_direction = if is_request {
            direction
        } else {
            direction.opposite()
        };
        let key = FlowKey::echo(
            ipv4_pkt.src_addr,
            ipv4_pkt.dst_addr,
            direction,
            initiating_direction,
            ident,
        );
        if let Some(matched) = self.match_existing_flow(key, direction, now, ECHO_TIMEOUT_SECS) {
            return matched;
        }
        if is_request {
            FlowMatch::candidate(key, initiating_direction, now, ECHO_TIMEOUT_SECS)
        } else {
            FlowMatch::Untracked
        }
    }
}

impl FlowKey {
    pub fn echo(
        src_addr: Ipv4Address,
        dst_addr: Ipv4Address,
        direction: FlowDirection,
        initiating_direction: FlowDirection,
        ident: u16,
    ) -> (r: FlowKey)
        ensures
            r == echo_key(src_addr, dst_addr, direction, initiating_direction, ident),
    {
        let (host_addr, vm_addr) = direction.host_vm_pair(src_addr, dst_addr);
        FlowKey::Echo { host_addr, vm_addr, ident, initiating_direction }
    }
}

} // verus!
