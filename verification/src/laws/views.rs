//! What is seen of a value from outside: all of it that matters.

use crate::addr::{EthernetAddress, Ipv4Address};
use crate::clock::Instant;
use crate::dhcp::DhcpMessage;
use crate::dhcp_snooper::{opt_lease_view, Lease, LeaseView};
use crate::laws::outbound::{asks_for_a_lease, holds};
use crate::proxy::control::{
    input_decodes, next_frame, read_decodes, service_decodes, write_decodes, Control, ControlView,
    Frame, ReadOutcome, WriteOutcome,
};
use crate::proxy::flow_map::{FlowKey, FlowMap};
use crate::proxy::flows::Flow;
use crate::proxy::policy::{rule_texts, texts_of, Policy, PolicyUpdate};
use crate::proxy::rpc::{
    decodes, JsonDoc, JsonDocView, RpcError, RpcMember, RpcRequest, RpcResponse, RpcValue,
    RpcValueView, SetParams, SetParamsView,
};
use crate::proxy::rule::{rule_text, Rule, Target};
use crate::proxy::rules::{prefix_entries, Rules};
use crate::proxy::session::{event_decodes, ControlEvent};
use crate::proxy::state::Proxy;
use crate::proxy::vm::dhcp_request_allowed;
use crate::wire::Ipv4Packet;
use vstd::prelude::*;

verus! {

/// Of the filter one sees its addresses, its lease, its rules and, if it has one, its table of flows.
pub proof fn law_the_filter_is_seen(p: Proxy)
    ensures
        p@.vm_mac_address == p.vm_mac_address,
        p@.gateway_ip == p.gateway_ip,
        p@.rules == p.rules@,
        p@.lease is Some <==> p.dhcp_snooper.vm_lease is Some,
        p.dhcp_snooper.vm_lease matches Some(l) ==> p@.lease == Some(l@),
        p@.flows is Some <==> p.flows is Some,
        p.flows matches Some(t) ==> (p@.flows matches Some(v) && v.flows == t.flows@ && v.next_sweep
            == t.next_sweep),
{
}

/// Where only the flows of a filter differ, everything else is the same.
pub proof fn law_only_flows_differ_means_that(a: Proxy, b: Proxy)
    requires
        a.only_flows_differ(&b),
    ensures
        a.vm_mac_address == b.vm_mac_address,
        a.gateway_ip == b.gateway_ip,
        a.dhcp_snooper == b.dhcp_snooper,
        a.rules == b.rules,
        a.conntrack == b.conntrack,
        a.enobufs_encountered == b.enobufs_encountered,
        a == (Proxy { flows: a.flows, ..b }),
{
}

/// A filter that is in order has a table of flows exactly if its rules are stateful, and its snooper
/// looks for its own lease.
pub proof fn law_filters_in_order(p: Proxy)
    requires
        p.wf(),
    ensures
        p.flows is Some <==> p@.rules.mode is Stateful,
        p.dhcp_snooper.vm_mac_address == p.vm_mac_address,
        p.flows matches Some(t) ==> t@.len() <= 32768,
        p.conntrack@.len() <= 4096,
{
}

/// Of a lease one sees the address, the end and the name servers.
pub proof fn law_leases_are_seen(l: Lease)
    ensures
        l@ == (LeaseView {
            address: l.address,
            valid_until: l.valid_until,
            dns_ips: l.dns_ips@,
        }),
        opt_lease_view(Some(l)) == Some(l@),
        opt_lease_view(None) is None,
{
}

/// Of compiled rules one sees what they say of each network, per direction.
pub proof fn law_rules_are_seen(r: Rules)
    ensures
        r@.mode == r.mode,
        r@.inbound == prefix_entries(r.inbound),
        r@.outbound == prefix_entries(r.outbound),
{
}

/// Of a map of flows one sees each flow under its own name.
pub proof fn law_flow_maps_are_seen(m: FlowMap<Flow>, key: FlowKey, code: u128)
    requires
        m.wf(),
        m.entries@.contains_key(code),
    ensures
        m@.contains_key(m.entries@[code].0),
        m@[m.entries@[code].0] == m.entries@[code].1,
        m@.contains_key(key) ==> exists|c: u128| #[trigger]
            m.entries@.contains_key(c) && m.entries@[c].0 == key && m@[key] == m.entries@[c].1,
{
    if m@.contains_key(key) {
        let c = crate::proxy::flow_map::flow_code(key);
        assert(m.entries@.contains_key(c));
        crate::proxy::flow_map::lemma_flow_code_injective(m.entries@[c].0, key);
    }
}

/// Of the control socket one sees its policy, its input, its state, and of its output what is not
/// written yet.
pub proof fn law_the_control_socket_is_seen(c: Control)
    ensures
        c@.policy == c.policy@,
        c@.input == c.input@,
        c@.discarding_input == c.discarding_input,
        c@.input_closed == c.input_closed,
        c@.policy_changed == c.policy_changed,
        c@.bytes_read == c.bytes_read,
        c.output_offset <= c.output@.len() ==> c@.pending == c.output@.subrange(
            c.output_offset as int,
            c.output@.len() as int,
        ),
{
    assert(c.output_offset <= c.output@.len() ==> c.output@.skip(c.output_offset as int)
        =~= c.output@.subrange(c.output_offset as int, c.output@.len() as int));
}

/// Of a policy and of an update one sees both lists.
pub proof fn law_policies_are_seen(p: Policy, u: PolicyUpdate)
    ensures
        p@.allow == p.allow@,
        p@.block == p.block@,
        p@.gateway_ip == p.gateway_ip,
        u@.allow == u.allow@,
        u@.block == u.block@,
        u@.rules == u.rules@,
{
}

/// Of requests and answers one sees every part.
pub proof fn law_requests_and_answers_are_seen(
    q: RpcRequest,
    r: RpcResponse,
    e: RpcError,
    m: RpcMember,
)
    ensures
        q@.id == q.id@,
        q@.method == q.method@,
        q@.params is Some <==> q.params is Some,
        q.params matches Some(p) ==> q@.params == Some(p@),
        r@.id == r.id@,
        r.result matches Err(e) ==> (r@.result matches Err(v) && v == e@),
        r.result matches Ok(members) ==> (r@.result matches Ok(v) && v.len() == members@.len()
            && forall|i: int| 0 <= i < members@.len() ==> #[trigger] v[i] == members@[i]@),
        e@.code == e.code,
        e@.message == e.message@,
        m@.name == m.name@,
        m@.value == m.value@,
        m.value matches RpcValue::Count(n) ==> m@.value == RpcValueView::Count(n),
        m.value matches RpcValue::Texts(t) ==> (m@.value matches RpcValueView::Texts(v) && v
            == texts_of(t@)),
{
}

/// Of a JSON object one sees the members, in order, by name and value.
pub proof fn law_documents_are_seen(d: JsonDoc)
    ensures
        d is Null <==> d@ is Null,
        d is Other <==> d@ is Other,
        d matches JsonDoc::Object(members) ==> (d@ matches JsonDocView::Object(v) && v.len()
            == members@.len() && forall|i: int|
            0 <= i < members@.len() ==> (#[trigger] v[i]).0 == members@[i].0@ && v[i].1
                == members@[i].1@),
{
}

/// Of a list of texts one sees each text, in order, and of a list of rules the text of each.
pub proof fn law_lists_are_seen_in_order(texts: Seq<String>, rules: Seq<Rule>, i: int)
    ensures
        texts_of(texts).len() == texts.len(),
        0 <= i < texts.len() ==> texts_of(texts)[i] == texts[i]@,
        rule_texts(rules).len() == rules.len(),
        0 <= i < rules.len() ==> rule_texts(rules)[i] == rule_text(rules[i]),
{
}

/// What is set are the texts that were given.
pub proof fn law_parameters_are_seen(p: SetParams)
    ensures
        p@.allow == texts_of(p.allow@),
        p@.block == texts_of(p.block@),
{
}

/// Of a DHCP message one sees every part.
pub proof fn law_messages_are_seen(m: DhcpMessage)
    ensures
        m@.opcode == m.opcode,
        m@.htype == m.htype,
        m@.chaddr == m.chaddr@,
        m@.yiaddr == m.yiaddr,
        m@.msg_type == m.msg_type,
        m@.lease_time == m.lease_time,
        m@.dns_servers == m.dns_servers@,
{
}

/// What a rule is about is its target, whatever its form.
pub proof fn law_rules_have_targets(target: Target, direction: crate::proxy::rule::Direction)
    ensures
        Rule::Stateless(target).goal() == target,
        (Rule::Stateful { direction: direction, target: target }).goal() == target,
{
}

/// What is decoded for an answer is decoded from the line that is answered, and the line is the next
/// one in the input, whichever event has led to it.
pub proof fn law_the_answered_line_is_decoded<F: Fn(Option<String>) -> Option<SetParams>>(
    decode: F,
    c: ControlView,
    line: Seq<u8>,
    bytes: Vec<u8>,
    n: usize,
    set: Option<SetParamsView>,
)
    ensures
        next_frame(c.input, c.discarding_input).frame == Frame::Line(line) ==> {
            &&& input_decodes(decode, c, set) ==> decodes(decode, line, set)
            &&& c.pending.len() == 0 && service_decodes(decode, c, set) ==> decodes(
                decode,
                line,
                set,
            )
            &&& c.pending.len() == 0 && event_decodes(decode, c, ControlEvent::Turn, set)
                ==> decodes(decode, line, set)
            &&& 0 < n == c.pending.len() && write_decodes(
                decode,
                c,
                WriteOutcome::Wrote(n),
                set,
            ) ==> decodes(decode, line, set)
            &&& 0 < n == c.pending.len() && event_decodes(
                decode,
                c,
                ControlEvent::Write(WriteOutcome::Wrote(n)),
                set,
            ) ==> decodes(decode, line, set)
        },
        next_frame(c.input + bytes@, c.discarding_input).frame == Frame::Line(line) ==> {
            &&& read_decodes(decode, c, ReadOutcome::Bytes(bytes), set) ==> decodes(
                decode,
                line,
                set,
            )
            &&& event_decodes(
                decode,
                c,
                ControlEvent::Read(ReadOutcome::Bytes(bytes)),
                set,
            ) ==> decodes(decode, line, set)
        },
{
}

/// A DHCP request may pass exactly if it is the client's own, goes to everyone or to the permitted
/// target, and comes from the leased address or, where there is no permitted target, from none.
pub proof fn law_which_dhcp_requests_may_pass(
    p: Ipv4Packet,
    target: Option<Ipv4Address>,
    mac: EthernetAddress,
    lease: Option<LeaseView>,
    now: Instant,
)
    ensures
        dhcp_request_allowed(p, target, mac, lease, now) <==> {
            &&& asks_for_a_lease(p, mac)
            &&& p.dst_addr.bits == 0xffff_ffff || (target matches Some(t) && t == p.dst_addr)
            &&& holds(lease, p.src_addr, now) || (target is None && p.src_addr.bits == 0)
        },
{
}

} // verus!
