//! What rules mean, and what is decided by them.

use crate::addr::Ipv4Address;
use crate::net::{lemma_network_bits_full, network_bits};
use crate::proxy::policy::PolicyView;
use crate::proxy::rule::{Direction, Rule, Target};
use crate::proxy::rules::{
    applies, covers, law_longest_prefix_wins, policy_rules, target_prefix, Action, Mode,
    PolicyDecision, RulesView,
};
use vstd::arithmetic::power2::pow2;
use vstd::prelude::*;

verus! {

/// The first address and the length of the network that a target names, `@host` being the network
/// of the host alone.
pub open spec fn named_network(t: Target, host: Ipv4Address) -> (u32, u8) {
    match t {
        Target::Prefix(net) => (network_bits(net.addr.bits, net.prefix_len), net.prefix_len),
        Target::Host => (host.bits, 32),
    }
}

/// The rule says something of a network for flows that start in a direction, where bare rules are
/// about both directions.
pub open spec fn speaks_of(rule: Rule, d: Direction, host: Ipv4Address, net: (u32, u8)) -> bool {
    match rule {
        Rule::Stateless(target) => named_network(target, host) == net,
        Rule::Stateful { direction, target } => direction == d && named_network(target, host) == net,
    }
}

/// One of the rules does.
pub open spec fn some_speaks_of(
    rules: Seq<Rule>,
    d: Direction,
    host: Ipv4Address,
    net: (u32, u8),
) -> bool {
    exists|i: int| 0 <= i < rules.len() && speaks_of(#[trigger] rules[i], d, host, net)
}

/// The rule gives a direction.
pub open spec fn is_directional(rule: Rule) -> bool {
    rule matches Rule::Stateful { .. }
}

/// A policy tracks flows if and only if one of its rules, allowing or blocking, is directional.
pub proof fn law_directional_rules_make_a_policy_stateful(
    host: Ipv4Address,
    allow: Seq<Rule>,
    block: Seq<Rule>,
)
    ensures
        policy_rules(host, allow, block).mode is Stateful <==> (exists|i: int|
            0 <= i < allow.len() && is_directional(#[trigger] allow[i])) || (exists|i: int|
            0 <= i < block.len() && is_directional(#[trigger] block[i])),
{
    let mode = policy_rules(host, allow, block).mode;
    if exists|i: int| 0 <= i < allow.len() && is_directional(#[trigger] allow[i]) {
        let i = choose|i: int| 0 <= i < allow.len() && is_directional(#[trigger] allow[i]);
        assert(allow[i] is Stateful);
    }
    if exists|i: int| 0 <= i < block.len() && is_directional(#[trigger] block[i]) {
        let i = choose|i: int| 0 <= i < block.len() && is_directional(#[trigger] block[i]);
        assert(block[i] is Stateful);
    }
    if mode is Stateful {
        if exists|i: int| 0 <= i < allow.len() && #[trigger] allow[i] is Stateful {
            let i = choose|i: int| 0 <= i < allow.len() && #[trigger] allow[i] is Stateful;
            assert(is_directional(allow[i]));
        } else {
            let i = choose|i: int| 0 <= i < block.len() && #[trigger] block[i] is Stateful;
            assert(is_directional(block[i]));
        }
    }
}

proof fn lemma_covers_stateful(rules: Seq<Rule>, d: Direction, host: Ipv4Address, net: (u32, u8))
    ensures
        covers(rules, Mode::Stateful, d, host, net) == some_speaks_of(rules, d, host, net),
{
    if covers(rules, Mode::Stateful, d, host, net) {
        let i = choose|i: int|
            0 <= i < rules.len() && applies(#[trigger] rules[i], Mode::Stateful, d)
                && target_prefix(rules[i].goal(), host) == net;
        assert(speaks_of(rules[i], d, host, net));
    }
    if some_speaks_of(rules, d, host, net) {
        let i = choose|i: int| 0 <= i < rules.len() && speaks_of(#[trigger] rules[i], d, host, net);
        assert(applies(rules[i], Mode::Stateful, d));
    }
}

/// With a directional rule in the policy, for each direction: a network is blocked where a blocking
/// rule speaks of it, allowed where only an allowing rule does, and left open where none does.
/// Bare rules speak of both directions, directional ones of their own.
pub proof fn law_what_a_directional_policy_says(
    host: Ipv4Address,
    allow: Seq<Rule>,
    block: Seq<Rule>,
    d: Direction,
    net: (u32, u8),
)
    requires
        policy_rules(host, allow, block).mode is Stateful,
    ensures
        ({
            let entries = policy_rules(host, allow, block).entries(d);
            let allowed = some_speaks_of(allow, d, host, net);
            let blocked = some_speaks_of(block, d, host, net);
            &&& entries.contains_key(net) <==> allowed || blocked
            &&& blocked ==> entries[net] == Action::Block
            &&& allowed && !blocked ==> entries[net] == Action::Allow
        }),
{
    lemma_covers_stateful(allow, d, host, net);
    lemma_covers_stateful(block, d, host, net);
}

/// A bare allowing rule, about a network or about `@host`, holds in both directions once the policy
/// has a directional rule: what it names is allowed for flows from either side, unless a
/// blocking rule names the same for that direction.
pub proof fn law_bare_allowing_rules_hold_both_ways(
    host: Ipv4Address,
    allow: Seq<Rule>,
    block: Seq<Rule>,
    directional: Rule,
    target: Target,
    d: Direction,
)
    requires
        is_directional(directional),
        allow.contains(directional) || block.contains(directional),
        allow.contains(Rule::Stateless(target)),
    ensures
        ({
            let entries = policy_rules(host, allow, block).entries(d);
            let net = match target {
                Target::Prefix(net) => (
                    network_bits(net.addr.bits, net.prefix_len),
                    net.prefix_len,
                ),
                Target::Host => (host.bits, 32u8),
            };
            &&& entries.contains_key(net)
            &&& entries[net] == if some_speaks_of(block, d, host, net) {
                Action::Block
            } else {
                Action::Allow
            }
        }),
{
    lemma_mode(host, allow, block, directional);
    let net = named_network(target, host);
    let i = choose|i: int| 0 <= i < allow.len() && allow[i] == Rule::Stateless(target);
    assert(speaks_of(allow[i], d, host, net));
    law_what_a_directional_policy_says(host, allow, block, d, net);
}

/// A bare blocking rule, about a network or about `@host`, holds in both directions once the policy
/// has a directional rule.
pub proof fn law_bare_blocking_rules_hold_both_ways(
    host: Ipv4Address,
    allow: Seq<Rule>,
    block: Seq<Rule>,
    directional: Rule,
    target: Target,
    d: Direction,
)
    requires
        is_directional(directional),
        allow.contains(directional) || block.contains(directional),
        block.contains(Rule::Stateless(target)),
    ensures
        ({
            let net = match target {
                Target::Prefix(net) => (
                    network_bits(net.addr.bits, net.prefix_len),
                    net.prefix_len,
                ),
                Target::Host => (host.bits, 32u8),
            };
            policy_rules(host, allow, block).entries(d).contains_pair(net, Action::Block)
        }),
{
    lemma_mode(host, allow, block, directional);
    let net = named_network(target, host);
    let i = choose|i: int| 0 <= i < block.len() && block[i] == Rule::Stateless(target);
    assert(speaks_of(block[i], d, host, net));
    law_what_a_directional_policy_says(host, allow, block, d, net);
}

proof fn lemma_mode(host: Ipv4Address, allow: Seq<Rule>, block: Seq<Rule>, directional: Rule)
    requires
        is_directional(directional),
        allow.contains(directional) || block.contains(directional),
    ensures
        policy_rules(host, allow, block).mode is Stateful,
{
    law_directional_rules_make_a_policy_stateful(host, allow, block);
    if allow.contains(directional) {
        let i = choose|i: int| 0 <= i < allow.len() && allow[i] == directional;
        assert(is_directional(allow[i]));
    } else {
        let i = choose|i: int| 0 <= i < block.len() && block[i] == directional;
        assert(is_directional(block[i]));
    }
}

/// A directional rule holds in its own direction: what it names is allowed for flows that start in
/// it, unless a blocking rule names the same for that direction, or is blocked.
pub proof fn law_directional_rules_hold_their_way(
    host: Ipv4Address,
    allow: Seq<Rule>,
    block: Seq<Rule>,
    d: Direction,
    target: Target,
)
    ensures
        ({
            let entries = policy_rules(host, allow, block).entries(d);
            let net = match target {
                Target::Prefix(net) => (
                    network_bits(net.addr.bits, net.prefix_len),
                    net.prefix_len,
                ),
                Target::Host => (host.bits, 32u8),
            };
            let rule = Rule::Stateful { direction: d, target: target };
            &&& block.contains(rule) ==> entries.contains_pair(net, Action::Block)
            &&& allow.contains(rule) && !some_speaks_of(block, d, host, net)
                ==> entries.contains_pair(net, Action::Allow)
        }),
{
    let rule = Rule::Stateful { direction: d, target: target };
    let net = named_network(target, host);
    if block.contains(rule) {
        lemma_mode(host, allow, block, rule);
        let i = choose|i: int| 0 <= i < block.len() && block[i] == rule;
        assert(speaks_of(block[i], d, host, net));
        law_what_a_directional_policy_says(host, allow, block, d, net);
    }
    if allow.contains(rule) {
        lemma_mode(host, allow, block, rule);
        let i = choose|i: int| 0 <= i < allow.len() && allow[i] == rule;
        assert(speaks_of(allow[i], d, host, net));
        law_what_a_directional_policy_says(host, allow, block, d, net);
    }
}

/// A policy of bare rules is about what leaves the virtual machine: of that, a network is blocked
/// where a blocking rule names it, and allowed where only an allowing rule does. Of what
/// comes in it says nothing.
pub proof fn law_what_a_bare_policy_says(
    host: Ipv4Address,
    allow: Seq<Rule>,
    block: Seq<Rule>,
    net: (u32, u8),
)
    requires
        forall|i: int| 0 <= i < allow.len() ==> !is_directional(#[trigger] allow[i]),
        forall|i: int| 0 <= i < block.len() ==> !is_directional(#[trigger] block[i]),
    ensures
        ({
            let rules = policy_rules(host, allow, block);
            let allowed = some_speaks_of(allow, Direction::Out, host, net);
            let blocked = some_speaks_of(block, Direction::Out, host, net);
            &&& rules.mode is Legacy
            &&& !rules.entries(Direction::In).contains_key(net)
            &&& rules.entries(Direction::Out).contains_key(net) <==> allowed || blocked
            &&& blocked ==> rules.entries(Direction::Out)[net] == Action::Block
            &&& allowed && !blocked ==> rules.entries(Direction::Out)[net] == Action::Allow
        }),
{
    law_directional_rules_make_a_policy_stateful(host, allow, block);
    lemma_covers_bare(allow, host, net);
    lemma_covers_bare(block, host, net);
}

proof fn lemma_covers_bare(rules: Seq<Rule>, host: Ipv4Address, net: (u32, u8))
    requires
        forall|i: int| 0 <= i < rules.len() ==> !is_directional(#[trigger] rules[i]),
    ensures
        covers(rules, Mode::Legacy, Direction::Out, host, net) == some_speaks_of(
            rules,
            Direction::Out,
            host,
            net,
        ),
        !covers(rules, Mode::Legacy, Direction::In, host, net),
{
    if covers(rules, Mode::Legacy, Direction::Out, host, net) {
        let i = choose|i: int|
            0 <= i < rules.len() && applies(#[trigger] rules[i], Mode::Legacy, Direction::Out)
                && target_prefix(rules[i].goal(), host) == net;
        assert(speaks_of(rules[i], Direction::Out, host, net));
    }
    if some_speaks_of(rules, Direction::Out, host, net) {
        let i = choose|i: int|
            0 <= i < rules.len() && speaks_of(#[trigger] rules[i], Direction::Out, host, net);
        assert(!is_directional(rules[i]));
        assert(applies(rules[i], Mode::Legacy, Direction::Out));
    }
    if covers(rules, Mode::Legacy, Direction::In, host, net) {
        let i = choose|i: int|
            0 <= i < rules.len() && applies(#[trigger] rules[i], Mode::Legacy, Direction::In)
                && target_prefix(rules[i].goal(), host) == net;
        assert(!is_directional(rules[i]));
    }
}

/// To enter a rule sets what it says of the network that it names, in each direction that it is
/// about, and nothing else.
pub proof fn law_entering_a_rule(
    v: RulesView,
    rule: Rule,
    action: Action,
    host: Ipv4Address,
    d: Direction,
    net: (u32, u8),
)
    ensures
        ({
            let after = v.with_rule(rule, action, host);
            let about = speaks_of(rule, d, host, net) && !(v.mode is Legacy && d is In && !is_directional(
                rule,
            ));
            &&& after.mode == v.mode
            &&& about ==> after.entries(d).contains_pair(net, action)
            &&& !about ==> after.entries(d).contains_key(net) == v.entries(d).contains_key(net)
            &&& !about && v.entries(d).contains_key(net) ==> after.entries(d)[net] == v.entries(
                d,
            )[net]
        }),
{
}

/// To enter what is said of a network for one direction leaves the other direction, and all other
/// networks, as they were.
pub proof fn law_entering_a_network(
    v: RulesView,
    d: Direction,
    net: (u32, u8),
    action: Action,
    other: Direction,
    other_net: (u32, u8),
)
    ensures
        ({
            let after = v.with_prefix(d, net, action);
            &&& after.mode == v.mode
            &&& after.entries(d).contains_pair(net, action)
            &&& other != d || other_net != net ==> after.entries(other).contains_key(other_net)
                == v.entries(other).contains_key(other_net)
            &&& (other != d || other_net != net) && v.entries(other).contains_key(other_net)
                ==> after.entries(other)[other_net] == v.entries(other)[other_net]
        }),
{
}

/// What is decided of an address is what the longest network says that contains it: block it, or
/// allow it, packet by packet where no rule is directional and flow by flow where one is.
pub proof fn law_the_longest_network_decides(v: RulesView, bits: u32, d: Direction, len: u8)
    requires
        len <= 32,
        v.entries(d).contains_key((network_bits(bits, len), len)),
        forall|longer: u8|
            len < longer <= 32 ==> !#[trigger] v.entries(d).contains_key(
                (network_bits(bits, longer), longer),
            ),
    ensures
        v.decision(bits, d) == match v.entries(d)[(network_bits(bits, len), len)] {
            Action::Block => Some(PolicyDecision::Block),
            Action::Allow => if v.mode is Legacy {
                Some(PolicyDecision::AllowStateless)
            } else {
                Some(PolicyDecision::AllowStateful)
            },
        },
        v.stateful_at(bits, d) == (v.mode is Stateful),
{
    law_longest_prefix_wins(v.entries(d), bits, len);
}

/// Of an address that no network contains nothing is decided, and its flows need not be tracked.
pub proof fn law_nothing_is_decided_of_other_addresses(v: RulesView, bits: u32, d: Direction)
    requires
        forall|len: u8|
            len <= 32 ==> !#[trigger] v.entries(d).contains_key((network_bits(bits, len), len)),
    ensures
        v.decision(bits, d) is None,
        !v.stateful_at(bits, d),
{
    crate::proxy::rules::law_no_prefix_no_decision(v, bits, d);
}

/// What is decided of the host where a rule about `@host` speaks: no network is longer than a single
/// address.
pub proof fn law_rules_about_the_host_decide(
    host: Ipv4Address,
    allow: Seq<Rule>,
    block: Seq<Rule>,
    directional: Rule,
    d: Direction,
)
    requires
        is_directional(directional),
        allow.contains(directional) || block.contains(directional),
        allow.contains(Rule::Stateless(Target::Host)),
        !some_speaks_of(block, d, host, (host.bits, 32)),
    ensures
        policy_rules(host, allow, block).decision(host.bits, d) == Some(
            PolicyDecision::AllowStateful,
        ),
{
    law_bare_allowing_rules_hold_both_ways(host, allow, block, directional, Target::Host, d);
    lemma_mode(host, allow, block, directional);
    lemma_network_bits_full(host.bits);
    law_the_longest_network_decides(policy_rules(host, allow, block), host.bits, d, 32);
}

/// The number of rules is counted per network and direction.
pub proof fn law_networks_are_counted_per_direction(v: RulesView)
    ensures
        v.inbound.len() + v.outbound.len() <= usize::MAX ==> v.count() == v.inbound.len()
            + v.outbound.len(),
        v.inbound.len() + v.outbound.len() > usize::MAX ==> v.count() == usize::MAX,
        v.entries(Direction::In) == v.inbound,
        v.entries(Direction::Out) == v.outbound,
{
}

/// A policy compiles to the rules of its own lists, `@host` being its gateway.
pub proof fn law_a_policy_is_compiled_for_its_gateway(policy: PolicyView)
    ensures
        policy.compiled() == policy_rules(policy.gateway_ip, policy.allow, policy.block),
{
}

/// A network contains an address if and only if the address is at least its first one and less than
/// two to the power of the number of free bits above it.
pub proof fn law_networks_are_ranges(bits: u32, len: u8, first: u32)
    requires
        len <= 32,
        network_bits(first, len) == first,
    ensures
        network_bits(bits, len) == first <==> first <= bits < first + pow2((32 - len) as nat),
{
    let m = pow2((32 - len) as nat) as int;
    vstd::arithmetic::power2::lemma_pow2_pos((32 - len) as nat);
    let b = bits as int;
    let f = first as int;
    vstd::arithmetic::div_mod::lemma_fundamental_div_mod(b, m);
    vstd::arithmetic::div_mod::lemma_fundamental_div_mod(f, m);
    assert(0 <= b % m <= b && b % m < m) by (nonlinear_arith)
        requires
            m > 0,
            b >= 0,
    ;
    assert(0 <= f % m <= f) by (nonlinear_arith)
        requires
            m > 0,
            f >= 0,
    ;
    assert(f % m == 0);
    if f <= b < f + m {
        assert(b / m == f / m) by (nonlinear_arith)
            requires
                m > 0,
                f == m * (f / m),
                b == m * (b / m) + b % m,
                0 <= b % m < m,
                f <= b < f + m,
        ;
    }
}

} // verus!
