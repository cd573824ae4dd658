//! Rules as texts and as lists, and what setting them does.

use crate::net::{is_net_text, lemma_network_bits_idempotent, net_text, network_bits, Cidr};
use crate::proxy::policy::{
    denotes_rule, first_invalid, in_order, invalid_rule_message, less_at, normal_list, normal_set,
    parsed, quoted, rule_of, rules_of, set_outcome, text_less, PolicyView,
};
use crate::proxy::rule::{
    direction_text, is_rule_text, is_target_text, rule_text, Direction, Rule, Target,
};
use crate::proxy::rules::policy_rules;
use crate::text::spaces;
use vstd::prelude::*;

verus! {

/// A target reads `@host` or as a network in prefix notation; a rule is a target, or `in` or `out`, a
/// space and a target.
pub proof fn law_how_rules_are_written(target: Target)
    ensures
        rule_text(Rule::Stateless(target)) == match target {
            Target::Host => "@host"@,
            Target::Prefix(net) => net_text(net),
        },
        rule_text((Rule::Stateful { direction: Direction::In, target: target })) == "in "@
            + rule_text(Rule::Stateless(target)),
        rule_text((Rule::Stateful { direction: Direction::Out, target: target })) == "out "@
            + rule_text(Rule::Stateless(target)),
{
}

/// The text of a target stands for the bare rule about it. Behind `in` or `out` and one or more
/// spaces it stands for the rule about flows of that direction.
pub proof fn law_how_rules_are_read(text: Seq<char>, net: Cidr, n: nat)
    ensures
        is_rule_text("@host"@, Rule::Stateless(Target::Host)),
        is_net_text(text, net) ==> is_rule_text(text, Rule::Stateless(Target::Prefix(net))),
        is_net_text(text, net) ==> is_rule_text(
            "in "@ + (spaces(n) + text),
            (Rule::Stateful { direction: Direction::In, target: Target::Prefix(net) }),
        ),
        is_net_text(text, net) ==> is_rule_text(
            "out "@ + (spaces(n) + text),
            (Rule::Stateful { direction: Direction::Out, target: Target::Prefix(net) }),
        ),
        is_rule_text(
            "in "@ + (spaces(n) + "@host"@),
            (Rule::Stateful { direction: Direction::In, target: Target::Host }),
        ),
        is_rule_text(
            "out "@ + (spaces(n) + "@host"@),
            (Rule::Stateful { direction: Direction::Out, target: Target::Host }),
        ),
{
    let host = "@host"@;
    assert(is_target_text(host, Target::Host));
    assert("in "@ + (spaces(n) + text) == direction_text(Direction::In) + (spaces(n) + text));
    assert("out "@ + (spaces(n) + text) == direction_text(Direction::Out) + (spaces(n) + text));
    assert("in "@ + (spaces(n) + host) == direction_text(Direction::In) + (spaces(n) + host));
    assert("out "@ + (spaces(n) + host) == direction_text(Direction::Out) + (spaces(n) + host));
}

/// The text reads as a target.
pub open spec fn reads_as(text: Seq<char>, target: Target) -> bool {
    match target {
        Target::Host => text == "@host"@,
        Target::Prefix(net) => is_net_text(text, net),
    }
}

/// A text stands for a rule only in one of these forms.
pub proof fn law_nothing_else_is_read_as_a_rule(text: Seq<char>, rule: Rule)
    requires
        is_rule_text(text, rule),
    ensures
        rule matches Rule::Stateless(target) ==> reads_as(text, target),
        rule matches Rule::Stateful { direction, target } ==> (direction is In ==> exists|
            n: nat,
            rest: Seq<char>,
        |
            text == #[trigger] ("in "@ + (spaces(n) + rest)) && reads_as(rest, target)),
        rule matches Rule::Stateful { direction, target } ==> (direction is Out ==> exists|
            n: nat,
            rest: Seq<char>,
        |
            text == #[trigger] ("out "@ + (spaces(n) + rest)) && reads_as(rest, target)),
{
    if let Rule::Stateful { direction, target } = rule {
        let (n, rest) = choose|n: nat, rest: Seq<char>|
            text == #[trigger] (direction_text(direction) + (spaces(n) + rest)) && is_target_text(
                rest,
                target,
            );
        assert(reads_as(rest, target));
        match direction {
            Direction::In => {
                assert(text == "in "@ + (spaces(n) + rest));
            },
            Direction::Out => {
                assert(text == "out "@ + (spaces(n) + rest));
            },
        }
    }
}

/// The network with the bits behind its prefix cleared.
pub open spec fn cleared(target: Target) -> Target {
    match target {
        Target::Host => Target::Host,
        Target::Prefix(net) => Target::Prefix(
            Cidr {
                addr: crate::addr::Ipv4Address { bits: network_bits(net.addr.bits, net.prefix_len) },
                prefix_len: net.prefix_len,
            },
        ),
    }
}

/// The rule with the bits behind its prefix cleared.
pub open spec fn cleared_rule(rule: Rule) -> Rule {
    match rule {
        Rule::Stateless(target) => Rule::Stateless(cleared(target)),
        Rule::Stateful { direction, target } => Rule::Stateful {
            direction: direction,
            target: cleared(target),
        },
    }
}

/// The canonical form of a list holds each of its rules, with the bits behind the prefixes cleared,
/// and no others.
pub proof fn law_canonical_forms_hold_the_same_rules(rules: Seq<Rule>, rule: Rule)
    ensures
        normal_set(rules).contains(rule) <==> exists|i: int|
            0 <= i < rules.len() && cleared_rule(#[trigger] rules[i]) == rule,
{
    let normals = rules.map_values(|r: Rule| r.normal());
    if normal_set(rules).contains(rule) {
        let i = choose|i: int| 0 <= i < normals.len() && normals[i] == rule;
        assert(cleared_rule(rules[i]) == rule);
    }
    if exists|i: int| 0 <= i < rules.len() && cleared_rule(#[trigger] rules[i]) == rule {
        let i = choose|i: int| 0 <= i < rules.len() && cleared_rule(#[trigger] rules[i]) == rule;
        assert(normals[i] == rule);
        assert(normals.contains(rule));
    }
}

/// A list is in order if each rule's text comes before the next ones' in the dictionary: at the first
/// place where they differ it has the smaller character, or it ends there.
pub proof fn law_canonical_forms_are_in_dictionary_order(rules: Seq<Rule>, i: int, j: int)
    requires
        in_order(rules),
        0 <= i < j < rules.len(),
    ensures
        exists|k: int|
            #![trigger rule_text(rules[i])[k]]
            {
                let a = rule_text(rules[i]);
                let b = rule_text(rules[j]);
                &&& 0 <= k <= a.len()
                &&& k < b.len()
                &&& forall|n: int| 0 <= n < k ==> a[n] == b[n]
                &&& k == a.len() || a[k] < b[k]
            },
        rules[i] != rules[j],
{
    reveal(text_less);
    let a = rule_text(rules[i]);
    let b = rule_text(rules[j]);
    assert(text_less(a, b));
    let k = choose|k: int| less_at(a, b, k);
    assert(less_at(a, b, k));
    let c = a[k];
}

/// The canonical form of a list of rules that has one is that: in order, and with the same rules.
pub proof fn law_canonical_forms_are_what_they_are(rules: Seq<Rule>, list: Seq<Rule>)
    requires
        in_order(list),
        list.to_set() == normal_set(rules),
    ensures
        normal_list(rules) == list,
{
    crate::proxy::policy::lemma_in_order_unique(normal_list(rules), list);
}

proof fn lemma_first_invalid(texts: Seq<Seq<char>>, from: int, at: int)
    requires
        0 <= from <= at < texts.len(),
        !denotes_rule(texts[at]),
        forall|i: int| from <= i < at ==> denotes_rule(#[trigger] texts[i]),
    ensures
        first_invalid(texts, from) == Some(texts[at]),
    decreases at - from,
{
    if from < at {
        lemma_first_invalid(texts, from + 1, at);
    }
}

proof fn lemma_no_invalid(texts: Seq<Seq<char>>, from: int)
    requires
        0 <= from <= texts.len(),
        forall|i: int| from <= i < texts.len() ==> denotes_rule(#[trigger] texts[i]),
    ensures
        first_invalid(texts, from) is None,
    decreases texts.len() - from,
{
    if from < texts.len() {
        lemma_no_invalid(texts, from + 1);
    }
}

/// Texts that all stand for rules are read as the canonical form of these rules.
pub proof fn law_rules_are_read_from_texts(texts: Seq<Seq<char>>, rules: Seq<Rule>)
    requires
        texts.len() == rules.len(),
        forall|i: int| 0 <= i < texts.len() ==> is_rule_text(#[trigger] texts[i], rules[i]),
    ensures
        parsed(texts) == Ok::<Seq<Rule>, Seq<char>>(normal_list(rules)),
{
    assert forall|i: int| 0 <= i < texts.len() implies denotes_rule(#[trigger] texts[i]) && rule_of(
        texts[i],
    ) == rules[i] by {
        crate::proxy::policy::lemma_rule_of(texts[i], rules[i]);
    }
    lemma_no_invalid(texts, 0);
    assert(rules_of(texts) =~= rules);
}

/// The first text that stands for no rule is complained of, in quotes.
pub proof fn law_the_first_bad_text_is_complained_of(texts: Seq<Seq<char>>, at: int)
    requires
        0 <= at < texts.len(),
        forall|r: Rule| !#[trigger] is_rule_text(texts[at], r),
        forall|i: int| 0 <= i < at ==> exists|r: Rule| is_rule_text(#[trigger] texts[i], r),
    ensures
        parsed(texts) == Err::<Seq<Rule>, Seq<char>>(
            "invalid rule "@ + quoted(texts[at])
                + ": expected TARGET, \"in TARGET\", or \"out TARGET\""@,
        ),
        invalid_rule_message(quoted(texts[at])) == "invalid rule "@ + quoted(texts[at])
            + ": expected TARGET, \"in TARGET\", or \"out TARGET\""@,
{
    assert forall|i: int| 0 <= i < at implies denotes_rule(#[trigger] texts[i]) by {
        let r = choose|r: Rule| is_rule_text(texts[i], r);
        assert(is_rule_text(texts[i], r));
    }
    lemma_first_invalid(texts, 0, at);
}

/// A policy of no more than 4096 texts that all stand for rules is set to them, in canonical form,
/// and compiled for the same gateway.
pub proof fn law_policies_are_set(
    policy: PolicyView,
    allow: Seq<Seq<char>>,
    block: Seq<Seq<char>>,
    a: Seq<Rule>,
    b: Seq<Rule>,
)
    requires
        allow.len() + block.len() <= 4096,
        allow.len() == a.len(),
        block.len() == b.len(),
        forall|i: int| 0 <= i < allow.len() ==> is_rule_text(#[trigger] allow[i], a[i]),
        forall|i: int| 0 <= i < block.len() ==> is_rule_text(#[trigger] block[i], b[i]),
    ensures
        set_outcome(policy, allow, block) matches Ok(update) && {
            &&& update.allow == normal_list(a)
            &&& update.block == normal_list(b)
            &&& update.rules == policy_rules(
                policy.gateway_ip,
                normal_list(a),
                normal_list(b),
            )
        },
{
    law_rules_are_read_from_texts(allow, a);
    law_rules_are_read_from_texts(block, b);
}

/// More than 4096 texts are refused, and so are texts of which one stands for no rule, those that
/// allow being looked at first.
pub proof fn law_policies_are_refused(
    policy: PolicyView,
    allow: Seq<Seq<char>>,
    block: Seq<Seq<char>>,
)
    ensures
        allow.len() + block.len() > 4096 ==> set_outcome(policy, allow, block) == Err::<
            crate::proxy::policy::PolicyUpdateView,
            Seq<char>,
        >("allow and block may contain at most 4096 rules combined"@),
        allow.len() + block.len() <= 4096 && parsed(allow) is Err ==> (set_outcome(
            policy,
            allow,
            block,
        ) matches Err(e) && e == parsed(allow)->Err_0),
        allow.len() + block.len() <= 4096 && parsed(allow) is Ok && parsed(block) is Err ==> (
        set_outcome(policy, allow, block) matches Err(e) && e == parsed(block)->Err_0),
{
}

/// Rules that are written and read again mean the same.
pub proof fn law_written_rules_read_the_same(rule: Rule)
    requires
        rule.wf(),
    ensures
        is_rule_text(rule_text(rule), rule),
        forall|other: Rule| is_rule_text(rule_text(rule), other) ==> other == rule,
        cleared_rule(cleared_rule(rule)) == cleared_rule(rule),
{
    crate::proxy::rule::lemma_rule_text_denotes(rule);
    assert forall|other: Rule| is_rule_text(rule_text(rule), other) implies other == rule by {
        crate::proxy::rule::lemma_rule_text_unique(rule_text(rule), other, rule);
    }
    let target = match rule {
        Rule::Stateless(target) => target,
        Rule::Stateful { target, .. } => target,
    };
    if let Target::Prefix(net) = target {
        lemma_network_bits_idempotent(net.addr.bits, net.prefix_len);
    }
}

} // verus!
