//! Rules: what may be reached, and from which side a flow may start.

use crate::net::{
    is_digit, is_net_text, lemma_net_text_denotes, lemma_net_text_starts_with_digit,
    lemma_net_text_unique, lemma_network_bits_idempotent, net_text, Cidr,
};
use crate::text::{same_text, spaces, strip_prefix, trim_leading_spaces};
use vstd::prelude::*;

verus! {

/// The direction in which a flow is initiated, seen from the virtual machine.
#[derive(Clone, Copy, Debug, PartialEq, Eq, Structural)]
pub enum Direction {
    In,
    Out,
}

/// What a rule is about: a network, or the host.
#[derive(Clone, Copy, Debug, PartialEq, Eq, Structural)]
pub enum Target {
    Prefix(Cidr),
    Host,
}

#[derive(Clone, Copy, Debug, PartialEq, Eq, Structural)]
pub enum Rule {
    /// Traffic with the target, whoever starts it.
    Stateless(Target),
    /// Flows with the target that start in the given direction.
    Stateful { direction: Direction, target: Target },
}

/// A target as text.
pub open spec fn target_text(t: Target) -> Seq<char> {
    match t {
        Target::Prefix(net) => net_text(net),
        Target::Host => "@host"@,
    }
}

/// The word that opens a rule about flows of a direction, with a space behind it.
pub open spec fn direction_text(d: Direction) -> Seq<char> {
    match d {
        Direction::In => "in "@,
        Direction::Out => "out "@,
    }
}

/// A rule as text.
pub open spec fn rule_text(r: Rule) -> Seq<char> {
    match r {
        Rule::Stateless(target) => target_text(target),
        Rule::Stateful { direction, target } => direction_text(direction) + target_text(target),
    }
}

/// The text denotes the target.
pub open spec fn is_target_text(text: Seq<char>, t: Target) -> bool {
    match t {
        Target::Prefix(net) => is_net_text(text, net),
        Target::Host => text == "@host"@,
    }
}

/// The text denotes the rule: a target, or a direction, at least one space and a target.
pub open spec fn is_rule_text(text: Seq<char>, r: Rule) -> bool {
    match r {
        Rule::Stateless(target) => is_target_text(text, target),
        Rule::Stateful { direction, target } => exists|n: nat, rest: Seq<char>|
            text == #[trigger] (direction_text(direction) + (spaces(n) + rest)) && is_target_text(
                rest,
                target,
            ),
    }
}

/// The text of a target starts with a digit or with an at sign.
proof fn lemma_target_text_start(text: Seq<char>, t: Target)
    requires
        is_target_text(text, t),
    ensures
        text.len() > 0,
        is_digit(text[0]) || text[0] == '@',
        text[0] == '@' <==> t is Host,
{
    match t {
        Target::Prefix(net) => lemma_net_text_starts_with_digit(text, net),
        Target::Host => {
            reveal_strlit("@host");
        },
    }
}

proof fn lemma_target_text_unique(text: Seq<char>, t1: Target, t2: Target)
    requires
        is_target_text(text, t1),
        is_target_text(text, t2),
    ensures
        t1 == t2,
{
    lemma_target_text_start(text, t1);
    lemma_target_text_start(text, t2);
    if let (Target::Prefix(n1), Target::Prefix(n2)) = (t1, t2) {
        lemma_net_text_unique(text, n1, n2);
    }
}

/// Leading spaces can be split off in one way only.
proof fn lemma_spaces_unique(n1: nat, r1: Seq<char>, n2: nat, r2: Seq<char>)
    requires
        spaces(n1) + r1 == spaces(n2) + r2,
        r1.len() > 0 ==> r1[0] != ' ',
        r2.len() > 0 ==> r2[0] != ' ',
    ensures
        n1 == n2,
        r1 == r2,
{
    let t = spaces(n1) + r1;
    let u = spaces(n2) + r2;
    assert(t.len() == n1 + r1.len());
    assert(u.len() == n2 + r2.len());
    if n1 < n2 {
        assert(u[n1 as int] == ' ');
        assert(t[n1 as int] == r1[0]);
    }
    if n2 < n1 {
        assert(t[n2 as int] == ' ');
        assert(u[n2 as int] == r2[0]);
    }
    assert forall|i: int| 0 <= i < r1.len() implies r1[i] == r2[i] by {
        assert(t[n1 + i] == r1[i]);
        assert(u[n2 + i] == r2[i]);
    }
    assert(r1 =~= r2);
}

/// A text that starts with a direction denotes a rule about flows of that direction only, and
/// the target is what follows the spaces.
proof fn lemma_directed_text(text: Seq<char>, d: Direction, n: nat, rest: Seq<char>, r: Rule)
    requires
        text == direction_text(d) + (spaces(n) + rest),
        rest.len() > 0 ==> rest[0] != ' ',
        is_rule_text(text, r),
    ensures
        r matches Rule::Stateful { direction, target } && direction == d && is_target_text(
            rest,
            target,
        ),
{
    reveal_strlit("in ");
    reveal_strlit("out ");
    let head = direction_text(d);
    assert(text[0] == head[0]);
    match r {
        Rule::Stateless(target) => {
            lemma_target_text_start(text, target);
        },
        Rule::Stateful { direction, target } => {
            let (n2, rest2) = choose|n2: nat, rest2: Seq<char>|
                text == #[trigger] (direction_text(direction) + (spaces(n2) + rest2))
                    && is_target_text(rest2, target);
            let head2 = direction_text(direction);
            assert(text[0] == head2[0]);
            assert(direction == d);
            let tail = spaces(n) + rest;
            let tail2 = spaces(n2) + rest2;
            assert(text.subrange(head.len() as int, text.len() as int) =~= tail);
            assert(text.subrange(head.len() as int, text.len() as int) =~= tail2);
            lemma_target_text_start(rest2, target);
            lemma_spaces_unique(n, rest, n2, rest2);
        },
    }
}

/// A text denotes at most one rule.
pub proof fn lemma_rule_text_unique(text: Seq<char>, r1: Rule, r2: Rule)
    requires
        is_rule_text(text, r1),
        is_rule_text(text, r2),
    ensures
        r1 == r2,
{
    match r1 {
        Rule::Stateful { direction, target } => {
            let (n, rest) = choose|n: nat, rest: Seq<char>|
                text == #[trigger] (direction_text(direction) + (spaces(n) + rest))
                    && is_target_text(rest, target);
            lemma_target_text_start(rest, target);
            lemma_directed_text(text, direction, n, rest, r2);
            lemma_target_text_unique(rest, target, r2->target);
        },
        Rule::Stateless(t1) => {
            match r2 {
                Rule::Stateless(t2) => lemma_target_text_unique(text, t1, t2),
                Rule::Stateful { direction, target } => {
                    let (n, rest) = choose|n: nat, rest: Seq<char>|
                        text == #[trigger] (direction_text(direction) + (spaces(n) + rest))
                            && is_target_text(rest, target);
                    lemma_target_text_start(rest, target);
                    lemma_directed_text(text, direction, n, rest, r1);
                },
            }
        },
    }
}

/// The text of a rule denotes it, so that reading what was written gives the rule back.
pub proof fn lemma_rule_text_denotes(r: Rule)
    requires
        r.wf(),
    ensures
        is_rule_text(rule_text(r), r),
{
    if let Target::Prefix(net) = r.goal() {
        lemma_net_text_denotes(net);
    }
    if let Rule::Stateful { direction, target } = r {
        let rest = target_text(target);
        assert(spaces(0) + rest =~= rest);
        assert(rule_text(r) == direction_text(direction) + (spaces(0) + rest));
    }
}

/// Different rules have different texts.
pub proof fn lemma_rule_text_injective(r1: Rule, r2: Rule)
    requires
        r1.wf(),
        r2.wf(),
        rule_text(r1) == rule_text(r2),
    ensures
        r1 == r2,
{
    lemma_rule_text_denotes(r1);
    lemma_rule_text_denotes(r2);
    lemma_rule_text_unique(rule_text(r1), r1, r2);
}

impl Target {
    pub open spec fn wf(&self) -> bool {
        match *self {
            Target::Prefix(net) => net.wf(),
            Target::Host => true,
        }
    }

    /// The same target, its network having no bits set behind the prefix.
    pub open spec fn normal(self) -> Target {
        match self {
            Target::Prefix(net) => Target::Prefix(net.truncated()),
            Target::Host => Target::Host,
        }
    }

    pub fn normalized(self) -> (r: Target)
        requires
            self.wf(),
        ensures
            r == self.normal(),
            r.wf(),
    {
        match self {
            Target::Prefix(net) => Target::Prefix(net.trunc()),
            Target::Host => Target::Host,
        }
    }

    /// Reads a target from text. The error is a description of what is wrong.
    pub fn parse(text: &str) -> (r: Result<Target, String>)
        ensures
            match r {
                Ok(target) => is_target_text(text@, target) && target.wf(),
                Err(e) => e@ == "invalid IP address syntax"@ && forall|target: Target|
                    !#[trigger] is_target_text(text@, target),
            },
    {
        if same_text(text, "@host") {
            Ok(Target::Host)
        } else {
            match Cidr::parse(text) {
                Ok(net) => Ok(Target::Prefix(net)),
                Err(e) => Err(e),
            }
        }
    }

    /// The target as text.
    pub fn text(&self) -> (r: String)
        requires
            self.wf(),
        ensures
            r@ == target_text(*self),
    {
        match self {
            Target::Prefix(net) => net.text(),
            Target::Host => String::from_str("@host"),
        }
    }
}

impl Rule {
    pub open spec fn wf(&self) -> bool {
        self.goal().wf()
    }

    /// What the rule is about.
    pub open spec fn goal(&self) -> Target {
        match *self {
            Rule::Stateless(target) => target,
            Rule::Stateful { target, .. } => target,
        }
    }

    /// The same rule, its network having no bits set behind the prefix.
    pub open spec fn normal(self) -> Rule {
        match self {
            Rule::Stateless(target) => Rule::Stateless(target.normal()),
            Rule::Stateful { direction, target } => Rule::Stateful {
                direction,
                target: target.normal(),
            },
        }
    }

    pub fn target(self) -> (r: Target)
        ensures
            r == self.goal(),
    {
        match self {
            Rule::Stateless(target) => target,
            Rule::Stateful { target, .. } => target,
        }
    }

    pub fn normalized(self) -> (r: Rule)
        requires
            self.wf(),
        ensures
            r == self.normal(),
            r.wf(),
    {
        match self {
            Rule::Stateless(target) => Rule::Stateless(target.normalized()),
            Rule::Stateful { direction, target } => Rule::Stateful {
                direction,
                target: target.normalized(),
            },
        }
    }

    /// Reads a rule from text. The error is a description of what is wrong.
    pub fn parse(text: &str) -> (r: Result<Rule, String>)
        ensures
            match r {
                Ok(rule) => is_rule_text(text@, rule) && rule.wf(),
                Err(e) => e@ == "invalid IP address syntax"@ && forall|rule: Rule|
                    !#[trigger] is_rule_text(text@, rule),
            },
    {
        let (direction, rest) = match strip_prefix(text, "in ") {
            Some(rest) => (Direction::In, rest),
            None => match strip_prefix(text, "out ") {
                Some(rest) => (Direction::Out, rest),
                None => {
                    proof {
                        assert forall|rule: Rule| #[trigger] is_rule_text(text@, rule) implies rule
                            is Stateless by {
                            if let Rule::Stateful { direction, target } = rule {
                                let (n, tail) = choose|n: nat, tail: Seq<char>|
                                    text@ == #[trigger] (direction_text(direction) + (spaces(n)
                                        + tail)) && is_target_text(tail, target);
                                assert(direction_text(direction).is_prefix_of(text@));
                            }
                        }
                    }
                    return match Target::parse(text) {
                        Ok(target) => Ok(Rule::Stateless(target)),
                        Err(e) => {
                            assert forall|rule: Rule| !#[trigger] is_rule_text(text@, rule) by {
                                if is_rule_text(text@, rule) {
                                    assert(is_target_text(text@, rule.goal()));
                                }
                            }
                            Err(e)
                        },
                    };
                },
            },
        };
        let target_part = trim_leading_spaces(rest);
        let ghost n = choose|n: nat| rest@ == #[trigger] spaces(n) + target_part@;
        assert(text@ == direction_text(direction) + (spaces(n) + target_part@));
        match Target::parse(target_part) {
            Ok(target) => Ok(Rule::Stateful { direction, target }),
            Err(e) => {
                proof {
                    assert forall|rule: Rule| !#[trigger] is_rule_text(text@, rule) by {
                        if is_rule_text(text@, rule) {
                            lemma_directed_text(text@, direction, n, target_part@, rule);
                            assert(is_target_text(target_part@, rule->target));
                        }
                    }
                }
                Err(e)
            },
        }
    }

    /// The rule as text.
    pub fn text(&self) -> (r: String)
        requires
            self.wf(),
        ensures
            r@ == rule_text(*self),
    {
        match self {
            Rule::Stateless(target) => target.text(),
            Rule::Stateful { direction, target } => {
                let mut out = match direction {
                    Direction::In => String::from_str("in "),
                    Direction::Out => String::from_str("out "),
                };
                let rest = target.text();
                out.append(rest.as_str());
                out
            },
        }
    }
}

/// Normalizing a rule a second time changes nothing.
pub proof fn lemma_normal_idempotent(r: Rule)
    requires
        r.wf(),
    ensures
        r.normal().normal() == r.normal(),
        r.normal().wf(),
{
    if let Target::Prefix(net) = r.goal() {
        lemma_network_bits_idempotent(net.addr.bits, net.prefix_len);
    }
}

/// Reading the text of a rule gives that rule back.
pub proof fn law_parse_inverts_text(r: Rule, parsed: Rule)
    requires
        r.wf(),
        is_rule_text(rule_text(r), parsed),
    ensures
        parsed == r,
{
    lemma_rule_text_denotes(r);
    lemma_rule_text_unique(rule_text(r), r, parsed);
}

} // verus!
