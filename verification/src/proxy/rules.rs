//! Compiled rules: one prefix map per direction, consulted by longest prefix.

use crate::addr::Ipv4Address;
use crate::net::{lemma_network_bits_full, network_bits, Cidr};
use crate::proxy::rule::{Direction, Rule, Target};
use prefix_trie::PrefixMap;
use vstd::prelude::*;

verus! {

#[derive(Clone, Copy, Debug, PartialEq, Eq, Structural)]
pub enum Action {
    Block,
    Allow,
}

/// What the rules say about an address.
#[derive(Clone, Copy, Debug, PartialEq, Eq, Structural)]
pub enum PolicyDecision {
    Block,
    AllowStateless,
    AllowStateful,
}

/// How bare rules are read.
#[derive(Clone, Copy, Debug, PartialEq, Eq, Structural)]
pub enum Mode {
    /// They concern outgoing packets only, one by one.
    Legacy,
    /// They concern the flows of both directions.
    Stateful,
}

/// A map from network prefixes, kept by `prefix_trie`.
#[verifier::external_type_specification]
#[verifier::external_body]
#[verifier::reject_recursive_types(P)]
#[verifier::reject_recursive_types(T)]
pub struct ExPrefixMap<P, T>(prefix_trie::PrefixMap<P, T>);

/// The key type of a prefix map.
#[verifier::external_type_specification]
#[verifier::external_body]
pub struct ExIpv4Net(ipnet::Ipv4Net);

/// What a prefix map holds: actions by network address and prefix length.
pub uninterp spec fn prefix_entries(m: PrefixMap<ipnet::Ipv4Net, Action>) -> Map<
    (u32, u8),
    Action,
>;

pub open spec fn no_entries() -> Map<(u32, u8), Action> {
    Map::empty()
}

/// `prefix_trie::PrefixMap::new`: an empty map.
#[verifier::external_body]
fn prefix_new() -> (r: PrefixMap<ipnet::Ipv4Net, Action>)
    ensures
        prefix_entries(r) == no_entries(),
{
    PrefixMap::new()
}

/// `prefix_trie::PrefixMap::insert`: sets the action of a prefix, bits behind the prefix
/// being ignored, and leaves all other prefixes as they were.
#[verifier::external_body]
fn prefix_insert(m: &mut PrefixMap<ipnet::Ipv4Net, Action>, net: Cidr, action: Action)
    requires
        net.wf(),
    ensures
        prefix_entries(*final(m)) == prefix_entries(*old(m)).insert(
            (network_bits(net.addr.bits, net.prefix_len), net.prefix_len),
            action,
        ),
{
    m.insert(ipnet::Ipv4Net::new_assert(net.addr.bits.into(), net.prefix_len), action);
}

/// `prefix_trie::PrefixMap::get_lpm` on a single address: the action of the longest prefix in
/// the map that contains the address.
#[verifier::external_body]
fn prefix_lookup(m: &PrefixMap<ipnet::Ipv4Net, Action>, bits: u32) -> (r: Option<Action>)
    ensures
        r == longest_match(prefix_entries(*m), bits, 32),
{
    let address = smoltcp::wire::Ipv4Address::from_bits(bits);
    m.get_lpm(&address.into()).map(|found| *found.1)
}

/// `prefix_trie::PrefixMap::len`: the number of prefixes in the map.
#[verifier::external_body]
fn prefix_len(m: &PrefixMap<ipnet::Ipv4Net, Action>) -> (r: usize)
    ensures
        r == prefix_entries(*m).len(),
{
    m.len()
}

/// The action of the longest prefix of at most `len` bits that contains an address.
pub open spec fn longest_match(m: Map<(u32, u8), Action>, bits: u32, len: int) -> Option<Action>
    decreases len + 1,
{
    if len < 0 {
        None
    } else {
        let key = (network_bits(bits, len as u8), len as u8);
        if m.contains_key(key) {
            Some(m[key])
        } else {
            longest_match(m, bits, len - 1)
        }
    }
}

/// The prefix that a target stands for.
pub open spec fn target_prefix(t: Target, host: Ipv4Address) -> (u32, u8) {
    match t {
        Target::Prefix(net) => (network_bits(net.addr.bits, net.prefix_len), net.prefix_len),
        Target::Host => (host.bits, 32),
    }
}

/// The rule concerns packets or flows of a direction.
pub open spec fn applies(rule: Rule, mode: Mode, d: Direction) -> bool {
    match rule {
        Rule::Stateless(_) => d is Out || mode is Stateful,
        Rule::Stateful { direction, .. } => direction == d,
    }
}

/// One of the rules concerns the direction and stands for the prefix.
pub open spec fn covers(
    rules: Seq<Rule>,
    mode: Mode,
    d: Direction,
    host: Ipv4Address,
    prefix: (u32, u8),
) -> bool {
    exists|i: int|
        0 <= i < rules.len() && applies(#[trigger] rules[i], mode, d) && target_prefix(
            rules[i].goal(),
            host,
        ) == prefix
}

/// A directional rule makes the whole policy stateful.
pub open spec fn policy_mode(allow: Seq<Rule>, block: Seq<Rule>) -> Mode {
    if (exists|i: int| 0 <= i < allow.len() && #[trigger] allow[i] is Stateful) || (exists|i: int|
        0 <= i < block.len() && #[trigger] block[i] is Stateful) {
        Mode::Stateful
    } else {
        Mode::Legacy
    }
}

/// The entries of a direction: a prefix is blocked if a blocking rule stands for it, and else
/// allowed if an allowing rule does.
pub open spec fn policy_entries(
    mode: Mode,
    host: Ipv4Address,
    allow: Seq<Rule>,
    block: Seq<Rule>,
    d: Direction,
) -> Map<(u32, u8), Action> {
    Map::new(
        |p: (u32, u8)| covers(allow, mode, d, host, p) || covers(block, mode, d, host, p),
        |p: (u32, u8)|
            if covers(block, mode, d, host, p) {
                Action::Block
            } else {
                Action::Allow
            },
    )
}

/// Compiled rules, seen from outside.
pub struct RulesView {
    pub mode: Mode,
    pub inbound: Map<(u32, u8), Action>,
    pub outbound: Map<(u32, u8), Action>,
}

impl RulesView {
    pub open spec fn entries(self, d: Direction) -> Map<(u32, u8), Action> {
        match d {
            Direction::In => self.inbound,
            Direction::Out => self.outbound,
        }
    }

    /// What the rules say about an address.
    pub open spec fn decision(self, bits: u32, d: Direction) -> Option<PolicyDecision> {
        match longest_match(self.entries(d), bits, 32) {
            None => None,
            Some(Action::Block) => Some(PolicyDecision::Block),
            Some(Action::Allow) => Some(
                match self.mode {
                    Mode::Legacy => PolicyDecision::AllowStateless,
                    Mode::Stateful => PolicyDecision::AllowStateful,
                },
            ),
        }
    }

    /// A rule of a stateful policy concerns the address.
    pub open spec fn stateful_at(self, bits: u32, d: Direction) -> bool {
        self.mode is Stateful && longest_match(self.entries(d), bits, 32) is Some
    }

    /// The number of prefixes in both directions, as far as it can be counted.
    pub open spec fn count(self) -> usize {
        let n = self.inbound.len() + self.outbound.len();
        if n <= usize::MAX {
            n as usize
        } else {
            usize::MAX
        }
    }

    /// The rules with one more action for a prefix of a direction.
    pub open spec fn with_prefix(self, d: Direction, prefix: (u32, u8), action: Action) -> RulesView {
        match d {
            Direction::In => RulesView { inbound: self.inbound.insert(prefix, action), ..self },
            Direction::Out => RulesView { outbound: self.outbound.insert(prefix, action), ..self },
        }
    }

    /// The rules with one more rule.
    pub open spec fn with_rule(self, rule: Rule, action: Action, host: Ipv4Address) -> RulesView {
        let prefix = target_prefix(rule.goal(), host);
        RulesView {
            mode: self.mode,
            inbound: if applies(rule, self.mode, Direction::In) {
                self.inbound.insert(prefix, action)
            } else {
                self.inbound
            },
            outbound: if applies(rule, self.mode, Direction::Out) {
                self.outbound.insert(prefix, action)
            } else {
                self.outbound
            },
        }
    }
}

/// The rules that a policy compiles to.
pub open spec fn policy_rules(host: Ipv4Address, allow: Seq<Rule>, block: Seq<Rule>) -> RulesView {
    let mode = policy_mode(allow, block);
    RulesView {
        mode: mode,
        inbound: policy_entries(mode, host, allow, block, Direction::In),
        outbound: policy_entries(mode, host, allow, block, Direction::Out),
    }
}

pub open spec fn all_wf(rules: Seq<Rule>) -> bool {
    forall|i: int| 0 <= i < rules.len() ==> (#[trigger] rules[i]).wf()
}

/// Compiled rules.
pub struct Rules {
    pub mode: Mode,
    pub inbound: PrefixMap<ipnet::Ipv4Net, Action>,
    pub outbound: PrefixMap<ipnet::Ipv4Net, Action>,
}

impl View for Rules {
    type V = RulesView;

    open spec fn view(&self) -> RulesView {
        RulesView {
            mode: self.mode,
            inbound: prefix_entries(self.inbound),
            outbound: prefix_entries(self.outbound),
        }
    }
}

impl Default for Rules {
    fn default() -> (r: Rules)
        ensures
            r@ == (RulesView {
                mode: Mode::Legacy,
                inbound: Map::empty(),
                outbound: Map::empty(),
            }),
    {
        Rules::empty(Mode::Legacy)
    }
}

fn any_stateful(rules: &[Rule]) -> (r: bool)
    ensures
        r == exists|i: int| 0 <= i < rules@.len() && #[trigger] rules@[i] is Stateful,
{
    let mut i: usize = 0;
    while i < rules.len()
        invariant
            i <= rules.len(),
            forall|j: int| 0 <= j < i ==> !(#[trigger] rules@[j] is Stateful),
        decreases rules.len() - i,
    {
        if let Rule::Stateful { .. } = rules[i] {
            return true;
        }
        i = i + 1;
    }
    false
}

impl Rules {
    /// No rules.
    pub fn empty(mode: Mode) -> (r: Rules)
        ensures
            r@ == (RulesView { mode: mode, inbound: Map::empty(), outbound: Map::empty() }),
    {
        Rules { mode, inbound: prefix_new(), outbound: prefix_new() }
    }

    /// Compiles a policy. Bare rules keep their narrow meaning as long as there are no others;
    /// a directional rule makes the whole policy stateful. Blocking rules are entered last, so
    /// that they win over allowing ones for the same prefix.
    pub fn new(host_address: Ipv4Address, allow: &[Rule], block: &[Rule]) -> (r: Rules)
        requires
            all_wf(allow@),
            all_wf(block@),
        ensures
            r@ == policy_rules(host_address, allow@, block@),
    {
        let mode = if any_stateful(allow) || any_stateful(block) {
            Mode::Stateful
        } else {
            Mode::Legacy
        };
        let mut rules = Rules::empty(mode);
        let ghost none = Seq::<Rule>::empty();
        proof {
            lemma_entries_step(mode, host_address, none, none, Direction::In);
            lemma_entries_step(mode, host_address, none, none, Direction::Out);
            assert(allow@.take(0) =~= none);
            assert(block@.take(0) =~= none);
        }
        let mut i: usize = 0;
        while i < allow.len()
            invariant
                i <= allow.len(),
                all_wf(allow@),
                rules.mode == mode,
                none == Seq::<Rule>::empty(),
                rules@.inbound == policy_entries(
                    mode,
                    host_address,
                    allow@.take(i as int),
                    none,
                    Direction::In,
                ),
                rules@.outbound == policy_entries(
                    mode,
                    host_address,
                    allow@.take(i as int),
                    none,
                    Direction::Out,
                ),
            decreases allow.len() - i,
        {
            proof {
                let seen = allow@.take(i as int);
                assert(allow@.take(i + 1) =~= seen.push(allow@[i as int]));
                lemma_allow_step(mode, host_address, seen, allow@[i as int], Direction::In);
                lemma_allow_step(mode, host_address, seen, allow@[i as int], Direction::Out);
            }
            rules.insert(allow[i], Action::Allow, host_address);
            i = i + 1;
        }
        assert(allow@.take(i as int) =~= allow@);
        let mut j: usize = 0;
        while j < block.len()
            invariant
                j <= block.len(),
                all_wf(block@),
                rules.mode == mode,
                rules@.inbound == policy_entries(
                    mode,
                    host_address,
                    allow@,
                    block@.take(j as int),
                    Direction::In,
                ),
                rules@.outbound == policy_entries(
                    mode,
                    host_address,
                    allow@,
                    block@.take(j as int),
                    Direction::Out,
                ),
            decreases block.len() - j,
        {
            proof {
                let seen = block@.take(j as int);
                assert(block@.take(j + 1) =~= seen.push(block@[j as int]));
                lemma_block_step(mode, host_address, allow@, seen, block@[j as int], Direction::In);
                lemma_block_step(mode, host_address, allow@, seen, block@[j as int], Direction::Out);
            }
            rules.insert(block[j], Action::Block, host_address);
            j = j + 1;
        }
        assert(block@.take(j as int) =~= block@);
        rules
    }

    /// What the rules say about an address, if anything.
    pub fn policy_decision(&self, address: Ipv4Address, direction: Direction) -> (r: Option<
        PolicyDecision,
    >)
        ensures
            r == self@.decision(address.bits, direction),
    {
        match self.select(address, direction) {
            None => None,
            Some(Action::Block) => Some(PolicyDecision::Block),
            Some(Action::Allow) => match self.mode {
                Mode::Legacy => Some(PolicyDecision::AllowStateless),
                Mode::Stateful => Some(PolicyDecision::AllowStateful),
            },
        }
    }

    /// Whether flows with an address have to be tracked.
    pub fn is_stateful(&self, address: Ipv4Address, direction: Direction) -> (r: bool)
        ensures
            r == self@.stateful_at(address.bits, direction),
    {
        self.mode == Mode::Stateful && self.select(address, direction).is_some()
    }

    /// The number of prefixes, counted once per direction.
    pub fn len(&self) -> (r: usize)
        ensures
            r == self@.count(),
    {
        prefix_len(&self.inbound).saturating_add(prefix_len(&self.outbound))
    }

    pub fn has_stateful(&self) -> (r: bool)
        ensures
            r == (self@.mode is Stateful),
    {
        self.mode == Mode::Stateful
    }

    /// The action for an address: that of the longest prefix which contains it.
    pub fn select(&self, address: Ipv4Address, direction: Direction) -> (r: Option<Action>)
        ensures
            r == longest_match(self@.entries(direction), address.bits, 32),
    {
        match direction {
            Direction::In => prefix_lookup(&self.inbound, address.bits),
            Direction::Out => prefix_lookup(&self.outbound, address.bits),
        }
    }

    /// Enters a rule, in both directions if it is a bare one of a stateful policy.
    pub fn insert(&mut self, rule: Rule, action: Action, host_address: Ipv4Address)
        requires
            rule.wf(),
        ensures
            final(self)@ == old(self)@.with_rule(rule, action, host_address),
    {
        match rule {
            Rule::Stateless(target) => {
                if self.mode == Mode::Stateful {
                    self.insert_direction(Direction::In, target, action, host_address);
                }
                self.insert_direction(Direction::Out, target, action, host_address);
            },
            Rule::Stateful { direction, target } => {
                self.insert_direction(direction, target, action, host_address);
            },
        }
    }

    pub fn insert_direction(
        &mut self,
        direction: Direction,
        target: Target,
        action: Action,
        host_address: Ipv4Address,
    )
        requires
            target.wf(),
        ensures
            final(self)@ == old(self)@.with_prefix(
                direction,
                target_prefix(target, host_address),
                action,
            ),
    {
        let prefix = match target {
            Target::Prefix(net) => net,
            Target::Host => Cidr::host(host_address),
        };
        proof {
            lemma_network_bits_full(host_address.bits);
        }
        match direction {
            Direction::In => prefix_insert(&mut self.inbound, prefix, action),
            Direction::Out => prefix_insert(&mut self.outbound, prefix, action),
        }
    }
}

proof fn lemma_covers_push(
    rules: Seq<Rule>,
    rule: Rule,
    mode: Mode,
    d: Direction,
    host: Ipv4Address,
    prefix: (u32, u8),
)
    ensures
        covers(rules.push(rule), mode, d, host, prefix) <==> covers(rules, mode, d, host, prefix)
            || (applies(rule, mode, d) && target_prefix(rule.goal(), host) == prefix),
{
    let more = rules.push(rule);
    if covers(rules, mode, d, host, prefix) {
        let i = choose|i: int|
            0 <= i < rules.len() && applies(#[trigger] rules[i], mode, d) && target_prefix(
                rules[i].goal(),
                host,
            ) == prefix;
        assert(more[i] == rules[i]);
    }
    if applies(rule, mode, d) && target_prefix(rule.goal(), host) == prefix {
        assert(more[rules.len() as int] == rule);
    }
    if covers(more, mode, d, host, prefix) {
        let i = choose|i: int|
            0 <= i < more.len() && applies(#[trigger] more[i], mode, d) && target_prefix(
                more[i].goal(),
                host,
            ) == prefix;
        if i < rules.len() {
            assert(rules[i] == more[i]);
        }
    }
}

proof fn lemma_entries_step(
    mode: Mode,
    host: Ipv4Address,
    allow: Seq<Rule>,
    block: Seq<Rule>,
    d: Direction,
)
    requires
        allow.len() == 0,
        block.len() == 0,
    ensures
        policy_entries(mode, host, allow, block, d) == Map::<(u32, u8), Action>::empty(),
{
    assert(policy_entries(mode, host, allow, block, d) =~= Map::<(u32, u8), Action>::empty());
}

proof fn lemma_allow_step(
    mode: Mode,
    host: Ipv4Address,
    allow: Seq<Rule>,
    rule: Rule,
    d: Direction,
)
    ensures
        policy_entries(mode, host, allow.push(rule), Seq::<Rule>::empty(), d) == if applies(
            rule,
            mode,
            d,
        ) {
            policy_entries(mode, host, allow, Seq::<Rule>::empty(), d).insert(
                target_prefix(rule.goal(), host),
                Action::Allow,
            )
        } else {
            policy_entries(mode, host, allow, Seq::<Rule>::empty(), d)
        },
{
    let none = Seq::<Rule>::empty();
    let before = policy_entries(mode, host, allow, none, d);
    let after = policy_entries(mode, host, allow.push(rule), none, d);
    let expected = if applies(rule, mode, d) {
        before.insert(target_prefix(rule.goal(), host), Action::Allow)
    } else {
        before
    };
    assert forall|p: (u32, u8)| #[trigger] after.contains_key(p) <==> expected.contains_key(p) by {
        lemma_covers_push(allow, rule, mode, d, host, p);
    }
    assert(after =~= expected);
}

proof fn lemma_block_step(
    mode: Mode,
    host: Ipv4Address,
    allow: Seq<Rule>,
    block: Seq<Rule>,
    rule: Rule,
    d: Direction,
)
    ensures
        policy_entries(mode, host, allow, block.push(rule), d) == if applies(rule, mode, d) {
            policy_entries(mode, host, allow, block, d).insert(
                target_prefix(rule.goal(), host),
                Action::Block,
            )
        } else {
            policy_entries(mode, host, allow, block, d)
        },
{
    let before = policy_entries(mode, host, allow, block, d);
    let after = policy_entries(mode, host, allow, block.push(rule), d);
    let expected = if applies(rule, mode, d) {
        before.insert(target_prefix(rule.goal(), host), Action::Block)
    } else {
        before
    };
    assert forall|p: (u32, u8)| #[trigger] after.contains_key(p) <==> expected.contains_key(p) by {
        lemma_covers_push(block, rule, mode, d, host, p);
    }
    assert forall|p: (u32, u8)| #[trigger] after.contains_key(p) implies after[p]
        == expected[p] by {
        lemma_covers_push(block, rule, mode, d, host, p);
    }
    assert(after =~= expected);
}

/// The longest prefix that contains an address decides: where a prefix contains it and no
/// longer one does, its action is the one that counts.
pub proof fn law_longest_prefix_wins(m: Map<(u32, u8), Action>, bits: u32, len: u8)
    requires
        len <= 32,
        m.contains_key((network_bits(bits, len), len)),
        forall|longer: u8|
            len < longer <= 32 ==> !#[trigger] m.contains_key((network_bits(bits, longer), longer)),
    ensures
        longest_match(m, bits, 32) == Some(m[(network_bits(bits, len), len)]),
{
    lemma_match_from(m, bits, len, 32);
}

proof fn lemma_match_from(m: Map<(u32, u8), Action>, bits: u32, len: u8, from: int)
    requires
        len <= from <= 32,
        m.contains_key((network_bits(bits, len), len)),
        forall|longer: u8|
            len < longer <= 32 ==> !#[trigger] m.contains_key((network_bits(bits, longer), longer)),
    ensures
        longest_match(m, bits, from) == Some(m[(network_bits(bits, len), len)]),
    decreases from,
{
    if from > len {
        assert(!m.contains_key((network_bits(bits, from as u8), from as u8)));
        lemma_match_from(m, bits, len, from - 1);
    }
}

/// No decision comes from a prefix that does not contain the address: without a prefix that
/// contains it, nothing is said about an address.
pub proof fn law_no_prefix_no_decision(v: RulesView, bits: u32, d: Direction)
    requires
        forall|len: u8|
            len <= 32 ==> !#[trigger] v.entries(d).contains_key((network_bits(bits, len), len)),
    ensures
        v.decision(bits, d) is None,
{
    lemma_no_match(v.entries(d), bits, 32);
}

proof fn lemma_no_match(m: Map<(u32, u8), Action>, bits: u32, from: int)
    requires
        from <= 32,
        forall|len: u8| len <= 32 ==> !#[trigger] m.contains_key((network_bits(bits, len), len)),
    ensures
        longest_match(m, bits, from) is None,
    decreases from + 1,
{
    if from >= 0 {
        assert(!m.contains_key((network_bits(bits, from as u8), from as u8)));
        lemma_no_match(m, bits, from - 1);
    }
}

/// Where a prefix is both allowed and blocked for a direction, it is blocked.
pub proof fn law_block_wins_at_same_prefix(
    host: Ipv4Address,
    allow: Seq<Rule>,
    block: Seq<Rule>,
    i: int,
    d: Direction,
)
    requires
        0 <= i < block.len(),
        applies(block[i], policy_mode(allow, block), d),
    ensures
        policy_rules(host, allow, block).entries(d).contains_pair(
            target_prefix(block[i].goal(), host),
            Action::Block,
        ),
{
    let mode = policy_mode(allow, block);
    assert(covers(block, mode, d, host, target_prefix(block[i].goal(), host)));
}

/// A policy of bare rules says nothing about incoming flows.
pub proof fn law_bare_rules_are_outbound_only(
    host: Ipv4Address,
    allow: Seq<Rule>,
    block: Seq<Rule>,
    bits: u32,
)
    requires
        policy_mode(allow, block) is Legacy,
    ensures
        policy_rules(host, allow, block).decision(bits, Direction::In) is None,
{
    let v = policy_rules(host, allow, block);
    assert forall|p: (u32, u8)| !#[trigger] v.inbound.contains_key(p) by {
        assert forall|k: int| 0 <= k < allow.len() implies !applies(
            #[trigger] allow[k],
            v.mode,
            Direction::In,
        ) by {
            assert(!(allow[k] is Stateful));
        }
        assert forall|k: int| 0 <= k < block.len() implies !applies(
            #[trigger] block[k],
            v.mode,
            Direction::In,
        ) by {
            assert(!(block[k] is Stateful));
        }
    }
    law_no_prefix_no_decision(v, bits, Direction::In);
}

/// A packet that comes in is never allowed without tracking.
pub proof fn law_inbound_is_never_stateless(
    host: Ipv4Address,
    allow: Seq<Rule>,
    block: Seq<Rule>,
    bits: u32,
)
    ensures
        policy_rules(host, allow, block).decision(bits, Direction::In) != Some(
            PolicyDecision::AllowStateless,
        ),
{
    if policy_mode(allow, block) is Legacy {
        law_bare_rules_are_outbound_only(host, allow, block, bits);
    }
}

/// A rule about one direction leaves the decisions about the other as they were.
pub proof fn law_directions_are_independent(
    v: RulesView,
    d: Direction,
    target: Target,
    action: Action,
    host: Ipv4Address,
    bits: u32,
    other: Direction,
)
    requires
        d != other,
    ensures
        v.with_rule((Rule::Stateful { direction: d, target: target }), action, host).decision(
            bits,
            other,
        ) == v.decision(bits, other),
{
}

} // verus!
