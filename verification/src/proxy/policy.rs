//! Policies: the rules as they are stated, in a canonical form.

use crate::addr::Ipv4Address;
use crate::net::{lemma_decimal_numeral, lemma_network_bits_idempotent};
use crate::proxy::rule::{
    direction_text, is_rule_text, lemma_normal_idempotent, lemma_rule_text_injective,
    lemma_rule_text_unique, rule_text, target_text, Direction, Rule, Target,
};
use crate::proxy::rules::{
    all_wf, applies, covers, policy_entries, policy_mode, policy_rules, target_prefix, Mode, Rules,
    RulesView,
};
use vstd::prelude::*;
use vstd::utf8::is_ascii_chars;

verus! {

/// The texts agree before `k`, and there the first one ends or has the smaller character.
pub open spec fn less_at(a: Seq<char>, b: Seq<char>, k: int) -> bool {
    &&& 0 <= k <= a.len()
    &&& k < b.len()
    &&& forall|i: int| 0 <= i < k ==> a[i] == b[i]
    &&& k == a.len() || a[k] < b[k]
}

/// The first text comes before the second in dictionary order.
#[verifier::opaque]
pub open spec fn text_less(a: Seq<char>, b: Seq<char>) -> bool {
    exists|k: int| less_at(a, b, k)
}

pub proof fn lemma_text_less_transitive(a: Seq<char>, b: Seq<char>, c: Seq<char>)
    requires
        text_less(a, b),
        text_less(b, c),
    ensures
        text_less(a, c),
{
    reveal(text_less);
    let k = choose|k: int| less_at(a, b, k);
    let m = choose|m: int| less_at(b, c, m);
    if k <= m {
        assert(less_at(a, c, k));
    } else {
        assert(less_at(a, c, m));
    }
}

pub proof fn lemma_text_less_irreflexive(a: Seq<char>)
    ensures
        !text_less(a, a),
{
    reveal(text_less);
}

/// Rules in dictionary order of their texts, each once.
pub open spec fn in_order(rules: Seq<Rule>) -> bool {
    forall|i: int, j: int|
        #![trigger rules[i], rules[j]]
        0 <= i < j < rules.len() ==> text_less(rule_text(rules[i]), rule_text(rules[j]))
}

/// The canonical form of a set of rules: in dictionary order of their texts.
pub open spec fn listed(set: Set<Rule>) -> Seq<Rule> {
    choose|list: Seq<Rule>| in_order(list) && #[trigger] list.to_set() == set
}

/// The rules with no bits set behind their prefixes, each once.
pub open spec fn normal_set(rules: Seq<Rule>) -> Set<Rule> {
    rules.map_values(|r: Rule| r.normal()).to_set()
}

/// The canonical form of a list of rules.
pub open spec fn normal_list(rules: Seq<Rule>) -> Seq<Rule> {
    listed(normal_set(rules))
}

proof fn lemma_in_order_distinct(list: Seq<Rule>)
    requires
        in_order(list),
    ensures
        list.no_duplicates(),
{
    assert forall|i: int, j: int| 0 <= i < list.len() && 0 <= j < list.len() && i != j implies list[i]
        != list[j] by {
        lemma_text_less_irreflexive(rule_text(list[i]));
        if i < j {
            assert(text_less(rule_text(list[i]), rule_text(list[j])));
        } else {
            assert(text_less(rule_text(list[j]), rule_text(list[i])));
        }
    }
}

/// Lists in order that hold the same rules are the same.
pub proof fn lemma_in_order_unique(a: Seq<Rule>, b: Seq<Rule>)
    requires
        in_order(a),
        in_order(b),
        a.to_set() == b.to_set(),
    ensures
        a == b,
    decreases a.len(),
{
    if a.len() == 0 {
        if b.len() > 0 {
            assert(b.to_set().contains(b[0]));
            assert(a.to_set().contains(b[0]));
        }
        assert(a =~= b);
    } else {
        assert(a.to_set().contains(a[0]));
        assert(b.to_set().contains(a[0]));
        assert(b.len() > 0);
        assert(b.to_set().contains(b[0]));
        assert(a.to_set().contains(b[0]));
        let i = choose|i: int| 0 <= i < a.len() && a[i] == b[0];
        let j = choose|j: int| 0 <= j < b.len() && b[j] == a[0];
        if i > 0 {
            assert(text_less(rule_text(a[0]), rule_text(a[i])));
            if j > 0 {
                assert(text_less(rule_text(b[0]), rule_text(b[j])));
                lemma_text_less_transitive(
                    rule_text(a[0]),
                    rule_text(b[0]),
                    rule_text(a[0]),
                );
            }
            lemma_text_less_irreflexive(rule_text(a[0]));
        }
        assert(a[0] == b[0]);
        let at = a.drop_first();
        let bt = b.drop_first();
        lemma_in_order_distinct(a);
        lemma_in_order_distinct(b);
        assert forall|i: int, j: int|
            #![trigger at[i], at[j]]
            0 <= i < j < at.len() implies text_less(rule_text(at[i]), rule_text(at[j])) by {
            assert(at[i] == a[i + 1] && at[j] == a[j + 1]);
        }
        assert forall|i: int, j: int|
            #![trigger bt[i], bt[j]]
            0 <= i < j < bt.len() implies text_less(rule_text(bt[i]), rule_text(bt[j])) by {
            assert(bt[i] == b[i + 1] && bt[j] == b[j + 1]);
        }
        assert forall|r: Rule| at.to_set().contains(r) <==> bt.to_set().contains(r) by {
            lemma_rest_contains(a, r);
            lemma_rest_contains(b, r);
            assert(a.to_set().contains(r) <==> b.to_set().contains(r));
            assert(a.to_set().contains(r) <==> a.contains(r));
            assert(b.to_set().contains(r) <==> b.contains(r));
            assert(at.to_set().contains(r) <==> at.contains(r));
            assert(bt.to_set().contains(r) <==> bt.contains(r));
        }
        assert(at.to_set() =~= bt.to_set());
        lemma_in_order_unique(at, bt);
        assert(a =~= seq![a[0]] + at);
        assert(b =~= seq![b[0]] + bt);
    }
}

proof fn lemma_rest_contains(a: Seq<Rule>, r: Rule)
    requires
        a.len() > 0,
        a.no_duplicates(),
    ensures
        a.drop_first().contains(r) <==> a.contains(r) && r != a[0],
{
    let t = a.drop_first();
    if t.contains(r) {
        let i = choose|i: int| 0 <= i < t.len() && t[i] == r;
        assert(a[i + 1] == r);
    }
    if a.contains(r) && r != a[0] {
        let i = choose|i: int| 0 <= i < a.len() && a[i] == r;
        assert(t[i - 1] == r);
    }
}

/// A list in order is the canonical form of the rules it holds.
proof fn lemma_listed(list: Seq<Rule>)
    requires
        in_order(list),
    ensures
        listed(list.to_set()) == list,
{
    lemma_in_order_unique(listed(list.to_set()), list);
}

proof fn lemma_decimal_ascii(n: nat)
    ensures
        is_ascii_chars(crate::text::decimal(n)),
{
    lemma_decimal_numeral(n);
    assert forall|i: int| 0 <= i < crate::text::decimal(n).len() implies 0 <= #[trigger] (
    crate::text::decimal(n)[i] as int) < 128 by {
        assert(crate::net::is_digit(crate::text::decimal(n)[i]));
    }
}

proof fn lemma_ascii_concat(a: Seq<char>, b: Seq<char>)
    requires
        is_ascii_chars(a),
        is_ascii_chars(b),
    ensures
        is_ascii_chars(a + b),
{
    vstd::utf8::is_ascii_chars_concat(a + b, a, b);
}

/// The text of a rule is plain ASCII.
proof fn lemma_rule_text_ascii(r: Rule)
    ensures
        is_ascii_chars(rule_text(r)),
{
    reveal_strlit("@host");
    reveal_strlit("in ");
    reveal_strlit("out ");
    assert(is_ascii_chars("@host"@));
    assert(is_ascii_chars("in "@));
    assert(is_ascii_chars("out "@));
    let t = r.goal();
    assert(is_ascii_chars(target_text(t))) by {
        if let Target::Prefix(net) = t {
            let bits = net.addr.bits;
            let dot = seq!['.'];
            let slash = seq!['/'];
            let o0 = crate::text::decimal(crate::addr::octet(bits, 0) as nat);
            let o1 = crate::text::decimal(crate::addr::octet(bits, 1) as nat);
            let o2 = crate::text::decimal(crate::addr::octet(bits, 2) as nat);
            let o3 = crate::text::decimal(crate::addr::octet(bits, 3) as nat);
            let len = crate::text::decimal(net.prefix_len as nat);
            lemma_decimal_ascii(crate::addr::octet(bits, 0) as nat);
            lemma_decimal_ascii(crate::addr::octet(bits, 1) as nat);
            lemma_decimal_ascii(crate::addr::octet(bits, 2) as nat);
            lemma_decimal_ascii(crate::addr::octet(bits, 3) as nat);
            lemma_decimal_ascii(net.prefix_len as nat);
            assert(is_ascii_chars(dot));
            assert(is_ascii_chars(slash));
            lemma_ascii_concat(o0, dot);
            lemma_ascii_concat(o0 + dot, o1);
            lemma_ascii_concat(o0 + dot + o1, dot);
            lemma_ascii_concat(o0 + dot + o1 + dot, o2);
            lemma_ascii_concat(o0 + dot + o1 + dot + o2, dot);
            lemma_ascii_concat(o0 + dot + o1 + dot + o2 + dot, o3);
            lemma_ascii_concat(o0 + dot + o1 + dot + o2 + dot + o3, slash);
            lemma_ascii_concat(o0 + dot + o1 + dot + o2 + dot + o3 + slash, len);
        }
    }
    if let Rule::Stateful { direction, target } = r {
        lemma_ascii_concat(direction_text(direction), target_text(target));
    }
}

/// Whether a text comes before another in dictionary order.
fn is_text_less(a: &String, b: &String) -> (r: bool)
    requires
        is_ascii_chars(a@),
        is_ascii_chars(b@),
    ensures
        r == text_less(a@, b@),
{
    broadcast use vstd::string::is_ascii_spec_bytes;

    let s = a.as_str();
    let t = b.as_str();
    let x = s.as_bytes();
    let y = t.as_bytes();
    assert(vstd::string::is_ascii(s));
    assert(vstd::string::is_ascii(t));
    let mut i: usize = 0;
    while i < x.len() && i < y.len() && x[i] == y[i]
        invariant
            i <= x@.len(),
            i <= y@.len(),
            is_ascii_chars(a@),
            is_ascii_chars(b@),
            x@ == Seq::new(a@.len(), |i: int| a@[i] as u8),
            y@ == Seq::new(b@.len(), |i: int| b@[i] as u8),
            forall|j: int| 0 <= j < i ==> a@[j] == b@[j],
        decreases x@.len() - i,
    {
        i = i + 1;
    }
    let r = i < y.len() && (i == x.len() || x[i] < y[i]);
    proof {
        reveal(text_less);
        if r {
            assert(less_at(a@, b@, i as int));
        } else if text_less(a@, b@) {
            let k = choose|k: int| less_at(a@, b@, k);
            if k < i {
                assert(a@[k] == b@[k]);
            }
            if k > i {
                assert(a@[i as int] == b@[i as int]);
            }
            assert(false);
        }
    }
    r
}

/// Whether two rules are the same at every position of two lists.
pub fn same_rules(a: &Vec<Rule>, b: &Vec<Rule>) -> (r: bool)
    ensures
        r == (a@ == b@),
{
    if a.len() != b.len() {
        return false;
    }
    let mut i: usize = 0;
    while i < a.len()
        invariant
            i <= a.len(),
            a.len() == b.len(),
            forall|j: int| 0 <= j < i ==> a@[j] == b@[j],
        decreases a.len() - i,
    {
        if a[i] != b[i] {
            return false;
        }
        i = i + 1;
    }
    assert(a@ =~= b@);
    true
}

/// The place of a text in a list of texts: before it are the smaller ones.
fn place_of(texts: &Vec<String>, text: &String) -> (r: usize)
    requires
        is_ascii_chars(text@),
        forall|i: int| 0 <= i < texts@.len() ==> is_ascii_chars(#[trigger] texts@[i]@),
        forall|i: int, j: int|
            #![trigger texts@[i], texts@[j]]
            0 <= i < j < texts@.len() ==> text_less(texts@[i]@, texts@[j]@),
    ensures
        r <= texts@.len(),
        forall|i: int| 0 <= i < r ==> text_less(#[trigger] texts@[i]@, text@),
        forall|i: int| r <= i < texts@.len() ==> !text_less(#[trigger] texts@[i]@, text@),
{
    let mut lo: usize = 0;
    let mut hi: usize = texts.len();
    while lo < hi
        invariant
            lo <= hi <= texts@.len(),
            is_ascii_chars(text@),
            forall|i: int| 0 <= i < texts@.len() ==> is_ascii_chars(#[trigger] texts@[i]@),
            forall|i: int, j: int|
                #![trigger texts@[i], texts@[j]]
                0 <= i < j < texts@.len() ==> text_less(texts@[i]@, texts@[j]@),
            forall|i: int| 0 <= i < lo ==> text_less(#[trigger] texts@[i]@, text@),
            forall|i: int| hi <= i < texts@.len() ==> !text_less(#[trigger] texts@[i]@, text@),
        decreases hi - lo,
    {
        let mid: usize = lo + (hi - lo) / 2;
        if is_text_less(&texts[mid], text) {
            proof {
                assert forall|i: int| 0 <= i < mid + 1 implies text_less(
                    #[trigger] texts@[i]@,
                    text@,
                ) by {
                    if i < mid {
                        lemma_text_less_transitive(texts@[i]@, texts@[mid as int]@, text@);
                    }
                }
            }
            lo = mid + 1;
        } else {
            proof {
                assert forall|i: int| mid <= i < texts@.len() implies !text_less(
                    #[trigger] texts@[i]@,
                    text@,
                ) by {
                    if i > mid && text_less(texts@[i]@, text@) {
                        lemma_text_less_transitive(texts@[mid as int]@, texts@[i]@, text@);
                    }
                }
            }
            hi = mid;
        }
    }
    lo
}

proof fn lemma_text_total(a: Seq<char>, b: Seq<char>, k: int)
    requires
        a != b,
        0 <= k <= a.len(),
        k <= b.len(),
        forall|i: int| 0 <= i < k ==> a[i] == b[i],
    ensures
        text_less(a, b) || text_less(b, a),
    decreases a.len() - k,
{
    reveal(text_less);
    if k == a.len() {
        if k == b.len() {
            assert(a =~= b);
        }
        assert(less_at(a, b, k));
    } else if k == b.len() {
        assert(less_at(b, a, k));
    } else if a[k] == b[k] {
        lemma_text_total(a, b, k + 1);
    } else if a[k] < b[k] {
        assert(less_at(a, b, k));
    } else {
        assert(less_at(b, a, k));
    }
}

proof fn lemma_push_set(s: Seq<Rule>, r: Rule)
    ensures
        s.push(r).to_set() == s.to_set().insert(r),
{
    let t = s.push(r);
    assert forall|x: Rule| t.to_set().contains(x) <==> s.to_set().insert(r).contains(x) by {
        assert(t.to_set().contains(x) <==> t.contains(x));
        assert(s.to_set().contains(x) <==> s.contains(x));
        if s.contains(x) {
            let i = choose|i: int| 0 <= i < s.len() && s[i] == x;
            assert(t[i] == x);
        }
        if x == r {
            assert(t[s.len() as int] == x);
        }
    }
    assert(t.to_set() =~= s.to_set().insert(r));
}

proof fn lemma_insert_set(s: Seq<Rule>, at: int, r: Rule)
    requires
        0 <= at <= s.len(),
    ensures
        s.insert(at, r).to_set() == s.to_set().insert(r),
{
    let t = s.insert(at, r);
    assert forall|x: Rule| t.to_set().contains(x) <==> s.to_set().insert(r).contains(x) by {
        assert(t.to_set().contains(x) <==> t.contains(x));
        assert(s.to_set().contains(x) <==> s.contains(x));
        if s.contains(x) {
            let i = choose|i: int| 0 <= i < s.len() && s[i] == x;
            if i < at {
                assert(t[i] == x);
            } else {
                assert(t[i + 1] == x);
            }
        }
        if x == r {
            assert(t[at] == x);
        }
        if t.contains(x) && x != r {
            let i = choose|i: int| 0 <= i < t.len() && t[i] == x;
            if i < at {
                assert(s[i] == x);
            } else {
                assert(s[i - 1] == x);
            }
        }
    }
    assert(t.to_set() =~= s.to_set().insert(r));
}

/// A rule put at its place keeps a list in order.
proof fn lemma_insert_in_order(list: Seq<Rule>, at: int, rule: Rule)
    requires
        in_order(list),
        all_wf(list),
        rule.wf(),
        0 <= at <= list.len(),
        forall|i: int|
            0 <= i < at ==> text_less(rule_text(#[trigger] list[i]), rule_text(rule)),
        forall|i: int|
            at <= i < list.len() ==> !text_less(rule_text(#[trigger] list[i]), rule_text(rule)),
        at < list.len() ==> list[at] != rule,
    ensures
        in_order(list.insert(at, rule)),
        all_wf(list.insert(at, rule)),
{
    let t = list.insert(at, rule);
    let text = rule_text(rule);
    assert forall|i: int| at <= i < list.len() implies text_less(
        text,
        rule_text(#[trigger] list[i]),
    ) by {
        if rule_text(list[i]) == text {
            lemma_rule_text_injective(list[i], rule);
            if i > at {
                assert(text_less(rule_text(list[at]), rule_text(list[i])));
                assert(!text_less(rule_text(list[at]), text));
            }
        } else {
            lemma_text_total(rule_text(list[i]), text, 0);
        }
    }
    assert forall|i: int| 0 <= i < t.len() implies t[i] == if i < at {
        list[i]
    } else if i == at {
        rule
    } else {
        list[i - 1]
    } by {}
    assert forall|i: int, j: int|
        #![trigger t[i], t[j]]
        0 <= i < j < t.len() implies text_less(rule_text(t[i]), rule_text(t[j])) by {
        if j < at {
            assert(text_less(rule_text(list[i]), rule_text(list[j])));
        } else if j == at {
            assert(text_less(rule_text(list[i]), text));
        } else if i < at {
            assert(text_less(rule_text(list[i]), rule_text(list[j - 1])));
        } else if i == at {
            assert(text_less(text, rule_text(list[j - 1])));
        } else {
            assert(text_less(rule_text(list[i - 1]), rule_text(list[j - 1])));
        }
    }
}

/// The texts of rules in order are in order, and plain ASCII.
proof fn lemma_texts(list: Seq<Rule>, texts: Seq<String>)
    requires
        in_order(list),
        texts.len() == list.len(),
        forall|i: int| 0 <= i < list.len() ==> (#[trigger] texts[i])@ == rule_text(list[i]),
    ensures
        forall|i: int| 0 <= i < texts.len() ==> is_ascii_chars(#[trigger] texts[i]@),
        forall|i: int, j: int|
            #![trigger texts[i], texts[j]]
            0 <= i < j < texts.len() ==> text_less(texts[i]@, texts[j]@),
{
    assert forall|i: int| 0 <= i < texts.len() implies is_ascii_chars(#[trigger] texts[i]@) by {
        lemma_rule_text_ascii(list[i]);
    }
    assert forall|i: int, j: int|
        #![trigger texts[i], texts[j]]
        0 <= i < j < texts.len() implies text_less(texts[i]@, texts[j]@) by {
        assert(text_less(rule_text(list[i]), rule_text(list[j])));
    }
}

/// Brings rules into their canonical form: no bits set behind the prefixes, in dictionary order,
/// each rule once.
pub fn normalize_rules(rules: &Vec<Rule>) -> (r: Vec<Rule>)
    requires
        all_wf(rules@),
    ensures
        r@ == normal_list(rules@),
        in_order(r@),
        all_wf(r@),
        r@.to_set() == normal_set(rules@),
        r@.len() <= rules@.len(),
{
    let mut list: Vec<Rule> = Vec::new();
    let mut texts: Vec<String> = Vec::new();
    let ghost normals = rules@.map_values(|r: Rule| r.normal());
    let mut n: usize = 0;
    assert(list@.to_set() =~= normals.take(0).to_set());
    while n < rules.len()
        invariant
            n <= rules.len(),
            all_wf(rules@),
            normals == rules@.map_values(|r: Rule| r.normal()),
            list@.len() <= n,
            texts@.len() == list@.len(),
            in_order(list@),
            all_wf(list@),
            forall|i: int| 0 <= i < list@.len() ==> (#[trigger] texts@[i])@ == rule_text(list@[i]),
            list@.to_set() == normals.take(n as int).to_set(),
        decreases rules.len() - n,
    {
        let rule = rules[n].normalized();
        let text = rule.text();
        proof {
            lemma_rule_text_ascii(rule);
            lemma_texts(list@, texts@);
            assert(normals.take(n + 1) =~= normals.take(n as int).push(rule));
            lemma_push_set(normals.take(n as int), rule);
        }
        let at: usize = place_of(&texts, &text);
        if at < list.len() && list[at] == rule {
            proof {
                assert(list@.to_set().contains(list@[at as int]));
                assert(list@.to_set().insert(rule) =~= list@.to_set());
            }
        } else {
            proof {
                assert forall|i: int| 0 <= i < at implies text_less(
                    rule_text(#[trigger] list@[i]),
                    rule_text(rule),
                ) by {
                    assert(text_less(texts@[i]@, text@));
                }
                assert forall|i: int| at <= i < list@.len() implies !text_less(
                    rule_text(#[trigger] list@[i]),
                    rule_text(rule),
                ) by {
                    assert(!text_less(texts@[i]@, text@));
                }
                lemma_insert_in_order(list@, at as int, rule);
                lemma_insert_set(list@, at as int, rule);
            }
            let ghost before = list@;
            let ghost before_texts = texts@;
            list.insert(at, rule);
            texts.insert(at, text);
            proof {
                assert forall|i: int| 0 <= i < list@.len() implies (#[trigger] texts@[i])@
                    == rule_text(list@[i]) by {
                    if i < at {
                        assert(texts@[i] == before_texts[i] && list@[i] == before[i]);
                    } else if i > at {
                        assert(texts@[i] == before_texts[i - 1] && list@[i] == before[i - 1]);
                    }
                }
            }
        }
        n = n + 1;
    }
    proof {
        assert(normals.take(n as int) =~= normals);
        lemma_listed(list@);
    }
    list
}

/// The texts of a list of strings.
pub open spec fn texts_of(list: Seq<String>) -> Seq<Seq<char>> {
    list.map_values(|s: String| s@)
}

/// The texts of a list of rules.
pub open spec fn rule_texts(rules: Seq<Rule>) -> Seq<Seq<char>> {
    rules.map_values(|r: Rule| rule_text(r))
}

/// The text denotes a rule.
pub open spec fn denotes_rule(text: Seq<char>) -> bool {
    exists|r: Rule| is_rule_text(text, r)
}

/// The rule that a text denotes.
pub open spec fn rule_of(text: Seq<char>) -> Rule {
    choose|r: Rule| is_rule_text(text, r)
}

/// The rules that texts denote.
pub open spec fn rules_of(texts: Seq<Seq<char>>) -> Seq<Rule> {
    texts.map_values(|t: Seq<char>| rule_of(t))
}

/// The first text, from a position on, that denotes no rule.
pub open spec fn first_invalid(texts: Seq<Seq<char>>, from: int) -> Option<Seq<char>>
    decreases texts.len() - from,
{
    if from < 0 || from >= texts.len() {
        None
    } else if !denotes_rule(texts[from]) {
        Some(texts[from])
    } else {
        first_invalid(texts, from + 1)
    }
}

/// A text in quotes, with the characters escaped that need it.
pub uninterp spec fn quoted(text: Seq<char>) -> Seq<char>;

/// `<str as Debug>::fmt`: the text in quotes, the same for the same text. How each
/// character is escaped is left unsaid.
#[verifier::external_body]
fn quote(text: &str) -> (r: String)
    ensures
        r@ == quoted(text@),
{
    format!("{text:?}")
}

/// What is said of a text that denotes no rule, given the text in quotes.
pub open spec fn invalid_rule_message(quoted_text: Seq<char>) -> Seq<char> {
    "invalid rule "@ + quoted_text
        + ": expected TARGET, \"in TARGET\", or \"out TARGET\""@
}

/// What is said of a text that denotes no rule.
pub fn invalid_rule_text(quoted_text: &str) -> (r: String)
    ensures
        r@ == invalid_rule_message(quoted_text@),
{
    let mut message = String::from_str("invalid rule ");
    message.append(quoted_text);
    message.append(": expected TARGET, \"in TARGET\", or \"out TARGET\"");
    message
}

/// The rules that texts denote in canonical form, or what is wrong with the first text that
/// denotes none.
pub open spec fn parsed(texts: Seq<Seq<char>>) -> Result<Seq<Rule>, Seq<char>> {
    match first_invalid(texts, 0) {
        Some(text) => Err(invalid_rule_message(quoted(text))),
        None => Ok(normal_list(rules_of(texts))),
    }
}

pub open spec fn rules_result(r: Result<Vec<Rule>, String>) -> Result<Seq<Rule>, Seq<char>> {
    match r {
        Ok(rules) => Ok(rules@),
        Err(message) => Err(message@),
    }
}

/// A rule read from its text is the one that the text denotes.
pub proof fn lemma_rule_of(text: Seq<char>, r: Rule)
    requires
        is_rule_text(text, r),
    ensures
        denotes_rule(text),
        rule_of(text) == r,
{
    lemma_rule_text_unique(text, r, rule_of(text));
}

/// Reads rules from their texts and brings them into canonical form.
pub fn parse_rules(rules: &Vec<String>) -> (r: Result<Vec<Rule>, String>)
    ensures
        rules_result(r) == parsed(texts_of(rules@)),
        r matches Ok(list) ==> all_wf(list@) && in_order(list@) && list@.len() <= rules@.len(),
{
    let ghost texts = texts_of(rules@);
    let mut list: Vec<Rule> = Vec::new();
    let mut i: usize = 0;
    while i < rules.len()
        invariant
            i <= rules.len(),
            texts == texts_of(rules@),
            first_invalid(texts, 0) == first_invalid(texts, i as int),
            all_wf(list@),
            list@ == rules_of(texts.take(i as int)),
        decreases rules.len() - i,
    {
        assert(texts[i as int] == rules@[i as int]@);
        match Rule::parse(rules[i].as_str()) {
            Ok(rule) => {
                proof {
                    lemma_rule_of(texts[i as int], rule);
                    assert(rules_of(texts.take(i + 1)) =~= rules_of(texts.take(i as int)).push(
                        rule,
                    ));
                }
                list.push(rule);
            },
            Err(_) => {
                let quoted_text = quote(rules[i].as_str());
                return Err(invalid_rule_text(quoted_text.as_str()));
            },
        }
        i = i + 1;
    }
    assert(texts.take(i as int) =~= texts);
    Ok(normalize_rules(&list))
}

/// The most rules that a policy may have.
pub const MAX_RULES: usize = 4096;

/// The rules in force, in canonical form.
#[derive(Debug)]
pub struct Policy {
    pub allow: Vec<Rule>,
    pub block: Vec<Rule>,
    pub gateway_ip: Ipv4Address,
}

/// A policy, seen from outside.
#[verifier::ext_equal]
pub struct PolicyView {
    pub allow: Seq<Rule>,
    pub block: Seq<Rule>,
    pub gateway_ip: Ipv4Address,
}

impl View for Policy {
    type V = PolicyView;

    open spec fn view(&self) -> PolicyView {
        PolicyView { allow: self.allow@, block: self.block@, gateway_ip: self.gateway_ip }
    }
}

impl PolicyView {
    pub open spec fn wf(self) -> bool {
        all_wf(self.allow) && all_wf(self.block)
    }

    /// The rules that the policy compiles to.
    pub open spec fn compiled(self) -> RulesView {
        policy_rules(self.gateway_ip, self.allow, self.block)
    }
}

/// A policy that is to replace the one in force, with the rules that it compiles to.
pub struct PolicyUpdate {
    pub rules: Rules,
    pub allow: Vec<Rule>,
    pub block: Vec<Rule>,
}

/// An update, seen from outside.
pub struct PolicyUpdateView {
    pub rules: RulesView,
    pub allow: Seq<Rule>,
    pub block: Seq<Rule>,
}

impl View for PolicyUpdate {
    type V = PolicyUpdateView;

    open spec fn view(&self) -> PolicyUpdateView {
        PolicyUpdateView { rules: self.rules@, allow: self.allow@, block: self.block@ }
    }
}

impl PolicyUpdate {
    pub open spec fn wf(&self) -> bool {
        all_wf(self.allow@) && all_wf(self.block@)
    }
}

/// The update that texts of rules ask for, or what is wrong with them.
pub open spec fn set_outcome(
    policy: PolicyView,
    allow: Seq<Seq<char>>,
    block: Seq<Seq<char>>,
) -> Result<PolicyUpdateView, Seq<char>> {
    if allow.len() + block.len() > MAX_RULES {
        Err("allow and block may contain at most 4096 rules combined"@)
    } else {
        match parsed(allow) {
            Err(message) => Err(message),
            Ok(a) => match parsed(block) {
                Err(message) => Err(message),
                Ok(b) => Ok(
                    PolicyUpdateView {
                        rules: policy_rules(policy.gateway_ip, a, b),
                        allow: a,
                        block: b,
                    },
                ),
            },
        }
    }
}

pub open spec fn update_result(r: Result<PolicyUpdate, String>) -> Result<
    PolicyUpdateView,
    Seq<char>,
> {
    match r {
        Ok(update) => Ok(update@),
        Err(message) => Err(message@),
    }
}

pub open spec fn opt_update_view(u: Option<PolicyUpdate>) -> Option<PolicyUpdateView> {
    match u {
        Some(update) => Some(update@),
        None => None,
    }
}

impl Policy {
    pub fn new(gateway_ip: Ipv4Address, allow: &Vec<Rule>, block: &Vec<Rule>) -> (r: Policy)
        requires
            all_wf(allow@),
            all_wf(block@),
        ensures
            r@ == (PolicyView {
                allow: normal_list(allow@),
                block: normal_list(block@),
                gateway_ip: gateway_ip,
            }),
            r@.wf(),
    {
        Policy { allow: normalize_rules(allow), block: normalize_rules(block), gateway_ip }
    }

    /// Works out the update that texts of rules ask for. Nothing is in force before it is applied.
    pub fn set(&self, allow: &Vec<String>, block: &Vec<String>) -> (r: Result<PolicyUpdate, String>)
        ensures
            update_result(r) == set_outcome(self@, texts_of(allow@), texts_of(block@)),
            r matches Ok(update) ==> update.wf(),
    {
        if allow.len() > MAX_RULES || block.len() > MAX_RULES - allow.len() {
            return Err(
                String::from_str("allow and block may contain at most 4096 rules combined"),
            );
        }
        let allow = match parse_rules(allow) {
            Ok(allow) => allow,
            Err(message) => {
                return Err(message);
            },
        };
        let block = match parse_rules(block) {
            Ok(block) => block,
            Err(message) => {
                return Err(message);
            },
        };
        let rules = Rules::new(self.gateway_ip, allow.as_slice(), block.as_slice());
        Ok(PolicyUpdate { rules, allow, block })
    }

    /// Puts an update in force, and hands out its rules if it changes anything.
    pub fn apply(&mut self, update: PolicyUpdate) -> (r: Option<Rules>)
        ensures
            final(self)@ == (PolicyView {
                allow: update.allow@,
                block: update.block@,
                gateway_ip: old(self).gateway_ip,
            }),
            r == if old(self).allow@ != update.allow@ || old(self).block@ != update.block@ {
                Some(update.rules)
            } else {
                None
            },
    {
        let changed = !same_rules(&self.allow, &update.allow) || !same_rules(
            &self.block,
            &update.block,
        );
        self.allow = update.allow;
        self.block = update.block;
        if changed {
            Some(update.rules)
        } else {
            None
        }
    }
}

proof fn lemma_target_prefix_normal(t: Target, host: Ipv4Address)
    requires
        t.wf(),
    ensures
        target_prefix(t.normal(), host) == target_prefix(t, host),
{
    if let Target::Prefix(net) = t {
        lemma_network_bits_idempotent(net.addr.bits, net.prefix_len);
    }
}

proof fn lemma_normal_list_set(rules: Seq<Rule>, list: Seq<Rule>)
    requires
        list.to_set() == normal_set(rules),
    ensures
        forall|r: Rule| list.contains(r) ==> exists|i: int|
            0 <= i < rules.len() && #[trigger] rules[i].normal() == r,
        forall|i: int| 0 <= i < rules.len() ==> list.contains(#[trigger] rules[i].normal()),
{
    let normals = rules.map_values(|r: Rule| r.normal());
    assert forall|r: Rule| list.contains(r) implies exists|i: int|
        0 <= i < rules.len() && #[trigger] rules[i].normal() == r by {
        assert(list.to_set().contains(r));
        assert(normals.to_set().contains(r));
        let i = choose|i: int| 0 <= i < normals.len() && normals[i] == r;
        assert(rules[i].normal() == r);
    }
    assert forall|i: int| 0 <= i < rules.len() implies list.contains(
        #[trigger] rules[i].normal(),
    ) by {
        assert(normals[i] == rules[i].normal());
        assert(normals.to_set().contains(normals[i]));
        assert(list.to_set().contains(normals[i]));
    }
}

proof fn lemma_normal_covers(
    rules: Seq<Rule>,
    list: Seq<Rule>,
    mode: Mode,
    d: Direction,
    host: Ipv4Address,
    p: (u32, u8),
)
    requires
        all_wf(rules),
        list.to_set() == normal_set(rules),
    ensures
        covers(list, mode, d, host, p) == covers(rules, mode, d, host, p),
{
    lemma_normal_list_set(rules, list);
    if covers(list, mode, d, host, p) {
        let i = choose|i: int|
            0 <= i < list.len() && applies(#[trigger] list[i], mode, d) && target_prefix(
                list[i].goal(),
                host,
            ) == p;
        assert(list.contains(list[i]));
        let j = choose|j: int| 0 <= j < rules.len() && #[trigger] rules[j].normal() == list[i];
        lemma_target_prefix_normal(rules[j].goal(), host);
        assert(applies(rules[j], mode, d));
        assert(target_prefix(rules[j].goal(), host) == p);
    }
    if covers(rules, mode, d, host, p) {
        let i = choose|i: int|
            0 <= i < rules.len() && applies(#[trigger] rules[i], mode, d) && target_prefix(
                rules[i].goal(),
                host,
            ) == p;
        lemma_target_prefix_normal(rules[i].goal(), host);
        assert(list.contains(rules[i].normal()));
        let j = choose|j: int| 0 <= j < list.len() && list[j] == rules[i].normal();
        assert(applies(list[j], mode, d));
        assert(target_prefix(list[j].goal(), host) == p);
    }
}

proof fn lemma_normal_any_stateful(rules: Seq<Rule>, list: Seq<Rule>)
    requires
        list.to_set() == normal_set(rules),
    ensures
        (exists|i: int| 0 <= i < list.len() && #[trigger] list[i] is Stateful) == (exists|i: int|
            0 <= i < rules.len() && #[trigger] rules[i] is Stateful),
{
    lemma_normal_list_set(rules, list);
    if exists|i: int| 0 <= i < list.len() && #[trigger] list[i] is Stateful {
        let i = choose|i: int| 0 <= i < list.len() && #[trigger] list[i] is Stateful;
        assert(list.contains(list[i]));
        let j = choose|j: int| 0 <= j < rules.len() && #[trigger] rules[j].normal() == list[i];
        assert(rules[j] is Stateful);
    }
    if exists|i: int| 0 <= i < rules.len() && #[trigger] rules[i] is Stateful {
        let i = choose|i: int| 0 <= i < rules.len() && #[trigger] rules[i] is Stateful;
        assert(list.contains(rules[i].normal()));
        let j = choose|j: int| 0 <= j < list.len() && list[j] == rules[i].normal();
        assert(list[j] is Stateful);
    }
}

/// Bringing a policy into canonical form does not change what it compiles to.
pub proof fn law_normal_form_keeps_meaning(
    host: Ipv4Address,
    allow: Seq<Rule>,
    block: Seq<Rule>,
    normal_allow: Seq<Rule>,
    normal_block: Seq<Rule>,
)
    requires
        all_wf(allow),
        all_wf(block),
        normal_allow.to_set() == normal_set(allow),
        normal_block.to_set() == normal_set(block),
    ensures
        policy_rules(host, normal_allow, normal_block) == policy_rules(host, allow, block),
{
    lemma_normal_any_stateful(allow, normal_allow);
    lemma_normal_any_stateful(block, normal_block);
    let mode = policy_mode(allow, block);
    assert(policy_mode(normal_allow, normal_block) == mode);
    assert forall|d: Direction| #[trigger]
        policy_entries(mode, host, normal_allow, normal_block, d) == policy_entries(
            mode,
            host,
            allow,
            block,
            d,
        ) by {
        assert forall|p: (u32, u8)|
            #![trigger covers(allow, mode, d, host, p)]
            covers(normal_allow, mode, d, host, p) == covers(allow, mode, d, host, p) by {
            lemma_normal_covers(allow, normal_allow, mode, d, host, p);
        }
        assert forall|p: (u32, u8)|
            #![trigger covers(block, mode, d, host, p)]
            covers(normal_block, mode, d, host, p) == covers(block, mode, d, host, p) by {
            lemma_normal_covers(block, normal_block, mode, d, host, p);
        }
        assert(policy_entries(mode, host, normal_allow, normal_block, d) =~= policy_entries(
            mode,
            host,
            allow,
            block,
            d,
        ));
    }
}

/// Lists of rules that mean the same up to order, repetition and bits behind the prefixes have the
/// same canonical form.
pub proof fn law_normal_form_is_canonical(a: Seq<Rule>, b: Seq<Rule>)
    requires
        normal_set(a) == normal_set(b),
    ensures
        normal_list(a) == normal_list(b),
{
}

/// The canonical form of a canonical form is that form.
pub proof fn law_normal_form_is_stable(rules: Seq<Rule>, list: Seq<Rule>)
    requires
        all_wf(rules),
        in_order(list),
        list.to_set() == normal_set(rules),
    ensures
        normal_list(list) == list,
{
    lemma_normal_list_set(rules, list);
    let again = list.map_values(|r: Rule| r.normal());
    assert forall|i: int| 0 <= i < list.len() implies again[i] == list[i] by {
        assert(list.contains(list[i]));
        let j = choose|j: int| 0 <= j < rules.len() && #[trigger] rules[j].normal() == list[i];
        lemma_normal_idempotent(rules[j]);
    }
    assert(again =~= list);
    lemma_listed(list);
}

/// Reading the texts of a policy gives that policy back.
pub proof fn law_policy_texts_read_back(rules: Seq<Rule>)
    requires
        all_wf(rules),
        in_order(rules),
        normal_list(rules) == rules,
    ensures
        parsed(rule_texts(rules)) == Ok::<Seq<Rule>, Seq<char>>(rules),
{
    let texts = rule_texts(rules);
    assert forall|i: int| 0 <= i < texts.len() implies denotes_rule(#[trigger] texts[i]) && rule_of(
        texts[i],
    ) == rules[i] by {
        crate::proxy::rule::lemma_rule_text_denotes(rules[i]);
        lemma_rule_of(texts[i], rules[i]);
    }
    lemma_none_invalid(texts, 0);
    assert(rules_of(texts) =~= rules);
}

proof fn lemma_none_invalid(texts: Seq<Seq<char>>, from: int)
    requires
        0 <= from <= texts.len(),
        forall|i: int| 0 <= i < texts.len() ==> denotes_rule(#[trigger] texts[i]),
    ensures
        first_invalid(texts, from) is None,
    decreases texts.len() - from,
{
    if from < texts.len() {
        lemma_none_invalid(texts, from + 1);
    }
}

} // verus!
