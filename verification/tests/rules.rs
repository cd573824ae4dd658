use softnet::addr::Ipv4Address;
use softnet::net::Cidr;
use softnet::proxy::policy::{invalid_rule_text, normalize_rules, parse_rules, Policy};
use softnet::proxy::rule::{Direction, Rule, Target};
use softnet::proxy::rules::{Action, Mode, PolicyDecision, Rules};
use softnet::proxy::udp_packet_helper::DNS_PORT;
use softnet::wire::UdpPacket;

fn host() -> Ipv4Address {
    Ipv4Address::new(192, 168, 64, 1)
}

fn rule(text: &str) -> Rule {
    Rule::parse(text).unwrap()
}

fn stateful_rules() -> Rules {
    Rules { mode: Mode::Stateful, ..Rules::default() }
}

#[test]
fn parses_stateless_target() {
    assert_eq!(rule("@host"), Rule::Stateless(Target::Host));
}

#[test]
fn parses_stateful_directions() {
    let private_network = Target::Prefix(Cidr::parse("10.0.0.0/8").unwrap());

    assert_eq!(
        rule("in   @host"),
        Rule::Stateful {
            direction: Direction::In,
            target: Target::Host,
        }
    );
    assert_eq!(
        rule("out 10.0.0.0/8"),
        Rule::Stateful {
            direction: Direction::Out,
            target: private_network,
        }
    );
}

#[test]
fn displays_normalized_rules() {
    assert_eq!(rule("in 10.1.2.3/8").normalized().text(), "in 10.0.0.0/8");
    assert_eq!(rule("@host").normalized().text(), "@host");
}

#[test]
fn rejects_invalid_rules() {
    for input in [
        "",
        "from @host",
        "in",
        "out",
        "in from @host",
        "out to @host",
        "infrom @host",
        " in @host",
        "in @host ",
        "in\t@host",
    ] {
        assert!(Rule::parse(input).is_err(), "{input:?} should fail");
    }
}

#[test]
fn test_policy_precedence() {
    let target = Ipv4Address::new(10, 0, 0, 1);
    let mut rules = stateful_rules();

    rules.insert(rule("0.0.0.0/0"), Action::Block, host());
    rules.insert(rule("in 10.0.0.0/8"), Action::Allow, host());

    assert_eq!(
        rules.policy_decision(target, Direction::In),
        Some(PolicyDecision::AllowStateful)
    );
    assert_eq!(
        rules.policy_decision(target, Direction::Out),
        Some(PolicyDecision::Block)
    );

    rules.insert(rule("10.0.0.1/32"), Action::Allow, host());
    assert_eq!(
        rules.policy_decision(target, Direction::Out),
        Some(PolicyDecision::AllowStateful)
    );
}

#[test]
fn test_directional_rules_at_same_prefix_are_independent() {
    let mut rules = stateful_rules();

    for (target, action) in [
        ("in @host", Action::Allow),
        ("out @host", Action::Allow),
        ("in @host", Action::Block),
    ] {
        rules.insert(rule(target), action, host());
    }

    assert_eq!(
        rules.policy_decision(host(), Direction::In),
        Some(PolicyDecision::Block)
    );
    assert_eq!(
        rules.policy_decision(host(), Direction::Out),
        Some(PolicyDecision::AllowStateful)
    );
    assert_eq!(rules.len(), 2);
}

#[test]
fn test_stateless_rules_are_outbound_only() {
    let target = Ipv4Address::new(10, 1, 2, 3);
    let mut rules = Rules::default();

    rules.insert(rule("10.0.0.0/8"), Action::Block, host());

    assert!(rules.policy_decision(target, Direction::In).is_none());
    assert_eq!(
        rules.policy_decision(target, Direction::Out),
        Some(PolicyDecision::Block)
    );
}

#[test]
fn test_inbound_selection_uses_more_specific_bare_rule() {
    let target = Ipv4Address::new(10, 1, 2, 3);
    let mut rules = stateful_rules();

    rules.insert(rule("10.1.0.0/16"), Action::Allow, host());
    rules.insert(rule("in 10.0.0.0/8"), Action::Block, host());

    assert_eq!(
        rules.policy_decision(target, Direction::In),
        Some(PolicyDecision::AllowStateful)
    );
}

#[test]
fn test_block_wins_over_allow_at_same_outbound_prefix() {
    let target = Ipv4Address::new(10, 1, 2, 3);

    for (allow, block) in [
        ("10.0.0.0/8", "out 10.0.0.0/8"),
        ("out 10.0.0.0/8", "10.0.0.0/8"),
    ] {
        let mut rules = stateful_rules();
        rules.insert(rule(allow), Action::Allow, host());
        rules.insert(rule(block), Action::Block, host());

        assert_eq!(
            rules.policy_decision(target, Direction::Out),
            Some(PolicyDecision::Block)
        );
    }
}

#[test]
fn test_directional_rule_makes_bare_rules_stateful() {
    let rules = Rules::new(host(), &[rule("out @host")], &[rule("0.0.0.0/0")]);

    assert_eq!(rules.len(), 3);
    assert!(rules.has_stateful());
    assert_eq!(
        rules.policy_decision(host(), Direction::In),
        Some(PolicyDecision::Block)
    );
    assert_eq!(
        rules.policy_decision(host(), Direction::Out),
        Some(PolicyDecision::AllowStateful)
    );
}

#[test]
fn test_return_tracking_applies_to_all_rules_in_stateful_mode() {
    let stateful_target = Ipv4Address::new(10, 1, 2, 3);
    let stateless_target = Ipv4Address::new(192, 0, 2, 1);
    let mut rules = stateful_rules();

    rules.insert(rule("0.0.0.0/0"), Action::Block, host());
    rules.insert(rule("out 10.0.0.0/8"), Action::Block, host());

    assert!(rules.is_stateful(stateful_target, Direction::Out));
    assert!(rules.is_stateful(stateless_target, Direction::Out));
    assert!(rules.is_stateful(stateful_target, Direction::In));

    rules.insert(rule("10.0.0.0/8"), Action::Allow, host());
    assert!(rules.is_stateful(stateful_target, Direction::Out));
}

fn datagram(src_port: u16, dst_port: u16) -> UdpPacket<'static> {
    UdpPacket { src_port, dst_port, payload: &[] }
}

#[test]
fn test_is_dhcp_request_requires_both_standard_ports() {
    assert!(datagram(68, 67).is_dhcp_request());
    assert!(!datagram(68, 9999).is_dhcp_request());
    assert!(!datagram(9999, 67).is_dhcp_request());
}

#[test]
fn test_is_dhcp_response_requires_both_standard_ports() {
    assert!(datagram(67, 68).is_dhcp_response());
    assert!(!datagram(67, 9999).is_dhcp_response());
    assert!(!datagram(9999, 68).is_dhcp_response());
}

#[test]
fn name_requests_go_to_their_port() {
    assert_eq!(DNS_PORT, 53);
    assert!(datagram(40000, 53).is_dns_request());
    assert!(!datagram(53, 40000).is_dns_request());
}

#[test]
fn networks_are_read_and_written() {
    let net = Cidr::parse("10.1.2.3/8").unwrap();
    assert_eq!(net.addr, Ipv4Address::new(10, 1, 2, 3));
    assert_eq!(net.prefix_len, 8);
    assert_eq!(net.text(), "10.1.2.3/8");
    assert_eq!(net.trunc().text(), "10.0.0.0/8");
    assert_eq!(Cidr::parse("255.255.255.255/32").unwrap().trunc().text(), "255.255.255.255/32");
    assert_eq!(Cidr::parse("203.0.113.77/0").unwrap().trunc().text(), "0.0.0.0/0");
    assert_eq!(Cidr::parse("203.0.113.77/25").unwrap().trunc().text(), "203.0.113.0/25");
    assert_eq!(Cidr::host(host()).text(), "192.168.64.1/32");

    for text in ["", "10.0.0.0", "10.0.0.0/33", "10.0.0/8", "10.0.0.0/8 ", "256.0.0.0/8", "::/0"] {
        assert_eq!(Cidr::parse(text).unwrap_err(), "invalid IP address syntax", "{text:?}");
    }
}

#[test]
fn rules_are_written_as_they_are_read() {
    for text in ["@host", "0.0.0.0/0", "in @host", "out 10.1.2.3/8", "in 192.168.64.0/24"] {
        assert_eq!(rule(text).text(), text);
        assert_eq!(rule(&rule(text).text()), rule(text));
    }
    assert_eq!(Rule::parse("nonsense").unwrap_err(), "invalid IP address syntax");
    assert_eq!(rule("out 10.1.2.3/8").target(), Target::parse("10.1.2.3/8").unwrap());
}

#[test]
fn policies_are_brought_into_a_normal_form() {
    let texts = |rules: &Vec<Rule>| rules.iter().map(|r| r.text()).collect::<Vec<_>>();
    let given = vec![
        rule("out @host"),
        rule("10.9.9.9/8"),
        rule("@host"),
        rule("10.0.0.0/8"),
        rule("in 10.1.2.3/8"),
    ];
    let normal = normalize_rules(&given);
    assert_eq!(texts(&normal), ["10.0.0.0/8", "@host", "in 10.0.0.0/8", "out @host"]);
    assert_eq!(normalize_rules(&normal), normal);

    let parsed = parse_rules(&vec!["@host".to_string(), "@host".to_string()]).unwrap();
    assert_eq!(parsed, vec![rule("@host")]);
    assert_eq!(
        parse_rules(&vec!["@host".to_string(), "no\n".to_string()]).unwrap_err(),
        "invalid rule \"no\\n\": expected TARGET, \"in TARGET\", or \"out TARGET\""
    );
    assert_eq!(
        invalid_rule_text("X"),
        "invalid rule X: expected TARGET, \"in TARGET\", or \"out TARGET\""
    );
}

#[test]
fn policy_updates_take_effect_as_a_whole() {
    let mut policy = Policy::new(host(), &Vec::new(), &Vec::new());
    let allow = vec!["10.1.2.3/8".to_string()];
    let block = vec!["in @host".to_string()];

    let update = policy.set(&allow, &block).unwrap();
    let rules = policy.apply(update).unwrap();
    assert_eq!(policy.allow, vec![rule("10.0.0.0/8")]);
    assert_eq!(policy.block, vec![rule("in @host")]);
    assert_eq!(rules.len(), 3);
    assert!(rules.has_stateful());

    // The same policy in other words is no change.
    let update = policy.set(&vec!["10.0.0.0/8".to_string()], &block).unwrap();
    assert!(policy.apply(update).is_none());
}

#[test]
fn the_longest_prefix_decides() {
    let allow = [rule("10.0.0.0/8"), rule("10.1.2.0/24")];
    let block = [rule("10.1.0.0/16"), rule("10.1.2.0/24")];
    let rules = Rules::new(host(), &allow, &block);
    let decide = |a, b, c, d| rules.policy_decision(Ipv4Address::new(a, b, c, d), Direction::Out);

    assert_eq!(decide(10, 2, 0, 1), Some(PolicyDecision::AllowStateless));
    assert_eq!(decide(10, 1, 0, 1), Some(PolicyDecision::Block));
    assert_eq!(decide(10, 1, 2, 3), Some(PolicyDecision::Block));
    assert_eq!(decide(11, 0, 0, 1), None);
    assert_eq!(rules.len(), 3);
    assert_eq!(rules.select(Ipv4Address::new(10, 2, 0, 1), Direction::Out), Some(Action::Allow));
}
