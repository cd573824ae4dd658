use serde_json::Value;
use softnet::addr::Ipv4Address;
use softnet::proxy::control::{
    overflow_message, Control, ControlAction, Progress, ReadOutcome, WriteOutcome,
    MAX_PENDING_RESPONSE_BYTES, MAX_REQUEST_BYTES, MAX_SERVICE_BYTES,
};
use softnet::proxy::policy::{Policy, MAX_RULES};
use softnet::proxy::rpc::{
    handle_request, policy_result, write_response, RpcId, RpcMember, RpcResponse, RpcValue,
    SetParams, INVALID_PARAMS, INVALID_REQUEST, METHOD_NOT_FOUND, PARSE_ERROR,
};
use softnet::proxy::rule::{Direction, Rule};
use softnet::proxy::rules::{PolicyDecision, Rules};
use std::collections::VecDeque;

/// Reads the parameters of a request that sets the policy.
fn decode(params: Option<String>) -> Option<SetParams> {
    let value: Value = serde_json::from_str(&params?).ok()?;
    let object = value.as_object()?;
    if object.len() != 2 {
        return None;
    }
    let list = |name: &str| -> Option<Vec<String>> {
        let items = object.get(name)?.as_array()?;
        items.iter().map(|item| item.as_str().map(str::to_owned)).collect()
    };
    Some(SetParams { allow: list("allow")?, block: list("block")? })
}

fn json(text: &str) -> Value {
    serde_json::from_str(text).unwrap()
}

fn rules(rules: &[&str]) -> Vec<Rule> {
    rules.iter().map(|rule| Rule::parse(rule).unwrap()).collect()
}

struct TestPolicy {
    state: Policy,
    rules: Rules,
}

impl TestPolicy {
    fn result(&self) -> Vec<u8> {
        result(&self.state, &self.rules)
    }
}

/// What the policy is reported to be.
fn result(policy: &Policy, rules: &Rules) -> Vec<u8> {
    write_response(&RpcResponse {
        id: RpcId::Null,
        result: Ok(policy_result(&policy.allow, &policy.block, rules.len())),
    })
}

fn policy(allow: &[&str], block: &[&str]) -> TestPolicy {
    let gateway_ip = Ipv4Address::new(192, 168, 64, 1);
    let allow = rules(allow);
    let block = rules(block);

    TestPolicy {
        rules: Rules::new(gateway_ip, &allow, &block),
        state: Policy::new(gateway_ip, &allow, &block),
    }
}

fn control() -> Control {
    Control::new(Ipv4Address::new(192, 168, 64, 1), &Vec::new(), &Vec::new())
}

fn request(policy: &mut TestPolicy, text: &str) -> Value {
    raw_request(policy, text.as_bytes())
}

fn raw_request(policy: &mut TestPolicy, line: &[u8]) -> Value {
    let (response, update) = handle_request(&policy.state, &policy.rules, line, &decode);
    if let Some(update) = update {
        if let Some(rules) = policy.state.apply(update) {
            policy.rules = rules;
        }
    }

    serde_json::from_slice(&write_response(&response)).unwrap()
}

/// The other end of a control socket.
struct Peer {
    sent: VecDeque<u8>,
    closed: bool,
    received: Vec<u8>,
    room: usize,
}

impl Peer {
    fn new(room: usize) -> Peer {
        Peer { sent: VecDeque::new(), closed: false, received: Vec::new(), room }
    }

    fn write_all(&mut self, bytes: &[u8]) {
        self.sent.extend(bytes);
    }

    fn accept(&mut self, pending: &[u8]) -> WriteOutcome {
        let n = pending.len().min(self.room - self.received.len());
        if n == 0 {
            return WriteOutcome::Blocked;
        }
        self.received.extend_from_slice(&pending[..n]);
        WriteOutcome::Wrote(n)
    }

    fn hand_out(&mut self) -> ReadOutcome {
        let n = self.sent.len().min(8192);
        if n > 0 {
            ReadOutcome::Bytes(self.sent.drain(..n).collect())
        } else if self.closed {
            ReadOutcome::Eof
        } else {
            ReadOutcome::Blocked
        }
    }

    /// The answers that have arrived, read once.
    fn lines(&mut self) -> Vec<Value> {
        let text = String::from_utf8(std::mem::take(&mut self.received)).unwrap();
        text.lines().map(json).collect()
    }
}

/// Does what the control socket asks for until it asks for nothing more.
fn carry_out(
    control: &mut Control,
    rules: &mut Rules,
    peer: &mut Peer,
    first: ControlAction,
) -> Result<bool, String> {
    let mut action = first;
    loop {
        action = match action {
            ControlAction::Write => {
                let outcome = peer.accept(control.pending());
                control.on_write(outcome, rules, &decode)
            }
            ControlAction::Read => control.on_read(peer.hand_out(), rules, &decode),
            ControlAction::Done { keep_open } => return Ok(keep_open),
            ControlAction::Overflow => return Err(overflow_message()),
        }
    }
}

fn service(control: &mut Control, rules: &mut Rules, peer: &mut Peer) -> Result<bool, String> {
    let first = control.service(rules, &decode);
    carry_out(control, rules, peer, first)
}

#[test]
fn get_reports_initial_policy() {
    let mut policy = policy(&["@host"], &["0.0.0.0/0"]);

    let response = request(
        &mut policy,
        r#"{"jsonrpc": "2.0", "id": 1, "method": "softnet.policy.get", "params": {}}"#,
    );
    assert_eq!(response["result"]["allow"], json(r#"["@host"]"#));
    assert_eq!(response["result"]["block"], json(r#"["0.0.0.0/0"]"#));
    assert_eq!(response["result"]["ruleCount"], 2);
    assert_eq!(response["result"].as_object().unwrap().len(), 3);
}

#[test]
fn set_applies_complete_policy_and_preserves_block_precedence() {
    let mut policy = policy(&[], &[]);

    let response = request(
        &mut policy,
        r#"{
            "jsonrpc": "2.0",
            "id": "set",
            "method": "softnet.policy.set",
            "params": {
                "allow": ["@host", "10.0.0.0/8", "10.0.0.0/8"],
                "block": ["192.168.64.1/32", "10.0.0.0/8"]
            }
        }"#,
    );

    assert_eq!(response["result"]["allow"], json(r#"["10.0.0.0/8", "@host"]"#));
    assert_eq!(
        response["result"]["block"],
        json(r#"["10.0.0.0/8", "192.168.64.1/32"]"#)
    );
    assert_eq!(response["result"]["ruleCount"], 2);

    assert_eq!(
        policy
            .rules
            .policy_decision(Ipv4Address::new(10, 0, 0, 1), Direction::Out),
        Some(PolicyDecision::Block)
    );
    assert_eq!(
        policy
            .rules
            .policy_decision(Ipv4Address::new(192, 168, 64, 1), Direction::Out),
        Some(PolicyDecision::Block)
    );
}

#[test]
fn set_normalizes_rules() {
    let mut policy = policy(&[], &[]);

    let first = request(
        &mut policy,
        r#"{
            "jsonrpc": "2.0",
            "id": 1,
            "method": "softnet.policy.set",
            "params": {"allow": ["@host", "10.1.2.3/8"], "block": []}
        }"#,
    );
    let retry = request(
        &mut policy,
        r#"{
            "jsonrpc": "2.0",
            "id": 2,
            "method": "softnet.policy.set",
            "params": {"allow": ["10.0.0.0/8", "@host", "@host"], "block": []}
        }"#,
    );
    assert_eq!(first["result"], retry["result"]);
    assert_eq!(first["result"]["allow"], json(r#"["10.0.0.0/8", "@host"]"#));
}

#[test]
fn set_supports_directional_rules_and_counts_logical_rules() {
    let mut policy = policy(&[], &[]);

    let response = request(
        &mut policy,
        r#"{
            "jsonrpc": "2.0",
            "id": 1,
            "method": "softnet.policy.set",
            "params": {
                "allow": ["in 10.1.2.3/8", "out 10.0.0.0/8"],
                "block": ["in 10.0.0.0/8"]
            }
        }"#,
    );

    assert_eq!(
        response["result"]["allow"],
        json(r#"["in 10.0.0.0/8", "out 10.0.0.0/8"]"#)
    );
    assert_eq!(response["result"]["block"], json(r#"["in 10.0.0.0/8"]"#));
    assert_eq!(response["result"]["ruleCount"], 2);
    let target = Ipv4Address::new(10, 1, 2, 3);
    assert_eq!(
        policy.rules.policy_decision(target, Direction::In),
        Some(PolicyDecision::Block)
    );
    assert_eq!(
        policy.rules.policy_decision(target, Direction::Out),
        Some(PolicyDecision::AllowStateful)
    );
}

#[test]
fn invalid_rules_and_limits_leave_policy_unchanged() {
    let mut policy = policy(&["@host"], &["0.0.0.0/0"]);
    let before = policy.result();

    let invalid = request(
        &mut policy,
        r#"{
            "jsonrpc": "2.0",
            "id": 1,
            "method": "softnet.policy.set",
            "params": {"allow": ["2001:db8::/32"], "block": []}
        }"#,
    );
    assert_eq!(invalid["error"]["code"], INVALID_PARAMS);
    assert_eq!(policy.result(), before);

    let rules = vec!["\"10.0.0.0/8\""; MAX_RULES + 1].join(",");
    let too_many = request(
        &mut policy,
        &format!(
            r#"{{
                "jsonrpc": "2.0",
                "id": 2,
                "method": "softnet.policy.set",
                "params": {{"allow": [{rules}], "block": []}}
            }}"#
        ),
    );
    assert_eq!(too_many["error"]["code"], INVALID_PARAMS);
    assert_eq!(policy.result(), before);
}

#[test]
fn validates_json_rpc_envelope_method_and_parameters() {
    let mut policy = policy(&[], &[]);

    let parse = raw_request(&mut policy, b"not-json");
    assert_eq!(parse["error"]["code"], PARSE_ERROR);
    assert!(parse["id"].is_null());

    let invalid = request(
        &mut policy,
        r#"{"jsonrpc": "1.0", "id": {}, "method": "softnet.policy.get"}"#,
    );
    assert_eq!(invalid["error"]["code"], INVALID_REQUEST);
    assert!(invalid["id"].is_null());

    let method = request(
        &mut policy,
        r#"{"jsonrpc": "2.0", "id": 1, "method": "softnet.policy.patch"}"#,
    );
    assert_eq!(method["error"]["code"], METHOD_NOT_FOUND);

    let params = request(
        &mut policy,
        r#"{"jsonrpc": "2.0", "id": 2, "method": "softnet.policy.get", "params": {"unexpected": true}}"#,
    );
    assert_eq!(params["error"]["code"], INVALID_PARAMS);

    let before = policy.result();
    let missing = request(
        &mut policy,
        r#"{
            "jsonrpc": "2.0",
            "id": 3,
            "method": "softnet.policy.set",
            "params": {"allow": []}
        }"#,
    );
    assert_eq!(missing["error"]["code"], INVALID_PARAMS);
    assert_eq!(policy.result(), before);

    let missing_id = request(
        &mut policy,
        r#"{
            "jsonrpc": "2.0",
            "method": "softnet.policy.set",
            "params": {"allow": ["@host"], "block": []}
        }"#,
    );
    assert_eq!(missing_id["error"]["code"], INVALID_REQUEST);
    assert!(missing_id["id"].is_null());
    assert_eq!(policy.result(), before);

    let null_id = request(
        &mut policy,
        r#"{
            "jsonrpc": "2.0",
            "id": null,
            "method": "softnet.policy.set",
            "params": {"allow": ["@host"], "block": []}
        }"#,
    );
    assert_eq!(null_id["error"]["code"], INVALID_REQUEST);
    assert!(null_id["id"].is_null());
    assert_eq!(policy.result(), before);

    let negative_id = request(
        &mut policy,
        r#"{"jsonrpc": "2.0", "id": -1, "method": "softnet.policy.get"}"#,
    );
    assert_eq!(negative_id["error"]["code"], INVALID_REQUEST);
    assert!(negative_id["id"].is_null());

    let fractional_id = request(
        &mut policy,
        r#"{"jsonrpc": "2.0", "id": 1.5, "method": "softnet.policy.get"}"#,
    );
    assert_eq!(fractional_id["error"]["code"], INVALID_REQUEST);
    assert!(fractional_id["id"].is_null());

    let oversized_id = request(
        &mut policy,
        &format!(
            r#"{{"jsonrpc": "2.0", "id": "{}", "method": "softnet.policy.get"}}"#,
            "x".repeat(257)
        ),
    );
    assert_eq!(oversized_id["error"]["code"], INVALID_REQUEST);
    assert!(oversized_id["id"].is_null());

    let maximum_id = request(
        &mut policy,
        &format!(
            r#"{{"jsonrpc": "2.0", "id": {}, "method": "softnet.policy.get"}}"#,
            u64::MAX
        ),
    );
    assert_eq!(maximum_id["id"], u64::MAX);
    assert!(maximum_id.get("result").is_some());

    let unexpected_field = request(
        &mut policy,
        r#"{"jsonrpc": "2.0", "id": 4, "method": "softnet.policy.get", "unexpected": true}"#,
    );
    assert_eq!(unexpected_field["error"]["code"], INVALID_REQUEST);
    assert_eq!(unexpected_field["id"], 4);

    let duplicate_field = raw_request(
        &mut policy,
        br#"{"jsonrpc":"2.0","id":6,"method":"softnet.policy.get","method":"softnet.policy.set"}"#,
    );
    assert_eq!(duplicate_field["error"]["code"], INVALID_REQUEST);
    assert_eq!(duplicate_field["id"], 6);

    let unexpected_param = request(
        &mut policy,
        r#"{
            "jsonrpc": "2.0",
            "id": 5,
            "method": "softnet.policy.set",
            "params": {"allow": [], "block": [], "unexpected": true}
        }"#,
    );
    assert_eq!(unexpected_param["error"]["code"], INVALID_PARAMS);
    assert_eq!(policy.result(), before);
}

#[test]
fn newline_delimited_control_socket_handles_multiple_requests_and_eof() {
    let mut client = Peer::new(2048);
    let mut control = control();
    let mut rules = Rules::default();

    client.write_all(
        concat(&[
            "{\"jsonrpc\":\"2.0\",\"id\":1,\"method\":\"softnet.policy.get\"}\n",
            "{\"jsonrpc\":\"2.0\",\"id\":2,\"method\":\"softnet.policy.set\",\"params\":{\"allow\":[\"@host\"],\"block\":[\"0.0.0.0/0\"]}}\n",
        ])
        .as_bytes(),
    );

    assert!(service(&mut control, &mut rules, &mut client).unwrap());
    let lines = client.lines();
    assert_eq!(lines.len(), 2);
    assert_eq!(lines[0]["id"], 1);
    assert_eq!(lines[1]["id"], 2);
    assert_eq!(lines[1]["result"]["allow"], json(r#"["@host"]"#));
    assert_eq!(control.policy.allow, vec![Rule::parse("@host").unwrap()]);

    let before = result(&control.policy, &rules);
    client.closed = true;
    assert!(!service(&mut control, &mut rules, &mut client).unwrap());
    assert_eq!(result(&control.policy, &rules), before);
}

fn concat(parts: &[&str]) -> String {
    parts.concat()
}

#[test]
fn policy_change_detection_uses_normalized_policy() {
    let mut client = Peer::new(4096);
    let mut control = control();
    let mut rules = Rules::default();

    client.write_all(b"{\"jsonrpc\":\"2.0\",\"id\":1,\"method\":\"softnet.policy.set\",\"params\":{\"allow\":[\"out 10.1.2.3/8\"],\"block\":[\"in 10.0.0.0/8\",\"out 10.0.0.0/8\"]}}\n");
    assert!(service(&mut control, &mut rules, &mut client).unwrap());
    assert!(control.policy_changed());

    client.write_all(b"{\"jsonrpc\":\"2.0\",\"id\":2,\"method\":\"softnet.policy.set\",\"params\":{\"allow\":[\"out 10.0.0.0/8\"],\"block\":[\"in 10.0.0.0/8\",\"out 10.0.0.0/8\"]}}\n");
    assert!(service(&mut control, &mut rules, &mut client).unwrap());
    assert!(!control.policy_changed());

    client.write_all(b"{\"jsonrpc\":\"2.0\",\"id\":3,\"method\":\"softnet.policy.set\",\"params\":{\"allow\":[],\"block\":[\"in 10.0.0.0/8\",\"out 10.0.0.0/8\"]}}\n");
    assert!(service(&mut control, &mut rules, &mut client).unwrap());
    assert!(control.policy_changed());
    assert!(control.policy.allow.is_empty());
}

#[test]
fn write_side_eof_flushes_the_final_policy_response() {
    let mut client = Peer::new(1024);
    let mut control = control();
    let mut rules = Rules::default();

    client.write_all(b"{\"jsonrpc\":\"2.0\",\"id\":1,\"method\":\"softnet.policy.set\",\"params\":{\"allow\":[\"10.0.0.0/8\"],\"block\":[]}}\n");
    client.closed = true;

    assert!(!service(&mut control, &mut rules, &mut client).unwrap());

    let response = &client.lines()[0];
    assert_eq!(response["id"], 1);
    assert_eq!(response["result"]["allow"], json(r#"["10.0.0.0/8"]"#));
    assert!(control.output.is_empty());
}

#[test]
fn oversized_frame_is_discarded_and_following_frame_is_processed() {
    let mut client = Peer::new(2048);
    let mut control = control();
    let mut rules = Rules::default();

    control.input = vec![b'x'; MAX_REQUEST_BYTES + 1];
    assert!(service(&mut control, &mut rules, &mut client).unwrap());
    assert!(control.discarding_input);

    control.input.extend_from_slice(
        b"still-too-long\n{\"jsonrpc\":\"2.0\",\"id\":2,\"method\":\"softnet.policy.get\"}\n",
    );
    assert!(service(&mut control, &mut rules, &mut client).unwrap());
    assert!(!control.discarding_input);

    let responses = client.lines();
    assert_eq!(responses.len(), 2);
    assert_eq!(responses[0]["error"]["code"], PARSE_ERROR);
    assert_eq!(responses[1]["id"], 2);
}

#[test]
fn fragmented_frame_does_not_apply_until_the_newline_arrives() {
    let mut client = Peer::new(1024);
    let mut control = control();
    let mut rules = Rules::default();
    let before = result(&control.policy, &rules);

    client.write_all(
        b"{\"jsonrpc\":\"2.0\",\"id\":1,\"method\":\"softnet.policy.set\",\"params\":{\"allow\":[\"@host\"],",
    );
    assert!(service(&mut control, &mut rules, &mut client).unwrap());
    assert_eq!(result(&control.policy, &rules), before);
    assert!(control.output.is_empty());

    client.write_all(b"\"block\":[]}}\n");
    assert!(service(&mut control, &mut rules, &mut client).unwrap());

    let response = &client.lines()[0];
    assert_eq!(response["id"], 1);
    assert_eq!(response["result"]["allow"], json(r#"["@host"]"#));
    assert_eq!(control.policy.allow, vec![Rule::parse("@host").unwrap()]);
}

#[test]
fn response_backpressure_keeps_the_pending_queue_bounded() {
    let mut client = Peer::new(8192);
    let mut control = control();
    let mut rules = Rules::default();
    let response = RpcResponse {
        id: RpcId::Number(1),
        result: Ok(vec![RpcMember {
            name: "x".to_string(),
            value: RpcValue::Texts(vec!["x".repeat(MAX_REQUEST_BYTES)]),
        }]),
    };
    let mut bounded = false;

    for _ in 0..8 {
        if control.enqueue(&response) {
            let flushed = carry_out(&mut control, &mut rules, &mut client, ControlAction::Write);
            assert!(flushed.unwrap());
        } else {
            assert!(overflow_message().contains("control response queue exceeded"));
            bounded = true;
            break;
        }
    }

    assert!(bounded);
    assert!(control.output.len() - control.output_offset <= 4 * MAX_REQUEST_BYTES);
}

#[test]
fn pipelined_policy_responses_stop_before_queue_overflow() {
    let mut client = Peer::new(8192);
    let mut control = control();
    let mut rules = Rules::default();
    let allow = (0..MAX_RULES)
        .map(|index| format!("\"10.{}.{}.0/24\"", index / 256, index % 256))
        .collect::<Vec<_>>()
        .join(",");
    let mut input = format!(
        r#"{{"jsonrpc":"2.0","id":0,"method":"softnet.policy.set","params":{{"allow":[{allow}],"block":[]}}}}"#
    )
    .into_bytes();
    input.push(b'\n');

    for id in 1..=100 {
        input.extend_from_slice(
            format!("{{\"jsonrpc\":\"2.0\",\"id\":{id},\"method\":\"softnet.policy.get\"}}\n")
                .as_bytes(),
        );
    }

    control.input = input;
    assert!(service(&mut control, &mut rules, &mut client).unwrap());
    assert_eq!(rules.len(), MAX_RULES);
    assert!(!control.input.is_empty());
    assert!(!control.output.is_empty());
    assert!(control.output.len() - control.output_offset <= MAX_PENDING_RESPONSE_BYTES);
}

#[test]
fn response_queue_overflow_does_not_apply_a_policy_update() {
    let mut control = control();
    let mut rules = Rules::default();
    let before = result(&control.policy, &rules);

    control.output = vec![b'x'; MAX_PENDING_RESPONSE_BYTES];
    control.input = b"{\"jsonrpc\":\"2.0\",\"id\":1,\"method\":\"softnet.policy.set\",\"params\":{\"allow\":[\"10.0.0.0/8\"],\"block\":[]}}\n".to_vec();

    assert_eq!(control.process_input(&mut rules, &decode), Progress::Overflow);
    assert!(overflow_message().contains("control response queue exceeded"));
    assert_eq!(result(&control.policy, &rules), before);
}

#[test]
fn response_backpressure_stops_consuming_policy_updates() {
    let mut client = Peer::new(8192);
    let mut control = control();
    let mut rules = Rules::default();
    let before = result(&control.policy, &rules);

    control.output = vec![b'x'; MAX_REQUEST_BYTES];
    let flushed = carry_out(&mut control, &mut rules, &mut client, ControlAction::Write);
    assert!(flushed.unwrap());
    assert!(!control.output.is_empty());

    client.write_all(b"{\"jsonrpc\":\"2.0\",\"id\":1,\"method\":\"softnet.policy.set\",\"params\":{\"allow\":[\"10.0.0.0/8\"],\"block\":[]}}\n");

    assert!(service(&mut control, &mut rules, &mut client).unwrap());
    assert_eq!(result(&control.policy, &rules), before);
    assert!(control.input.is_empty());
}

#[test]
fn answers_are_written_as_json() {
    let error = softnet::proxy::rpc::error_response(RpcId::Number(7), PARSE_ERROR, "no");
    assert_eq!(
        String::from_utf8(write_response(&error)).unwrap(),
        r#"{"error":{"code":-32700,"message":"no"},"id":7,"jsonrpc":"2.0"}"#
    );
    let found = RpcResponse {
        id: RpcId::Str("a".to_string()),
        result: Ok(policy_result(&rules(&["@host"]), &rules(&[]), 1)),
    };
    assert_eq!(
        String::from_utf8(write_response(&found)).unwrap(),
        r#"{"id":"a","jsonrpc":"2.0","result":{"allow":["@host"],"block":[],"ruleCount":1}}"#
    );
}

#[test]
fn refusals_say_why() {
    let mut policy = policy(&[], &[]);
    let message = |policy: &mut TestPolicy, text: &str| {
        request(policy, text)["error"]["message"].as_str().unwrap().to_owned()
    };

    assert_eq!(message(&mut policy, "["), "invalid JSON-RPC frame");
    assert_eq!(message(&mut policy, "[]"), "invalid JSON-RPC request");
    assert_eq!(
        message(&mut policy, r#"{"jsonrpc":"2.0","id":1,"method":"other"}"#),
        "method not found"
    );
    assert_eq!(
        message(
            &mut policy,
            r#"{"jsonrpc":"2.0","id":1,"method":"softnet.policy.get","params":[]}"#
        ),
        "softnet.policy.get does not accept parameters"
    );
    assert_eq!(
        message(&mut policy, r#"{"jsonrpc":"2.0","id":1,"method":"softnet.policy.set"}"#),
        "softnet.policy.set requires allow and block"
    );
    assert_eq!(
        message(
            &mut policy,
            r#"{"jsonrpc":"2.0","id":1,"method":"softnet.policy.set","params":{"allow":["a\"b"],"block":[]}}"#
        ),
        "invalid rule \"a\\\"b\": expected TARGET, \"in TARGET\", or \"out TARGET\""
    );
}

#[test]
fn reading_gives_way_after_its_share() {
    let mut control = control();
    let mut rules = Rules::default();
    assert_eq!(control.service(&mut rules, &decode), ControlAction::Read);

    let mut chunks = 0;
    loop {
        chunks += 1;
        // Blanks without a newline make no frame.
        let action =
            control.on_read(ReadOutcome::Bytes(vec![b' '; 8192]), &mut rules, &decode);
        if action != ControlAction::Read {
            assert_eq!(action, ControlAction::Done { keep_open: true });
            break;
        }
    }
    assert_eq!(chunks * 8192, MAX_SERVICE_BYTES);
}

#[test]
fn a_peer_that_is_gone_closes_the_socket() {
    let mut control = control();
    let mut rules = Rules::default();
    let gone = ControlAction::Done { keep_open: false };

    assert_eq!(control.on_read(ReadOutcome::Closed, &mut rules, &decode), gone);
    control.output = vec![1, 2, 3];
    assert_eq!(control.service(&mut rules, &decode), ControlAction::Write);
    assert_eq!(control.on_write(WriteOutcome::Wrote(1), &mut rules, &decode), ControlAction::Write);
    assert_eq!(control.pending(), &[2, 3]);
    assert_eq!(control.on_write(WriteOutcome::Wrote(0), &mut rules, &decode), gone);
    assert_eq!(control.on_write(WriteOutcome::Closed, &mut rules, &decode), gone);
    let waits = ControlAction::Done { keep_open: true };
    assert_eq!(control.on_write(WriteOutcome::Blocked, &mut rules, &decode), waits);
}

/// Appends chunk after chunk to the input and answers what is complete after each. Every write takes
/// all that is pending.
fn feed(control: &mut Control, rules: &mut Rules, chunks: &[&[u8]]) -> Vec<u8> {
    let mut written = Vec::new();
    for chunk in chunks {
        control.input.extend_from_slice(chunk);
        while control.process_input(rules, &decode) == Progress::Flush {
            assert_eq!(control.output_offset, 0);
            written.extend_from_slice(control.pending());
            control.output.clear();
        }
        assert!(control.pending().is_empty());
    }
    written
}

#[test]
fn answers_do_not_depend_on_how_the_stream_is_cut() {
    let mut stream = Vec::new();
    stream.extend_from_slice(
        br#"{"jsonrpc":"2.0","id":1,"method":"softnet.policy.set","params":{"allow":["@host"],"block":[]}}"#,
    );
    stream.push(b'\n');
    stream.resize(stream.len() + MAX_REQUEST_BYTES + 1, b'x');
    stream.push(b'\n');
    stream.extend_from_slice(
        br#"{"jsonrpc":"2.0","id":2,"method":"softnet.policy.get","params":{}}"#,
    );
    stream.push(b'\n');
    stream.extend_from_slice(b"not a request\n");
    stream.extend_from_slice(br#"{"jsonrpc":"2.0","id":3"#);

    let cuts: Vec<Vec<&[u8]>> = vec![
        vec![&stream],
        vec![&stream[..0], &stream[..40], &stream[40..]],
        stream.chunks(4096).collect(),
        stream.chunks(MAX_REQUEST_BYTES).collect(),
        stream.chunks(stream.len() - 30).collect(),
        stream.chunks(MAX_REQUEST_BYTES / 2 + 7).collect(),
    ];
    let mut seen = Vec::new();
    for chunks in &cuts {
        let policy = policy(&[], &[]);
        let mut rules = policy.rules;
        let mut control = control();
        let written = feed(&mut control, &mut rules, chunks);
        assert_eq!(control.input, br#"{"jsonrpc":"2.0","id":3"#);
        assert!(!control.discarding_input);
        let report = result(&control.policy, &rules);
        seen.push((written, report, control.policy_changed()));
    }
    for other in &seen[1..] {
        assert!(*other == seen[0]);
    }

    let text = String::from_utf8(seen[0].0.clone()).unwrap();
    let answers: Vec<Value> = text.lines().map(json).collect();
    assert_eq!(answers.len(), 4);
    assert_eq!(answers[0]["id"], 1);
    assert_eq!(answers[0]["result"]["allow"], json(r#"["@host"]"#));
    assert_eq!(answers[1]["id"], Value::Null);
    assert_eq!(answers[1]["error"]["code"], -32700);
    assert_eq!(answers[2]["id"], 2);
    assert_eq!(answers[2]["result"], answers[0]["result"]);
    assert_eq!(answers[3]["error"]["code"], -32700);
    assert!(seen[0].2);
}

#[test]
fn a_tail_that_is_too_long_is_refused_before_it_ends() {
    let longest = vec![b'x'; MAX_REQUEST_BYTES];
    let mut rules = policy(&[], &[]).rules;

    let mut waiting = control();
    assert!(feed(&mut waiting, &mut rules, &[&longest]).is_empty());
    assert_eq!(waiting.input.len(), MAX_REQUEST_BYTES);
    assert!(!waiting.discarding_input);

    let written = feed(&mut waiting, &mut rules, &[b"x"]);
    assert_eq!(written.iter().filter(|byte| **byte == b'\n').count(), 1);
    assert!(waiting.input.is_empty());
    assert!(waiting.discarding_input);
    assert!(feed(&mut waiting, &mut rules, &[b"xx", b"x\n"]).is_empty());
    assert!(!waiting.discarding_input);
}

#[test]
fn queueing_drops_what_is_written() {
    let mut rules = policy(&[], &[]).rules;
    let mut control = control();
    let answer = RpcResponse { id: RpcId::Null, result: Ok(policy_result(&Vec::new(), &Vec::new(), 0)) };
    assert!(control.enqueue(&answer));
    let line = control.pending().to_vec();
    assert_eq!(control.on_write(WriteOutcome::Wrote(3), &mut rules, &decode), ControlAction::Write);
    assert_eq!(control.output_offset, 3);

    assert!(control.enqueue(&answer));
    assert_eq!(control.output_offset, 0);
    assert_eq!(control.pending(), [&line[3..], &line[..]].concat());
    assert_eq!(control.output, control.pending());
}
