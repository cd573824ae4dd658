//! Requests about the policy, and the answers to them.

use crate::proxy::policy::{set_outcome, PolicyView};
use crate::proxy::rpc::{
    accepted, answered, call_of, decodes, json_document, json_params, json_request, line_answered,
    member_named, no_params, opt_params_view, opt_text, reply_id, valid_identifier, CallView,
    JsonDocView, JsonKindView, RpcIdView, RpcRequestView, RpcResponseView, RpcValueView, SetParams,
    SetParamsView,
};
use crate::proxy::rule::{rule_text, Rule};
use vstd::prelude::*;
use vstd::utf8::encode_utf8;

verus! {

/// The answer says what is wrong.
pub open spec fn complains(r: RpcResponseView, id: RpcIdView, code: int, message: Seq<char>) -> bool {
    r.id == id && (r.result matches Err(e) && e.code == code && e.message == message)
}

/// The answer tells the rules, as texts in the order of the lists, and their number.
pub open spec fn tells(
    r: RpcResponseView,
    id: RpcIdView,
    allow: Seq<Rule>,
    block: Seq<Rule>,
    count: usize,
) -> bool {
    &&& r.id == id
    &&& r.result matches Ok(members)
    &&& members.len() == 3
    &&& members[0].name == "allow"@
    &&& members[1].name == "block"@
    &&& members[2].name == "ruleCount"@
    &&& members[0].value matches RpcValueView::Texts(a)
    &&& members[1].value matches RpcValueView::Texts(b)
    &&& members[2].value == RpcValueView::Count(count)
    &&& a.len() == allow.len()
    &&& b.len() == block.len()
    &&& forall|i: int| 0 <= i < a.len() ==> #[trigger] a[i] == rule_text(allow[i])
    &&& forall|i: int| 0 <= i < b.len() ==> #[trigger] b[i] == rule_text(block[i])
}

/// The identifier can be given back: a number, or a text of no more than 256 bytes.
pub open spec fn is_usable(id: RpcIdView) -> bool {
    match id {
        RpcIdView::Null => false,
        RpcIdView::Number(_) => true,
        RpcIdView::Str(s) => encode_utf8(s).len() <= 256,
    }
}

/// The document is an object in which nothing stands that a request does not have.
pub open spec fn has_only_request_members(doc: JsonDocView) -> bool {
    doc matches JsonDocView::Object(members) && forall|i: int|
        0 <= i < members.len() ==> {
            let name = #[trigger] members[i].0;
            name == "jsonrpc"@ || name == "id"@ || name == "method"@ || name == "params"@
        }
}

/// What is no JSON is answered with a parse error that names no request.
pub proof fn law_broken_json_is_a_parse_error(request: Option<RpcRequestView>)
    ensures
        accepted(None, request) matches Err(r) && complains(
            r,
            RpcIdView::Null,
            -32700,
            "invalid JSON-RPC frame"@,
        ),
{
}

/// A document is taken as a request exactly if it is one, has no members that a request does not
/// have, and its identifier can be given back; else it is answered as an invalid request.
pub proof fn law_requests_are_taken_strictly(doc: JsonDocView, request: Option<RpcRequestView>)
    ensures
        ({
            let good = request matches Some(q) && is_usable(q.id) && has_only_request_members(doc);
            &&& good ==> (accepted(Some(doc), request) matches Ok(q) && Some(q) == request)
            &&& !good ==> (accepted(Some(doc), request) matches Err(r) && complains(
                r,
                reply_id(doc),
                -32600,
                "invalid JSON-RPC request"@,
            ))
        }),
{
    if let JsonDocView::Object(members) = doc {
        if crate::proxy::rpc::strict_envelope(doc) {
            assert forall|i: int| 0 <= i < members.len() implies {
                let name = #[trigger] members[i].0;
                name == "jsonrpc"@ || name == "id"@ || name == "method"@ || name == "params"@
            } by {
                assert(crate::proxy::rpc::envelope_name(members[i].0));
            }
        }
        if has_only_request_members(doc) {
            assert forall|i: int| 0 <= i < members.len() implies crate::proxy::rpc::envelope_name(
                #[trigger] members[i].0,
            ) by {}
        }
    }
}

/// A number and a text of no more than 256 bytes can be given back.
pub proof fn law_identifiers_are_numbers_or_short_texts(id: RpcIdView)
    ensures
        valid_identifier(id) == is_usable(id),
{
}

proof fn lemma_first_named(members: Seq<(Seq<char>, JsonKindView)>, name: Seq<char>, at: int)
    requires
        0 <= at < members.len(),
        members[at].0 == name,
        forall|i: int| 0 <= i < at ==> (#[trigger] members[i]).0 != name,
    ensures
        member_named(members, name) == Some(members[at].1),
    decreases members.len(),
{
    if at > 0 {
        assert(members[0].0 != name);
        let rest = members.drop_first();
        assert(rest[at - 1] == members[at]);
        assert forall|i: int| 0 <= i < at - 1 implies (#[trigger] rest[i]).0 != name by {
            assert(rest[i] == members[i + 1]);
        }
        lemma_first_named(rest, name, at - 1);
    }
}

proof fn lemma_none_named(members: Seq<(Seq<char>, JsonKindView)>, name: Seq<char>)
    requires
        forall|i: int| 0 <= i < members.len() ==> (#[trigger] members[i]).0 != name,
    ensures
        member_named(members, name) is None,
    decreases members.len(),
{
    if members.len() > 0 {
        assert(members[0].0 != name);
        let rest = members.drop_first();
        assert forall|i: int| 0 <= i < rest.len() implies (#[trigger] rest[i]).0 != name by {
            assert(rest[i] == members[i + 1]);
        }
        lemma_none_named(rest, name);
    }
}

/// What is answered as an invalid request is given its identifier back, where that is a whole number
/// that is not negative or a text of no more than 256 bytes.
pub proof fn law_identifiers_are_given_back(members: Seq<(Seq<char>, JsonKindView)>, at: int)
    requires
        0 <= at < members.len(),
        members[at].0 == "id"@,
        forall|i: int| 0 <= i < at ==> (#[trigger] members[i]).0 != "id"@,
    ensures
        reply_id(JsonDocView::Object(members)) == match members[at].1 {
            JsonKindView::Text(s) => if encode_utf8(s).len() <= 256 {
                RpcIdView::Str(s)
            } else {
                RpcIdView::Null
            },
            JsonKindView::Number(Some(n)) => RpcIdView::Number(n),
            JsonKindView::Number(None) => RpcIdView::Null,
            JsonKindView::Other => RpcIdView::Null,
        },
{
    lemma_first_named(members, "id"@, at);
}

/// What has no identifier is answered without one.
pub proof fn law_answers_without_identifier(doc: JsonDocView)
    requires
        doc matches JsonDocView::Object(members) ==> forall|i: int|
            0 <= i < members.len() ==> (#[trigger] members[i]).0 != "id"@,
    ensures
        reply_id(doc) is Null,
{
    if let JsonDocView::Object(members) = doc {
        lemma_none_named(members, "id"@);
    }
}

/// Two methods are known, `softnet.policy.get` and `softnet.policy.set`. The first takes no
/// parameters: they may be absent, null or an empty object.
pub proof fn law_two_methods_are_known(request: RpcRequestView, set: Option<SetParamsView>)
    ensures
        request.method == "softnet.policy.get"@ ==> (call_of(request, set)
            matches CallView::GetPolicy { empty_params } && (empty_params <==> (json_params(
            request.params,
        ) matches Some(JsonDocView::Null) || (json_params(request.params) matches Some(
            JsonDocView::Object(members),
        ) && members.len() == 0)))),
        request.method == "softnet.policy.set"@ ==> call_of(request, set) == CallView::SetPolicy(
            set,
        ),
        request.method != "softnet.policy.get"@ && request.method != "softnet.policy.set"@
            ==> call_of(request, set) is Unknown,
{
    reveal_strlit("softnet.policy.get");
    reveal_strlit("softnet.policy.set");
    assert("softnet.policy.get"@[15] != "softnet.policy.set"@[15]);
}

/// A request to be told the policy is answered with its rules and with their number as compiled. A
/// request to set it is answered with what is set, and what is set goes along. Everything else
/// is answered with what is wrong, and nothing goes along. The answer carries the identifier of
/// the request.
pub proof fn law_calls_are_answered(
    policy: PolicyView,
    count: usize,
    id: RpcIdView,
    call: CallView,
)
    ensures
        ({
            let a = answered(policy, count, id, call);
            match call {
                CallView::GetPolicy { empty_params } => {
                    &&& a.update is None
                    &&& empty_params ==> tells(a.response, id, policy.allow, policy.block, count)
                    &&& !empty_params ==> complains(
                        a.response,
                        id,
                        -32602,
                        "softnet.policy.get does not accept parameters"@,
                    )
                },
                CallView::SetPolicy(None) => a.update is None && complains(
                    a.response,
                    id,
                    -32602,
                    "softnet.policy.set requires allow and block"@,
                ),
                CallView::SetPolicy(Some(params)) => match set_outcome(
                    policy,
                    params.allow,
                    params.block,
                ) {
                    Ok(update) => a.update == Some(update) && tells(
                        a.response,
                        id,
                        update.allow,
                        update.block,
                        update.rules.count(),
                    ),
                    Err(message) => a.update is None && complains(a.response, id, -32602, message),
                },
                CallView::Unknown => a.update is None && complains(
                    a.response,
                    id,
                    -32601,
                    "method not found"@,
                ),
            }
        }),
{
}

/// A line is answered as the request in it, and one that holds none with what is wrong with it.
pub proof fn law_lines_are_answered_as_requests(
    policy: PolicyView,
    count: usize,
    line: Seq<u8>,
    set: Option<SetParamsView>,
)
    ensures
        ({
            let a = line_answered(policy, count, line, set);
            match accepted(json_document(line), json_request(line)) {
                Ok(request) => a == answered(policy, count, request.id, call_of(request, set)),
                Err(response) => a.response == response && a.update is None,
            }
        }),
{
}

/// The parameters of a request to set the policy are read from that request: what is set is what is
/// made of them.
pub proof fn law_what_is_set_comes_from_the_request<F: Fn(Option<String>) -> Option<SetParams>>(
    decode: F,
    line: Seq<u8>,
    set: Option<SetParamsView>,
    request: RpcRequestView,
)
    requires
        decodes(decode, line, set),
        accepted(json_document(line), json_request(line)) == Ok::<_, RpcResponseView>(request),
        request.method == "softnet.policy.set"@,
    ensures
        exists|params: Option<String>, out: Option<SetParams>|
            opt_text(params) == request.params && #[trigger] call_ensures(decode, (params,), out)
                && opt_params_view(out) == set,
{
}

/// Parameters that hold a list, an object with members, a text or a number are not absent.
pub proof fn law_only_empty_parameters_are_none(doc: Option<JsonDocView>)
    ensures
        no_params(doc) <==> (doc matches Some(JsonDocView::Null) || (doc matches Some(
            JsonDocView::Object(members),
        ) && members.len() == 0)),
{
}

} // verus!
