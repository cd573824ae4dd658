//! JSON-RPC requests about the policy, and the answers to them.

use crate::proxy::policy::{
    opt_update_view, rule_texts, set_outcome, texts_of, Policy, PolicyUpdate, PolicyUpdateView,
    PolicyView,
};
use crate::proxy::rule::{rule_text, Rule};
use crate::proxy::rules::{all_wf, Rules};
use crate::text::same_text;
use jsonrpsee_types::{ErrorObjectOwned, Id, Params, Request, Response, ResponsePayload};
use serde_json::Value;
use vstd::prelude::*;

verus! {

pub const PARSE_ERROR: i32 = -32700;

pub const INVALID_REQUEST: i32 = -32600;

pub const METHOD_NOT_FOUND: i32 = -32601;

pub const INVALID_PARAMS: i32 = -32602;

/// The longest text that is taken as the identifier of a request.
pub const MAX_IDENTIFIER_BYTES: usize = 256;

/// The identifier of a request.
#[derive(Debug)]
pub enum RpcId {
    Null,
    Number(u64),
    Str(String),
}

pub enum RpcIdView {
    Null,
    Number(u64),
    Str(Seq<char>),
}

impl View for RpcId {
    type V = RpcIdView;

    open spec fn view(&self) -> RpcIdView {
        match *self {
            RpcId::Null => RpcIdView::Null,
            RpcId::Number(n) => RpcIdView::Number(n),
            RpcId::Str(s) => RpcIdView::Str(s@),
        }
    }
}

/// What is wrong with a request.
#[derive(Debug)]
pub struct RpcError {
    pub code: i32,
    pub message: String,
}

pub struct RpcErrorView {
    pub code: i32,
    pub message: Seq<char>,
}

impl View for RpcError {
    type V = RpcErrorView;

    open spec fn view(&self) -> RpcErrorView {
        RpcErrorView { code: self.code, message: self.message@ }
    }
}

/// A value in a result.
#[derive(Debug)]
pub enum RpcValue {
    Texts(Vec<String>),
    Count(usize),
}

pub enum RpcValueView {
    Texts(Seq<Seq<char>>),
    Count(usize),
}

impl View for RpcValue {
    type V = RpcValueView;

    open spec fn view(&self) -> RpcValueView {
        match *self {
            RpcValue::Texts(texts) => RpcValueView::Texts(texts_of(texts@)),
            RpcValue::Count(n) => RpcValueView::Count(n),
        }
    }
}

/// A member of a result: its name and its value.
#[derive(Debug)]
pub struct RpcMember {
    pub name: String,
    pub value: RpcValue,
}

pub struct RpcMemberView {
    pub name: Seq<char>,
    pub value: RpcValueView,
}

impl View for RpcMember {
    type V = RpcMemberView;

    open spec fn view(&self) -> RpcMemberView {
        RpcMemberView { name: self.name@, value: self.value@ }
    }
}

pub open spec fn members_view(members: Seq<RpcMember>) -> Seq<RpcMemberView> {
    members.map_values(|m: RpcMember| m@)
}

pub open spec fn result_view(r: Result<Vec<RpcMember>, RpcError>) -> Result<
    Seq<RpcMemberView>,
    RpcErrorView,
> {
    match r {
        Ok(members) => Ok(members_view(members@)),
        Err(e) => Err(e@),
    }
}

/// The answer to a request.
#[derive(Debug)]
pub struct RpcResponse {
    pub id: RpcId,
    pub result: Result<Vec<RpcMember>, RpcError>,
}

pub struct RpcResponseView {
    pub id: RpcIdView,
    pub result: Result<Seq<RpcMemberView>, RpcErrorView>,
}

impl View for RpcResponse {
    type V = RpcResponseView;

    open spec fn view(&self) -> RpcResponseView {
        RpcResponseView { id: self.id@, result: result_view(self.result) }
    }
}

/// A value in a JSON document, as far as it matters.
#[derive(Debug)]
pub enum JsonKind {
    Text(String),
    /// A number, and its value if it is an integer that is not negative and fits.
    Number(Option<u64>),
    Other,
}

pub enum JsonKindView {
    Text(Seq<char>),
    Number(Option<u64>),
    Other,
}

impl View for JsonKind {
    type V = JsonKindView;

    open spec fn view(&self) -> JsonKindView {
        match *self {
            JsonKind::Text(s) => JsonKindView::Text(s@),
            JsonKind::Number(n) => JsonKindView::Number(n),
            JsonKind::Other => JsonKindView::Other,
        }
    }
}

/// A JSON document, as far as it matters.
#[derive(Debug)]
pub enum JsonDoc {
    Null,
    Object(Vec<(String, JsonKind)>),
    Other,
}

pub enum JsonDocView {
    Null,
    Object(Seq<(Seq<char>, JsonKindView)>),
    Other,
}

impl View for JsonDoc {
    type V = JsonDocView;

    open spec fn view(&self) -> JsonDocView {
        match *self {
            JsonDoc::Null => JsonDocView::Null,
            JsonDoc::Object(members) => JsonDocView::Object(
                members@.map_values(|m: (String, JsonKind)| (m.0@, m.1@)),
            ),
            JsonDoc::Other => JsonDocView::Other,
        }
    }
}

pub open spec fn opt_doc_view(d: Option<JsonDoc>) -> Option<JsonDocView> {
    match d {
        Some(d) => Some(d@),
        None => None,
    }
}

/// A request.
#[derive(Debug)]
pub struct RpcRequest {
    pub id: RpcId,
    pub method: String,
    /// The parameters as they were written, if there are any.
    pub params: Option<String>,
}

pub struct RpcRequestView {
    pub id: RpcIdView,
    pub method: Seq<char>,
    pub params: Option<Seq<char>>,
}

pub open spec fn opt_text(s: Option<String>) -> Option<Seq<char>> {
    match s {
        Some(s) => Some(s@),
        None => None,
    }
}

impl View for RpcRequest {
    type V = RpcRequestView;

    open spec fn view(&self) -> RpcRequestView {
        RpcRequestView { id: self.id@, method: self.method@, params: opt_text(self.params) }
    }
}

pub open spec fn opt_request_view(r: Option<RpcRequest>) -> Option<RpcRequestView> {
    match r {
        Some(r) => Some(r@),
        None => None,
    }
}

/// The document that bytes hold, if they hold one.
pub uninterp spec fn json_document(bytes: Seq<u8>) -> Option<JsonDocView>;

/// The JSON-RPC request that bytes hold, if they hold one.
pub uninterp spec fn json_request(bytes: Seq<u8>) -> Option<RpcRequestView>;

/// The document that parameters hold, if they hold one.
pub uninterp spec fn json_params(params: Option<Seq<char>>) -> Option<JsonDocView>;

/// The bytes of an answer with a result.
pub uninterp spec fn json_result(id: RpcIdView, members: Seq<RpcMemberView>) -> Seq<u8>;

/// The bytes of an answer with an error.
pub uninterp spec fn json_error(id: RpcIdView, error: RpcErrorView) -> Seq<u8>;

/// The bytes of an answer.
pub open spec fn json_response(response: RpcResponseView) -> Seq<u8> {
    match response.result {
        Ok(members) => json_result(response.id, members),
        Err(error) => json_error(response.id, error),
    }
}

/// `serde_json::from_slice` to a `serde_json::Value`: what is read depends on the bytes alone.
#[verifier::external_body]
fn read_document(bytes: &[u8]) -> (r: Option<JsonDoc>)
    ensures
        opt_doc_view(r) == json_document(bytes@),
{
    let kind = |v| match v {
        Value::String(s) => JsonKind::Text(s),
        Value::Number(n) => JsonKind::Number(n.as_u64()),
        _ => JsonKind::Other,
    };
    Some(match serde_json::from_slice::<Value>(bytes).ok()? {
        Value::Null => JsonDoc::Null,
        Value::Object(o) => JsonDoc::Object(o.into_iter().map(|(k, v)| (k, kind(v))).collect()),
        _ => JsonDoc::Other,
    })
}

/// `serde_json::from_slice` to a `jsonrpsee_types::Request`, and the request's accessors: what
/// is read depends on the bytes alone.
#[verifier::external_body]
fn read_request(bytes: &[u8]) -> (r: Option<RpcRequest>)
    ensures
        opt_request_view(r) == json_request(bytes@),
{
    let request = serde_json::from_slice::<Request>(bytes).ok()?;
    let id = match request.id() {
        Id::Null => RpcId::Null,
        Id::Number(n) => RpcId::Number(n),
        Id::Str(s) => RpcId::Str(s.into_owned()),
    };
    let method = request.method_name().to_owned();
    let params = request.params().as_str().map(|p| p.to_owned());
    Some(RpcRequest { id, method, params })
}

/// `jsonrpsee_types::Params::parse` to a `serde_json::Value`: what is read depends on the
/// parameters alone.
#[verifier::external_body]
fn read_params(params: &Option<String>) -> (r: Option<JsonDoc>)
    ensures
        opt_doc_view(r) == json_params(opt_text(*params)),
{
    let kind = |v| match v {
        Value::String(s) => JsonKind::Text(s),
        Value::Number(n) => JsonKind::Number(n.as_u64()),
        _ => JsonKind::Other,
    };
    Some(match Params::new(params.as_deref()).parse::<Value>().ok()? {
        Value::Null => JsonDoc::Null,
        Value::Object(o) => JsonDoc::Object(o.into_iter().map(|(k, v)| (k, kind(v))).collect()),
        _ => JsonDoc::Other,
    })
}

/// `serde_json::to_value` on a `jsonrpsee_types::Response` with a `ResponsePayload::success`, and
/// `serde_json::to_vec` on what it gives: the bytes depend on the answer alone.
#[verifier::external_body]
fn write_result(id: &RpcId, members: &Vec<RpcMember>) -> (r: Vec<u8>)
    ensures
        r@ == json_result(id@, members_view(members@)),
{
    let value = |m: &RpcMember| match &m.value {
        RpcValue::Texts(t) => Value::from(t.clone()),
        RpcValue::Count(n) => Value::from(*n),
    };
    let object: Value = members.iter().map(|m| (m.name.clone(), value(m))).collect();
    let id = match id {
        RpcId::Null => Id::Null,
        RpcId::Number(n) => Id::Number(*n),
        RpcId::Str(s) => Id::Str(s.into()),
    };
    let response = Response::new(ResponsePayload::success(object), id);
    serde_json::to_vec(&serde_json::to_value(response).unwrap()).unwrap()
}

/// `serde_json::to_value` on a `jsonrpsee_types::Response` with a `ResponsePayload::error`, and
/// `serde_json::to_vec` on what it gives: the bytes depend on the answer alone.
#[verifier::external_body]
fn write_error(id: &RpcId, error: &RpcError) -> (r: Vec<u8>)
    ensures
        r@ == json_error(id@, error@),
{
    let object = ErrorObjectOwned::owned(error.code, &error.message, None::<()>);
    let id = match id {
        RpcId::Null => Id::Null,
        RpcId::Number(n) => Id::Number(*n),
        RpcId::Str(s) => Id::Str(s.into()),
    };
    let response = Response::<Value>::new(ResponsePayload::error(object), id);
    serde_json::to_vec(&serde_json::to_value(response).unwrap()).unwrap()
}

/// Writes an answer.
pub fn write_response(response: &RpcResponse) -> (r: Vec<u8>)
    ensures
        r@ == json_response(response@),
{
    match &response.result {
        Ok(members) => write_result(&response.id, members),
        Err(error) => write_error(&response.id, error),
    }
}

/// An identifier that is not too long.
pub open spec fn short_identifier(text: Seq<char>) -> bool {
    vstd::utf8::encode_utf8(text).len() <= MAX_IDENTIFIER_BYTES
}

fn is_short(text: &String) -> (r: bool)
    ensures
        r == short_identifier(text@),
{
    text.as_str().as_bytes().len() <= MAX_IDENTIFIER_BYTES
}

/// The first member of an object with a name.
pub open spec fn member_named(
    members: Seq<(Seq<char>, JsonKindView)>,
    name: Seq<char>,
) -> Option<JsonKindView>
    decreases members.len(),
{
    if members.len() == 0 {
        None
    } else if members[0].0 == name {
        Some(members[0].1)
    } else {
        member_named(members.drop_first(), name)
    }
}

/// The identifier that an answer to a document carries: its own, if it has one that can be
/// given back.
pub open spec fn reply_id(doc: JsonDocView) -> RpcIdView {
    match doc {
        JsonDocView::Object(members) => match member_named(members, "id"@) {
            Some(JsonKindView::Text(s)) => if short_identifier(s) {
                RpcIdView::Str(s)
            } else {
                RpcIdView::Null
            },
            Some(JsonKindView::Number(Some(n))) => RpcIdView::Number(n),
            _ => RpcIdView::Null,
        },
        _ => RpcIdView::Null,
    }
}

pub open spec fn envelope_name(name: Seq<char>) -> bool {
    name == "jsonrpc"@ || name == "id"@ || name == "method"@ || name == "params"@
}

/// The document is an object with no other members than a request has.
pub open spec fn strict_envelope(doc: JsonDocView) -> bool {
    doc matches JsonDocView::Object(members) && forall|i: int|
        0 <= i < members.len() ==> envelope_name(#[trigger] members[i].0)
}

/// The identifier can be given back.
pub open spec fn valid_identifier(id: RpcIdView) -> bool {
    match id {
        RpcIdView::Null => false,
        RpcIdView::Number(_) => true,
        RpcIdView::Str(s) => short_identifier(s),
    }
}

/// An answer that says what is wrong.
pub open spec fn failure(id: RpcIdView, code: i32, message: Seq<char>) -> RpcResponseView {
    RpcResponseView { id: id, result: Err(RpcErrorView { code: code, message: message }) }
}

/// The request to be answered, or the answer to what is not one.
pub open spec fn accepted(
    doc: Option<JsonDocView>,
    request: Option<RpcRequestView>,
) -> Result<RpcRequestView, RpcResponseView> {
    match doc {
        None => Err(failure(RpcIdView::Null, PARSE_ERROR, "invalid JSON-RPC frame"@)),
        Some(doc) => match request {
            Some(request) => if strict_envelope(doc) && valid_identifier(request.id) {
                Ok(request)
            } else {
                Err(failure(reply_id(doc), INVALID_REQUEST, "invalid JSON-RPC request"@))
            },
            None => Err(failure(reply_id(doc), INVALID_REQUEST, "invalid JSON-RPC request"@)),
        },
    }
}

pub open spec fn accepted_view(r: Result<RpcRequest, RpcResponse>) -> Result<
    RpcRequestView,
    RpcResponseView,
> {
    match r {
        Ok(request) => Ok(request@),
        Err(response) => Err(response@),
    }
}

/// The names and values in the result of a request.
pub open spec fn policy_members(
    allow: Seq<Rule>,
    block: Seq<Rule>,
    rule_count: usize,
) -> Seq<RpcMemberView> {
    seq![
        RpcMemberView { name: "allow"@, value: RpcValueView::Texts(rule_texts(allow)) },
        RpcMemberView { name: "block"@, value: RpcValueView::Texts(rule_texts(block)) },
        RpcMemberView { name: "ruleCount"@, value: RpcValueView::Count(rule_count) },
    ]
}

/// The parameters of a request to set the policy.
#[derive(Debug)]
pub struct SetParams {
    pub allow: Vec<String>,
    pub block: Vec<String>,
}

pub struct SetParamsView {
    pub allow: Seq<Seq<char>>,
    pub block: Seq<Seq<char>>,
}

impl View for SetParams {
    type V = SetParamsView;

    open spec fn view(&self) -> SetParamsView {
        SetParamsView { allow: texts_of(self.allow@), block: texts_of(self.block@) }
    }
}

pub open spec fn opt_params_view(p: Option<SetParams>) -> Option<SetParamsView> {
    match p {
        Some(p) => Some(p@),
        None => None,
    }
}

/// What a request asks for.
pub enum Call {
    /// To be told the policy, which takes no parameters.
    GetPolicy { empty_params: bool },
    /// To set the policy, if the parameters could be made out.
    SetPolicy(Option<SetParams>),
    Unknown,
}

pub enum CallView {
    GetPolicy { empty_params: bool },
    SetPolicy(Option<SetParamsView>),
    Unknown,
}

impl View for Call {
    type V = CallView;

    open spec fn view(&self) -> CallView {
        match *self {
            Call::GetPolicy { empty_params } => CallView::GetPolicy { empty_params: empty_params },
            Call::SetPolicy(params) => CallView::SetPolicy(opt_params_view(params)),
            Call::Unknown => CallView::Unknown,
        }
    }
}

/// An answer, and the update of the policy that goes with it.
pub struct AnswerView {
    pub response: RpcResponseView,
    pub update: Option<PolicyUpdateView>,
}

/// The answer to a call under a policy that compiles to `rule_count` prefixes.
pub open spec fn answered(
    policy: PolicyView,
    rule_count: usize,
    id: RpcIdView,
    call: CallView,
) -> AnswerView {
    match call {
        CallView::GetPolicy { empty_params } => AnswerView {
            response: if empty_params {
                RpcResponseView {
                    id: id,
                    result: Ok(policy_members(policy.allow, policy.block, rule_count)),
                }
            } else {
                failure(id, INVALID_PARAMS, "softnet.policy.get does not accept parameters"@)
            },
            update: None,
        },
        CallView::SetPolicy(None) => AnswerView {
            response: failure(
                id,
                INVALID_PARAMS,
                "softnet.policy.set requires allow and block"@,
            ),
            update: None,
        },
        CallView::SetPolicy(Some(params)) => match set_outcome(policy, params.allow, params.block) {
            Ok(update) => AnswerView {
                response: RpcResponseView {
                    id: id,
                    result: Ok(policy_members(update.allow, update.block, update.rules.count())),
                },
                update: Some(update),
            },
            Err(message) => AnswerView {
                response: failure(id, INVALID_PARAMS, message),
                update: None,
            },
        },
        CallView::Unknown => AnswerView {
            response: failure(id, METHOD_NOT_FOUND, "method not found"@),
            update: None,
        },
    }
}

/// The parameters are absent, null or an empty object.
pub open spec fn no_params(doc: Option<JsonDocView>) -> bool {
    match doc {
        Some(JsonDocView::Null) => true,
        Some(JsonDocView::Object(members)) => members.len() == 0,
        _ => false,
    }
}

/// What a request asks for, `set` being what its parameters hold if it asks to set the policy.
pub open spec fn call_of(request: RpcRequestView, set: Option<SetParamsView>) -> CallView {
    if request.method == "softnet.policy.get"@ {
        CallView::GetPolicy { empty_params: no_params(json_params(request.params)) }
    } else if request.method == "softnet.policy.set"@ {
        CallView::SetPolicy(set)
    } else {
        CallView::Unknown
    }
}

/// The answer to a line, `set` being what its parameters hold if it asks to set the policy.
pub open spec fn line_answered(
    policy: PolicyView,
    rule_count: usize,
    line: Seq<u8>,
    set: Option<SetParamsView>,
) -> AnswerView {
    match accepted(json_document(line), json_request(line)) {
        Err(response) => AnswerView { response: response, update: None },
        Ok(request) => answered(policy, rule_count, request.id, call_of(request, set)),
    }
}

/// The parameters that a line's answer depends on: those of a request to set the policy.
pub open spec fn set_params_of(line: Seq<u8>) -> Option<Option<Seq<char>>> {
    match accepted(json_document(line), json_request(line)) {
        Ok(request) => if request.method == "softnet.policy.set"@ {
            Some(request.params)
        } else {
            None
        },
        Err(_) => None,
    }
}

/// `set` is what `decode` has made of the parameters that a line's answer depends on; it may be
/// anything where the answer depends on none.
pub open spec fn decodes<F: Fn(Option<String>) -> Option<SetParams>>(
    decode: F,
    line: Seq<u8>,
    set: Option<SetParamsView>,
) -> bool {
    set_params_of(line) matches Some(p) ==> exists|params: Option<String>, out: Option<SetParams>|
        opt_text(params) == p && #[trigger] call_ensures(decode, (params,), out)
            && opt_params_view(out) == set
}

/// An answer that says what is wrong.
pub fn error_response(id: RpcId, code: i32, message: &str) -> (r: RpcResponse)
    ensures
        r@ == failure(id@, code, message@),
{
    RpcResponse { id, result: Err(RpcError { code, message: String::from_str(message) }) }
}

fn find_member<'a>(members: &'a Vec<(String, JsonKind)>, name: &str) -> (r: Option<&'a JsonKind>)
    ensures
        match r {
            Some(kind) => member_named(
                members@.map_values(|m: (String, JsonKind)| (m.0@, m.1@)),
                name@,
            ) == Some(kind@),
            None => member_named(
                members@.map_values(|m: (String, JsonKind)| (m.0@, m.1@)),
                name@,
            ) is None,
        },
{
    let ghost all = members@.map_values(|m: (String, JsonKind)| (m.0@, m.1@));
    let mut i: usize = 0;
    assert(all.skip(0) =~= all);
    while i < members.len()
        invariant
            i <= members.len(),
            all == members@.map_values(|m: (String, JsonKind)| (m.0@, m.1@)),
            member_named(all, name@) == member_named(all.skip(i as int), name@),
        decreases members.len() - i,
    {
        proof {
            assert(all.skip(i as int)[0] == all[i as int]);
            assert(all.skip(i as int).drop_first() =~= all.skip(i + 1));
        }
        if same_text(members[i].0.as_str(), name) {
            return Some(&members[i].1);
        }
        i = i + 1;
    }
    None
}

/// The identifier that an answer to a document carries.
pub fn response_id(doc: &JsonDoc) -> (r: RpcId)
    ensures
        r@ == reply_id(doc@),
{
    match doc {
        JsonDoc::Object(members) => match find_member(members, "id") {
            Some(JsonKind::Text(text)) => if is_short(text) {
                RpcId::Str(text.clone())
            } else {
                RpcId::Null
            },
            Some(JsonKind::Number(Some(n))) => RpcId::Number(*n),
            _ => RpcId::Null,
        },
        _ => RpcId::Null,
    }
}

/// Whether a document is an object with no other members than a request has.
pub fn is_strict_envelope(doc: &JsonDoc) -> (r: bool)
    ensures
        r == strict_envelope(doc@),
{
    match doc {
        JsonDoc::Object(members) => {
            let ghost all = members@.map_values(|m: (String, JsonKind)| (m.0@, m.1@));
            let mut i: usize = 0;
            while i < members.len()
                invariant
                    i <= members.len(),
                    all == members@.map_values(|m: (String, JsonKind)| (m.0@, m.1@)),
                    doc@ == JsonDocView::Object(all),
                    forall|j: int| 0 <= j < i ==> envelope_name(#[trigger] all[j].0),
                decreases members.len() - i,
            {
                let name = members[i].0.as_str();
                assert(all[i as int].0 == name@);
                if !same_text(name, "jsonrpc") && !same_text(name, "id") && !same_text(
                    name,
                    "method",
                ) && !same_text(name, "params") {
                    proof {
                        let listed = doc@->Object_0;
                        assert(listed[i as int].0 == name@);
                        assert(!envelope_name(listed[i as int].0));
                    }
                    return false;
                }
                i = i + 1;
            }
            true
        },
        _ => false,
    }
}

/// Whether an identifier can be given back.
pub fn valid_id(id: &RpcId) -> (r: bool)
    ensures
        r == valid_identifier(id@),
{
    match id {
        RpcId::Null => false,
        RpcId::Number(_) => true,
        RpcId::Str(text) => is_short(text),
    }
}

/// Whether parameters are absent, null or an empty object.
pub fn empty_params(doc: &Option<JsonDoc>) -> (r: bool)
    ensures
        r == no_params(opt_doc_view(*doc)),
{
    match doc {
        Some(JsonDoc::Null) => true,
        Some(JsonDoc::Object(members)) => members.len() == 0,
        _ => false,
    }
}

/// Finds the request in a document that was read once as a document and once as a request.
pub fn accept(doc: &Option<JsonDoc>, request: Option<RpcRequest>) -> (r: Result<
    RpcRequest,
    RpcResponse,
>)
    ensures
        accepted_view(r) == accepted(opt_doc_view(*doc), opt_request_view(request)),
{
    let doc = match doc {
        Some(doc) => doc,
        None => {
            return Err(error_response(RpcId::Null, PARSE_ERROR, "invalid JSON-RPC frame"));
        },
    };
    match request {
        Some(request) => if is_strict_envelope(doc) && valid_id(&request.id) {
            Ok(request)
        } else {
            Err(error_response(response_id(doc), INVALID_REQUEST, "invalid JSON-RPC request"))
        },
        None => Err(error_response(response_id(doc), INVALID_REQUEST, "invalid JSON-RPC request")),
    }
}

fn texts(rules: &Vec<Rule>) -> (r: Vec<String>)
    requires
        all_wf(rules@),
    ensures
        texts_of(r@) == rule_texts(rules@),
{
    let mut list: Vec<String> = Vec::new();
    let mut i: usize = 0;
    while i < rules.len()
        invariant
            i <= rules.len(),
            all_wf(rules@),
            list@.len() == i,
            forall|j: int| 0 <= j < i ==> (#[trigger] list@[j])@ == rule_text(rules@[j]),
        decreases rules.len() - i,
    {
        list.push(rules[i].text());
        i = i + 1;
    }
    assert(texts_of(list@) =~= rule_texts(rules@));
    list
}

/// The names and values in the result of a request.
pub fn policy_result(allow: &Vec<Rule>, block: &Vec<Rule>, rule_count: usize) -> (r: Vec<RpcMember>)
    requires
        all_wf(allow@),
        all_wf(block@),
    ensures
        members_view(r@) == policy_members(allow@, block@, rule_count),
{
    let mut members: Vec<RpcMember> = Vec::new();
    members.push(
        RpcMember { name: String::from_str("allow"), value: RpcValue::Texts(texts(allow)) },
    );
    members.push(
        RpcMember { name: String::from_str("block"), value: RpcValue::Texts(texts(block)) },
    );
    members.push(
        RpcMember { name: String::from_str("ruleCount"), value: RpcValue::Count(rule_count) },
    );
    assert(members_view(members@) =~= policy_members(allow@, block@, rule_count));
    members
}

/// Answers a call. A policy that is to be set comes along, to be put in force by the caller.
pub fn answer(policy: &Policy, rule_count: usize, id: RpcId, call: Call) -> (r: (
    RpcResponse,
    Option<PolicyUpdate>,
))
    requires
        policy@.wf(),
    ensures
        (AnswerView { response: r.0@, update: opt_update_view(r.1) }) == answered(
            policy@,
            rule_count,
            id@,
            call@,
        ),
        r.1 matches Some(update) ==> update.wf(),
{
    match call {
        Call::GetPolicy { empty_params } => if empty_params {
            let members = policy_result(&policy.allow, &policy.block, rule_count);
            (RpcResponse { id, result: Ok(members) }, None)
        } else {
            (error_response(id, INVALID_PARAMS, "softnet.policy.get does not accept parameters"), None)
        },
        Call::SetPolicy(None) => (
            error_response(id, INVALID_PARAMS, "softnet.policy.set requires allow and block"),
            None,
        ),
        Call::SetPolicy(Some(params)) => match policy.set(&params.allow, &params.block) {
            Ok(update) => {
                let members = policy_result(&update.allow, &update.block, update.rules.len());
                (RpcResponse { id, result: Ok(members) }, Some(update))
            },
            Err(message) => (
                RpcResponse { id, result: Err(RpcError { code: INVALID_PARAMS, message }) },
                None,
            ),
        },
        Call::Unknown => (error_response(id, METHOD_NOT_FOUND, "method not found"), None),
    }
}

/// Answers a line. `decode` makes out the parameters of a request to set the policy.
pub fn handle_request<F: Fn(Option<String>) -> Option<SetParams>>(
    policy: &Policy,
    rules: &Rules,
    line: &[u8],
    decode: &F,
) -> (r: (RpcResponse, Option<PolicyUpdate>))
    requires
        policy@.wf(),
        forall|params: Option<String>| #[trigger] call_requires(*decode, (params,)),
    ensures
        exists|set: Option<SetParamsView>| #[trigger]
            decodes(*decode, line@, set) && (AnswerView {
                response: r.0@,
                update: opt_update_view(r.1),
            }) == line_answered(policy@, rules@.count(), line@, set),
        r.1 matches Some(update) ==> update.wf(),
{
    let doc = read_document(line);
    let request = match accept(&doc, read_request(line)) {
        Ok(request) => request,
        Err(response) => {
            assert(decodes(*decode, line@, None));
            return (response, None);
        },
    };
    if same_text(request.method.as_str(), "softnet.policy.get") {
        let params = read_params(&request.params);
        let no_params = empty_params(&params);
        proof {
            reveal_strlit("softnet.policy.get");
            reveal_strlit("softnet.policy.set");
            assert("softnet.policy.get"@[15] != "softnet.policy.set"@[15]);
            assert(decodes(*decode, line@, None));
        }
        answer(policy, rules.len(), request.id, Call::GetPolicy { empty_params: no_params })
    } else if same_text(request.method.as_str(), "softnet.policy.set") {
        let ghost params = request.params;
        let set = decode(request.params);
        assert(call_ensures(*decode, (params,), set));
        assert(decodes(*decode, line@, opt_params_view(set)));
        answer(policy, rules.len(), request.id, Call::SetPolicy(set))
    } else {
        assert(decodes(*decode, line@, None));
        answer(policy, rules.len(), request.id, Call::Unknown)
    }
}

} // verus!
