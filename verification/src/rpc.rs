//! The JSON-RPC layer: envelope parsing, method dispatch, response encoding,
//! and the one entry point the message-submit endpoint calls. A submitted
//! call is answered asynchronously: its response is enqueued onto the
//! session's channel, and the submitter only learns whether the session
//! exists.

use vstd::prelude::*;
use vstd::pervasive::unreached;
use vstd::string::StringExecFns;
use crate::json::{
    jtext, lemma_obj_lookup_absent, lemma_obj_lookup_at_first_index, str_eq, render, Json,
};
use crate::session::{
    enqueue_effect, first_session_idx, has_session, SessionRegistry,
};
use crate::storage::AppState;
use crate::tools::{
    handle_tools_call, is_str_json, jlookup, str_of, tool_call_post,
};

verus! {

// ── Envelope model ───────────────────────────────────────────────

/// A parsed JSON-RPC envelope. A missing (or null) identifier marks a
/// notification, which is never answered.
pub struct RpcRequest {
    pub id: Option<Json>,
    pub method: String,
    pub params: Json,
}

/// The body a request is submitted with does not parse as an envelope.
#[derive(Debug)]
pub struct ParseError;

/// One of a result or an error; never both.
pub enum RpcBody {
    Success(Json),
    Failure(i64, String),
}

/// A response: echoes the request identifier and carries exactly one body.
pub struct RpcResponse {
    pub id: Json,
    pub body: RpcBody,
}

impl RpcResponse {
    pub fn success(id: Json, result: Json) -> (r: RpcResponse)
        ensures
            r.id == id,
            r.body == RpcBody::Success(result),
    {
        RpcResponse { id, body: RpcBody::Success(result) }
    }

    pub fn error(id: Json, code: i64, message: String) -> (r: RpcResponse)
        ensures
            r.id == id,
            r.body == RpcBody::Failure(code, message),
    {
        RpcResponse { id, body: RpcBody::Failure(code, message) }
    }
}

/// A submitted body is a valid envelope when it is an object whose
/// `jsonrpc` and `method` members are strings.
pub open spec fn envelope_ok(body: Json) -> bool {
    &&& body is Obj
    &&& jlookup(body, "jsonrpc"@) matches Some(v) && v is Str
    &&& jlookup(body, "method"@) matches Some(w) && w is Str
}

/// The envelope's method name.
pub open spec fn env_method(body: Json) -> Seq<char> {
    str_of(jlookup(body, "method"@))
}

/// The envelope's identifier: nothing when absent or null (a notification).
pub open spec fn env_id(body: Json) -> Option<Json> {
    match jlookup(body, "id"@) {
        None => None,
        Some(v) => if v is Null {
            None
        } else {
            Some(v)
        },
    }
}

/// The envelope's parameters; null when absent.
pub open spec fn env_params(body: Json) -> Json {
    match jlookup(body, "params"@) {
        Some(p) => p,
        None => Json::Null,
    }
}

/// Parses a submitted body as a JSON-RPC envelope; succeeds exactly on valid
/// envelopes, and hands back the method, identifier and parameters as the
/// body carried them.
pub fn parse_request(body: Json) -> (r: Result<RpcRequest, ParseError>)
    ensures
        match r {
            Ok(req) => envelope_ok(body) && req.method@ == env_method(body) && req.id == env_id(
                body,
            ) && req.params == env_params(body),
            Err(_) => !envelope_ok(body),
        },
{
    let es = match body {
        Json::Obj(es) => es,
        _ => {
            return Err(ParseError);
        },
    };
    let mut i_rpc: Option<usize> = None;
    let mut i_id: Option<usize> = None;
    let mut i_method: Option<usize> = None;
    let mut i_params: Option<usize> = None;
    let mut k: usize = 0;
    while k < es.len()
        invariant
            k <= es.len(),
            match i_rpc {
                Some(ix) => ix < k && es@[ix as int].0@ == "jsonrpc"@ && forall|j: int|
                    0 <= j < ix ==> es@[j].0@ != "jsonrpc"@,
                None => forall|j: int| 0 <= j < k ==> es@[j].0@ != "jsonrpc"@,
            },
            match i_id {
                Some(ix) => ix < k && es@[ix as int].0@ == "id"@ && forall|j: int|
                    0 <= j < ix ==> es@[j].0@ != "id"@,
                None => forall|j: int| 0 <= j < k ==> es@[j].0@ != "id"@,
            },
            match i_method {
                Some(ix) => ix < k && es@[ix as int].0@ == "method"@ && forall|j: int|
                    0 <= j < ix ==> es@[j].0@ != "method"@,
                None => forall|j: int| 0 <= j < k ==> es@[j].0@ != "method"@,
            },
            match i_params {
                Some(ix) => ix < k && es@[ix as int].0@ == "params"@ && forall|j: int|
                    0 <= j < ix ==> es@[j].0@ != "params"@,
                None => forall|j: int| 0 <= j < k ==> es@[j].0@ != "params"@,
            },
        decreases es.len() - k,
    {
        if i_rpc.is_none() && str_eq(es[k].0.as_str(), "jsonrpc") {
            i_rpc = Some(k);
        }
        if i_id.is_none() && str_eq(es[k].0.as_str(), "id") {
            i_id = Some(k);
        }
        if i_method.is_none() && str_eq(es[k].0.as_str(), "method") {
            i_method = Some(k);
        }
        if i_params.is_none() && str_eq(es[k].0.as_str(), "params") {
            i_params = Some(k);
        }
        k = k + 1;
    }
    let ir = match i_rpc {
        Some(ix) => ix,
        None => {
            proof {
                lemma_obj_lookup_absent(es@, "jsonrpc"@);
            }
            return Err(ParseError);
        },
    };
    proof {
        lemma_obj_lookup_at_first_index(es@, "jsonrpc"@, ir as int);
    }
    match &es[ir].1 {
        Json::Str(_) => {},
        _ => {
            return Err(ParseError);
        },
    }
    let im = match i_method {
        Some(ix) => ix,
        None => {
            proof {
                lemma_obj_lookup_absent(es@, "method"@);
            }
            return Err(ParseError);
        },
    };
    proof {
        lemma_obj_lookup_at_first_index(es@, "method"@, im as int);
    }
    match &es[im].1 {
        Json::Str(_) => {},
        _ => {
            return Err(ParseError);
        },
    }
    proof {
        match i_id {
            Some(ix) => lemma_obj_lookup_at_first_index(es@, "id"@, ix as int),
            None => lemma_obj_lookup_absent(es@, "id"@),
        }
        match i_params {
            Some(ix) => lemma_obj_lookup_at_first_index(es@, "params"@, ix as int),
            None => lemma_obj_lookup_absent(es@, "params"@),
        }
    }
    let ghost es0 = es@;
    let mut rest = es;
    let mut iv: Option<Json> = None;
    let mut mv: Option<Json> = None;
    let mut pv: Option<Json> = None;
    proof {
        assert(es0.take(es0.len() as int) =~= es0);
    }
    while rest.len() > 0
        invariant
            rest@.len() <= es0.len(),
            rest@ == es0.take(rest@.len() as int),
            match i_id {
                Some(ix) => if ix as int >= rest@.len() {
                    iv == Some(es0[ix as int].1)
                } else {
                    iv is None
                },
                None => iv is None,
            },
            match i_method {
                Some(ix) => if ix as int >= rest@.len() {
                    mv == Some(es0[ix as int].1)
                } else {
                    mv is None
                },
                None => mv is None,
            },
            match i_params {
                Some(ix) => if ix as int >= rest@.len() {
                    pv == Some(es0[ix as int].1)
                } else {
                    pv is None
                },
                None => pv is None,
            },
            i_id matches Some(ix) ==> ix < es0.len() && es0[ix as int].0@ == "id"@,
            i_method matches Some(ix) ==> ix < es0.len() && es0[ix as int].0@ == "method"@,
            i_params matches Some(ix) ==> ix < es0.len() && es0[ix as int].0@ == "params"@,
        decreases rest.len(),
    {
        let idx = rest.len() - 1;
        let pair = rest.pop().unwrap();
        proof {
            assert(rest@ =~= es0.take(idx as int));
            assert(pair == es0[idx as int]);
            reveal_strlit("id");
            reveal_strlit("method");
            reveal_strlit("params");
            assert("id"@.len() == 2 && "method"@.len() == 6 && "params"@.len() == 6);
            assert("method"@[0] == 'm' && "params"@[0] == 'p');
            assert("id"@ != "method"@ && "id"@ != "params"@ && "method"@ != "params"@);
        }
        if i_id.is_some() && i_id.unwrap() == idx {
            iv = Some(pair.1);
        } else if i_method.is_some() && i_method.unwrap() == idx {
            mv = Some(pair.1);
        } else if i_params.is_some() && i_params.unwrap() == idx {
            pv = Some(pair.1);
        }
    }
    let method = match mv {
        Some(Json::Str(s)) => s,
        _ => unreached(),
    };
    let id = match iv {
        None => None,
        Some(v) => match v {
            Json::Null => None,
            other => Some(other),
        },
    };
    let params = match pv {
        None => Json::Null,
        Some(p) => p,
    };
    Ok(RpcRequest { id, method, params })
}

// ── The static protocol methods ──────────────────────────────────

/// The static metadata `initialize` answers with: protocol version, the tool
/// capability, and the server's identity.
pub open spec fn is_initialize_json(j: Json) -> bool {
    j matches Json::Obj(es) && es@.len() == 3 && es@[0].0@ == "protocolVersion"@ && is_str_json(
        es@[0].1,
        "2024-11-05"@,
    ) && es@[1].0@ == "capabilities"@ && (es@[1].1 matches Json::Obj(cs) && cs@.len() == 1
        && cs@[0].0@ == "tools"@ && (cs@[0].1 matches Json::Obj(ts) && ts@.len() == 0)) && es@[2].0@
        == "serverInfo"@ && (es@[2].1 matches Json::Obj(si) && si@.len() == 2 && si@[0].0@
        == "name"@ && is_str_json(si@[0].1, "codegang-datasource"@) && si@[1].0@ == "version"@
        && is_str_json(si@[1].1, "0.1.0"@))
}

/// Answers `initialize`.
pub fn handle_initialize(id: Json) -> (r: RpcResponse)
    ensures
        r.id == id,
        r.body matches RpcBody::Success(j) && is_initialize_json(j),
{
    let mut caps: Vec<(String, Json)> = Vec::new();
    let tools_cap: Vec<(String, Json)> = Vec::new();
    caps.push(("tools".to_owned(), Json::Obj(tools_cap)));
    let mut si: Vec<(String, Json)> = Vec::new();
    si.push(("name".to_owned(), Json::Str("codegang-datasource".to_owned())));
    si.push(("version".to_owned(), Json::Str("0.1.0".to_owned())));
    let mut es: Vec<(String, Json)> = Vec::new();
    es.push(("protocolVersion".to_owned(), Json::Str("2024-11-05".to_owned())));
    es.push(("capabilities".to_owned(), Json::Obj(caps)));
    es.push(("serverInfo".to_owned(), Json::Obj(si)));
    RpcResponse { id, body: RpcBody::Success(Json::Obj(es)) }
}

// ── The tool listing ─────────────────────────────────────────────

/// One property of a tool's input schema: a string with a description.
pub open spec fn is_schema_prop_json(p: Json, desc: Seq<char>) -> bool {
    p matches Json::Obj(es) && es@.len() == 2 && es@[0].0@ == "type"@ && is_str_json(
        es@[0].1,
        "string"@,
    ) && es@[1].0@ == "description"@ && is_str_json(es@[1].1, desc)
}

/// The input schema of a tool that takes no arguments.
pub open spec fn is_empty_schema_json(s: Json) -> bool {
    s matches Json::Obj(es) && es@.len() == 3 && es@[0].0@ == "type"@ && is_str_json(
        es@[0].1,
        "object"@,
    ) && es@[1].0@ == "properties"@ && (es@[1].1 matches Json::Obj(ps) && ps@.len() == 0)
        && es@[2].0@ == "required"@ && (es@[2].1 matches Json::Arr(rs) && rs@.len() == 0)
}

/// The input schema of a tool that takes one required string argument.
pub open spec fn is_one_arg_schema_json(s: Json, prop: Seq<char>, prop_desc: Seq<char>) -> bool {
    s matches Json::Obj(es) && es@.len() == 3 && es@[0].0@ == "type"@ && is_str_json(
        es@[0].1,
        "object"@,
    ) && es@[1].0@ == "properties"@ && (es@[1].1 matches Json::Obj(ps) && ps@.len() == 1
        && ps@[0].0@ == prop && is_schema_prop_json(ps@[0].1, prop_desc)) && es@[2].0@
        == "required"@ && (es@[2].1 matches Json::Arr(rs) && rs@.len() == 1 && is_str_json(
        rs@[0],
        prop,
    ))
}

/// A tool descriptor: name, description, input schema.
pub open spec fn is_tool_entry_json(t: Json, name: Seq<char>, desc: Seq<char>) -> bool {
    t matches Json::Obj(es) && es@.len() == 3 && es@[0].0@ == "name"@ && is_str_json(
        es@[0].1,
        name,
    ) && es@[1].0@ == "description"@ && is_str_json(es@[1].1, desc) && es@[2].0@ == "inputSchema"@
}

/// The input schema of a tool descriptor.
pub open spec fn tool_schema(t: Json) -> Json {
    t->Obj_0@[2].1
}

/// The static tool listing: exactly the nine tools, whatever the catalog
/// holds, each under its fixed name, description and input schema.
pub open spec fn is_tools_list_json(j: Json) -> bool {
    j matches Json::Obj(top) && top@.len() == 1 && top@[0].0@ == "tools"@ && (top@[0].1
        matches Json::Arr(ts) && ts@.len() == 9 && is_tool_entry_json(
        ts@[0],
        "get_datasource"@,
        "Get the full datasource including all services, queue contracts, nosql contracts, and proto contracts."@,
    ) && is_empty_schema_json(tool_schema(ts@[0])) && is_tool_entry_json(
        ts@[1],
        "list_services"@,
        "List all microservices with their gRPC servers/clients, queue bindings, and metadata."@,
    ) && is_empty_schema_json(tool_schema(ts@[1])) && is_tool_entry_json(
        ts@[2],
        "get_service"@,
        "Get a single microservice definition by name."@,
    ) && is_one_arg_schema_json(
        tool_schema(ts@[2]),
        "name"@,
        "Service name, e.g. 'contest-engine-grpc'"@,
    ) && is_tool_entry_json(
        ts@[3],
        "list_queue_contracts"@,
        "List all service-bus queue/topic contracts with their message schemas."@,
    ) && is_empty_schema_json(tool_schema(ts@[3])) && is_tool_entry_json(
        ts@[4],
        "get_queue_contract"@,
        "Get a single queue/topic contract by topic name, including its message schema."@,
    ) && is_one_arg_schema_json(
        tool_schema(ts@[4]),
        "topic"@,
        "Topic name, e.g. 'user-registered'"@,
    ) && is_tool_entry_json(
        ts@[5],
        "list_nosql_contracts"@,
        "List all NoSQL entity contracts with their table names and schemas."@,
    ) && is_empty_schema_json(tool_schema(ts@[5])) && is_tool_entry_json(
        ts@[6],
        "get_nosql_contract"@,
        "Get a single NoSQL entity contract by entity name, including its schema."@,
    ) && is_one_arg_schema_json(
        tool_schema(ts@[6]),
        "entity"@,
        "Entity name, e.g. 'BrokerContestSettings'"@,
    ) && is_tool_entry_json(
        ts@[7],
        "list_proto_contracts"@,
        "List all protobuf/gRPC contracts with their raw .proto definitions."@,
    ) && is_empty_schema_json(tool_schema(ts@[7])) && is_tool_entry_json(
        ts@[8],
        "get_proto_contract"@,
        "Get a single protobuf/gRPC contract by name, including the raw .proto file text."@,
    ) && is_one_arg_schema_json(
        tool_schema(ts@[8]),
        "name"@,
        "Proto contract name, e.g. 'UsersGrpcService'"@,
    ))
}

fn empty_schema() -> (s: Json)
    ensures
        is_empty_schema_json(s),
{
    let props: Vec<(String, Json)> = Vec::new();
    let req: Vec<Json> = Vec::new();
    let mut es: Vec<(String, Json)> = Vec::new();
    es.push(("type".to_owned(), Json::Str("object".to_owned())));
    es.push(("properties".to_owned(), Json::Obj(props)));
    es.push(("required".to_owned(), Json::Arr(req)));
    Json::Obj(es)
}

fn one_arg_schema(prop: &str, prop_desc: &str) -> (s: Json)
    ensures
        is_one_arg_schema_json(s, prop@, prop_desc@),
{
    let mut p: Vec<(String, Json)> = Vec::new();
    p.push(("type".to_owned(), Json::Str("string".to_owned())));
    p.push(("description".to_owned(), Json::Str(prop_desc.to_owned())));
    let mut props: Vec<(String, Json)> = Vec::new();
    props.push((prop.to_owned(), Json::Obj(p)));
    let mut req: Vec<Json> = Vec::new();
    req.push(Json::Str(prop.to_owned()));
    let mut es: Vec<(String, Json)> = Vec::new();
    es.push(("type".to_owned(), Json::Str("object".to_owned())));
    es.push(("properties".to_owned(), Json::Obj(props)));
    es.push(("required".to_owned(), Json::Arr(req)));
    Json::Obj(es)
}

fn tool_entry(name: &str, desc: &str, schema: Json) -> (t: Json)
    ensures
        is_tool_entry_json(t, name@, desc@),
        tool_schema(t) == schema,
{
    let mut es: Vec<(String, Json)> = Vec::new();
    es.push(("name".to_owned(), Json::Str(name.to_owned())));
    es.push(("description".to_owned(), Json::Str(desc.to_owned())));
    es.push(("inputSchema".to_owned(), schema));
    Json::Obj(es)
}

/// Answers `tools/list`: the fixed nine-tool listing, independent of the
/// catalog (this function does not even see the store).
pub fn handle_tools_list(id: Json) -> (r: RpcResponse)
    ensures
        r.id == id,
        r.body matches RpcBody::Success(j) && is_tools_list_json(j),
{
    let mut ts: Vec<Json> = Vec::new();
    ts.push(tool_entry(
        "get_datasource",
        "Get the full datasource including all services, queue contracts, nosql contracts, and proto contracts.",
        empty_schema(),
    ));
    ts.push(tool_entry(
        "list_services",
        "List all microservices with their gRPC servers/clients, queue bindings, and metadata.",
        empty_schema(),
    ));
    ts.push(tool_entry(
        "get_service",
        "Get a single microservice definition by name.",
        one_arg_schema("name", "Service name, e.g. 'contest-engine-grpc'"),
    ));
    ts.push(tool_entry(
        "list_queue_contracts",
        "List all service-bus queue/topic contracts with their message schemas.",
        empty_schema(),
    ));
    ts.push(tool_entry(
        "get_queue_contract",
        "Get a single queue/topic contract by topic name, including its message schema.",
        one_arg_schema("topic", "Topic name, e.g. 'user-registered'"),
    ));
    ts.push(tool_entry(
        "list_nosql_contracts",
        "List all NoSQL entity contracts with their table names and schemas.",
        empty_schema(),
    ));
    ts.push(tool_entry(
        "get_nosql_contract",
        "Get a single NoSQL entity contract by entity name, including its schema.",
        one_arg_schema("entity", "Entity name, e.g. 'BrokerContestSettings'"),
    ));
    ts.push(tool_entry(
        "list_proto_contracts",
        "List all protobuf/gRPC contracts with their raw .proto definitions.",
        empty_schema(),
    ));
    ts.push(tool_entry(
        "get_proto_contract",
        "Get a single protobuf/gRPC contract by name, including the raw .proto file text.",
        one_arg_schema("name", "Proto contract name, e.g. 'UsersGrpcService'"),
    ));
    let mut top: Vec<(String, Json)> = Vec::new();
    top.push(("tools".to_owned(), Json::Arr(ts)));
    RpcResponse { id, body: RpcBody::Success(Json::Obj(top)) }
}

// ── Method dispatch ──────────────────────────────────────────────

/// What the response to a resolved (non-notification) call looks like, per
/// method: the echoed identifier, and the body each method owes.
pub open spec fn method_post(
    r: RpcResponse,
    method: Seq<char>,
    params: Json,
    cat: crate::model::Datasource,
    id: Json,
) -> bool {
    &&& r.id == id
    &&& if method == "initialize"@ {
        r.body matches RpcBody::Success(j) && is_initialize_json(j)
    } else if method == "tools/list"@ {
        r.body matches RpcBody::Success(j) && is_tools_list_json(j)
    } else if method == "tools/call"@ {
        tool_call_post(r.body, params, cat)
    } else {
        r.body matches RpcBody::Failure(c, m) && c == -32601 && m@ == "Method not found: "@
            + method
    }
}

/// Routes a method name to its handler; an unresolved name is answered with
/// the reserved method-not-found error naming the method.
pub fn handle_method(method: &str, params: &Json, state: &AppState, id: Json) -> (r: RpcResponse)
    ensures
        method_post(r, method@, *params, state@, id),
{
    if str_eq(method, "initialize") {
        handle_initialize(id)
    } else if str_eq(method, "tools/list") {
        handle_tools_list(id)
    } else if str_eq(method, "tools/call") {
        handle_tools_call(params, state, id)
    } else {
        RpcResponse {
            id,
            body: RpcBody::Failure(
                -32601,
                String::from_str("Method not found: ").concat(method),
            ),
        }
    }
}

// ── Response encoding ────────────────────────────────────────────

/// A serialized success response: version tag, echoed identifier, result.
pub open spec fn is_success_response_json(j: Json, id: Json, result: Json) -> bool {
    j matches Json::Obj(es) && es@.len() == 3 && es@[0].0@ == "jsonrpc"@ && is_str_json(
        es@[0].1,
        "2.0"@,
    ) && es@[1].0@ == "id"@ && es@[1].1 == id && es@[2].0@ == "result"@ && es@[2].1 == result
}

/// A serialized error response: version tag, echoed identifier, and an error
/// object holding the code and the message.
pub open spec fn is_error_response_json(j: Json, id: Json, code: int, msg: Seq<char>) -> bool {
    j matches Json::Obj(es) && es@.len() == 3 && es@[0].0@ == "jsonrpc"@ && is_str_json(
        es@[0].1,
        "2.0"@,
    ) && es@[1].0@ == "id"@ && es@[1].1 == id && es@[2].0@ == "error"@ && (es@[2].1
        matches Json::Obj(ee) && ee@.len() == 2 && ee@[0].0@ == "code"@ && (ee@[0].1
        matches Json::Int(c) && c as int == code) && ee@[1].0@ == "message"@ && is_str_json(
        ee@[1].1,
        msg,
    ))
}

/// Whether `t` is the serialized text of the response `resp`.
pub open spec fn resp_encoded(t: Seq<char>, resp: RpcResponse) -> bool {
    match resp.body {
        RpcBody::Success(res) => exists|j: Json|
            #[trigger] is_success_response_json(j, resp.id, res) && t == jtext(j),
        RpcBody::Failure(c, m) => exists|j: Json|
            #[trigger] is_error_response_json(j, resp.id, c as int, m@) && t == jtext(j),
    }
}

/// Serializes a response for delivery over the session's stream.
pub fn encode_response(resp: RpcResponse) -> (m: String)
    ensures
        resp_encoded(m@, resp),
{
    let ghost resp0 = resp;
    let RpcResponse { id, body } = resp;
    let mut es: Vec<(String, Json)> = Vec::new();
    es.push(("jsonrpc".to_owned(), Json::Str("2.0".to_owned())));
    es.push(("id".to_owned(), id));
    match body {
        RpcBody::Success(res) => {
            es.push(("result".to_owned(), res));
            let j = Json::Obj(es);
            proof {
                assert(is_success_response_json(j, resp0.id, resp0.body->Success_0));
            }
            render(&j)
        },
        RpcBody::Failure(code, msg) => {
            let mut ee: Vec<(String, Json)> = Vec::new();
            ee.push(("code".to_owned(), Json::Int(code)));
            ee.push(("message".to_owned(), Json::Str(msg)));
            es.push(("error".to_owned(), Json::Obj(ee)));
            let j = Json::Obj(es);
            proof {
                assert(is_error_response_json(j, resp0.id, code as int, resp0.body->Failure_1@));
            }
            render(&j)
        },
    }
}

/// A response has exactly one serialized text: the witnesses behind
/// [`resp_encoded`] all render identically, so the text the stream carries
/// is a function of the response value.
pub proof fn lemma_resp_encoded_unique(t1: Seq<char>, t2: Seq<char>, resp: RpcResponse)
    requires
        resp_encoded(t1, resp),
        resp_encoded(t2, resp),
    ensures
        t1 == t2,
{
    match resp.body {
        RpcBody::Success(res) => {
            let j1 = choose|j: Json|
                #[trigger] is_success_response_json(j, resp.id, res) && t1 == jtext(j);
            let j2 = choose|j: Json|
                #[trigger] is_success_response_json(j, resp.id, res) && t2 == jtext(j);
            let u = j1->Obj_0;
            let v = j2->Obj_0;
            assert forall|i: int| 0 <= i < u@.len() implies (#[trigger] u@[i]).0@ == v@[i].0@
                && crate::json::jsim(u@[i].1, v@[i].1) by {
                if i == 1 || i == 2 {
                    assert(u@[i].1 == v@[i].1);
                    crate::json::lemma_jsim_refl(u@[i].1);
                }
            }
            assert(crate::json::jsim(j1, j2));
            crate::json::lemma_jsim_jtext(j1, j2);
        },
        RpcBody::Failure(c, m) => {
            let j1 = choose|j: Json|
                #[trigger] is_error_response_json(j, resp.id, c as int, m@) && t1 == jtext(j);
            let j2 = choose|j: Json|
                #[trigger] is_error_response_json(j, resp.id, c as int, m@) && t2 == jtext(j);
            let u = j1->Obj_0;
            let v = j2->Obj_0;
            assert forall|i: int| 0 <= i < u@.len() implies (#[trigger] u@[i]).0@ == v@[i].0@
                && crate::json::jsim(u@[i].1, v@[i].1) by {
                if i == 1 {
                    assert(u@[i].1 == v@[i].1);
                    crate::json::lemma_jsim_refl(u@[i].1);
                }
                if i == 2 {
                    let e1 = u@[i].1->Obj_0;
                    let e2 = v@[i].1->Obj_0;
                    assert forall|k: int| 0 <= k < e1@.len() implies (#[trigger] e1@[k]).0@
                        == e2@[k].0@ && crate::json::jsim(e1@[k].1, e2@[k].1) by {}
                    assert(crate::json::jsim(u@[i].1, v@[i].1));
                }
            }
            assert(crate::json::jsim(j1, j2));
            crate::json::lemma_jsim_jtext(j1, j2);
        },
    }
}

// ── The message-submit entry point ───────────────────────────────

/// What the submit endpoint answers at once. The substantive response, if
/// any, travels over the session's stream instead.
pub enum PostStatus {
    /// The call was routed; any response will arrive over the stream.
    Accepted,
    /// No session with the given identifier is open.
    NotFound,
}

/// The message the stream carries when a body does not parse as an envelope.
pub open spec fn parse_error_msg() -> Seq<char> {
    "Parse error: invalid JSON-RPC envelope"@
}

/// Handles one submitted body for the session `session_id`.
///
/// An unknown session answers not-found and changes nothing. For an open
/// session the POST always answers accepted: a body that is no envelope
/// sends exactly one parse-error event (null identifier, the reserved code)
/// over the stream; a notification sends nothing; a request sends exactly
/// one response event, as [`method_post`] pins it. Enqueueing respects the
/// queue bound ([`enqueue_effect`]).
pub fn handle_message(
    registry: &mut SessionRegistry,
    state: &AppState,
    session_id: &str,
    body: Json,
) -> (r: PostStatus)
    ensures
        !has_session(old(registry)@, session_id@) ==> r == PostStatus::NotFound && *final(registry)
            == *old(registry),
        has_session(old(registry)@, session_id@) ==> r == PostStatus::Accepted,
        has_session(old(registry)@, session_id@) && !envelope_ok(body) ==> exists|i: int, j: Json|
            #![trigger first_session_idx(old(registry)@, session_id@, i), is_error_response_json(j, Json::Null, -32700, parse_error_msg())]
            first_session_idx(old(registry)@, session_id@, i) && is_error_response_json(
                j,
                Json::Null,
                -32700,
                parse_error_msg(),
            ) && enqueue_effect(old(registry)@, final(registry)@, i, jtext(j)),
        has_session(old(registry)@, session_id@) && envelope_ok(body) && env_id(body) is None
            ==> *final(registry) == *old(registry),
        has_session(old(registry)@, session_id@) && envelope_ok(body) && env_id(body) is Some
            ==> exists|resp: RpcResponse, i: int, t: Seq<char>|
            #![trigger method_post(resp, env_method(body), env_params(body), state@, env_id(body)->0), first_session_idx(old(registry)@, session_id@, i), resp_encoded(t, resp)]
            method_post(resp, env_method(body), env_params(body), state@, env_id(body)->0)
                && first_session_idx(old(registry)@, session_id@, i) && resp_encoded(t, resp)
                && enqueue_effect(old(registry)@, final(registry)@, i, t),
        old(registry).wf() ==> final(registry).wf(),
{
    if !registry.contains_session(session_id) {
        return PostStatus::NotFound;
    }
    match parse_request(body) {
        Err(_) => {
            let resp = RpcResponse::error(
                Json::Null,
                -32700,
                String::from_str("Parse error: invalid JSON-RPC envelope"),
            );
            let ghost resp0 = resp;
            let m = encode_response(resp);
            let ghost t = m@;
            match registry.dispatch(session_id, m) {
                Ok(()) => {
                    proof {
                        let j = choose|j: Json|
                            #[trigger] is_error_response_json(j, resp0.id, -32700 as int, resp0.body->Failure_1@)
                                && t == jtext(j);
                        let i = choose|i: int|
                            #[trigger] first_session_idx(old(registry)@, session_id@, i)
                                && enqueue_effect(old(registry)@, registry@, i, t);
                        assert(first_session_idx(old(registry)@, session_id@, i)
                            && is_error_response_json(j, Json::Null, -32700, parse_error_msg())
                            && enqueue_effect(old(registry)@, registry@, i, jtext(j)));
                    }
                },
                Err(_) => {
                    proof {
                        assert(false);
                    }
                },
            }
            PostStatus::Accepted
        },
        Ok(req) => {
            let RpcRequest { id, method, params } = req;
            match id {
                None => PostStatus::Accepted,
                Some(idv) => {
                    let resp = handle_method(method.as_str(), &params, state, idv);
                    let ghost resp0 = resp;
                    let m = encode_response(resp);
                    let ghost t = m@;
                    match registry.dispatch(session_id, m) {
                        Ok(()) => {
                            proof {
                                let i = choose|i: int|
                                    #[trigger] first_session_idx(old(registry)@, session_id@, i)
                                        && enqueue_effect(old(registry)@, registry@, i, t);
                                assert(method_post(
                                    resp0,
                                    env_method(body),
                                    env_params(body),
                                    state@,
                                    env_id(body)->0,
                                ) && first_session_idx(old(registry)@, session_id@, i)
                                    && resp_encoded(t, resp0) && enqueue_effect(
                                    old(registry)@,
                                    registry@,
                                    i,
                                    t,
                                ));
                            }
                        },
                        Err(_) => {
                            proof {
                                assert(false);
                            }
                        },
                    }
                    PostStatus::Accepted
                },
            }
        },
    }
}

// ── Query models ─────────────────────────────────────────────────

/// The query parameters of the stream-open endpoint.
pub struct SseQuery {
    pub session_id: Option<String>,
}

/// The query parameters of the message-submit endpoint.
pub struct MessageQuery {
    pub session_id: String,
}

} // verus!
