//! The tool registry: each tool adapts one read operation of the catalog
//! store into an agent-callable tool. A tool's textual result is the
//! serialized JSON mirror of the entity (or entities) it read, or a plain
//! "not found" line when the key matches nothing — that latter case is a
//! successful call that found nothing, not a protocol error.
//!
//! An entity's JSON mirror holds every field under its wire name, in
//! declaration order; an absent optional field renders as `null` and an
//! absent metadata table as an empty object.

use vstd::prelude::*;
use vstd::string::StringExecFns;
use crate::json::{jtext, obj_lookup, str_eq, render, Json};
use crate::model::{
    Datasource, MessageSchema, NosqlContract, ProtoContract, QueueContract, SchemaField,
    ServiceDefinition, ServiceQueueConfig,
};
use crate::storage::{
    first_nosql_idx, first_proto_idx, first_queue_idx, first_service_idx, has_nosql_contract,
    has_proto_contract, has_queue_contract, has_service, AppState,
};
use crate::rpc::{RpcBody, RpcResponse};

verus! {

// ── Reading a parameters object ──────────────────────────────────

/// The value under `key` if `j` is an object; nothing otherwise.
pub open spec fn jlookup(j: Json, key: Seq<char>) -> Option<Json> {
    match j {
        Json::Obj(es) => obj_lookup(es@, key),
        _ => None,
    }
}

/// The characters of a looked-up string value; empty for anything else.
pub open spec fn str_of(o: Option<Json>) -> Seq<char> {
    match o {
        Some(Json::Str(s)) => s@,
        _ => Seq::empty(),
    }
}

/// The string argument `key` of a call's `arguments` object; empty when the
/// argument, or the whole object, is missing or not a string.
pub open spec fn arg_str_spec(params: Json, key: Seq<char>) -> Seq<char> {
    match jlookup(params, "arguments"@) {
        Some(a) => str_of(jlookup(a, key)),
        None => Seq::empty(),
    }
}

/// Looks `key` up in `j`, if `j` is an object.
pub fn json_obj_get<'a>(j: &'a Json, key: &str) -> (r: Option<&'a Json>)
    ensures
        match r {
            Some(v) => jlookup(*j, key@) == Some(*v),
            None => jlookup(*j, key@) is None,
        },
{
    match j {
        Json::Obj(es) => {
            let mut i: usize = 0;
            while i < es.len()
                invariant
                    *j == Json::Obj(*es),
                    i <= es.len(),
                    forall|k: int| 0 <= k < i ==> es@[k].0@ != key@,
                decreases es.len() - i,
            {
                if str_eq(es[i].0.as_str(), key) {
                    proof {
                        crate::json::lemma_obj_lookup_at_first_index(es@, key@, i as int);
                    }
                    return Some(&es[i].1);
                }
                i = i + 1;
            }
            proof {
                crate::json::lemma_obj_lookup_absent(es@, key@);
            }
            None
        },
        _ => None,
    }
}

/// The looked-up string under `key`, or empty.
pub fn json_str_or_empty<'a>(j: &'a Json, key: &str) -> (r: &'a str)
    ensures
        r@ == str_of(jlookup(*j, key@)),
{
    proof {
        reveal_strlit("");
        assert(""@ =~= Seq::<char>::empty());
    }
    match json_obj_get(j, key) {
        Some(v) => match v {
            Json::Str(s) => s.as_str(),
            _ => "",
        },
        None => "",
    }
}

/// The string argument `key` of the call's `arguments`, or empty.
pub fn arg_str<'a>(params: &'a Json, key: &str) -> (r: &'a str)
    ensures
        r@ == arg_str_spec(*params, key@),
{
    proof {
        reveal_strlit("");
        assert(""@ =~= Seq::<char>::empty());
    }
    match json_obj_get(params, "arguments") {
        Some(a) => json_str_or_empty(a, key),
        None => "",
    }
}

// ── JSON mirrors of the catalog entities ─────────────────────────

pub open spec fn is_str_json(j: Json, s: Seq<char>) -> bool {
    j matches Json::Str(x) && x@ == s
}

pub open spec fn is_opt_str_json(j: Json, o: Option<String>) -> bool {
    match o {
        None => j is Null,
        Some(x) => is_str_json(j, x@),
    }
}

pub open spec fn is_opt_bool_json(j: Json, o: Option<bool>) -> bool {
    match o {
        None => j is Null,
        Some(b) => j == Json::Bool(b),
    }
}

pub open spec fn is_str_arr_json(j: Json, xs: Seq<String>) -> bool {
    j matches Json::Arr(v) && v@.len() == xs.len() && forall|k: int|
        0 <= k < xs.len() ==> is_str_json(#[trigger] v@[k], xs[k]@)
}

pub open spec fn is_opt_str_arr_json(j: Json, o: Option<Vec<String>>) -> bool {
    match o {
        None => j is Null,
        Some(v) => is_str_arr_json(j, v@),
    }
}

/// An object of string values, one entry per pair, in order.
pub open spec fn is_str_pairs_json(j: Json, ps: Seq<(String, String)>) -> bool {
    j matches Json::Obj(es) && es@.len() == ps.len() && forall|k: int|
        0 <= k < ps.len() ==> (#[trigger] es@[k]).0@ == ps[k].0@ && is_str_json(es@[k].1, ps[k].1@)
}

pub open spec fn is_queue_config_json(j: Json, c: ServiceQueueConfig) -> bool {
    j matches Json::Obj(es) && es@.len() == 2 && es@[0].0@ == "publish_queues"@
        && is_opt_str_arr_json(es@[0].1, c.publish_queues) && es@[1].0@ == "subscribe_queues"@
        && is_opt_str_arr_json(es@[1].1, c.subscribe_queues)
}

pub open spec fn is_opt_queue_config_json(j: Json, o: Option<ServiceQueueConfig>) -> bool {
    match o {
        None => j is Null,
        Some(c) => is_queue_config_json(j, c),
    }
}

pub open spec fn is_service_json(j: Json, s: ServiceDefinition) -> bool {
    j matches Json::Obj(es) && es@.len() == 9 && es@[0].0@ == "name"@ && is_str_json(
        es@[0].1,
        s.name@,
    ) && es@[1].0@ == "type"@ && is_str_json(es@[1].1, s.service_type@) && es@[2].0@
        == "github_repo"@ && is_opt_str_json(es@[2].1, s.github_repo) && es@[3].0@ == "description"@
        && is_opt_str_json(es@[3].1, s.description) && es@[4].0@ == "grpc_servers"@
        && is_opt_str_arr_json(es@[4].1, s.grpc_servers) && es@[5].0@ == "grpc_clients"@
        && is_opt_str_arr_json(es@[5].1, s.grpc_clients) && es@[6].0@ == "queue"@
        && is_opt_queue_config_json(es@[6].1, s.queue) && es@[7].0@ == "is_http_server"@
        && is_opt_bool_json(es@[7].1, s.is_http_server) && es@[8].0@ == "metadata"@
        && is_str_pairs_json(es@[8].1, s.metadata@)
}

pub open spec fn is_schema_field_json(j: Json, f: SchemaField) -> bool {
    j matches Json::Obj(es) && es@.len() == 3 && es@[0].0@ == "name"@ && is_str_json(
        es@[0].1,
        f.name@,
    ) && es@[1].0@ == "field_type"@ && is_str_json(es@[1].1, f.field_type@) && es@[2].0@
        == "description"@ && is_opt_str_json(es@[2].1, f.description)
}

pub open spec fn is_message_schema_json(j: Json, m: MessageSchema) -> bool {
    j matches Json::Obj(es) && es@.len() == 3 && es@[0].0@ == "name"@ && is_str_json(
        es@[0].1,
        m.name@,
    ) && es@[1].0@ == "fields"@ && (es@[1].1 matches Json::Arr(fs) && fs@.len() == m.fields@.len()
        && forall|k: int|
        0 <= k < m.fields@.len() ==> is_schema_field_json(#[trigger] fs@[k], m.fields@[k]))
        && es@[2].0@ == "notes"@ && is_opt_str_json(es@[2].1, m.notes)
}

pub open spec fn is_opt_schema_json(j: Json, o: Option<MessageSchema>) -> bool {
    match o {
        None => j is Null,
        Some(m) => is_message_schema_json(j, m),
    }
}

pub open spec fn is_queue_contract_json(j: Json, q: QueueContract) -> bool {
    j matches Json::Obj(es) && es@.len() == 3 && es@[0].0@ == "topic_name"@ && is_str_json(
        es@[0].1,
        q.topic_name@,
    ) && es@[1].0@ == "description"@ && is_opt_str_json(es@[1].1, q.description) && es@[2].0@
        == "message_schema"@ && is_opt_schema_json(es@[2].1, q.message_schema)
}

pub open spec fn is_nosql_contract_json(j: Json, n: NosqlContract) -> bool {
    j matches Json::Obj(es) && es@.len() == 4 && es@[0].0@ == "entity_name"@ && is_str_json(
        es@[0].1,
        n.entity_name@,
    ) && es@[1].0@ == "table_name"@ && is_opt_str_json(es@[1].1, n.table_name) && es@[2].0@
        == "description"@ && is_opt_str_json(es@[2].1, n.description) && es@[3].0@ == "schema"@
        && is_opt_schema_json(es@[3].1, n.schema)
}

pub open spec fn is_proto_contract_json(j: Json, p: ProtoContract) -> bool {
    j matches Json::Obj(es) && es@.len() == 2 && es@[0].0@ == "name"@ && is_str_json(
        es@[0].1,
        p.name@,
    ) && es@[1].0@ == "raw_proto"@ && is_str_json(es@[1].1, p.raw_proto@)
}

pub open spec fn is_services_json(j: Json, ss: Seq<ServiceDefinition>) -> bool {
    j matches Json::Arr(v) && v@.len() == ss.len() && forall|k: int|
        0 <= k < ss.len() ==> is_service_json(#[trigger] v@[k], ss[k])
}

pub open spec fn is_queue_contracts_json(j: Json, qs: Seq<QueueContract>) -> bool {
    j matches Json::Arr(v) && v@.len() == qs.len() && forall|k: int|
        0 <= k < qs.len() ==> is_queue_contract_json(#[trigger] v@[k], qs[k])
}

pub open spec fn is_nosql_contracts_json(j: Json, ns: Seq<NosqlContract>) -> bool {
    j matches Json::Arr(v) && v@.len() == ns.len() && forall|k: int|
        0 <= k < ns.len() ==> is_nosql_contract_json(#[trigger] v@[k], ns[k])
}

pub open spec fn is_proto_contracts_json(j: Json, ps: Seq<ProtoContract>) -> bool {
    j matches Json::Arr(v) && v@.len() == ps.len() && forall|k: int|
        0 <= k < ps.len() ==> is_proto_contract_json(#[trigger] v@[k], ps[k])
}

pub open spec fn is_datasource_json(j: Json, d: Datasource) -> bool {
    j matches Json::Obj(es) && es@.len() == 4 && es@[0].0@ == "services"@ && is_services_json(
        es@[0].1,
        d.services@,
    ) && es@[1].0@ == "queue_contracts"@ && is_queue_contracts_json(es@[1].1, d.queue_contracts@)
        && es@[2].0@ == "nosql_contracts"@ && is_nosql_contracts_json(es@[2].1, d.nosql_contracts@)
        && es@[3].0@ == "proto_contracts"@ && is_proto_contracts_json(es@[3].1, d.proto_contracts@)
}

// ── Building the mirrors ─────────────────────────────────────────

fn opt_str_json(o: &Option<String>) -> (r: Json)
    ensures
        is_opt_str_json(r, *o),
{
    match o {
        None => Json::Null,
        Some(x) => Json::Str(x.clone()),
    }
}

fn str_arr_json(v: &Vec<String>) -> (r: Json)
    ensures
        is_str_arr_json(r, v@),
{
    let mut out: Vec<Json> = Vec::new();
    let mut i: usize = 0;
    while i < v.len()
        invariant
            i <= v.len(),
            out@.len() == i,
            forall|k: int| 0 <= k < i ==> is_str_json(#[trigger] out@[k], v@[k]@),
        decreases v.len() - i,
    {
        out.push(Json::Str(v[i].clone()));
        i = i + 1;
    }
    Json::Arr(out)
}

fn opt_str_arr_json(o: &Option<Vec<String>>) -> (r: Json)
    ensures
        is_opt_str_arr_json(r, *o),
{
    match o {
        None => Json::Null,
        Some(v) => str_arr_json(v),
    }
}

fn str_pairs_json(ps: &Vec<(String, String)>) -> (r: Json)
    ensures
        is_str_pairs_json(r, ps@),
{
    let mut out: Vec<(String, Json)> = Vec::new();
    let mut i: usize = 0;
    while i < ps.len()
        invariant
            i <= ps.len(),
            out@.len() == i,
            forall|k: int|
                0 <= k < i ==> (#[trigger] out@[k]).0@ == ps@[k].0@ && is_str_json(
                    out@[k].1,
                    ps@[k].1@,
                ),
        decreases ps.len() - i,
    {
        out.push((ps[i].0.clone(), Json::Str(ps[i].1.clone())));
        i = i + 1;
    }
    Json::Obj(out)
}

fn queue_config_json(c: &ServiceQueueConfig) -> (r: Json)
    ensures
        is_queue_config_json(r, *c),
{
    let mut es: Vec<(String, Json)> = Vec::new();
    es.push(("publish_queues".to_owned(), opt_str_arr_json(&c.publish_queues)));
    es.push(("subscribe_queues".to_owned(), opt_str_arr_json(&c.subscribe_queues)));
    Json::Obj(es)
}

/// The JSON mirror of one service definition.
pub fn service_json(s: &ServiceDefinition) -> (r: Json)
    ensures
        is_service_json(r, *s),
{
    let queue = match &s.queue {
        None => Json::Null,
        Some(c) => queue_config_json(c),
    };
    let http = match s.is_http_server {
        None => Json::Null,
        Some(b) => Json::Bool(b),
    };
    let mut es: Vec<(String, Json)> = Vec::new();
    es.push(("name".to_owned(), Json::Str(s.name.clone())));
    es.push(("type".to_owned(), Json::Str(s.service_type.clone())));
    es.push(("github_repo".to_owned(), opt_str_json(&s.github_repo)));
    es.push(("description".to_owned(), opt_str_json(&s.description)));
    es.push(("grpc_servers".to_owned(), opt_str_arr_json(&s.grpc_servers)));
    es.push(("grpc_clients".to_owned(), opt_str_arr_json(&s.grpc_clients)));
    es.push(("queue".to_owned(), queue));
    es.push(("is_http_server".to_owned(), http));
    es.push(("metadata".to_owned(), str_pairs_json(&s.metadata)));
    Json::Obj(es)
}

fn schema_field_json(f: &SchemaField) -> (r: Json)
    ensures
        is_schema_field_json(r, *f),
{
    let mut es: Vec<(String, Json)> = Vec::new();
    es.push(("name".to_owned(), Json::Str(f.name.clone())));
    es.push(("field_type".to_owned(), Json::Str(f.field_type.clone())));
    es.push(("description".to_owned(), opt_str_json(&f.description)));
    Json::Obj(es)
}

fn message_schema_json(m: &MessageSchema) -> (r: Json)
    ensures
        is_message_schema_json(r, *m),
{
    let mut fs: Vec<Json> = Vec::new();
    let mut i: usize = 0;
    while i < m.fields.len()
        invariant
            i <= m.fields.len(),
            fs@.len() == i,
            forall|k: int| 0 <= k < i ==> is_schema_field_json(#[trigger] fs@[k], m.fields@[k]),
        decreases m.fields.len() - i,
    {
        fs.push(schema_field_json(&m.fields[i]));
        i = i + 1;
    }
    let mut es: Vec<(String, Json)> = Vec::new();
    es.push(("name".to_owned(), Json::Str(m.name.clone())));
    es.push(("fields".to_owned(), Json::Arr(fs)));
    es.push(("notes".to_owned(), opt_str_json(&m.notes)));
    Json::Obj(es)
}

fn opt_schema_json(o: &Option<MessageSchema>) -> (r: Json)
    ensures
        is_opt_schema_json(r, *o),
{
    match o {
        None => Json::Null,
        Some(m) => message_schema_json(m),
    }
}

/// The JSON mirror of one queue contract.
pub fn queue_contract_json(q: &QueueContract) -> (r: Json)
    ensures
        is_queue_contract_json(r, *q),
{
    let mut es: Vec<(String, Json)> = Vec::new();
    es.push(("topic_name".to_owned(), Json::Str(q.topic_name.clone())));
    es.push(("description".to_owned(), opt_str_json(&q.description)));
    es.push(("message_schema".to_owned(), opt_schema_json(&q.message_schema)));
    Json::Obj(es)
}

/// The JSON mirror of one NoSQL contract.
pub fn nosql_contract_json(n: &NosqlContract) -> (r: Json)
    ensures
        is_nosql_contract_json(r, *n),
{
    let mut es: Vec<(String, Json)> = Vec::new();
    es.push(("entity_name".to_owned(), Json::Str(n.entity_name.clone())));
    es.push(("table_name".to_owned(), opt_str_json(&n.table_name)));
    es.push(("description".to_owned(), opt_str_json(&n.description)));
    es.push(("schema".to_owned(), opt_schema_json(&n.schema)));
    Json::Obj(es)
}

/// The JSON mirror of one proto contract.
pub fn proto_contract_json(p: &ProtoContract) -> (r: Json)
    ensures
        is_proto_contract_json(r, *p),
{
    let mut es: Vec<(String, Json)> = Vec::new();
    es.push(("name".to_owned(), Json::Str(p.name.clone())));
    es.push(("raw_proto".to_owned(), Json::Str(p.raw_proto.clone())));
    Json::Obj(es)
}

fn services_json(ss: &Vec<ServiceDefinition>) -> (r: Json)
    ensures
        is_services_json(r, ss@),
{
    let mut out: Vec<Json> = Vec::new();
    let mut i: usize = 0;
    while i < ss.len()
        invariant
            i <= ss.len(),
            out@.len() == i,
            forall|k: int| 0 <= k < i ==> is_service_json(#[trigger] out@[k], ss@[k]),
        decreases ss.len() - i,
    {
        out.push(service_json(&ss[i]));
        i = i + 1;
    }
    Json::Arr(out)
}

fn queue_contracts_json(qs: &Vec<QueueContract>) -> (r: Json)
    ensures
        is_queue_contracts_json(r, qs@),
{
    let mut out: Vec<Json> = Vec::new();
    let mut i: usize = 0;
    while i < qs.len()
        invariant
            i <= qs.len(),
            out@.len() == i,
            forall|k: int| 0 <= k < i ==> is_queue_contract_json(#[trigger] out@[k], qs@[k]),
        decreases qs.len() - i,
    {
        out.push(queue_contract_json(&qs[i]));
        i = i + 1;
    }
    Json::Arr(out)
}

fn nosql_contracts_json(ns: &Vec<NosqlContract>) -> (r: Json)
    ensures
        is_nosql_contracts_json(r, ns@),
{
    let mut out: Vec<Json> = Vec::new();
    let mut i: usize = 0;
    while i < ns.len()
        invariant
            i <= ns.len(),
            out@.len() == i,
            forall|k: int| 0 <= k < i ==> is_nosql_contract_json(#[trigger] out@[k], ns@[k]),
        decreases ns.len() - i,
    {
        out.push(nosql_contract_json(&ns[i]));
        i = i + 1;
    }
    Json::Arr(out)
}

fn proto_contracts_json(ps: &Vec<ProtoContract>) -> (r: Json)
    ensures
        is_proto_contracts_json(r, ps@),
{
    let mut out: Vec<Json> = Vec::new();
    let mut i: usize = 0;
    while i < ps.len()
        invariant
            i <= ps.len(),
            out@.len() == i,
            forall|k: int| 0 <= k < i ==> is_proto_contract_json(#[trigger] out@[k], ps@[k]),
        decreases ps.len() - i,
    {
        out.push(proto_contract_json(&ps[i]));
        i = i + 1;
    }
    Json::Arr(out)
}

/// The JSON mirror of the whole datasource.
pub fn datasource_json(d: &Datasource) -> (r: Json)
    ensures
        is_datasource_json(r, *d),
{
    let mut es: Vec<(String, Json)> = Vec::new();
    es.push(("services".to_owned(), services_json(&d.services)));
    es.push(("queue_contracts".to_owned(), queue_contracts_json(&d.queue_contracts)));
    es.push(("nosql_contracts".to_owned(), nosql_contracts_json(&d.nosql_contracts)));
    es.push(("proto_contracts".to_owned(), proto_contracts_json(&d.proto_contracts)));
    Json::Obj(es)
}

// ── The tool call itself ─────────────────────────────────────────

/// The content envelope wrapping a tool's textual result.
pub open spec fn is_content_json(j: Json, t: Seq<char>) -> bool {
    j matches Json::Obj(es) && es@.len() == 1 && es@[0].0@ == "content"@ && (es@[0].1
        matches Json::Arr(v) && v@.len() == 1 && (v@[0] matches Json::Obj(ce) && ce@.len() == 2
        && ce@[0].0@ == "type"@ && is_str_json(ce@[0].1, "text"@) && ce@[1].0@ == "text"@
        && is_str_json(ce@[1].1, t)))
}

/// What a finished `tools/call` looks like: per tool, a success envelope
/// whose content text renders the entities the tool read (or says, exactly,
/// what was not found); for a name outside the registry, an invalid-params
/// error naming the tool.
pub open spec fn tool_call_post(body: RpcBody, params: Json, cat: Datasource) -> bool {
    let tname = str_of(jlookup(params, "name"@));
    if tname == "get_datasource"@ {
        body matches RpcBody::Success(cj) && exists|ej: Json|
            #[trigger] is_datasource_json(ej, cat) && is_content_json(cj, jtext(ej))
    } else if tname == "list_services"@ {
        body matches RpcBody::Success(cj) && exists|ej: Json|
            #[trigger] is_services_json(ej, cat.services@) && is_content_json(cj, jtext(ej))
    } else if tname == "get_service"@ {
        let key = arg_str_spec(params, "name"@);
        body matches RpcBody::Success(cj) && if has_service(cat.services@, key) {
            exists|i: int, ej: Json|
                #[trigger] first_service_idx(cat.services@, key, i) && #[trigger] is_service_json(
                    ej,
                    cat.services@[i],
                ) && is_content_json(cj, jtext(ej))
        } else {
            is_content_json(cj, "Service '"@ + key + "' not found"@)
        }
    } else if tname == "list_queue_contracts"@ {
        body matches RpcBody::Success(cj) && exists|ej: Json|
            #[trigger] is_queue_contracts_json(ej, cat.queue_contracts@) && is_content_json(
                cj,
                jtext(ej),
            )
    } else if tname == "get_queue_contract"@ {
        let key = arg_str_spec(params, "topic"@);
        body matches RpcBody::Success(cj) && if has_queue_contract(cat.queue_contracts@, key) {
            exists|i: int, ej: Json|
                #[trigger] first_queue_idx(cat.queue_contracts@, key, i)
                    && #[trigger] is_queue_contract_json(ej, cat.queue_contracts@[i])
                    && is_content_json(cj, jtext(ej))
        } else {
            is_content_json(cj, "Queue contract '"@ + key + "' not found"@)
        }
    } else if tname == "list_nosql_contracts"@ {
        body matches RpcBody::Success(cj) && exists|ej: Json|
            #[trigger] is_nosql_contracts_json(ej, cat.nosql_contracts@) && is_content_json(
                cj,
                jtext(ej),
            )
    } else if tname == "get_nosql_contract"@ {
        let key = arg_str_spec(params, "entity"@);
        body matches RpcBody::Success(cj) && if has_nosql_contract(cat.nosql_contracts@, key) {
            exists|i: int, ej: Json|
                #[trigger] first_nosql_idx(cat.nosql_contracts@, key, i)
                    && #[trigger] is_nosql_contract_json(ej, cat.nosql_contracts@[i])
                    && is_content_json(cj, jtext(ej))
        } else {
            is_content_json(cj, "NoSQL contract '"@ + key + "' not found"@)
        }
    } else if tname == "list_proto_contracts"@ {
        body matches RpcBody::Success(cj) && exists|ej: Json|
            #[trigger] is_proto_contracts_json(ej, cat.proto_contracts@) && is_content_json(
                cj,
                jtext(ej),
            )
    } else if tname == "get_proto_contract"@ {
        let key = arg_str_spec(params, "name"@);
        body matches RpcBody::Success(cj) && if has_proto_contract(cat.proto_contracts@, key) {
            exists|i: int, ej: Json|
                #[trigger] first_proto_idx(cat.proto_contracts@, key, i)
                    && #[trigger] is_proto_contract_json(ej, cat.proto_contracts@[i])
                    && is_content_json(cj, jtext(ej))
        } else {
            is_content_json(cj, "Proto contract '"@ + key + "' not found"@)
        }
    } else {
        body matches RpcBody::Failure(c, m) && c == -32602 && m@ == "Unknown tool: "@ + tname
    }
}

/// Wraps a tool's textual result in a success response.
fn content_response(id: Json, text: String) -> (r: RpcResponse)
    ensures
        r.id == id,
        r.body matches RpcBody::Success(cj) && is_content_json(cj, text@),
{
    let mut ce: Vec<(String, Json)> = Vec::new();
    ce.push(("type".to_owned(), Json::Str("text".to_owned())));
    ce.push(("text".to_owned(), Json::Str(text)));
    let mut arr: Vec<Json> = Vec::new();
    arr.push(Json::Obj(ce));
    let mut top: Vec<(String, Json)> = Vec::new();
    top.push(("content".to_owned(), Json::Arr(arr)));
    RpcResponse { id, body: RpcBody::Success(Json::Obj(top)) }
}

fn not_found_text(prefix: &str, key: &str) -> (r: String)
    ensures
        r@ == prefix@ + key@ + "' not found"@,
{
    String::from_str(prefix).concat(key).concat("' not found")
}

/// Resolves `params.name` in the tool registry and runs the tool against the
/// catalog. An unknown tool yields an invalid-params error; a known tool
/// always succeeds, even when its lookup finds nothing.
pub fn handle_tools_call(params: &Json, state: &AppState, id: Json) -> (r: RpcResponse)
    ensures
        r.id == id,
        tool_call_post(r.body, *params, state@),
{
    let tool_name = json_str_or_empty(params, "name");
    if str_eq(tool_name, "get_datasource") {
        let ej = datasource_json(state.get_datasource());
        content_response(id, render(&ej))
    } else if str_eq(tool_name, "list_services") {
        let ej = services_json(state.get_services());
        content_response(id, render(&ej))
    } else if str_eq(tool_name, "get_service") {
        let key = arg_str(params, "name");
        match state.get_service(key) {
            Some(svc) => {
                let ej = service_json(svc);
                content_response(id, render(&ej))
            },
            None => content_response(id, not_found_text("Service '", key)),
        }
    } else if str_eq(tool_name, "list_queue_contracts") {
        let ej = queue_contracts_json(state.get_queue_contracts());
        content_response(id, render(&ej))
    } else if str_eq(tool_name, "get_queue_contract") {
        let key = arg_str(params, "topic");
        match state.get_queue_contract(key) {
            Some(qc) => {
                let ej = queue_contract_json(qc);
                content_response(id, render(&ej))
            },
            None => content_response(id, not_found_text("Queue contract '", key)),
        }
    } else if str_eq(tool_name, "list_nosql_contracts") {
        let ej = nosql_contracts_json(state.get_nosql_contracts());
        content_response(id, render(&ej))
    } else if str_eq(tool_name, "get_nosql_contract") {
        let key = arg_str(params, "entity");
        match state.get_nosql_contract(key) {
            Some(nc) => {
                let ej = nosql_contract_json(nc);
                content_response(id, render(&ej))
            },
            None => content_response(id, not_found_text("NoSQL contract '", key)),
        }
    } else if str_eq(tool_name, "list_proto_contracts") {
        let ej = proto_contracts_json(state.get_proto_contracts());
        content_response(id, render(&ej))
    } else if str_eq(tool_name, "get_proto_contract") {
        let key = arg_str(params, "name");
        match state.get_proto_contract(key) {
            Some(pc) => {
                let ej = proto_contract_json(pc);
                content_response(id, render(&ej))
            },
            None => content_response(id, not_found_text("Proto contract '", key)),
        }
    } else {
        RpcResponse {
            id,
            body: RpcBody::Failure(
                -32602,
                String::from_str("Unknown tool: ").concat(tool_name),
            ),
        }
    }
}

} // verus!

verus! {

// ── One call, one answer ─────────────────────────────────────────

use crate::json::{jsim, lemma_jsim_jtext};

proof fn lemma_opt_str_sim(j1: Json, j2: Json, o: Option<String>)
    requires
        is_opt_str_json(j1, o),
        is_opt_str_json(j2, o),
    ensures
        jsim(j1, j2),
{
}

proof fn lemma_str_arr_sim(j1: Json, j2: Json, xs: Seq<String>)
    requires
        is_str_arr_json(j1, xs),
        is_str_arr_json(j2, xs),
    ensures
        jsim(j1, j2),
{
    let u = j1->Arr_0;
    let v = j2->Arr_0;
    assert forall|i: int| 0 <= i < u@.len() implies jsim(#[trigger] u@[i], v@[i]) by {
        assert(is_str_json(u@[i], xs[i]@));
        assert(is_str_json(v@[i], xs[i]@));
    }
}

proof fn lemma_opt_str_arr_sim(j1: Json, j2: Json, o: Option<Vec<String>>)
    requires
        is_opt_str_arr_json(j1, o),
        is_opt_str_arr_json(j2, o),
    ensures
        jsim(j1, j2),
{
    match o {
        None => {},
        Some(v) => lemma_str_arr_sim(j1, j2, v@),
    }
}

proof fn lemma_str_pairs_sim(j1: Json, j2: Json, ps: Seq<(String, String)>)
    requires
        is_str_pairs_json(j1, ps),
        is_str_pairs_json(j2, ps),
    ensures
        jsim(j1, j2),
{
    let u = j1->Obj_0;
    let v = j2->Obj_0;
    assert forall|i: int| 0 <= i < u@.len() implies (#[trigger] u@[i]).0@ == v@[i].0@ && jsim(
        u@[i].1,
        v@[i].1,
    ) by {
        assert(is_str_json(u@[i].1, ps[i].1@));
        assert(is_str_json(v@[i].1, ps[i].1@));
    }
}

proof fn lemma_opt_queue_config_sim(j1: Json, j2: Json, o: Option<ServiceQueueConfig>)
    requires
        is_opt_queue_config_json(j1, o),
        is_opt_queue_config_json(j2, o),
    ensures
        jsim(j1, j2),
{
    match o {
        None => {},
        Some(c) => {
            let u = j1->Obj_0;
            let v = j2->Obj_0;
            assert forall|i: int| 0 <= i < u@.len() implies (#[trigger] u@[i]).0@ == v@[i].0@
                && jsim(u@[i].1, v@[i].1) by {
                if i == 0 {
                    lemma_opt_str_arr_sim(u@[i].1, v@[i].1, c.publish_queues);
                } else {
                    lemma_opt_str_arr_sim(u@[i].1, v@[i].1, c.subscribe_queues);
                }
            }
        },
    }
}

proof fn lemma_service_sim(j1: Json, j2: Json, s: ServiceDefinition)
    requires
        is_service_json(j1, s),
        is_service_json(j2, s),
    ensures
        jsim(j1, j2),
{
    let u = j1->Obj_0;
    let v = j2->Obj_0;
    assert forall|i: int| 0 <= i < u@.len() implies (#[trigger] u@[i]).0@ == v@[i].0@ && jsim(
        u@[i].1,
        v@[i].1,
    ) by {
        if i == 2 {
            lemma_opt_str_sim(u@[i].1, v@[i].1, s.github_repo);
        } else if i == 3 {
            lemma_opt_str_sim(u@[i].1, v@[i].1, s.description);
        } else if i == 4 {
            lemma_opt_str_arr_sim(u@[i].1, v@[i].1, s.grpc_servers);
        } else if i == 5 {
            lemma_opt_str_arr_sim(u@[i].1, v@[i].1, s.grpc_clients);
        } else if i == 6 {
            lemma_opt_queue_config_sim(u@[i].1, v@[i].1, s.queue);
        } else if i == 8 {
            lemma_str_pairs_sim(u@[i].1, v@[i].1, s.metadata@);
        }
    }
}

proof fn lemma_schema_field_sim(j1: Json, j2: Json, f: SchemaField)
    requires
        is_schema_field_json(j1, f),
        is_schema_field_json(j2, f),
    ensures
        jsim(j1, j2),
{
    let u = j1->Obj_0;
    let v = j2->Obj_0;
    assert forall|i: int| 0 <= i < u@.len() implies (#[trigger] u@[i]).0@ == v@[i].0@ && jsim(
        u@[i].1,
        v@[i].1,
    ) by {
        if i == 2 {
            lemma_opt_str_sim(u@[i].1, v@[i].1, f.description);
        }
    }
}

proof fn lemma_opt_schema_sim(j1: Json, j2: Json, o: Option<MessageSchema>)
    requires
        is_opt_schema_json(j1, o),
        is_opt_schema_json(j2, o),
    ensures
        jsim(j1, j2),
{
    match o {
        None => {},
        Some(m) => {
            let u = j1->Obj_0;
            let v = j2->Obj_0;
            assert forall|i: int| 0 <= i < u@.len() implies (#[trigger] u@[i]).0@ == v@[i].0@
                && jsim(u@[i].1, v@[i].1) by {
                if i == 1 {
                    let fu = u@[i].1->Arr_0;
                    let fv = v@[i].1->Arr_0;
                    assert forall|k: int| 0 <= k < fu@.len() implies jsim(
                        #[trigger] fu@[k],
                        fv@[k],
                    ) by {
                        assert(is_schema_field_json(fu@[k], m.fields@[k]));
                        assert(is_schema_field_json(fv@[k], m.fields@[k]));
                        lemma_schema_field_sim(fu@[k], fv@[k], m.fields@[k]);
                    }
                    assert(jsim(u@[i].1, v@[i].1));
                } else if i == 2 {
                    lemma_opt_str_sim(u@[i].1, v@[i].1, m.notes);
                }
            }
        },
    }
}

proof fn lemma_queue_contract_sim(j1: Json, j2: Json, q: QueueContract)
    requires
        is_queue_contract_json(j1, q),
        is_queue_contract_json(j2, q),
    ensures
        jsim(j1, j2),
{
    let u = j1->Obj_0;
    let v = j2->Obj_0;
    assert forall|i: int| 0 <= i < u@.len() implies (#[trigger] u@[i]).0@ == v@[i].0@ && jsim(
        u@[i].1,
        v@[i].1,
    ) by {
        if i == 1 {
            lemma_opt_str_sim(u@[i].1, v@[i].1, q.description);
        } else if i == 2 {
            lemma_opt_schema_sim(u@[i].1, v@[i].1, q.message_schema);
        }
    }
}

proof fn lemma_nosql_contract_sim(j1: Json, j2: Json, n: NosqlContract)
    requires
        is_nosql_contract_json(j1, n),
        is_nosql_contract_json(j2, n),
    ensures
        jsim(j1, j2),
{
    let u = j1->Obj_0;
    let v = j2->Obj_0;
    assert forall|i: int| 0 <= i < u@.len() implies (#[trigger] u@[i]).0@ == v@[i].0@ && jsim(
        u@[i].1,
        v@[i].1,
    ) by {
        if i == 1 {
            lemma_opt_str_sim(u@[i].1, v@[i].1, n.table_name);
        } else if i == 2 {
            lemma_opt_str_sim(u@[i].1, v@[i].1, n.description);
        } else if i == 3 {
            lemma_opt_schema_sim(u@[i].1, v@[i].1, n.schema);
        }
    }
}

proof fn lemma_proto_contract_sim(j1: Json, j2: Json, p: ProtoContract)
    requires
        is_proto_contract_json(j1, p),
        is_proto_contract_json(j2, p),
    ensures
        jsim(j1, j2),
{
    let u = j1->Obj_0;
    let v = j2->Obj_0;
    assert forall|i: int| 0 <= i < u@.len() implies (#[trigger] u@[i]).0@ == v@[i].0@ && jsim(
        u@[i].1,
        v@[i].1,
    ) by {}
}

proof fn lemma_services_sim(j1: Json, j2: Json, ss: Seq<ServiceDefinition>)
    requires
        is_services_json(j1, ss),
        is_services_json(j2, ss),
    ensures
        jsim(j1, j2),
{
    let u = j1->Arr_0;
    let v = j2->Arr_0;
    assert forall|i: int| 0 <= i < u@.len() implies jsim(#[trigger] u@[i], v@[i]) by {
        assert(is_service_json(u@[i], ss[i]));
        assert(is_service_json(v@[i], ss[i]));
        lemma_service_sim(u@[i], v@[i], ss[i]);
    }
}

proof fn lemma_queue_contracts_sim(j1: Json, j2: Json, qs: Seq<QueueContract>)
    requires
        is_queue_contracts_json(j1, qs),
        is_queue_contracts_json(j2, qs),
    ensures
        jsim(j1, j2),
{
    let u = j1->Arr_0;
    let v = j2->Arr_0;
    assert forall|i: int| 0 <= i < u@.len() implies jsim(#[trigger] u@[i], v@[i]) by {
        assert(is_queue_contract_json(u@[i], qs[i]));
        assert(is_queue_contract_json(v@[i], qs[i]));
        lemma_queue_contract_sim(u@[i], v@[i], qs[i]);
    }
}

proof fn lemma_nosql_contracts_sim(j1: Json, j2: Json, ns: Seq<NosqlContract>)
    requires
        is_nosql_contracts_json(j1, ns),
        is_nosql_contracts_json(j2, ns),
    ensures
        jsim(j1, j2),
{
    let u = j1->Arr_0;
    let v = j2->Arr_0;
    assert forall|i: int| 0 <= i < u@.len() implies jsim(#[trigger] u@[i], v@[i]) by {
        assert(is_nosql_contract_json(u@[i], ns[i]));
        assert(is_nosql_contract_json(v@[i], ns[i]));
        lemma_nosql_contract_sim(u@[i], v@[i], ns[i]);
    }
}

proof fn lemma_proto_contracts_sim(j1: Json, j2: Json, ps: Seq<ProtoContract>)
    requires
        is_proto_contracts_json(j1, ps),
        is_proto_contracts_json(j2, ps),
    ensures
        jsim(j1, j2),
{
    let u = j1->Arr_0;
    let v = j2->Arr_0;
    assert forall|i: int| 0 <= i < u@.len() implies jsim(#[trigger] u@[i], v@[i]) by {
        assert(is_proto_contract_json(u@[i], ps[i]));
        assert(is_proto_contract_json(v@[i], ps[i]));
        lemma_proto_contract_sim(u@[i], v@[i], ps[i]);
    }
}

proof fn lemma_datasource_sim(j1: Json, j2: Json, d: Datasource)
    requires
        is_datasource_json(j1, d),
        is_datasource_json(j2, d),
    ensures
        jsim(j1, j2),
{
    let u = j1->Obj_0;
    let v = j2->Obj_0;
    assert forall|i: int| 0 <= i < u@.len() implies (#[trigger] u@[i]).0@ == v@[i].0@ && jsim(
        u@[i].1,
        v@[i].1,
    ) by {
        if i == 0 {
            lemma_services_sim(u@[i].1, v@[i].1, d.services@);
        } else if i == 1 {
            lemma_queue_contracts_sim(u@[i].1, v@[i].1, d.queue_contracts@);
        } else if i == 2 {
            lemma_nosql_contracts_sim(u@[i].1, v@[i].1, d.nosql_contracts@);
        } else {
            lemma_proto_contracts_sim(u@[i].1, v@[i].1, d.proto_contracts@);
        }
    }
}

proof fn lemma_content_sim(c1: Json, c2: Json, t: Seq<char>)
    requires
        is_content_json(c1, t),
        is_content_json(c2, t),
    ensures
        jsim(c1, c2),
{
    let u = c1->Obj_0;
    let v = c2->Obj_0;
    assert forall|i: int| 0 <= i < u@.len() implies (#[trigger] u@[i]).0@ == v@[i].0@ && jsim(
        u@[i].1,
        v@[i].1,
    ) by {
        let au = u@[0].1->Arr_0;
        let av = v@[0].1->Arr_0;
        assert forall|k: int| 0 <= k < au@.len() implies jsim(#[trigger] au@[k], av@[k]) by {
            let eu = au@[0]->Obj_0;
            let ev = av@[0]->Obj_0;
            assert forall|n: int| 0 <= n < eu@.len() implies (#[trigger] eu@[n]).0@ == ev@[n].0@
                && jsim(eu@[n].1, ev@[n].1) by {}
            assert(jsim(au@[0], av@[0]));
        }
        assert(jsim(u@[0].1, v@[0].1));
    }
}

/// For one call and one catalog, `tools/call` has one possible answer: any
/// two bodies that meet [`tool_call_post`] for the same parameters and
/// catalog serialize their content identically (or carry the same error), so
/// the contract's witnesses hide no freedom.
pub proof fn lemma_tool_call_post_unique(
    b1: RpcBody,
    b2: RpcBody,
    params: Json,
    cat: Datasource,
)
    requires
        tool_call_post(b1, params, cat),
        tool_call_post(b2, params, cat),
    ensures
        match (b1, b2) {
            (RpcBody::Success(c1), RpcBody::Success(c2)) => jtext(c1) == jtext(c2),
            (RpcBody::Failure(x1, m1), RpcBody::Failure(x2, m2)) => x1 == x2 && m1@ == m2@,
            _ => false,
        },
{
    let tname = str_of(jlookup(params, "name"@));
    if tname == "get_datasource"@ {
        let c1 = b1->Success_0;
        let c2 = b2->Success_0;
        let ej1 = choose|ej: Json|
            #[trigger] is_datasource_json(ej, cat) && is_content_json(c1, jtext(ej));
        let ej2 = choose|ej: Json|
            #[trigger] is_datasource_json(ej, cat) && is_content_json(c2, jtext(ej));
        lemma_datasource_sim(ej1, ej2, cat);
        lemma_jsim_jtext(ej1, ej2);
        lemma_content_sim(c1, c2, jtext(ej1));
        lemma_jsim_jtext(c1, c2);
    } else if tname == "list_services"@ {
        let c1 = b1->Success_0;
        let c2 = b2->Success_0;
        let ej1 = choose|ej: Json|
            #[trigger] is_services_json(ej, cat.services@) && is_content_json(c1, jtext(ej));
        let ej2 = choose|ej: Json|
            #[trigger] is_services_json(ej, cat.services@) && is_content_json(c2, jtext(ej));
        lemma_services_sim(ej1, ej2, cat.services@);
        lemma_jsim_jtext(ej1, ej2);
        lemma_content_sim(c1, c2, jtext(ej1));
        lemma_jsim_jtext(c1, c2);
    } else if tname == "get_service"@ {
        let key = arg_str_spec(params, "name"@);
        let c1 = b1->Success_0;
        let c2 = b2->Success_0;
        if has_service(cat.services@, key) {
            let (i1, ej1) = choose|i: int, ej: Json|
                #[trigger] first_service_idx(cat.services@, key, i) && #[trigger] is_service_json(
                    ej,
                    cat.services@[i],
                ) && is_content_json(c1, jtext(ej));
            let (i2, ej2) = choose|i: int, ej: Json|
                #[trigger] first_service_idx(cat.services@, key, i) && #[trigger] is_service_json(
                    ej,
                    cat.services@[i],
                ) && is_content_json(c2, jtext(ej));
            assert(i1 == i2);
            lemma_service_sim(ej1, ej2, cat.services@[i1]);
            lemma_jsim_jtext(ej1, ej2);
            lemma_content_sim(c1, c2, jtext(ej1));
            lemma_jsim_jtext(c1, c2);
        } else {
            lemma_content_sim(c1, c2, "Service '"@ + key + "' not found"@);
            lemma_jsim_jtext(c1, c2);
        }
    } else if tname == "list_queue_contracts"@ {
        let c1 = b1->Success_0;
        let c2 = b2->Success_0;
        let ej1 = choose|ej: Json|
            #[trigger] is_queue_contracts_json(ej, cat.queue_contracts@) && is_content_json(
                c1,
                jtext(ej),
            );
        let ej2 = choose|ej: Json|
            #[trigger] is_queue_contracts_json(ej, cat.queue_contracts@) && is_content_json(
                c2,
                jtext(ej),
            );
        lemma_queue_contracts_sim(ej1, ej2, cat.queue_contracts@);
        lemma_jsim_jtext(ej1, ej2);
        lemma_content_sim(c1, c2, jtext(ej1));
        lemma_jsim_jtext(c1, c2);
    } else if tname == "get_queue_contract"@ {
        let key = arg_str_spec(params, "topic"@);
        let c1 = b1->Success_0;
        let c2 = b2->Success_0;
        if has_queue_contract(cat.queue_contracts@, key) {
            let (i1, ej1) = choose|i: int, ej: Json|
                #[trigger] first_queue_idx(cat.queue_contracts@, key, i)
                    && #[trigger] is_queue_contract_json(ej, cat.queue_contracts@[i])
                    && is_content_json(c1, jtext(ej));
            let (i2, ej2) = choose|i: int, ej: Json|
                #[trigger] first_queue_idx(cat.queue_contracts@, key, i)
                    && #[trigger] is_queue_contract_json(ej, cat.queue_contracts@[i])
                    && is_content_json(c2, jtext(ej));
            assert(i1 == i2);
            lemma_queue_contract_sim(ej1, ej2, cat.queue_contracts@[i1]);
            lemma_jsim_jtext(ej1, ej2);
            lemma_content_sim(c1, c2, jtext(ej1));
            lemma_jsim_jtext(c1, c2);
        } else {
            lemma_content_sim(c1, c2, "Queue contract '"@ + key + "' not found"@);
            lemma_jsim_jtext(c1, c2);
        }
    } else if tname == "list_nosql_contracts"@ {
        let c1 = b1->Success_0;
        let c2 = b2->Success_0;
        let ej1 = choose|ej: Json|
            #[trigger] is_nosql_contracts_json(ej, cat.nosql_contracts@) && is_content_json(
                c1,
                jtext(ej),
            );
        let ej2 = choose|ej: Json|
            #[trigger] is_nosql_contracts_json(ej, cat.nosql_contracts@) && is_content_json(
                c2,
                jtext(ej),
            );
        lemma_nosql_contracts_sim(ej1, ej2, cat.nosql_contracts@);
        lemma_jsim_jtext(ej1, ej2);
        lemma_content_sim(c1, c2, jtext(ej1));
        lemma_jsim_jtext(c1, c2);
    } else if tname == "get_nosql_contract"@ {
        let key = arg_str_spec(params, "entity"@);
        let c1 = b1->Success_0;
        let c2 = b2->Success_0;
        if has_nosql_contract(cat.nosql_contracts@, key) {
            let (i1, ej1) = choose|i: int, ej: Json|
                #[trigger] first_nosql_idx(cat.nosql_contracts@, key, i)
                    && #[trigger] is_nosql_contract_json(ej, cat.nosql_contracts@[i])
                    && is_content_json(c1, jtext(ej));
            let (i2, ej2) = choose|i: int, ej: Json|
                #[trigger] first_nosql_idx(cat.nosql_contracts@, key, i)
                    && #[trigger] is_nosql_contract_json(ej, cat.nosql_contracts@[i])
                    && is_content_json(c2, jtext(ej));
            assert(i1 == i2);
            lemma_nosql_contract_sim(ej1, ej2, cat.nosql_contracts@[i1]);
            lemma_jsim_jtext(ej1, ej2);
            lemma_content_sim(c1, c2, jtext(ej1));
            lemma_jsim_jtext(c1, c2);
        } else {
            lemma_content_sim(c1, c2, "NoSQL contract '"@ + key + "' not found"@);
            lemma_jsim_jtext(c1, c2);
        }
    } else if tname == "list_proto_contracts"@ {
        let c1 = b1->Success_0;
        let c2 = b2->Success_0;
        let ej1 = choose|ej: Json|
            #[trigger] is_proto_contracts_json(ej, cat.proto_contracts@) && is_content_json(
                c1,
                jtext(ej),
            );
        let ej2 = choose|ej: Json|
            #[trigger] is_proto_contracts_json(ej, cat.proto_contracts@) && is_content_json(
                c2,
                jtext(ej),
            );
        lemma_proto_contracts_sim(ej1, ej2, cat.proto_contracts@);
        lemma_jsim_jtext(ej1, ej2);
        lemma_content_sim(c1, c2, jtext(ej1));
        lemma_jsim_jtext(c1, c2);
    } else if tname == "get_proto_contract"@ {
        let key = arg_str_spec(params, "name"@);
        let c1 = b1->Success_0;
        let c2 = b2->Success_0;
        if has_proto_contract(cat.proto_contracts@, key) {
            let (i1, ej1) = choose|i: int, ej: Json|
                #[trigger] first_proto_idx(cat.proto_contracts@, key, i)
                    && #[trigger] is_proto_contract_json(ej, cat.proto_contracts@[i])
                    && is_content_json(c1, jtext(ej));
            let (i2, ej2) = choose|i: int, ej: Json|
                #[trigger] first_proto_idx(cat.proto_contracts@, key, i)
                    && #[trigger] is_proto_contract_json(ej, cat.proto_contracts@[i])
                    && is_content_json(c2, jtext(ej));
            assert(i1 == i2);
            lemma_proto_contract_sim(ej1, ej2, cat.proto_contracts@[i1]);
            lemma_jsim_jtext(ej1, ej2);
            lemma_content_sim(c1, c2, jtext(ej1));
            lemma_jsim_jtext(c1, c2);
        } else {
            lemma_content_sim(c1, c2, "Proto contract '"@ + key + "' not found"@);
            lemma_jsim_jtext(c1, c2);
        }
    }
}

} // verus!
