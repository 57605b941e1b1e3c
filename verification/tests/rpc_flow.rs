use codegang_datasource::json::Json;
use codegang_datasource::model::{Datasource, ServiceDefinition};
use codegang_datasource::rpc::{handle_message, parse_request, PostStatus};
use codegang_datasource::session::SessionRegistry;
use codegang_datasource::storage::AppState;

fn s(x: &str) -> String {
    x.to_string()
}

fn empty_state() -> AppState {
    AppState::new(Datasource {
        services: Vec::new(),
        queue_contracts: Vec::new(),
        nosql_contracts: Vec::new(),
        proto_contracts: Vec::new(),
    })
}

fn request(id: i64, method: &str, params: Json) -> Json {
    Json::Obj(vec![
        (s("jsonrpc"), Json::Str(s("2.0"))),
        (s("id"), Json::Int(id)),
        (s("method"), Json::Str(s(method))),
        (s("params"), params),
    ])
}

fn open(reg: &mut SessionRegistry, id: &str) {
    assert!(reg.register_session(id.to_string()));
}

fn call_params(tool: &str, args: Vec<(String, Json)>) -> Json {
    Json::Obj(vec![(s("name"), Json::Str(s(tool))), (s("arguments"), Json::Obj(args))])
}

#[test]
fn parse_request_accepts_a_valid_envelope() {
    let body = request(7, "initialize", Json::Null);
    let req = parse_request(body).expect("a valid envelope parses");
    assert_eq!(req.method, "initialize");
    assert!(matches!(req.id, Some(Json::Int(7))));
    assert!(matches!(req.params, Json::Null));
}

#[test]
fn parse_request_rejects_bad_envelopes() {
    assert!(parse_request(Json::Arr(vec![])).is_err());
    assert!(parse_request(Json::Str(s("nope"))).is_err());
    assert!(parse_request(Json::Obj(vec![(s("method"), Json::Str(s("m")))])).is_err());
    assert!(parse_request(Json::Obj(vec![(s("jsonrpc"), Json::Str(s("2.0")))])).is_err());
    assert!(parse_request(Json::Obj(vec![
        (s("jsonrpc"), Json::Int(2)),
        (s("method"), Json::Str(s("m"))),
    ]))
    .is_err());
    assert!(parse_request(Json::Obj(vec![
        (s("jsonrpc"), Json::Str(s("2.0"))),
        (s("method"), Json::Null),
    ]))
    .is_err());
}

#[test]
fn parse_request_treats_null_or_absent_id_as_notification() {
    let no_id = Json::Obj(vec![
        (s("jsonrpc"), Json::Str(s("2.0"))),
        (s("method"), Json::Str(s("m"))),
    ]);
    let req = parse_request(no_id).unwrap();
    assert!(req.id.is_none());
    assert!(matches!(req.params, Json::Null));

    let null_id = Json::Obj(vec![
        (s("jsonrpc"), Json::Str(s("2.0"))),
        (s("id"), Json::Null),
        (s("method"), Json::Str(s("m"))),
    ]);
    assert!(parse_request(null_id).unwrap().id.is_none());
}

#[test]
fn initialize_reply_travels_over_the_stream() {
    let mut reg = SessionRegistry::new();
    let state = empty_state();
    open(&mut reg, "s1");
    let r = handle_message(&mut reg, &state, "s1", request(1, "initialize", Json::Null));
    assert!(matches!(r, PostStatus::Accepted));
    let event = reg.next_message("s1").expect("one response event");
    assert_eq!(
        event,
        "{\"jsonrpc\":\"2.0\",\"id\":1,\"result\":{\"protocolVersion\":\"2024-11-05\",\
         \"capabilities\":{\"tools\":{}},\"serverInfo\":{\"name\":\"codegang-datasource\",\
         \"version\":\"0.1.0\"}}}"
    );
    assert!(reg.next_message("s1").is_none());
}

#[test]
fn tools_list_names_are_the_nine_fixed_tools() {
    let mut reg = SessionRegistry::new();
    let mut state = empty_state();
    state.upsert_service(ServiceDefinition {
        name: s("anything"),
        service_type: s("grpc"),
        github_repo: None,
        description: None,
        grpc_servers: None,
        grpc_clients: None,
        queue: None,
        is_http_server: None,
        metadata: Vec::new(),
    });
    open(&mut reg, "s1");
    handle_message(&mut reg, &state, "s1", request(2, "tools/list", Json::Null));
    let event = reg.next_message("s1").expect("one response event");
    let v: serde_json::Value = serde_json::from_str(&event).unwrap();
    let names: Vec<&str> = v["result"]["tools"]
        .as_array()
        .unwrap()
        .iter()
        .map(|t| t["name"].as_str().unwrap())
        .collect();
    assert_eq!(
        names,
        vec![
            "get_datasource",
            "list_services",
            "get_service",
            "list_queue_contracts",
            "get_queue_contract",
            "list_nosql_contracts",
            "get_nosql_contract",
            "list_proto_contracts",
            "get_proto_contract",
        ]
    );
}

#[test]
fn get_service_tool_reports_missing_service_exactly() {
    let mut reg = SessionRegistry::new();
    let state = empty_state();
    open(&mut reg, "s1");
    let params = call_params("get_service", vec![(s("name"), Json::Str(s("X")))]);
    handle_message(&mut reg, &state, "s1", request(5, "tools/call", params));
    let event = reg.next_message("s1").unwrap();
    let v: serde_json::Value = serde_json::from_str(&event).unwrap();
    assert_eq!(v["id"], serde_json::Value::from(5));
    assert_eq!(
        v["result"]["content"][0]["text"],
        serde_json::Value::String("Service 'X' not found".to_string())
    );
    assert_eq!(v["result"]["content"][0]["type"], serde_json::Value::String("text".to_string()));
}

#[test]
fn get_service_tool_returns_the_service_mirror() {
    let mut reg = SessionRegistry::new();
    let mut state = empty_state();
    state.upsert_service(ServiceDefinition {
        name: s("contest-engine-grpc"),
        service_type: s("grpc"),
        github_repo: Some(s("org/contest-engine")),
        description: None,
        grpc_servers: Some(vec![s("ContestService")]),
        grpc_clients: None,
        queue: None,
        is_http_server: Some(false),
        metadata: vec![(s("team"), s("core"))],
    });
    open(&mut reg, "s1");
    let params = call_params(
        "get_service",
        vec![(s("name"), Json::Str(s("contest-engine-grpc")))],
    );
    handle_message(&mut reg, &state, "s1", request(6, "tools/call", params));
    let event = reg.next_message("s1").unwrap();
    let v: serde_json::Value = serde_json::from_str(&event).unwrap();
    let text = v["result"]["content"][0]["text"].as_str().unwrap();
    let svc: serde_json::Value = serde_json::from_str(text).unwrap();
    assert_eq!(svc["name"], "contest-engine-grpc");
    assert_eq!(svc["type"], "grpc");
    assert_eq!(svc["github_repo"], "org/contest-engine");
    assert_eq!(svc["description"], serde_json::Value::Null);
    assert_eq!(svc["grpc_servers"][0], "ContestService");
    assert_eq!(svc["is_http_server"], false);
    assert_eq!(svc["metadata"]["team"], "core");
}

#[test]
fn unknown_tool_is_an_invalid_params_error() {
    let mut reg = SessionRegistry::new();
    let state = empty_state();
    open(&mut reg, "s1");
    let params = call_params("no_such_tool", vec![]);
    handle_message(&mut reg, &state, "s1", request(9, "tools/call", params));
    let event = reg.next_message("s1").unwrap();
    assert_eq!(
        event,
        "{\"jsonrpc\":\"2.0\",\"id\":9,\"error\":{\"code\":-32602,\
         \"message\":\"Unknown tool: no_such_tool\"}}"
    );
}

#[test]
fn unknown_method_is_a_method_not_found_error() {
    let mut reg = SessionRegistry::new();
    let state = empty_state();
    open(&mut reg, "s1");
    handle_message(&mut reg, &state, "s1", request(3, "bogus/thing", Json::Null));
    let event = reg.next_message("s1").unwrap();
    assert_eq!(
        event,
        "{\"jsonrpc\":\"2.0\",\"id\":3,\"error\":{\"code\":-32601,\
         \"message\":\"Method not found: bogus/thing\"}}"
    );
}

#[test]
fn notification_produces_no_stream_event() {
    let mut reg = SessionRegistry::new();
    let state = empty_state();
    open(&mut reg, "s1");
    let body = Json::Obj(vec![
        (s("jsonrpc"), Json::Str(s("2.0"))),
        (s("method"), Json::Str(s("initialize"))),
    ]);
    let r = handle_message(&mut reg, &state, "s1", body);
    assert!(matches!(r, PostStatus::Accepted));
    assert!(reg.next_message("s1").is_none());
}

#[test]
fn unknown_session_answers_not_found() {
    let mut reg = SessionRegistry::new();
    let state = empty_state();
    let r = handle_message(&mut reg, &state, "never-opened", request(1, "initialize", Json::Null));
    assert!(matches!(r, PostStatus::NotFound));
}

#[test]
fn closed_session_answers_not_found() {
    let mut reg = SessionRegistry::new();
    let state = empty_state();
    open(&mut reg, "s1");
    reg.close("s1");
    let r = handle_message(&mut reg, &state, "s1", request(1, "initialize", Json::Null));
    assert!(matches!(r, PostStatus::NotFound));
}

#[test]
fn malformed_body_sends_one_parse_error_event() {
    let mut reg = SessionRegistry::new();
    let state = empty_state();
    open(&mut reg, "s1");
    let body = Json::Obj(vec![(s("hello"), Json::Int(1))]);
    let r = handle_message(&mut reg, &state, "s1", body);
    assert!(matches!(r, PostStatus::Accepted));
    let event = reg.next_message("s1").expect("exactly one parse-error event");
    assert_eq!(
        event,
        "{\"jsonrpc\":\"2.0\",\"id\":null,\"error\":{\"code\":-32700,\
         \"message\":\"Parse error: invalid JSON-RPC envelope\"}}"
    );
    assert!(reg.next_message("s1").is_none());
}

#[test]
fn get_datasource_tool_mirrors_the_catalog() {
    let mut reg = SessionRegistry::new();
    let state = empty_state();
    open(&mut reg, "s1");
    let params = call_params("get_datasource", vec![]);
    handle_message(&mut reg, &state, "s1", request(4, "tools/call", params));
    let event = reg.next_message("s1").unwrap();
    let v: serde_json::Value = serde_json::from_str(&event).unwrap();
    let text = v["result"]["content"][0]["text"].as_str().unwrap();
    assert_eq!(
        text,
        "{\"services\":[],\"queue_contracts\":[],\"nosql_contracts\":[],\"proto_contracts\":[]}"
    );
}

#[test]
fn other_lookup_tools_report_missing_keys_exactly() {
    let mut reg = SessionRegistry::new();
    let state = empty_state();
    open(&mut reg, "s1");
    let cases = vec![
        ("get_queue_contract", "topic", "Queue contract 'T' not found"),
        ("get_nosql_contract", "entity", "NoSQL contract 'T' not found"),
        ("get_proto_contract", "name", "Proto contract 'T' not found"),
    ];
    for (tool, arg, expected) in cases {
        let params = call_params(tool, vec![(s(arg), Json::Str(s("T")))]);
        handle_message(&mut reg, &state, "s1", request(1, "tools/call", params));
        let event = reg.next_message("s1").unwrap();
        let v: serde_json::Value = serde_json::from_str(&event).unwrap();
        assert_eq!(
            v["result"]["content"][0]["text"],
            serde_json::Value::String(expected.to_string())
        );
    }
}

#[test]
fn missing_argument_degrades_to_empty_key_lookup() {
    let mut reg = SessionRegistry::new();
    let state = empty_state();
    open(&mut reg, "s1");
    let params = Json::Obj(vec![(s("name"), Json::Str(s("get_service")))]);
    handle_message(&mut reg, &state, "s1", request(8, "tools/call", params));
    let event = reg.next_message("s1").unwrap();
    let v: serde_json::Value = serde_json::from_str(&event).unwrap();
    assert_eq!(
        v["result"]["content"][0]["text"],
        serde_json::Value::String("Service '' not found".to_string())
    );
}

#[test]
fn tools_call_without_params_is_an_unknown_tool() {
    let mut reg = SessionRegistry::new();
    let state = empty_state();
    open(&mut reg, "s1");
    let body = Json::Obj(vec![
        (s("jsonrpc"), Json::Str(s("2.0"))),
        (s("id"), Json::Int(2)),
        (s("method"), Json::Str(s("tools/call"))),
    ]);
    handle_message(&mut reg, &state, "s1", body);
    let event = reg.next_message("s1").unwrap();
    assert_eq!(
        event,
        "{\"jsonrpc\":\"2.0\",\"id\":2,\"error\":{\"code\":-32602,\"message\":\"Unknown tool: \"}}"
    );
}

#[test]
fn list_services_tool_renders_every_service() {
    let mut reg = SessionRegistry::new();
    let mut state = empty_state();
    for name in ["a-svc", "b-svc"] {
        state.upsert_service(ServiceDefinition {
            name: name.to_string(),
            service_type: s("http"),
            github_repo: None,
            description: None,
            grpc_servers: None,
            grpc_clients: None,
            queue: None,
            is_http_server: Some(true),
            metadata: Vec::new(),
        });
    }
    open(&mut reg, "s1");
    let params = call_params("list_services", vec![]);
    handle_message(&mut reg, &state, "s1", request(3, "tools/call", params));
    let event = reg.next_message("s1").unwrap();
    let v: serde_json::Value = serde_json::from_str(&event).unwrap();
    let text = v["result"]["content"][0]["text"].as_str().unwrap();
    let listed: serde_json::Value = serde_json::from_str(text).unwrap();
    let names: Vec<&str> =
        listed.as_array().unwrap().iter().map(|x| x["name"].as_str().unwrap()).collect();
    assert_eq!(names, vec!["a-svc", "b-svc"]);
}

#[test]
fn string_id_is_echoed_back() {
    let mut reg = SessionRegistry::new();
    let state = empty_state();
    open(&mut reg, "s1");
    let body = Json::Obj(vec![
        (s("jsonrpc"), Json::Str(s("2.0"))),
        (s("id"), Json::Str(s("req-88"))),
        (s("method"), Json::Str(s("bogus"))),
    ]);
    handle_message(&mut reg, &state, "s1", body);
    let event = reg.next_message("s1").unwrap();
    let v: serde_json::Value = serde_json::from_str(&event).unwrap();
    assert_eq!(v["id"], serde_json::Value::String("req-88".to_string()));
}
