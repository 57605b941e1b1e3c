use codegang_datasource::model::{
    Datasource, NosqlContract, ProtoContract, QueueContract, ServiceDefinition,
};
use codegang_datasource::storage::AppState;

fn empty_datasource() -> Datasource {
    Datasource {
        services: Vec::new(),
        queue_contracts: Vec::new(),
        nosql_contracts: Vec::new(),
        proto_contracts: Vec::new(),
    }
}

fn service(name: &str) -> ServiceDefinition {
    ServiceDefinition {
        name: name.to_string(),
        service_type: "grpc".to_string(),
        github_repo: None,
        description: None,
        grpc_servers: None,
        grpc_clients: None,
        queue: None,
        is_http_server: None,
        metadata: Vec::new(),
    }
}

#[test]
fn upsert_then_get_service() {
    let mut state = AppState::new(empty_datasource());
    assert!(state.get_service("alpha").is_none());
    state.upsert_service(service("alpha"));
    let got = state.get_service("alpha").expect("inserted service is found");
    assert_eq!(got.name, "alpha");
    assert!(state.get_service("beta").is_none());
}

#[test]
fn upsert_replaces_by_key() {
    let mut state = AppState::new(empty_datasource());
    state.upsert_service(service("alpha"));
    let mut replacement = service("alpha");
    replacement.description = Some("replaced".to_string());
    state.upsert_service(replacement);
    assert_eq!(state.get_services().len(), 1);
    assert_eq!(
        state.get_service("alpha").unwrap().description.as_deref(),
        Some("replaced")
    );
}

#[test]
fn delete_service_present_and_absent() {
    let mut state = AppState::new(empty_datasource());
    state.upsert_service(service("alpha"));
    assert!(state.delete_service("alpha").is_ok());
    assert!(state.get_service("alpha").is_none());
    let err = state.delete_service("alpha").unwrap_err();
    assert_eq!(err, "Service 'alpha' not found");
}

#[test]
fn queue_contract_roundtrip() {
    let mut state = AppState::new(empty_datasource());
    state.upsert_queue_contract(QueueContract {
        topic_name: "user-registered".to_string(),
        description: Some("signup events".to_string()),
        message_schema: None,
    });
    assert_eq!(
        state.get_queue_contract("user-registered").unwrap().topic_name,
        "user-registered"
    );
    let err = state.delete_queue_contract("missing").unwrap_err();
    assert_eq!(err, "Queue contract 'missing' not found");
    assert!(state.delete_queue_contract("user-registered").is_ok());
    assert!(state.get_queue_contracts().is_empty());
}

#[test]
fn nosql_contract_roundtrip() {
    let mut state = AppState::new(empty_datasource());
    state.upsert_nosql_contract(NosqlContract {
        entity_name: "Settings".to_string(),
        table_name: Some("settings".to_string()),
        description: None,
        schema: None,
    });
    assert_eq!(state.get_nosql_contract("Settings").unwrap().entity_name, "Settings");
    let err = state.delete_nosql_contract("Nope").unwrap_err();
    assert_eq!(err, "NoSQL contract 'Nope' not found");
}

#[test]
fn proto_contract_roundtrip() {
    let mut state = AppState::new(empty_datasource());
    state.upsert_proto_contract(ProtoContract {
        name: "UsersGrpcService".to_string(),
        raw_proto: "syntax = \"proto3\";".to_string(),
    });
    assert_eq!(
        state.get_proto_contract("UsersGrpcService").unwrap().raw_proto,
        "syntax = \"proto3\";"
    );
    let err = state.delete_proto_contract("Ghost").unwrap_err();
    assert_eq!(err, "Proto contract 'Ghost' not found");
}

#[test]
fn replace_datasource_swaps_everything() {
    let mut state = AppState::new(empty_datasource());
    state.upsert_service(service("alpha"));
    let mut ds = empty_datasource();
    ds.services.push(service("beta"));
    state.replace_datasource(ds);
    assert!(state.get_service("alpha").is_none());
    assert!(state.get_service("beta").is_some());
    assert_eq!(state.get_datasource().services.len(), 1);
}
