//! The catalog's data model: services, queue contracts, NoSQL contracts and
//! proto contracts, each identified by a unique natural key.

use vstd::prelude::*;

verus! {

/// Top-level datasource containing services and all contract registries.
pub struct Datasource {
    pub services: Vec<ServiceDefinition>,
    pub queue_contracts: Vec<QueueContract>,
    pub nosql_contracts: Vec<NosqlContract>,
    pub proto_contracts: Vec<ProtoContract>,
}

/// A microservice definition, keyed by `name`.
pub struct ServiceDefinition {
    pub name: String,
    pub service_type: String,
    pub github_repo: Option<String>,
    pub description: Option<String>,
    pub grpc_servers: Option<Vec<String>>,
    pub grpc_clients: Option<Vec<String>>,
    pub queue: Option<ServiceQueueConfig>,
    pub is_http_server: Option<bool>,
    pub metadata: Vec<(String, String)>,
}

/// Which queues a service publishes to and subscribes to.
pub struct ServiceQueueConfig {
    pub publish_queues: Option<Vec<String>>,
    pub subscribe_queues: Option<Vec<String>>,
}

/// A service-bus queue/topic contract, keyed by `topic_name`.
pub struct QueueContract {
    pub topic_name: String,
    pub description: Option<String>,
    pub message_schema: Option<MessageSchema>,
}

/// Language-agnostic description of a message/event payload.
pub struct MessageSchema {
    pub name: String,
    pub fields: Vec<SchemaField>,
    pub notes: Option<String>,
}

/// A single field inside a message or entity schema.
pub struct SchemaField {
    pub name: String,
    pub field_type: String,
    pub description: Option<String>,
}

/// A NoSQL entity contract, keyed by `entity_name`.
pub struct NosqlContract {
    pub entity_name: String,
    pub table_name: Option<String>,
    pub description: Option<String>,
    pub schema: Option<MessageSchema>,
}

/// A protobuf/gRPC contract, keyed by `name`.
pub struct ProtoContract {
    pub name: String,
    pub raw_proto: String,
}

// ── Key uniqueness ───────────────────────────────────────────────

pub open spec fn unique_service_names(s: Seq<ServiceDefinition>) -> bool {
    forall|i: int, j: int| 0 <= i < j < s.len() ==> s[i].name@ != s[j].name@
}

pub open spec fn unique_topic_names(s: Seq<QueueContract>) -> bool {
    forall|i: int, j: int| 0 <= i < j < s.len() ==> s[i].topic_name@ != s[j].topic_name@
}

pub open spec fn unique_entity_names(s: Seq<NosqlContract>) -> bool {
    forall|i: int, j: int| 0 <= i < j < s.len() ==> s[i].entity_name@ != s[j].entity_name@
}

pub open spec fn unique_proto_names(s: Seq<ProtoContract>) -> bool {
    forall|i: int, j: int| 0 <= i < j < s.len() ==> s[i].name@ != s[j].name@
}

/// Within each collection of a well-formed datasource, keys are unique.
pub open spec fn datasource_wf(d: Datasource) -> bool {
    &&& unique_service_names(d.services@)
    &&& unique_topic_names(d.queue_contracts@)
    &&& unique_entity_names(d.nosql_contracts@)
    &&& unique_proto_names(d.proto_contracts@)
}

} // verus!
