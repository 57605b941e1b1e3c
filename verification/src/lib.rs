//! A service/contract catalog with an agent-facing JSON-RPC bridge.
//!
//! The library holds the catalog store, a session registry with per-session
//! message queues, the event-stream state machine, and the JSON-RPC
//! dispatcher, all verified. I/O (HTTP, streaming, file persistence) lives
//! in the surrounding application.

pub mod json;
pub mod model;
pub mod rpc;
pub mod session;
pub mod storage;
pub mod stream;
pub mod tools;
