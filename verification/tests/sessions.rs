use codegang_datasource::session::{SessionRegistry, SESSION_QUEUE_CAPACITY};
use codegang_datasource::stream::{
    endpoint_url, stream_open_event, stream_step, ChannelOutcome, StreamEvent,
};

#[test]
fn open_session_registers_a_fresh_id() {
    let mut reg = SessionRegistry::new();
    let id = reg.open_session().expect("a fresh UUID cannot collide in an empty registry");
    assert_eq!(id.len(), 36);
    assert!(reg.contains_session(&id));
    assert!(reg.dispatch(&id, "hello".to_string()).is_ok());
}

#[test]
fn dispatch_to_unknown_session_fails() {
    let mut reg = SessionRegistry::new();
    assert!(reg.dispatch("nobody", "hello".to_string()).is_err());
}

#[test]
fn messages_leave_in_enqueue_order() {
    let mut reg = SessionRegistry::new();
    assert!(reg.register_session("s1".to_string()));
    reg.dispatch("s1", "first".to_string()).unwrap();
    reg.dispatch("s1", "second".to_string()).unwrap();
    reg.dispatch("s1", "third".to_string()).unwrap();
    assert_eq!(reg.next_message("s1").as_deref(), Some("first"));
    assert_eq!(reg.next_message("s1").as_deref(), Some("second"));
    assert_eq!(reg.next_message("s1").as_deref(), Some("third"));
    assert!(reg.next_message("s1").is_none());
}

#[test]
fn queues_are_independent_across_sessions() {
    let mut reg = SessionRegistry::new();
    assert!(reg.register_session("a".to_string()));
    assert!(reg.register_session("b".to_string()));
    reg.dispatch("a", "for a".to_string()).unwrap();
    reg.dispatch("b", "for b".to_string()).unwrap();
    assert_eq!(reg.next_message("b").as_deref(), Some("for b"));
    assert_eq!(reg.next_message("a").as_deref(), Some("for a"));
}

#[test]
fn register_refuses_duplicate_id() {
    let mut reg = SessionRegistry::new();
    assert!(reg.register_session("dup".to_string()));
    assert!(!reg.register_session("dup".to_string()));
}

#[test]
fn close_removes_session_and_is_idempotent() {
    let mut reg = SessionRegistry::new();
    assert!(reg.register_session("gone".to_string()));
    reg.close("gone");
    assert!(!reg.contains_session("gone"));
    assert!(reg.dispatch("gone", "late".to_string()).is_err());
    reg.close("gone");
    reg.close("never-existed");
}

#[test]
fn full_queue_drops_silently() {
    let mut reg = SessionRegistry::new();
    assert!(reg.register_session("full".to_string()));
    for i in 0..SESSION_QUEUE_CAPACITY + 3 {
        assert!(reg.dispatch("full", format!("m{i}")).is_ok());
    }
    let mut delivered = 0;
    while let Some(m) = reg.next_message("full") {
        assert_eq!(m, format!("m{delivered}"));
        delivered += 1;
    }
    assert_eq!(delivered, SESSION_QUEUE_CAPACITY);
}

#[test]
fn endpoint_url_names_host_and_session() {
    assert_eq!(
        endpoint_url("localhost:8080", "abc-123"),
        "http://localhost:8080/message?session_id=abc-123"
    );
}

#[test]
fn stream_opens_with_endpoint_event() {
    match stream_open_event("h", "sid") {
        StreamEvent::Endpoint(u) => assert_eq!(u, "http://h/message?session_id=sid"),
        _ => panic!("the first event must be the endpoint handshake"),
    }
}

#[test]
fn stream_step_maps_outcomes() {
    match stream_step(ChannelOutcome::Received("msg".to_string())) {
        Some(StreamEvent::Message(m)) => assert_eq!(m, "msg"),
        _ => panic!("a received message must be forwarded"),
    }
    assert!(matches!(stream_step(ChannelOutcome::TimedOut), Some(StreamEvent::Keepalive)));
    assert!(stream_step(ChannelOutcome::Closed).is_none());
}
