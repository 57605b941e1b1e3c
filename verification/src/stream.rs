//! The event-stream state machine: what one open push connection emits. The
//! surrounding application owns the transport; it feeds each channel outcome
//! (a message, a liveness timeout, or closure) through [`stream_step`] and
//! forwards the returned event, stopping — and closing the session — when no
//! event comes back.

use vstd::prelude::*;
use vstd::string::StringExecFns;

verus! {

/// One event emitted over an open stream.
pub enum StreamEvent {
    /// The handshake: where to submit calls for this session. Sent once,
    /// first.
    Endpoint(String),
    /// A queued protocol message.
    Message(String),
    /// A liveness marker; not protocol content.
    Keepalive,
}

/// What one wait on the session's channel yielded.
pub enum ChannelOutcome {
    /// A message arrived.
    Received(String),
    /// The liveness interval passed with no traffic.
    TimedOut,
    /// The producer side closed the channel: the stream is over.
    Closed,
}

/// The address a client must POST its calls to, for the given host and
/// session.
pub open spec fn endpoint_text(host: Seq<char>, session_id: Seq<char>) -> Seq<char> {
    "http://"@ + host + "/message?session_id="@ + session_id
}

/// Builds the submit address for a session.
pub fn endpoint_url(host: &str, session_id: &str) -> (r: String)
    ensures
        r@ == endpoint_text(host@, session_id@),
{
    String::from_str("http://").concat(host).concat("/message?session_id=").concat(session_id)
}

/// The handshake event that opens every stream.
pub fn stream_open_event(host: &str, session_id: &str) -> (r: StreamEvent)
    ensures
        r matches StreamEvent::Endpoint(u) && u@ == endpoint_text(host@, session_id@),
{
    StreamEvent::Endpoint(endpoint_url(host, session_id))
}

/// What one loop turn emits for one channel outcome; nothing means the
/// stream ends (and the session must be closed).
pub open spec fn step_event(o: ChannelOutcome) -> Option<StreamEvent> {
    match o {
        ChannelOutcome::Received(m) => Some(StreamEvent::Message(m)),
        ChannelOutcome::TimedOut => Some(StreamEvent::Keepalive),
        ChannelOutcome::Closed => None,
    }
}

/// One loop turn of an open stream.
pub fn stream_step(o: ChannelOutcome) -> (r: Option<StreamEvent>)
    ensures
        r == step_event(o),
{
    match o {
        ChannelOutcome::Received(m) => Some(StreamEvent::Message(m)),
        ChannelOutcome::TimedOut => Some(StreamEvent::Keepalive),
        ChannelOutcome::Closed => None,
    }
}

/// The events a stream emits after its handshake, for the channel outcomes
/// `outs`: one event per outcome, stopping at the first closure.
pub open spec fn body_events(outs: Seq<ChannelOutcome>) -> Seq<StreamEvent>
    decreases outs.len(),
{
    if outs.len() == 0 {
        Seq::empty()
    } else {
        match step_event(outs[0]) {
            None => Seq::empty(),
            Some(e) => seq![e] + body_events(outs.drop_first()),
        }
    }
}

/// Every event an open stream emits: the handshake naming `url`, then one
/// event per channel outcome until the channel closes.
pub open spec fn stream_events(url: String, outs: Seq<ChannelOutcome>) -> Seq<StreamEvent> {
    seq![StreamEvent::Endpoint(url)] + body_events(outs)
}

proof fn lemma_body_events_no_endpoint(outs: Seq<ChannelOutcome>)
    ensures
        forall|i: int|
            0 <= i < body_events(outs).len() ==> !(#[trigger] body_events(outs)[i]
                is Endpoint),
    decreases outs.len(),
{
    if outs.len() > 0 {
        lemma_body_events_no_endpoint(outs.drop_first());
    }
}

/// Opening a stream yields exactly one endpoint event, before any other
/// event: whatever the channel yields, the first emitted event is the
/// handshake, and no later event is an endpoint event.
pub proof fn lemma_endpoint_first(url: String, outs: Seq<ChannelOutcome>)
    ensures
        stream_events(url, outs).len() >= 1,
        stream_events(url, outs)[0] == StreamEvent::Endpoint(url),
        forall|i: int|
            1 <= i < stream_events(url, outs).len() ==> !(#[trigger] stream_events(url, outs)[i]
                is Endpoint),
{
    lemma_body_events_no_endpoint(outs);
    assert forall|i: int|
        1 <= i < stream_events(url, outs).len() implies !(#[trigger] stream_events(url, outs)[i]
        is Endpoint) by {
        assert(stream_events(url, outs)[i] == body_events(outs)[i - 1]);
    }
}

} // verus!
