//! The session registry: a process-wide mapping from session identifier to
//! that session's outbound message queue. Opening a stream registers a fresh
//! session; submitting a call enqueues the reply; closing removes the entry.
//!
//! Each queue is bounded: enqueueing onto a full queue silently drops the
//! message (delivery is best-effort), which the contracts state exactly.

use vstd::prelude::*;

verus! {

/// How many undelivered messages one session may hold.
pub const SESSION_QUEUE_CAPACITY: usize = 32;

/// One registered session: its identifier and its pending outbound messages,
/// oldest first.
pub struct SessionEntry {
    pub id: String,
    pub queue: Vec<String>,
}

/// Whether some entry in `s` has identifier `id`.
pub open spec fn has_session(s: Seq<SessionEntry>, id: Seq<char>) -> bool {
    exists|i: int| 0 <= i < s.len() && s[i].id@ == id
}

/// Whether `i` is the first index in `s` whose entry has identifier `id`.
pub open spec fn first_session_idx(s: Seq<SessionEntry>, id: Seq<char>, i: int) -> bool {
    &&& 0 <= i < s.len()
    &&& s[i].id@ == id
    &&& forall|j: int| 0 <= j < i ==> s[j].id@ != id
}

/// Whether no two entries share an identifier.
pub open spec fn unique_session_ids(s: Seq<SessionEntry>) -> bool {
    forall|i: int, j: int| 0 <= i < j < s.len() ==> s[i].id@ != s[j].id@
}

/// `r1` is `r0` with `t` (the view of one message) appended to the queue of
/// the session at index `i`, or `r0` unchanged if that queue was full.
pub open spec fn enqueue_effect(
    r0: Seq<SessionEntry>,
    r1: Seq<SessionEntry>,
    i: int,
    t: Seq<char>,
) -> bool {
    if r0[i].queue@.len() < SESSION_QUEUE_CAPACITY {
        &&& r1.len() == r0.len()
        &&& forall|k: int| 0 <= k < r1.len() && k != i ==> r1[k] == r0[k]
        &&& r1[i].id == r0[i].id
        &&& r1[i].queue@ == r0[i].queue@.push(r1[i].queue@.last())
        &&& r1[i].queue@.last()@ == t
    } else {
        r1 == r0
    }
}

/// Submitting to an identifier that no open session carries.
#[derive(Debug)]
pub struct SessionNotFound;

/// Creates a fresh session identifier.
/// Relies on `uuid::Uuid::new_v4` and the `Display` form of `Uuid`: a random
/// UUID prints as 36 hyphenated lower-case hexadecimal characters. The value
/// is random, so nothing more is assumed of it.
#[verifier::external_body]
fn new_session_id() -> (r: String)
    ensures
        r@.len() == 36,
{
    uuid::Uuid::new_v4().to_string()
}

/// The process-wide session registry.
pub struct SessionRegistry {
    entries: Vec<SessionEntry>,
}

impl View for SessionRegistry {
    type V = Seq<SessionEntry>;

    closed spec fn view(&self) -> Seq<SessionEntry> {
        self.entries@
    }
}

fn session_position(v: &Vec<SessionEntry>, id: &str) -> (r: Option<usize>)
    ensures
        match r {
            Some(i) => first_session_idx(v@, id@, i as int),
            None => !has_session(v@, id@),
        },
{
    let mut i: usize = 0;
    while i < v.len()
        invariant
            i <= v.len(),
            forall|j: int| 0 <= j < i ==> v@[j].id@ != id@,
        decreases v@.len() - i,
    {
        if crate::json::str_eq(v[i].id.as_str(), id) {
            return Some(i);
        }
        i = i + 1;
    }
    None
}

impl SessionRegistry {
    /// No two registered sessions share an identifier.
    pub open spec fn wf(&self) -> bool {
        unique_session_ids(self@)
    }

    /// An empty registry.
    pub fn new() -> (r: SessionRegistry)
        ensures
            r@ == Seq::<SessionEntry>::empty(),
            r.wf(),
    {
        SessionRegistry { entries: Vec::new() }
    }

    /// Whether a session with this identifier is registered.
    pub fn contains_session(&self, session_id: &str) -> (r: bool)
        ensures
            r == has_session(self@, session_id@),
    {
        match session_position(&self.entries, session_id) {
            Some(i) => {
                proof {
                    assert(first_session_idx(self@, session_id@, i as int));
                }
                true
            },
            None => false,
        }
    }

    /// Registers a session under `id` with an empty queue; refuses an
    /// identifier that is already registered.
    pub fn register_session(&mut self, id: String) -> (r: bool)
        ensures
            r == !has_session(old(self)@, id@),
            r ==> final(self)@.len() == old(self)@.len() + 1 && final(self)@.drop_last() == old(self)@ && final(self)@.last().id == id && final(self)@.last().queue@ == Seq::<
                String,
            >::empty(),
            !r ==> *final(self) == *old(self),
            old(self).wf() ==> final(self).wf(),
    {
        match session_position(&self.entries, id.as_str()) {
            Some(i) => {
                proof {
                    assert(first_session_idx(self@, id@, i as int));
                }
                false
            },
            None => {
                let entry = SessionEntry { id, queue: Vec::new() };
                self.entries.push(entry);
                proof {
                    let s0 = old(self)@;
                    let s1 = self@;
                    assert(s1.drop_last() =~= s0);
                    if old(self).wf() {
                        assert forall|a: int, b: int| 0 <= a < b < s1.len() implies s1[a].id@
                            != s1[b].id@ by {
                            if b == s0.len() as int {
                                assert(!(0 <= a < s0.len() && s0[a].id@ == s1[b].id@));
                            }
                        }
                    }
                }
                true
            },
        }
    }

    /// Opens a session: draws a fresh identifier, registers it with an empty
    /// queue, and returns it. Yields nothing in the one case where the drawn
    /// identifier is already taken.
    pub fn open_session(&mut self) -> (r: Option<String>)
        ensures
            match r {
                Some(id) => id@.len() == 36 && final(self)@.len() == old(self)@.len() + 1 && final(self)@.drop_last() == old(self)@ && final(self)@.last().id == id && final(self)@.last().queue@ == Seq::<String>::empty(),
                None => *final(self) == *old(self),
            },
            old(self).wf() ==> final(self).wf(),
    {
        let id = new_session_id();
        let id_copy = id.clone();
        if self.register_session(id) {
            Some(id_copy)
        } else {
            None
        }
    }

    /// Enqueues `message` for the session `session_id`. Fails if no such
    /// session is registered; silently drops the message if the session's
    /// queue is full.
    pub fn dispatch(&mut self, session_id: &str, message: String) -> (r: Result<
        (),
        SessionNotFound,
    >)
        ensures
            match r {
                Ok(()) => has_session(old(self)@, session_id@) && exists|i: int|
                    #[trigger] first_session_idx(old(self)@, session_id@, i) && enqueue_effect(
                        old(self)@,
                        final(self)@,
                        i,
                        message@,
                    ),
                Err(_) => !has_session(old(self)@, session_id@) && *final(self) == *old(self),
            },
            old(self).wf() ==> final(self).wf(),
    {
        match session_position(&self.entries, session_id) {
            Some(i) => {
                proof {
                    assert(first_session_idx(old(self)@, session_id@, i as int));
                }
                if self.entries[i].queue.len() < SESSION_QUEUE_CAPACITY {
                    let entry = &mut self.entries[i];
                    entry.queue.push(message);
                    proof {
                        let s0 = old(self)@;
                        let s1 = self@;
                        assert(s1[i as int].queue@ == s0[i as int].queue@.push(message));
                        assert(enqueue_effect(s0, s1, i as int, message@));
                        if old(self).wf() {
                            assert forall|a: int, b: int| 0 <= a < b < s1.len() implies s1[a].id@
                                != s1[b].id@ by {
                                if a != i as int {
                                    assert(s1[a] == s0[a]);
                                }
                                if b != i as int {
                                    assert(s1[b] == s0[b]);
                                }
                            }
                        }
                    }
                } else {
                    proof {
                        assert(enqueue_effect(old(self)@, self@, i as int, message@));
                    }
                }
                Ok(())
            },
            None => Err(SessionNotFound),
        }
    }

    /// Takes the oldest pending message of the session, if any. The consumer
    /// of a session's stream calls this, so messages leave in enqueue order.
    pub fn next_message(&mut self, session_id: &str) -> (r: Option<String>)
        ensures
            match r {
                Some(m) => exists|i: int|
                    #[trigger] first_session_idx(old(self)@, session_id@, i) && old(self)@[i].queue@.len() > 0 && m == old(self)@[i].queue@[0] && final(self)@.len() == old(self)@.len() && (forall|k: int|
                        0 <= k < final(self)@.len() && k != i ==> final(self)@[k] == old(self)@[k])
                        && final(self)@[i].id == old(self)@[i].id && final(self)@[i].queue@ == old(self)@[i].queue@.drop_first(),
                None => *final(self) == *old(self) && (has_session(old(self)@, session_id@)
                    ==> exists|i: int|
                    #[trigger] first_session_idx(old(self)@, session_id@, i) && old(self)@[i].queue@.len() == 0),
            },
            old(self).wf() ==> final(self).wf(),
    {
        match session_position(&self.entries, session_id) {
            Some(i) => {
                proof {
                    assert(first_session_idx(old(self)@, session_id@, i as int));
                }
                if self.entries[i].queue.len() > 0 {
                    let entry = &mut self.entries[i];
                    let m = entry.queue.remove(0);
                    proof {
                        let s0 = old(self)@;
                        let s1 = self@;
                        assert(s1[i as int].queue@ =~= s0[i as int].queue@.drop_first());
                        assert(m == s0[i as int].queue@[0]);
                        if old(self).wf() {
                            assert forall|a: int, b: int| 0 <= a < b < s1.len() implies s1[a].id@
                                != s1[b].id@ by {
                                if a != i as int {
                                    assert(s1[a] == s0[a]);
                                }
                                if b != i as int {
                                    assert(s1[b] == s0[b]);
                                }
                            }
                        }
                    }
                    Some(m)
                } else {
                    None
                }
            },
            None => None,
        }
    }

    /// Removes the session `session_id`. Idempotent: closing an unknown or
    /// already-closed session changes nothing.
    pub fn close(&mut self, session_id: &str)
        ensures
            has_session(old(self)@, session_id@) ==> exists|i: int|
                #[trigger] first_session_idx(old(self)@, session_id@, i) && final(self)@ == old(self)@.remove(i),
            !has_session(old(self)@, session_id@) ==> *final(self) == *old(self),
            old(self).wf() ==> final(self).wf(),
            old(self).wf() ==> !has_session(final(self)@, session_id@),
    {
        match session_position(&self.entries, session_id) {
            Some(i) => {
                self.entries.remove(i);
                proof {
                    let s0 = old(self)@;
                    let s1 = self@;
                    s0.remove_ensures(i as int);
                    assert(first_session_idx(s0, session_id@, i as int));
                    if old(self).wf() {
                        assert forall|a: int, b: int| 0 <= a < b < s1.len() implies s1[a].id@
                            != s1[b].id@ by {
                            assert(s1[a] == if a < i as int {
                                s0[a]
                            } else {
                                s0[a + 1]
                            });
                            assert(s1[b] == if b < i as int {
                                s0[b]
                            } else {
                                s0[b + 1]
                            });
                        }
                        assert forall|a: int| 0 <= a < s1.len() implies s1[a].id@
                            != session_id@ by {
                            assert(s1[a] == if a < i as int {
                                s0[a]
                            } else {
                                s0[a + 1]
                            });
                        }
                    }
                }
            },
            None => {},
        }
    }
}

// ── Delivery order ───────────────────────────────────────────────

/// Messages enqueued for one session stand in its queue in enqueue order:
/// after two enqueues of `m1` then `m2` onto a queue `q0`, every message of
/// `q0` stands before `m1`, and `m1` stands before `m2`. The consumer takes
/// index 0 first ([`SessionRegistry::next_message`]), so it observes them in
/// exactly that order.
pub proof fn lemma_dispatch_fifo(q0: Seq<String>, m1: String, m2: String)
    ensures
        q0.push(m1).push(m2) =~= q0 + seq![m1, m2],
        q0.push(m1).push(m2)[q0.len() as int] == m1,
        q0.push(m1).push(m2)[q0.len() as int + 1] == m2,
        forall|k: int| 0 <= k < q0.len() ==> q0.push(m1).push(m2)[k] == q0[k],
{
}

/// The consumer takes a queue front-first: after `k` messages of a queue `q`
/// have been taken (each take dropping the front, as
/// [`SessionRegistry::next_message`] does), the next message taken is `q[k]`.
/// So every message leaves in the order it was enqueued.
pub proof fn lemma_consumer_order(q: Seq<String>, k: int)
    requires
        0 <= k < q.len(),
    ensures
        q.skip(k)[0] == q[k],
        q.skip(k).drop_first() =~= q.skip(k + 1),
{
}

/// A closed session stays gone: removing the only entry that carries an
/// identifier leaves a registry in which a later submit to that identifier
/// finds no session ([`SessionRegistry::dispatch`] then fails).
pub proof fn lemma_closed_session_not_found(s: Seq<SessionEntry>, id: Seq<char>, i: int)
    requires
        unique_session_ids(s),
        first_session_idx(s, id, i),
    ensures
        !has_session(s.remove(i), id),
{
    s.remove_ensures(i);
    let s1 = s.remove(i);
    assert forall|a: int| 0 <= a < s1.len() implies s1[a].id@ != id by {
        assert(s1[a] == if a < i {
            s[a]
        } else {
            s[a + 1]
        });
    }
}

} // verus!
