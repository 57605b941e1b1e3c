//! The catalog store: a datasource held in memory, with keyed lookup,
//! replace-or-append upsert and delete for each entity kind. Persistence and
//! locking live in the surrounding application.

use vstd::prelude::*;
use vstd::string::StringExecFns;
use crate::json::str_eq;
use crate::model::{
    datasource_wf, Datasource, NosqlContract, ProtoContract, QueueContract, ServiceDefinition,
};

verus! {

/// Whether some service in `s` is named `name`.
pub open spec fn has_service(s: Seq<ServiceDefinition>, name: Seq<char>) -> bool {
    exists|i: int| 0 <= i < s.len() && s[i].name@ == name
}

/// Whether `i` is the first index in `s` whose service is named `name`.
pub open spec fn first_service_idx(s: Seq<ServiceDefinition>, name: Seq<char>, i: int) -> bool {
    &&& 0 <= i < s.len()
    &&& s[i].name@ == name
    &&& forall|j: int| 0 <= j < i ==> s[j].name@ != name
}

/// Whether some queue contract in `s` has topic `topic`.
pub open spec fn has_queue_contract(s: Seq<QueueContract>, topic: Seq<char>) -> bool {
    exists|i: int| 0 <= i < s.len() && s[i].topic_name@ == topic
}

/// Whether `i` is the first index in `s` whose contract has topic `topic`.
pub open spec fn first_queue_idx(s: Seq<QueueContract>, topic: Seq<char>, i: int) -> bool {
    &&& 0 <= i < s.len()
    &&& s[i].topic_name@ == topic
    &&& forall|j: int| 0 <= j < i ==> s[j].topic_name@ != topic
}

/// Whether some NoSQL contract in `s` is for entity `entity`.
pub open spec fn has_nosql_contract(s: Seq<NosqlContract>, entity: Seq<char>) -> bool {
    exists|i: int| 0 <= i < s.len() && s[i].entity_name@ == entity
}

/// Whether `i` is the first index in `s` whose contract is for entity `entity`.
pub open spec fn first_nosql_idx(s: Seq<NosqlContract>, entity: Seq<char>, i: int) -> bool {
    &&& 0 <= i < s.len()
    &&& s[i].entity_name@ == entity
    &&& forall|j: int| 0 <= j < i ==> s[j].entity_name@ != entity
}

/// Whether some proto contract in `s` is named `name`.
pub open spec fn has_proto_contract(s: Seq<ProtoContract>, name: Seq<char>) -> bool {
    exists|i: int| 0 <= i < s.len() && s[i].name@ == name
}

/// Whether `i` is the first index in `s` whose contract is named `name`.
pub open spec fn first_proto_idx(s: Seq<ProtoContract>, name: Seq<char>, i: int) -> bool {
    &&& 0 <= i < s.len()
    &&& s[i].name@ == name
    &&& forall|j: int| 0 <= j < i ==> s[j].name@ != name
}

/// The in-memory catalog store.
pub struct AppState {
    data: Datasource,
}

impl View for AppState {
    type V = Datasource;

    closed spec fn view(&self) -> Datasource {
        self.data
    }
}

// ── Position scans ───────────────────────────────────────────────

fn service_position(v: &Vec<ServiceDefinition>, name: &str) -> (r: Option<usize>)
    ensures
        match r {
            Some(i) => first_service_idx(v@, name@, i as int),
            None => !has_service(v@, name@),
        },
{
    let mut i: usize = 0;
    while i < v.len()
        invariant
            i <= v.len(),
            forall|j: int| 0 <= j < i ==> v@[j].name@ != name@,
        decreases v@.len() - i,
    {
        if str_eq(v[i].name.as_str(), name) {
            return Some(i);
        }
        i = i + 1;
    }
    None
}

fn queue_position(v: &Vec<QueueContract>, topic: &str) -> (r: Option<usize>)
    ensures
        match r {
            Some(i) => first_queue_idx(v@, topic@, i as int),
            None => !has_queue_contract(v@, topic@),
        },
{
    let mut i: usize = 0;
    while i < v.len()
        invariant
            i <= v.len(),
            forall|j: int| 0 <= j < i ==> v@[j].topic_name@ != topic@,
        decreases v@.len() - i,
    {
        if str_eq(v[i].topic_name.as_str(), topic) {
            return Some(i);
        }
        i = i + 1;
    }
    None
}

fn nosql_position(v: &Vec<NosqlContract>, entity: &str) -> (r: Option<usize>)
    ensures
        match r {
            Some(i) => first_nosql_idx(v@, entity@, i as int),
            None => !has_nosql_contract(v@, entity@),
        },
{
    let mut i: usize = 0;
    while i < v.len()
        invariant
            i <= v.len(),
            forall|j: int| 0 <= j < i ==> v@[j].entity_name@ != entity@,
        decreases v@.len() - i,
    {
        if str_eq(v[i].entity_name.as_str(), entity) {
            return Some(i);
        }
        i = i + 1;
    }
    None
}

fn proto_position(v: &Vec<ProtoContract>, name: &str) -> (r: Option<usize>)
    ensures
        match r {
            Some(i) => first_proto_idx(v@, name@, i as int),
            None => !has_proto_contract(v@, name@),
        },
{
    let mut i: usize = 0;
    while i < v.len()
        invariant
            i <= v.len(),
            forall|j: int| 0 <= j < i ==> v@[j].name@ != name@,
        decreases v@.len() - i,
    {
        if str_eq(v[i].name.as_str(), name) {
            return Some(i);
        }
        i = i + 1;
    }
    None
}

impl AppState {
    /// Within each collection, keys are unique.
    pub open spec fn wf(&self) -> bool {
        datasource_wf(self@)
    }

    /// Constructs a store over the given datasource (as loaded by the caller,
    /// or empty if nothing was stored yet).
    pub fn new(data: Datasource) -> (r: AppState)
        ensures
            r@ == data,
    {
        AppState { data }
    }

    // ── Full datasource ──────────────────────────────────────────

    pub fn get_datasource(&self) -> (r: &Datasource)
        ensures
            *r == self@,
    {
        &self.data
    }

    pub fn replace_datasource(&mut self, ds: Datasource)
        ensures
            final(self)@ == ds,
    {
        self.data = ds;
    }

    // ── Services ─────────────────────────────────────────────────

    pub fn get_services(&self) -> (r: &Vec<ServiceDefinition>)
        ensures
            *r == self@.services,
    {
        &self.data.services
    }

    pub fn get_service(&self, name: &str) -> (r: Option<&ServiceDefinition>)
        ensures
            match r {
                Some(v) => exists|i: int|
                    first_service_idx(self@.services@, name@, i) && *v == self@.services@[i],
                None => !has_service(self@.services@, name@),
            },
    {
        match service_position(&self.data.services, name) {
            Some(i) => {
                proof {
                    assert(first_service_idx(self@.services@, name@, i as int));
                }
                Some(&self.data.services[i])
            },
            None => None,
        }
    }

    /// Replaces the service of the same name, or appends a new one.
    pub fn upsert_service(&mut self, svc: ServiceDefinition)
        ensures
            has_service(old(self)@.services@, svc.name@) ==> exists|i: int|
                first_service_idx(old(self)@.services@, svc.name@, i) && final(self)@.services@ == old(self)@.services@.update(i, svc),
            !has_service(old(self)@.services@, svc.name@) ==> final(self)@.services@ == old(self)@.services@.push(svc),
            final(self)@.queue_contracts == old(self)@.queue_contracts,
            final(self)@.nosql_contracts == old(self)@.nosql_contracts,
            final(self)@.proto_contracts == old(self)@.proto_contracts,
            old(self).wf() ==> final(self).wf(),
    {
        match service_position(&self.data.services, svc.name.as_str()) {
            Some(i) => {
                self.data.services[i] = svc;
                proof {
                    let s0 = old(self)@.services@;
                    let s1 = self@.services@;
                    if old(self).wf() {
                        assert forall|a: int, b: int| 0 <= a < b < s1.len() implies s1[a].name@
                            != s1[b].name@ by {
                            if a != i as int {
                                assert(s1[a] == s0[a]);
                            }
                            if b != i as int {
                                assert(s1[b] == s0[b]);
                            }
                        }
                    }
                }
            },
            None => {
                self.data.services.push(svc);
                proof {
                    let s0 = old(self)@.services@;
                    let s1 = self@.services@;
                    if old(self).wf() {
                        assert forall|a: int, b: int| 0 <= a < b < s1.len() implies s1[a].name@
                            != s1[b].name@ by {
                            if b == s0.len() as int {
                                assert(!(0 <= a < s0.len() && s0[a].name@ == svc.name@));
                            }
                        }
                    }
                }
            },
        }
    }

    /// Removes the service of the given name; an error names the missing key.
    pub fn delete_service(&mut self, name: &str) -> (r: Result<(), String>)
        ensures
            match r {
                Ok(()) => exists|i: int|
                    first_service_idx(old(self)@.services@, name@, i) && final(self)@.services@ == old(self)@.services@.remove(i),
                Err(m) => !has_service(old(self)@.services@, name@) && *final(self) == *old(self)
                    && m@ == "Service '"@ + name@ + "' not found"@,
            },
            final(self)@.queue_contracts == old(self)@.queue_contracts,
            final(self)@.nosql_contracts == old(self)@.nosql_contracts,
            final(self)@.proto_contracts == old(self)@.proto_contracts,
            old(self).wf() ==> final(self).wf(),
    {
        match service_position(&self.data.services, name) {
            Some(i) => {
                self.data.services.remove(i);
                proof {
                    let s0 = old(self)@.services@;
                    let s1 = self@.services@;
                    s0.remove_ensures(i as int);
                    if old(self).wf() {
                        assert forall|a: int, b: int| 0 <= a < b < s1.len() implies s1[a].name@
                            != s1[b].name@ by {
                            assert(s1[a] == if a < i as int {
                                s0[a]
                            } else {
                                s0[a + 1]
                            });
                            assert(s1[b] == if b < i as int {
                                s0[b]
                            } else {
                                s0[b + 1]
                            });
                        }
                    }
                }
                Ok(())
            },
            None => Err(String::from_str("Service '").concat(name).concat("' not found")),
        }
    }

    // ── Queue contracts ──────────────────────────────────────────

    pub fn get_queue_contracts(&self) -> (r: &Vec<QueueContract>)
        ensures
            *r == self@.queue_contracts,
    {
        &self.data.queue_contracts
    }

    pub fn get_queue_contract(&self, topic: &str) -> (r: Option<&QueueContract>)
        ensures
            match r {
                Some(v) => exists|i: int|
                    first_queue_idx(self@.queue_contracts@, topic@, i) && *v
                        == self@.queue_contracts@[i],
                None => !has_queue_contract(self@.queue_contracts@, topic@),
            },
    {
        match queue_position(&self.data.queue_contracts, topic) {
            Some(i) => {
                proof {
                    assert(first_queue_idx(self@.queue_contracts@, topic@, i as int));
                }
                Some(&self.data.queue_contracts[i])
            },
            None => None,
        }
    }

    /// Replaces the contract of the same topic, or appends a new one.
    pub fn upsert_queue_contract(&mut self, qc: QueueContract)
        ensures
            has_queue_contract(old(self)@.queue_contracts@, qc.topic_name@) ==> exists|i: int|
                first_queue_idx(old(self)@.queue_contracts@, qc.topic_name@, i) && final(self)@.queue_contracts@ == old(self)@.queue_contracts@.update(i, qc),
            !has_queue_contract(old(self)@.queue_contracts@, qc.topic_name@) ==> final(self)@.queue_contracts@ == old(self)@.queue_contracts@.push(qc),
            final(self)@.services == old(self)@.services,
            final(self)@.nosql_contracts == old(self)@.nosql_contracts,
            final(self)@.proto_contracts == old(self)@.proto_contracts,
            old(self).wf() ==> final(self).wf(),
    {
        match queue_position(&self.data.queue_contracts, qc.topic_name.as_str()) {
            Some(i) => {
                self.data.queue_contracts[i] = qc;
                proof {
                    let s0 = old(self)@.queue_contracts@;
                    let s1 = self@.queue_contracts@;
                    if old(self).wf() {
                        assert forall|a: int, b: int| 0 <= a < b < s1.len() implies s1[a].topic_name@
                            != s1[b].topic_name@ by {
                            if a != i as int {
                                assert(s1[a] == s0[a]);
                            }
                            if b != i as int {
                                assert(s1[b] == s0[b]);
                            }
                        }
                    }
                }
            },
            None => {
                self.data.queue_contracts.push(qc);
                proof {
                    let s0 = old(self)@.queue_contracts@;
                    let s1 = self@.queue_contracts@;
                    if old(self).wf() {
                        assert forall|a: int, b: int| 0 <= a < b < s1.len() implies s1[a].topic_name@
                            != s1[b].topic_name@ by {
                            if b == s0.len() as int {
                                assert(!(0 <= a < s0.len() && s0[a].topic_name@ == qc.topic_name@));
                            }
                        }
                    }
                }
            },
        }
    }

    /// Removes the contract of the given topic; an error names the missing key.
    pub fn delete_queue_contract(&mut self, topic: &str) -> (r: Result<(), String>)
        ensures
            match r {
                Ok(()) => exists|i: int|
                    first_queue_idx(old(self)@.queue_contracts@, topic@, i) && final(self)@.queue_contracts@ == old(self)@.queue_contracts@.remove(i),
                Err(m) => !has_queue_contract(old(self)@.queue_contracts@, topic@) && *final(self)
                    == *old(self) && m@ == "Queue contract '"@ + topic@ + "' not found"@,
            },
            final(self)@.services == old(self)@.services,
            final(self)@.nosql_contracts == old(self)@.nosql_contracts,
            final(self)@.proto_contracts == old(self)@.proto_contracts,
            old(self).wf() ==> final(self).wf(),
    {
        match queue_position(&self.data.queue_contracts, topic) {
            Some(i) => {
                self.data.queue_contracts.remove(i);
                proof {
                    let s0 = old(self)@.queue_contracts@;
                    let s1 = self@.queue_contracts@;
                    s0.remove_ensures(i as int);
                    if old(self).wf() {
                        assert forall|a: int, b: int| 0 <= a < b < s1.len() implies s1[a].topic_name@
                            != s1[b].topic_name@ by {
                            assert(s1[a] == if a < i as int {
                                s0[a]
                            } else {
                                s0[a + 1]
                            });
                            assert(s1[b] == if b < i as int {
                                s0[b]
                            } else {
                                s0[b + 1]
                            });
                        }
                    }
                }
                Ok(())
            },
            None => Err(String::from_str("Queue contract '").concat(topic).concat("' not found")),
        }
    }

    // ── NoSQL contracts ──────────────────────────────────────────

    pub fn get_nosql_contracts(&self) -> (r: &Vec<NosqlContract>)
        ensures
            *r == self@.nosql_contracts,
    {
        &self.data.nosql_contracts
    }

    pub fn get_nosql_contract(&self, entity: &str) -> (r: Option<&NosqlContract>)
        ensures
            match r {
                Some(v) => exists|i: int|
                    first_nosql_idx(self@.nosql_contracts@, entity@, i) && *v
                        == self@.nosql_contracts@[i],
                None => !has_nosql_contract(self@.nosql_contracts@, entity@),
            },
    {
        match nosql_position(&self.data.nosql_contracts, entity) {
            Some(i) => {
                proof {
                    assert(first_nosql_idx(self@.nosql_contracts@, entity@, i as int));
                }
                Some(&self.data.nosql_contracts[i])
            },
            None => None,
        }
    }

    /// Replaces the contract of the same entity, or appends a new one.
    pub fn upsert_nosql_contract(&mut self, nc: NosqlContract)
        ensures
            has_nosql_contract(old(self)@.nosql_contracts@, nc.entity_name@) ==> exists|i: int|
                first_nosql_idx(old(self)@.nosql_contracts@, nc.entity_name@, i) && final(self)@.nosql_contracts@ == old(self)@.nosql_contracts@.update(i, nc),
            !has_nosql_contract(old(self)@.nosql_contracts@, nc.entity_name@) ==> final(self)@.nosql_contracts@ == old(self)@.nosql_contracts@.push(nc),
            final(self)@.services == old(self)@.services,
            final(self)@.queue_contracts == old(self)@.queue_contracts,
            final(self)@.proto_contracts == old(self)@.proto_contracts,
            old(self).wf() ==> final(self).wf(),
    {
        match nosql_position(&self.data.nosql_contracts, nc.entity_name.as_str()) {
            Some(i) => {
                self.data.nosql_contracts[i] = nc;
                proof {
                    let s0 = old(self)@.nosql_contracts@;
                    let s1 = self@.nosql_contracts@;
                    if old(self).wf() {
                        assert forall|a: int, b: int| 0 <= a < b < s1.len() implies s1[a].entity_name@
                            != s1[b].entity_name@ by {
                            if a != i as int {
                                assert(s1[a] == s0[a]);
                            }
                            if b != i as int {
                                assert(s1[b] == s0[b]);
                            }
                        }
                    }
                }
            },
            None => {
                self.data.nosql_contracts.push(nc);
                proof {
                    let s0 = old(self)@.nosql_contracts@;
                    let s1 = self@.nosql_contracts@;
                    if old(self).wf() {
                        assert forall|a: int, b: int| 0 <= a < b < s1.len() implies s1[a].entity_name@
                            != s1[b].entity_name@ by {
                            if b == s0.len() as int {
                                assert(!(0 <= a < s0.len() && s0[a].entity_name@
                                    == nc.entity_name@));
                            }
                        }
                    }
                }
            },
        }
    }

    /// Removes the contract of the given entity; an error names the missing key.
    pub fn delete_nosql_contract(&mut self, entity: &str) -> (r: Result<(), String>)
        ensures
            match r {
                Ok(()) => exists|i: int|
                    first_nosql_idx(old(self)@.nosql_contracts@, entity@, i) && final(self)@.nosql_contracts@ == old(self)@.nosql_contracts@.remove(i),
                Err(m) => !has_nosql_contract(old(self)@.nosql_contracts@, entity@) && *final(self)
                    == *old(self) && m@ == "NoSQL contract '"@ + entity@ + "' not found"@,
            },
            final(self)@.services == old(self)@.services,
            final(self)@.queue_contracts == old(self)@.queue_contracts,
            final(self)@.proto_contracts == old(self)@.proto_contracts,
            old(self).wf() ==> final(self).wf(),
    {
        match nosql_position(&self.data.nosql_contracts, entity) {
            Some(i) => {
                self.data.nosql_contracts.remove(i);
                proof {
                    let s0 = old(self)@.nosql_contracts@;
                    let s1 = self@.nosql_contracts@;
                    s0.remove_ensures(i as int);
                    if old(self).wf() {
                        assert forall|a: int, b: int| 0 <= a < b < s1.len() implies s1[a].entity_name@
                            != s1[b].entity_name@ by {
                            assert(s1[a] == if a < i as int {
                                s0[a]
                            } else {
                                s0[a + 1]
                            });
                            assert(s1[b] == if b < i as int {
                                s0[b]
                            } else {
                                s0[b + 1]
                            });
                        }
                    }
                }
                Ok(())
            },
            None => Err(String::from_str("NoSQL contract '").concat(entity).concat("' not found")),
        }
    }

    // ── Proto contracts ──────────────────────────────────────────

    pub fn get_proto_contracts(&self) -> (r: &Vec<ProtoContract>)
        ensures
            *r == self@.proto_contracts,
    {
        &self.data.proto_contracts
    }

    pub fn get_proto_contract(&self, name: &str) -> (r: Option<&ProtoContract>)
        ensures
            match r {
                Some(v) => exists|i: int|
                    first_proto_idx(self@.proto_contracts@, name@, i) && *v
                        == self@.proto_contracts@[i],
                None => !has_proto_contract(self@.proto_contracts@, name@),
            },
    {
        match proto_position(&self.data.proto_contracts, name) {
            Some(i) => {
                proof {
                    assert(first_proto_idx(self@.proto_contracts@, name@, i as int));
                }
                Some(&self.data.proto_contracts[i])
            },
            None => None,
        }
    }

    /// Replaces the contract of the same name, or appends a new one.
    pub fn upsert_proto_contract(&mut self, pc: ProtoContract)
        ensures
            has_proto_contract(old(self)@.proto_contracts@, pc.name@) ==> exists|i: int|
                first_proto_idx(old(self)@.proto_contracts@, pc.name@, i) && final(self)@.proto_contracts@ == old(self)@.proto_contracts@.update(i, pc),
            !has_proto_contract(old(self)@.proto_contracts@, pc.name@) ==> final(self)@.proto_contracts@ == old(self)@.proto_contracts@.push(pc),
            final(self)@.services == old(self)@.services,
            final(self)@.queue_contracts == old(self)@.queue_contracts,
            final(self)@.nosql_contracts == old(self)@.nosql_contracts,
            old(self).wf() ==> final(self).wf(),
    {
        match proto_position(&self.data.proto_contracts, pc.name.as_str()) {
            Some(i) => {
                self.data.proto_contracts[i] = pc;
                proof {
                    let s0 = old(self)@.proto_contracts@;
                    let s1 = self@.proto_contracts@;
                    if old(self).wf() {
                        assert forall|a: int, b: int| 0 <= a < b < s1.len() implies s1[a].name@
                            != s1[b].name@ by {
                            if a != i as int {
                                assert(s1[a] == s0[a]);
                            }
                            if b != i as int {
                                assert(s1[b] == s0[b]);
                            }
                        }
                    }
                }
            },
            None => {
                self.data.proto_contracts.push(pc);
                proof {
                    let s0 = old(self)@.proto_contracts@;
                    let s1 = self@.proto_contracts@;
                    if old(self).wf() {
                        assert forall|a: int, b: int| 0 <= a < b < s1.len() implies s1[a].name@
                            != s1[b].name@ by {
                            if b == s0.len() as int {
                                assert(!(0 <= a < s0.len() && s0[a].name@ == pc.name@));
                            }
                        }
                    }
                }
            },
        }
    }

    /// Removes the contract of the given name; an error names the missing key.
    pub fn delete_proto_contract(&mut self, name: &str) -> (r: Result<(), String>)
        ensures
            match r {
                Ok(()) => exists|i: int|
                    first_proto_idx(old(self)@.proto_contracts@, name@, i) && final(self)@.proto_contracts@ == old(self)@.proto_contracts@.remove(i),
                Err(m) => !has_proto_contract(old(self)@.proto_contracts@, name@) && *final(self)
                    == *old(self) && m@ == "Proto contract '"@ + name@ + "' not found"@,
            },
            final(self)@.services == old(self)@.services,
            final(self)@.queue_contracts == old(self)@.queue_contracts,
            final(self)@.nosql_contracts == old(self)@.nosql_contracts,
            old(self).wf() ==> final(self).wf(),
    {
        match proto_position(&self.data.proto_contracts, name) {
            Some(i) => {
                self.data.proto_contracts.remove(i);
                proof {
                    let s0 = old(self)@.proto_contracts@;
                    let s1 = self@.proto_contracts@;
                    s0.remove_ensures(i as int);
                    if old(self).wf() {
                        assert forall|a: int, b: int| 0 <= a < b < s1.len() implies s1[a].name@
                            != s1[b].name@ by {
                            assert(s1[a] == if a < i as int {
                                s0[a]
                            } else {
                                s0[a + 1]
                            });
                            assert(s1[b] == if b < i as int {
                                s0[b]
                            } else {
                                s0[b + 1]
                            });
                        }
                    }
                }
                Ok(())
            },
            None => Err(String::from_str("Proto contract '").concat(name).concat("' not found")),
        }
    }
}

} // verus!
