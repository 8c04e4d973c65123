//! The state of the registry: the platform record, the agent directory and
//! the tables of indices, feedback, metadata and validation records.

use crate::identity::{Agent, MetaKV, Platform};
use crate::reputation::{ClientIndex, Feedback};
use crate::table::{Address, RecordKey, Table};
use crate::util::Principal;
use crate::validation::{ValidationRequest, ValidationResponse};
use vstd::prelude::*;

verus! {

/// Address of the index record of `client` on `agent`.
pub open spec fn index_addr(agent: u64, client: Seq<u8>) -> Address {
    (agent, client, 0)
}

/// Address of the feedback number `index` of `client` on `agent`.
pub open spec fn feedback_addr(agent: u64, client: Seq<u8>, index: u64) -> Address {
    (agent, client, index)
}

/// Address of the validation request with hash `request_hash` for `agent`, and
/// of the response to it.
pub open spec fn request_addr(agent: u64, request_hash: Seq<u8>) -> Address {
    (agent, request_hash, 0)
}

/// Address of the metadata entry with key hash `key_hash` of `agent`.
pub open spec fn meta_addr(agent: u64, key_hash: Seq<u8>) -> Address {
    (agent, key_hash, 0)
}

/// The whole state of the registry.
pub struct Registry {
    /// The platform record, once it has been initialized.
    pub platform: Option<Platform>,
    /// The agents, the agent with id `k` at position `k - 1`.
    pub agents: Vec<Agent>,
    pub metadata: Table<MetaKV>,
    pub client_indices: Table<ClientIndex>,
    pub feedbacks: Table<Feedback>,
    pub requests: Table<ValidationRequest>,
    pub responses: Table<ValidationResponse>,
}

impl Registry {
    /// The agent with id `id`, if it has been registered.
    pub open spec fn agent_spec(&self, id: u64) -> Option<Agent> {
        if 1 <= id <= self.agents@.len() {
            Some(self.agents@[id - 1])
        } else {
            None
        }
    }

    /// The last feedback index accepted from `client` on `agent`; 0 before the first.
    pub open spec fn last_index(&self, agent: u64, client: Seq<u8>) -> u64 {
        if self.client_indices.view().contains_key(index_addr(agent, client)) {
            self.client_indices.view()[index_addr(agent, client)].last_index
        } else {
            0
        }
    }

    /// The agents hold the ids 1, 2, ... in order, and the platform counter
    /// is the next id.
    pub open spec fn agents_wf(&self) -> bool {
        &&& forall|i: int| 0 <= i < self.agents@.len() ==> #[trigger] self.agents@[i].id == i + 1
        &&& match self.platform {
            None => self.agents@.len() == 0,
            Some(p) => p.agent_counter == self.agents@.len() + 1,
        }
    }

    /// Index records sit at their own address and are created at the first
    /// accepted feedback; the feedback records of a client on an agent are
    /// exactly those numbered 1 to its last index.
    pub open spec fn feedback_wf(&self) -> bool {
        &&& forall|a: Address| #[trigger]
            self.client_indices.view().contains_key(a) ==> {
                let ci = self.client_indices.view()[a];
                &&& a == index_addr(ci.agent, ci.client@)
                &&& ci.last_index >= 1
            }
        &&& forall|a: Address| #[trigger]
            self.feedbacks.view().contains_key(a) ==> {
                let fb = self.feedbacks.view()[a];
                a == feedback_addr(fb.agent, fb.client@, fb.index)
            }
        &&& forall|a: Address| #[trigger]
            self.feedbacks.view().contains_key(a) <==> 1 <= a.2 <= self.last_index(a.0, a.1)
    }

    /// Requests and responses sit at the address of the request, and a
    /// response belongs to an existing request and to its validator.
    pub open spec fn validation_wf(&self) -> bool {
        &&& forall|a: Address| #[trigger]
            self.requests.view().contains_key(a) ==> {
                let rq = self.requests.view()[a];
                a == request_addr(rq.agent, rq.request_hash@)
            }
        &&& forall|a: Address| #[trigger]
            self.responses.view().contains_key(a) ==> {
                let rs = self.responses.view()[a];
                &&& self.requests.view().contains_key(a)
                &&& a == request_addr(rs.agent, rs.request_hash@)
                &&& rs.validator@ == self.requests.view()[a].validator@
            }
    }

    pub open spec fn wf(&self) -> bool {
        &&& self.metadata.wf()
        &&& self.client_indices.wf()
        &&& self.feedbacks.wf()
        &&& self.requests.wf()
        &&& self.responses.wf()
        &&& self.agents_wf()
        &&& self.feedback_wf()
        &&& self.validation_wf()
    }

    /// An empty registry, before the platform is initialized.
    pub fn new() -> (r: Registry)
        ensures
            r.wf(),
            r.platform is None,
            r.agents@.len() == 0,
            r.metadata.view() == Map::<Address, MetaKV>::empty(),
            r.client_indices.view() == Map::<Address, ClientIndex>::empty(),
            r.feedbacks.view() == Map::<Address, Feedback>::empty(),
            r.requests.view() == Map::<Address, ValidationRequest>::empty(),
            r.responses.view() == Map::<Address, ValidationResponse>::empty(),
    {
        Registry {
            platform: None,
            agents: Vec::new(),
            metadata: Table::new(),
            client_indices: Table::new(),
            feedbacks: Table::new(),
            requests: Table::new(),
            responses: Table::new(),
        }
    }

    /// The agent with id `id`.
    pub fn agent(&self, id: u64) -> (r: Option<&Agent>)
        requires
            self.wf(),
        ensures
            r is None <==> self.agent_spec(id) is None,
            r matches Some(a) ==> self.agent_spec(id) == Some(*a),
    {
        if id == 0 || id > self.agents.len() as u64 {
            None
        } else {
            Some(&self.agents[(id - 1) as usize])
        }
    }

    /// The index record of `client` on agent `agent`.
    pub fn client_index(&self, agent: u64, client: &Principal) -> (r: Option<&ClientIndex>)
        requires
            self.wf(),
        ensures
            r is None <==> !self.client_indices.view().contains_key(index_addr(agent, client@)),
            r matches Some(ci) ==> *ci == self.client_indices.view()[index_addr(agent, client@)],
    {
        self.client_indices.get(&RecordKey::new(agent, client.bytes, 0))
    }

    /// The feedback number `index` of `client` on agent `agent`.
    pub fn feedback(&self, agent: u64, client: &Principal, index: u64) -> (r: Option<&Feedback>)
        requires
            self.wf(),
        ensures
            r is None <==> !self.feedbacks.view().contains_key(feedback_addr(agent, client@, index)),
            r matches Some(fb) ==> *fb == self.feedbacks.view()[feedback_addr(agent, client@, index)],
    {
        self.feedbacks.get(&RecordKey::new(agent, client.bytes, index))
    }

    /// The validation request with hash `request_hash` for agent `agent`.
    pub fn request(&self, agent: u64, request_hash: &[u8; 32]) -> (r: Option<&ValidationRequest>)
        requires
            self.wf(),
        ensures
            r is None <==> !self.requests.view().contains_key(request_addr(agent, request_hash@)),
            r matches Some(rq) ==> *rq == self.requests.view()[request_addr(agent, request_hash@)],
    {
        self.requests.get(&RecordKey::new(agent, *request_hash, 0))
    }

    /// The response to the validation request with hash `request_hash` for agent `agent`.
    pub fn response(&self, agent: u64, request_hash: &[u8; 32]) -> (r: Option<&ValidationResponse>)
        requires
            self.wf(),
        ensures
            r is None <==> !self.responses.view().contains_key(request_addr(agent, request_hash@)),
            r matches Some(rs) ==> *rs == self.responses.view()[request_addr(agent, request_hash@)],
    {
        self.responses.get(&RecordKey::new(agent, *request_hash, 0))
    }

    /// The metadata entry with key hash `key_hash` of agent `agent`.
    pub fn metadata_entry(&self, agent: u64, key_hash: &[u8; 32]) -> (r: Option<&MetaKV>)
        requires
            self.wf(),
        ensures
            r is None <==> !self.metadata.view().contains_key(meta_addr(agent, key_hash@)),
            r matches Some(m) ==> *m == self.metadata.view()[meta_addr(agent, key_hash@)],
    {
        self.metadata.get(&RecordKey::new(agent, *key_hash, 0))
    }
}

} // verus!
