//! `SubagentRegistry`: lifecycle bookkeeping for background agents.
//!
//! The registry hands out ids, keeps the name index, each agent's status,
//! inbox and final response. Running the agents (building them, their event
//! relays, their permission channels) happens around it; those parts are
//! keyed by the ids this registry hands out.

use vstd::prelude::*;

use super::handle::{SubagentHandle, SubagentInner};
use super::{ContextMode, SubagentId, SubagentSnapshot, SubagentStatus};
use crate::named_list::NamedList;
use crate::text::{dec_text, push_decimal};

verus! {

/// What the registry knows of one subagent.
pub struct AgentModel {
    pub name: Seq<char>,
    pub status: SubagentStatus,
    pub inbox: Seq<String>,
    pub final_response: Option<String>,
}

/// The model of a handle.
pub open spec fn handle_model(h: SubagentHandle) -> AgentModel {
    AgentModel {
        name: h.name@,
        status: h.state.status,
        inbox: h.state.inbox@,
        final_response: h.state.final_response,
    }
}

/// Why a registry operation was refused.
#[derive(Debug, Clone, PartialEq, Eq)]
pub enum SubagentError {
    /// A subagent with this name is already registered.
    AlreadyExists(String),
    /// No subagent with this id is registered.
    NotFound(SubagentId),
}

impl SubagentError {
    /// The human-readable message of the error.
    pub open spec fn text(self) -> Seq<char> {
        match self {
            SubagentError::AlreadyExists(n) => "subagent '"@ + n@ + "' already exists"@,
            SubagentError::NotFound(id) => "subagent "@ + dec_text(id.0 as nat) + " not found"@,
        }
    }

    /// The human-readable message of the error.
    pub fn message(&self) -> (r: String)
        ensures
            r@ == self.text(),
    {
        match self {
            SubagentError::AlreadyExists(n) => {
                let mut s = String::from_str("subagent '");
                s.append(n.as_str());
                s.append("' already exists");
                s
            },
            SubagentError::NotFound(id) => {
                let mut s = String::from_str("subagent ");
                push_decimal(&mut s, id.0 as u64);
                s.append(" not found");
                s
            },
        }
    }
}

/// Registry of all background subagents.
pub struct SubagentRegistry {
    handles: Vec<SubagentHandle>,
    by_name: NamedList<SubagentId>,
    next_id: u32,
    /// The last state of each stopped subagent, as anyone still holding its
    /// state sees it.
    stopped: Ghost<Map<u32, AgentModel>>,
}

impl SubagentRegistry {
    /// The live subagents, by id.
    pub closed spec fn spec_agents(&self) -> Map<u32, AgentModel> {
        Map::new(
            |k: u32| exists|i: int| 0 <= i < self.handles@.len() && #[trigger] self.handles@[i].id.0 == k,
            |k: u32|
                handle_model(
                    self.handles@[choose|i: int|
                        0 <= i < self.handles@.len() && #[trigger] self.handles@[i].id.0 == k],
                ),
        )
    }

    /// The name index: which id each name refers to.
    pub closed spec fn spec_names(&self) -> Map<Seq<char>, SubagentId> {
        self.by_name@
    }

    /// The last state of each stopped subagent: what it was when stopped,
    /// with status `Done`.
    pub closed spec fn spec_stopped(&self) -> Map<u32, AgentModel> {
        self.stopped@
    }

    /// The id the next allocation hands out.
    pub closed spec fn spec_next_id(&self) -> u32 {
        self.next_id
    }

    /// The handles in registration order.
    pub closed spec fn spec_handles(&self) -> Seq<SubagentHandle> {
        self.handles@
    }

    /// Ids are distinct and already handed out; every name refers to an id
    /// handed out (kept after the subagent stops, for history); a name that
    /// refers to a live subagent is that subagent's name, and every live
    /// subagent's name refers to it.
    pub closed spec fn wf(&self) -> bool {
        &&& self.by_name.wf()
        &&& forall|i: int, j: int|
            0 <= i < j < self.handles@.len() ==> #[trigger] self.handles@[i].id != #[trigger] self.handles@[j].id
        &&& forall|i: int| 0 <= i < self.handles@.len() ==> #[trigger] self.handles@[i].id.0 < self.next_id
        &&& forall|n: Seq<char>|
            #[trigger] self.by_name@.dom().contains(n) ==> {
                &&& self.by_name@[n].0 < self.next_id
                &&& self.spec_agents().dom().contains(self.by_name@[n].0)
                    ==> self.spec_agents()[self.by_name@[n].0].name == n
            }
        &&& forall|i: int|
            0 <= i < self.handles@.len() ==> {
                &&& self.by_name@.dom().contains(#[trigger] self.handles@[i].name@)
                &&& self.by_name@[self.handles@[i].name@] == self.handles@[i].id
            }
    }

    proof fn lemma_handle(&self, i: int)
        requires
            self.wf(),
            0 <= i < self.handles@.len(),
        ensures
            self.spec_agents().dom().contains(self.handles@[i].id.0),
            self.spec_agents()[self.handles@[i].id.0] == handle_model(self.handles@[i]),
    {
        let k = self.handles@[i].id.0;
        assert(self.handles@[i].id.0 == k);
        let j = choose|j: int| 0 <= j < self.handles@.len() && #[trigger] self.handles@[j].id.0 == k;
        if j < i {
            assert(self.handles@[j].id != self.handles@[i].id);
        } else if i < j {
            assert(self.handles@[i].id != self.handles@[j].id);
        }
    }

    /// Every name refers to an id already handed out, and, when that
    /// subagent is live, to a subagent that carries the name.
    pub proof fn lemma_names_refer_to_handed_out_ids(&self, n: Seq<char>)
        requires
            self.wf(),
            self.spec_names().dom().contains(n),
        ensures
            self.spec_names()[n].0 < self.spec_next_id(),
            self.spec_agents().dom().contains(self.spec_names()[n].0) ==> self.spec_agents()[self.spec_names()[n].0].name
                == n,
    {
    }

    /// The next id handed out is not the id of a live subagent.
    pub proof fn law_next_id_is_fresh(&self)
        requires
            self.wf(),
        ensures
            !self.spec_agents().dom().contains(self.spec_next_id()),
    {
        if self.spec_agents().dom().contains(self.next_id) {
            self.lemma_ids_below_next(self.next_id);
        }
    }

    /// A live subagent's name refers to it.
    pub proof fn lemma_live_name_refers_to_agent(&self, id: u32)
        requires
            self.wf(),
            self.spec_agents().dom().contains(id),
        ensures
            self.spec_names().dom().contains(self.spec_agents()[id].name),
            self.spec_names()[self.spec_agents()[id].name].0 == id,
    {
        let j = choose|j: int| 0 <= j < self.handles@.len() && #[trigger] self.handles@[j].id.0 == id;
        self.lemma_handle(j);
        assert(self.by_name@.dom().contains(self.handles@[j].name@));
    }

    /// Two live subagents never share a name.
    pub proof fn law_live_names_are_distinct(&self, a: u32, b: u32)
        requires
            self.wf(),
            self.spec_agents().dom().contains(a),
            self.spec_agents().dom().contains(b),
            a != b,
        ensures
            self.spec_agents()[a].name != self.spec_agents()[b].name,
    {
        self.lemma_live_name_refers_to_agent(a);
        self.lemma_live_name_refers_to_agent(b);
    }

    /// Every live subagent's id was handed out already.
    pub proof fn lemma_ids_below_next(&self, id: u32)
        requires
            self.wf(),
            self.spec_agents().dom().contains(id),
        ensures
            id < self.spec_next_id(),
    {
        let j = choose|j: int| 0 <= j < self.handles@.len() && #[trigger] self.handles@[j].id.0 == id;
    }

    /// An empty registry whose first id is 1.
    pub fn new() -> (r: Self)
        ensures
            r.wf(),
            r.spec_agents() == Map::<u32, AgentModel>::empty(),
            r.spec_names() == Map::<Seq<char>, SubagentId>::empty(),
            r.spec_next_id() == 1,
            r.spec_stopped() == Map::<u32, AgentModel>::empty(),
    {
        let r = SubagentRegistry {
            handles: Vec::new(),
            by_name: NamedList::new(),
            next_id: 1,
            stopped: Ghost(Map::empty()),
        };
        assert(r.spec_agents() =~= Map::<u32, AgentModel>::empty());
        r
    }

    fn index_of(&self, id: SubagentId) -> (r: Option<usize>)
        requires
            self.wf(),
        ensures
            r is Some <==> self.spec_agents().dom().contains(id.0),
            r matches Some(i) ==> i < self.handles@.len() && self.handles@[i as int].id == id,
    {
        let mut i: usize = 0;
        while i < self.handles.len()
            invariant
                i <= self.handles@.len(),
                forall|j: int| 0 <= j < i ==> #[trigger] self.handles@[j].id != id,
            decreases self.handles@.len() - i,
        {
            if self.handles[i].id == id {
                return Some(i);
            }
            i += 1;
        }
        proof {
            if self.spec_agents().dom().contains(id.0) {
                let j = choose|j: int| 0 <= j < self.handles@.len() && #[trigger] self.handles@[j].id.0 == id.0;
                assert(self.handles@[j].id != id);
            }
        }
        None
    }

    /// Returns `true` if the registry holds a live entry for `id`.
    pub fn contains_id(&self, id: SubagentId) -> (r: bool)
        requires
            self.wf(),
        ensures
            r == self.spec_agents().dom().contains(id.0),
    {
        self.index_of(id).is_some()
    }

    /// The id the next allocation hands out.
    pub fn next_id(&self) -> (r: u32)
        ensures
            r == self.spec_next_id(),
    {
        self.next_id
    }

    /// Look up a subagent by name, returning its id.
    pub fn id_by_name(&self, name: &str) -> (r: Option<SubagentId>)
        requires
            self.wf(),
        ensures
            r == (if self.spec_names().dom().contains(name@) {
                Some(self.spec_names()[name@])
            } else {
                None::<SubagentId>
            }),
    {
        match self.by_name.get(name) {
            Some(id) => Some(*id),
            None => None,
        }
    }

    /// The state of the subagent `id`, if it is live.
    pub fn state(&self, id: SubagentId) -> (r: Option<&SubagentInner>)
        requires
            self.wf(),
        ensures
            r is Some <==> self.spec_agents().dom().contains(id.0),
            r matches Some(s) ==> {
                &&& s.status == self.spec_agents()[id.0].status
                &&& s.inbox@ == self.spec_agents()[id.0].inbox
                &&& s.final_response == self.spec_agents()[id.0].final_response
            },
    {
        match self.index_of(id) {
            Some(i) => {
                proof {
                    self.lemma_handle(i as int);
                }
                Some(&self.handles[i].state)
            },
            None => None,
        }
    }

    /// First step of spawning: check that `name` is free and hand out the
    /// next id. Refused when a subagent already has that name.
    pub fn allocate_id(&mut self, name: &str) -> (r: Result<SubagentId, SubagentError>)
        requires
            old(self).wf(),
            !old(self).spec_names().dom().contains(name@) ==> old(self).spec_next_id() < u32::MAX,
        ensures
            final(self).wf(),
            final(self).spec_stopped() == old(self).spec_stopped(),
            final(self).spec_agents() == old(self).spec_agents(),
            final(self).spec_names() == old(self).spec_names(),
            old(self).spec_names().dom().contains(name@) ==> {
                &&& r matches Err(SubagentError::AlreadyExists(n)) && n@ == name@
                &&& final(self).spec_next_id() == old(self).spec_next_id()
            },
            !old(self).spec_names().dom().contains(name@) ==> {
                &&& r == Ok::<SubagentId, SubagentError>(SubagentId(old(self).spec_next_id()))
                &&& final(self).spec_next_id() == old(self).spec_next_id() + 1
                &&& !final(self).spec_agents().dom().contains(old(self).spec_next_id())
                &&& forall|n: Seq<char>|
                    #[trigger] final(self).spec_names().dom().contains(n) ==> final(self).spec_names()[n].0
                        != old(self).spec_next_id()
            },
    {
        if self.by_name.contains(name) {
            return Err(SubagentError::AlreadyExists(String::from_str(name)));
        }
        proof {
            self.law_next_id_is_fresh();
        }
        let id = SubagentId(self.next_id);
        self.next_id = self.next_id + 1;
        proof {
            assert forall|n: Seq<char>| #[trigger] self.by_name@.dom().contains(n) implies {
                &&& self.by_name@[n].0 < self.next_id
                &&& self.spec_agents().dom().contains(self.by_name@[n].0)
                    ==> self.spec_agents()[self.by_name@[n].0].name == n
            } by {}
        }
        Ok(id)
    }

    /// Last step of spawning: register subagent `id` under `name` with the
    /// given state. The id must be one `allocate_id` handed out (not live,
    /// and no name refers to it yet) and the name one it accepted (free).
    pub fn insert(&mut self, id: SubagentId, name: String, state: SubagentInner)
        requires
            old(self).wf(),
            !old(self).spec_agents().dom().contains(id.0),
            id.0 < old(self).spec_next_id(),
            forall|n: Seq<char>|
                #[trigger] old(self).spec_names().dom().contains(n) ==> old(self).spec_names()[n] != id,
            !old(self).spec_names().dom().contains(name@),
        ensures
            final(self).wf(),
            final(self).spec_stopped() == old(self).spec_stopped(),
            final(self).spec_next_id() == old(self).spec_next_id(),
            final(self).spec_agents() == old(self).spec_agents().insert(
                id.0,
                AgentModel {
                    name: name@,
                    status: state.status,
                    inbox: state.inbox@,
                    final_response: state.final_response,
                },
            ),
            final(self).spec_names() == old(self).spec_names().insert(name@, id),
    {
        let ghost old_self = *self;
        let key = name.clone();
        let ghost h = SubagentHandle { id, name, state };
        self.handles.push(SubagentHandle { id, name, state });
        self.by_name.insert(key, id);
        proof {
            let n = self.handles@.len() - 1;
            assert(self.handles@[n] == h);
            assert forall|a: int, b: int|
                0 <= a < b < self.handles@.len() implies #[trigger] self.handles@[a].id != #[trigger] self.handles@[b].id by {
                if b == n {
                    assert(old_self.handles@[a].id.0 == self.handles@[a].id.0);
                    if self.handles@[a].id == id {
                        assert(old_self.spec_agents().dom().contains(id.0));
                    }
                } else {
                    assert(old_self.handles@[a] == self.handles@[a]);
                    assert(old_self.handles@[b] == self.handles@[b]);
                }
            }
            let expected = old_self.spec_agents().insert(id.0, handle_model(h));
            assert forall|k: u32| #[trigger] self.spec_agents().dom().contains(k) == expected.dom().contains(k) by {
                if old_self.spec_agents().dom().contains(k) {
                    let j = choose|j: int| 0 <= j < old_self.handles@.len() && #[trigger] old_self.handles@[j].id.0 == k;
                    assert(self.handles@[j].id.0 == k);
                }
                if k == id.0 {
                    assert(self.handles@[n].id.0 == k);
                }
                if self.spec_agents().dom().contains(k) && k != id.0 {
                    let j = choose|j: int| 0 <= j < self.handles@.len() && #[trigger] self.handles@[j].id.0 == k;
                    assert(old_self.handles@[j].id.0 == k);
                }
            }
            assert forall|k: u32| self.spec_agents().dom().contains(k) implies #[trigger] self.spec_agents()[k] == expected[k] by {
                let j = choose|j: int| 0 <= j < self.handles@.len() && #[trigger] self.handles@[j].id.0 == k;
                self.lemma_handle_unchecked(j);
                if k != id.0 {
                    old_self.lemma_handle(j);
                }
            }
            assert(self.spec_agents() =~= expected);
            assert forall|m: Seq<char>| #[trigger] self.by_name@.dom().contains(m) implies {
                &&& self.by_name@[m].0 < self.next_id
                &&& self.spec_agents().dom().contains(self.by_name@[m].0)
                    ==> self.spec_agents()[self.by_name@[m].0].name == m
            } by {
                if m != name@ {
                    assert(old_self.spec_names().dom().contains(m));
                    assert(old_self.by_name@[m] != id);
                }
            }
        }
    }

    /// Changing the state of the handle at position `i` (keeping its id and
    /// name) changes only that subagent's entry.
    proof fn lemma_after_update(self, new: Self, i: int)
        requires
            self.wf(),
            0 <= i < self.handles@.len(),
            new.handles@.len() == self.handles@.len(),
            new.handles@[i].id == self.handles@[i].id,
            new.handles@[i].name@ == self.handles@[i].name@,
            forall|j: int| 0 <= j < self.handles@.len() && j != i ==> new.handles@[j] == self.handles@[j],
            new.by_name == self.by_name,
            new.next_id == self.next_id,
        ensures
            new.wf(),
            new.spec_agents() == self.spec_agents().insert(self.handles@[i].id.0, handle_model(new.handles@[i])),
    {
        let nh = new.handles@[i];
        assert forall|a: int, b: int|
            0 <= a < b < new.handles@.len() implies #[trigger] new.handles@[a].id != #[trigger] new.handles@[b].id by {
            assert(new.handles@[a].id == self.handles@[a].id);
            assert(new.handles@[b].id == self.handles@[b].id);
        }
        assert forall|j: int| 0 <= j < new.handles@.len() implies #[trigger] new.handles@[j].id.0 < new.next_id by {
            assert(new.handles@[j].id == self.handles@[j].id);
        }
        let expected = self.spec_agents().insert(nh.id.0, handle_model(nh));
        assert forall|k: u32| #[trigger] new.spec_agents().dom().contains(k) == expected.dom().contains(k) by {
            if self.spec_agents().dom().contains(k) {
                let j = choose|j: int| 0 <= j < self.handles@.len() && #[trigger] self.handles@[j].id.0 == k;
                assert(new.handles@[j].id.0 == k);
            }
            if new.spec_agents().dom().contains(k) {
                let j = choose|j: int| 0 <= j < new.handles@.len() && #[trigger] new.handles@[j].id.0 == k;
                assert(self.handles@[j].id.0 == k);
            }
            self.lemma_handle(i);
        }
        assert forall|k: u32| new.spec_agents().dom().contains(k) implies #[trigger] new.spec_agents()[k] == expected[k] by {
            let j = choose|j: int| 0 <= j < new.handles@.len() && #[trigger] new.handles@[j].id.0 == k;
            new.lemma_handle_unchecked(j);
            if j != i {
                self.lemma_handle(j);
            }
        }
        assert(new.spec_agents() =~= expected);
        assert forall|m: Seq<char>| #[trigger] new.by_name@.dom().contains(m) implies {
            &&& new.by_name@[m].0 < new.next_id
            &&& new.spec_agents().dom().contains(new.by_name@[m].0)
                ==> new.spec_agents()[new.by_name@[m].0].name == m
        } by {
            assert(self.by_name@.dom().contains(m));
            self.lemma_handle(i);
        }
    }

    /// With distinct ids, the entry at position `i` is the model of its id.
    proof fn lemma_handle_unchecked(&self, i: int)
        requires
            forall|a: int, b: int|
                0 <= a < b < self.handles@.len() ==> #[trigger] self.handles@[a].id != #[trigger] self.handles@[b].id,
            0 <= i < self.handles@.len(),
        ensures
            self.spec_agents().dom().contains(self.handles@[i].id.0),
            self.spec_agents()[self.handles@[i].id.0] == handle_model(self.handles@[i]),
    {
        let k = self.handles@[i].id.0;
        assert(self.handles@[i].id.0 == k);
        let j = choose|j: int| 0 <= j < self.handles@.len() && #[trigger] self.handles@[j].id.0 == k;
        if j < i {
            assert(self.handles@[j].id != self.handles@[i].id);
        } else if i < j {
            assert(self.handles@[i].id != self.handles@[j].id);
        }
    }

    /// Send a message to a subagent's inbox.
    pub fn send_message(&mut self, id: SubagentId, message: String) -> (r: Result<(), SubagentError>)
        requires
            old(self).wf(),
        ensures
            final(self).wf(),
            final(self).spec_stopped() == old(self).spec_stopped(),
            final(self).spec_next_id() == old(self).spec_next_id(),
            final(self).spec_names() == old(self).spec_names(),
            r is Ok <==> old(self).spec_agents().dom().contains(id.0),
            r is Err ==> r == Err::<(), SubagentError>(SubagentError::NotFound(id)) && final(self).spec_agents() == old(self).spec_agents(),
            r is Ok ==> final(self).spec_agents() == old(self).spec_agents().insert(
                id.0,
                AgentModel { inbox: old(self).spec_agents()[id.0].inbox.push(message), ..old(self).spec_agents()[id.0] },
            ),
    {
        match self.index_of(id) {
            Some(i) => {
                proof {
                    self.lemma_handle(i as int);
                }
                let ghost old_self = *self;
                self.handles[i].state.inbox.push_back(message);
                proof {
                    old_self.lemma_after_update(*self, i as int);
                }
                Ok(())
            },
            None => Err(SubagentError::NotFound(id)),
        }
    }


    /// Drain one message from the front of a subagent's inbox.
    pub fn pop_inbox_message(&mut self, id: SubagentId) -> (r: Option<String>)
        requires
            old(self).wf(),
        ensures
            final(self).wf(),
            final(self).spec_stopped() == old(self).spec_stopped(),
            final(self).spec_next_id() == old(self).spec_next_id(),
            final(self).spec_names() == old(self).spec_names(),
            !old(self).spec_agents().dom().contains(id.0) || old(self).spec_agents()[id.0].inbox.len() == 0
                ==> r is None && final(self).spec_agents() == old(self).spec_agents(),
            old(self).spec_agents().dom().contains(id.0) && old(self).spec_agents()[id.0].inbox.len() > 0 ==> {
                &&& r == Some(old(self).spec_agents()[id.0].inbox[0])
                &&& final(self).spec_agents() == old(self).spec_agents().insert(
                    id.0,
                    AgentModel { inbox: old(self).spec_agents()[id.0].inbox.drop_first(), ..old(self).spec_agents()[id.0] },
                )
            },
    {
        match self.index_of(id) {
            Some(i) => {
                proof {
                    self.lemma_handle(i as int);
                }
                let ghost old_self = *self;
                let r = self.handles[i].state.inbox.pop_front();
                proof {
                    old_self.lemma_after_update(*self, i as int);
                    if r is None {
                        assert(handle_model(self.handles@[i as int]) == handle_model(old_self.handles@[i as int]));
                        assert(self.spec_agents() =~= old_self.spec_agents());
                    } else {
                        assert(self.handles@[i as int].state.inbox@ =~= old_self.handles@[i as int].state.inbox@.drop_first());
                    }
                }
                r
            },
            None => None,
        }
    }

    /// Update the status of a live subagent; no effect for an unknown id.
    pub fn set_status(&mut self, id: SubagentId, status: SubagentStatus)
        requires
            old(self).wf(),
        ensures
            final(self).wf(),
            final(self).spec_stopped() == old(self).spec_stopped(),
            final(self).spec_next_id() == old(self).spec_next_id(),
            final(self).spec_names() == old(self).spec_names(),
            final(self).spec_agents() == if old(self).spec_agents().dom().contains(id.0) {
                old(self).spec_agents().insert(id.0, AgentModel { status, ..old(self).spec_agents()[id.0] })
            } else {
                old(self).spec_agents()
            },
    {
        match self.index_of(id) {
            Some(i) => {
                proof {
                    self.lemma_handle(i as int);
                }
                let ghost old_self = *self;
                self.handles[i].state.status = status;
                proof {
                    old_self.lemma_after_update(*self, i as int);
                }
            },
            None => {},
        }
    }

    /// Record the final response of a live subagent; no effect for an unknown id.
    pub fn set_final_response(&mut self, id: SubagentId, response: String)
        requires
            old(self).wf(),
        ensures
            final(self).wf(),
            final(self).spec_stopped() == old(self).spec_stopped(),
            final(self).spec_next_id() == old(self).spec_next_id(),
            final(self).spec_names() == old(self).spec_names(),
            final(self).spec_agents() == if old(self).spec_agents().dom().contains(id.0) {
                old(self).spec_agents().insert(
                    id.0,
                    AgentModel { final_response: Some(response), ..old(self).spec_agents()[id.0] },
                )
            } else {
                old(self).spec_agents()
            },
    {
        match self.index_of(id) {
            Some(i) => {
                proof {
                    self.lemma_handle(i as int);
                }
                let ghost old_self = *self;
                self.handles[i].state.final_response = Some(response);
                proof {
                    old_self.lemma_after_update(*self, i as int);
                }
            },
            None => {},
        }
    }

    /// The name of a live subagent.
    pub fn name(&self, id: SubagentId) -> (r: Option<String>)
        requires
            self.wf(),
        ensures
            r is Some <==> self.spec_agents().dom().contains(id.0),
            r matches Some(n) ==> n@ == self.spec_agents()[id.0].name,
    {
        match self.index_of(id) {
            Some(i) => {
                proof {
                    self.lemma_handle(i as int);
                }
                Some(self.handles[i].name.clone())
            },
            None => None,
        }
    }

    /// Stop a subagent: remove it, recording its last state with status
    /// `Done`. The names that refer to it are kept for history, so they stay
    /// taken. Stopping an unknown id changes nothing.
    pub fn stop(&mut self, id: SubagentId) -> (r: Result<(), SubagentError>)
        requires
            old(self).wf(),
        ensures
            final(self).wf(),
            r is Ok,
            stopped(*old(self), *final(self), id),
    {
        let ghost old_self = *self;
        match self.index_of(id) {
            Some(i) => {
                proof {
                    self.lemma_handle(i as int);
                }
                let ghost last = old_self.spec_agents()[id.0];
                let _ = self.handles.remove(i);
                self.stopped = Ghost(
                    self.stopped@.insert(id.0, AgentModel { status: SubagentStatus::Done, ..last }),
                );
                proof {
                    assert forall|a: int, b: int|
                        0 <= a < b < self.handles@.len() implies #[trigger] self.handles@[a].id != #[trigger] self.handles@[b].id by {
                        let a2 = if a < i { a } else { a + 1 };
                        let b2 = if b < i { b } else { b + 1 };
                        assert(self.handles@[a] == old_self.handles@[a2]);
                        assert(self.handles@[b] == old_self.handles@[b2]);
                    }
                    assert forall|j: int| 0 <= j < self.handles@.len() implies #[trigger] self.handles@[j].id.0 < self.next_id by {
                        let j2 = if j < i { j } else { j + 1 };
                        assert(self.handles@[j] == old_self.handles@[j2]);
                    }
                    let expected = old_self.spec_agents().remove(id.0);
                    assert forall|k: u32| #[trigger] self.spec_agents().dom().contains(k) == expected.dom().contains(k) by {
                        if self.spec_agents().dom().contains(k) {
                            let j = choose|j: int| 0 <= j < self.handles@.len() && #[trigger] self.handles@[j].id.0 == k;
                            let j2 = if j < i { j } else { j + 1 };
                            assert(old_self.handles@[j2].id.0 == k);
                            assert(j2 != i);
                        }
                        if expected.dom().contains(k) {
                            let j = choose|j: int| 0 <= j < old_self.handles@.len() && #[trigger] old_self.handles@[j].id.0 == k;
                            assert(j != i);
                            let j2 = if j < i { j } else { j - 1 };
                            assert(self.handles@[j2].id.0 == k);
                        }
                    }
                    assert forall|k: u32| self.spec_agents().dom().contains(k) implies #[trigger] self.spec_agents()[k] == expected[k] by {
                        let j = choose|j: int| 0 <= j < self.handles@.len() && #[trigger] self.handles@[j].id.0 == k;
                        self.lemma_handle_unchecked(j);
                        let j2 = if j < i { j } else { j + 1 };
                        old_self.lemma_handle(j2);
                    }
                    assert(self.spec_agents() =~= expected);
                    assert forall|j: int| 0 <= j < self.handles@.len() implies {
                        &&& self.by_name@.dom().contains(#[trigger] self.handles@[j].name@)
                        &&& self.by_name@[self.handles@[j].name@] == self.handles@[j].id
                    } by {
                        let j2 = if j < i { j } else { j + 1 };
                        assert(self.handles@[j] == old_self.handles@[j2]);
                    }
                }
                Ok(())
            },
            None => {
                proof {
                    assert(self.spec_agents() =~= old_self.spec_agents().remove(id.0));
                }
                Ok(())
            },
        }
    }

    /// Returns a snapshot of every live subagent, one per subagent.
    pub fn list(&self) -> (r: Vec<SubagentSnapshot>)
        requires
            self.wf(),
        ensures
            forall|i: int| #![trigger r@[i]] 0 <= i < r@.len() ==> {
                &&& self.spec_agents().dom().contains(r@[i].id.0)
                &&& r@[i].name@ == self.spec_agents()[r@[i].id.0].name
                &&& r@[i].status == self.spec_agents()[r@[i].id.0].status
                &&& r@[i].final_response == self.spec_agents()[r@[i].id.0].final_response
            },
            forall|k: u32|
                #[trigger] self.spec_agents().dom().contains(k) ==> exists|i: int|
                    0 <= i < r@.len() && #[trigger] r@[i].id.0 == k,
            forall|i: int, j: int| 0 <= i < j < r@.len() ==> #[trigger] r@[i].id != #[trigger] r@[j].id,
            r@.len() == self.spec_handles().len(),
            forall|i: int| #![trigger r@[i]] 0 <= i < r@.len() ==> {
                &&& r@[i].id == self.spec_handles()[i].id
                &&& r@[i].name@ == self.spec_handles()[i].name@
                &&& r@[i].status == self.spec_handles()[i].state.status
                &&& r@[i].final_response == self.spec_handles()[i].state.final_response
            },
    {
        let mut r: Vec<SubagentSnapshot> = Vec::new();
        let mut i: usize = 0;
        while i < self.handles.len()
            invariant
                self.wf(),
                i <= self.handles@.len(),
                r@.len() == i,
                forall|j: int| #![trigger r@[j]] 0 <= j < i ==> {
                    &&& r@[j].id == self.handles@[j].id
                    &&& r@[j].name@ == self.handles@[j].name@
                    &&& r@[j].status == self.handles@[j].state.status
                    &&& r@[j].final_response == self.handles@[j].state.final_response
                },
            decreases self.handles@.len() - i,
        {
            let h = &self.handles[i];
            let final_response = match &h.state.final_response {
                Some(s) => Some(s.clone()),
                None => None,
            };
            r.push(SubagentSnapshot {
                id: h.id,
                name: h.name.clone(),
                status: h.state.status.duplicate(),
                final_response,
            });
            i += 1;
        }
        proof {
            assert forall|j: int| #![trigger r@[j]] 0 <= j < r@.len() implies {
                &&& self.spec_agents().dom().contains(r@[j].id.0)
                &&& r@[j].name@ == self.spec_agents()[r@[j].id.0].name
                &&& r@[j].status == self.spec_agents()[r@[j].id.0].status
                &&& r@[j].final_response == self.spec_agents()[r@[j].id.0].final_response
            } by {
                self.lemma_handle(j);
            }
            assert forall|k: u32|
                #[trigger] self.spec_agents().dom().contains(k) implies exists|j: int|
                    0 <= j < r@.len() && #[trigger] r@[j].id.0 == k by {
                let j = choose|j: int| 0 <= j < self.handles@.len() && #[trigger] self.handles@[j].id.0 == k;
                assert(r@[j].id.0 == k);
            }
            assert forall|a: int, b: int| 0 <= a < b < r@.len() implies #[trigger] r@[a].id != #[trigger] r@[b].id by {
                assert(r@[a].id == self.handles@[a].id);
                assert(r@[b].id == self.handles@[b].id);
            }
        }
        r
    }
}


/// What stopping subagent `id` does to a registry: the subagent is removed
/// and its last state is recorded with status `Done`; the names (those of
/// stopped subagents included) and the id counter stay as they were.
pub open spec fn stopped(before: SubagentRegistry, after: SubagentRegistry, id: SubagentId) -> bool {
    &&& after.spec_next_id() == before.spec_next_id()
    &&& after.spec_agents() == before.spec_agents().remove(id.0)
    &&& after.spec_names() == before.spec_names()
    &&& after.spec_stopped() == if before.spec_agents().dom().contains(id.0) {
        before.spec_stopped().insert(id.0, AgentModel { status: SubagentStatus::Done, ..before.spec_agents()[id.0] })
    } else {
        before.spec_stopped()
    }
}

/// A stopped subagent is gone for good: its id is no longer live (so late
/// events tagged with it are recognised as stale) and is never handed out
/// again; its last state is kept with status `Done`; and every name that
/// referred to it, its own name included, still does, so the name stays
/// taken and a new subagent cannot be given it.
pub proof fn law_stop_keeps_names(before: SubagentRegistry, after: SubagentRegistry, id: SubagentId)
    requires
        before.wf(),
        after.wf(),
        stopped(before, after, id),
    ensures
        !after.spec_agents().dom().contains(id.0),
        forall|n: Seq<char>|
            before.spec_names().dom().contains(n) && #[trigger] before.spec_names()[n] == id ==> {
                &&& after.spec_names().dom().contains(n)
                &&& after.spec_names()[n] == id
            },
        before.spec_agents().dom().contains(id.0) ==> {
            let last = before.spec_agents()[id.0];
            &&& id.0 < after.spec_next_id()
            &&& after.spec_stopped().dom().contains(id.0)
            &&& after.spec_stopped()[id.0] == AgentModel { status: SubagentStatus::Done, ..last }
            &&& after.spec_names().dom().contains(last.name)
            &&& after.spec_names()[last.name] == id
        },
{
    if before.spec_agents().dom().contains(id.0) {
        before.lemma_ids_below_next(id.0);
        before.lemma_live_name_refers_to_agent(id.0);
    }
}

/// Messages leave an inbox in the order they arrived: `send_message` appends
/// at the back and `pop_inbox_message` takes from the front, so a message
/// sent to an empty inbox is the next one popped, and otherwise the sent
/// message waits behind the ones already there.
pub proof fn law_inbox_is_fifo(inbox: Seq<String>, m: String)
    ensures
        inbox.push(m)[0] == if inbox.len() == 0 {
            m
        } else {
            inbox[0]
        },
        inbox.len() > 0 ==> inbox.push(m).drop_first() == inbox.drop_first().push(m),
{
    if inbox.len() > 0 {
        assert(inbox.push(m).drop_first() =~= inbox.drop_first().push(m));
    }
}

/// The session whose history a new subagent starts from: the lead's when
/// the subagent forks and there is a lead session, none otherwise (the
/// subagent then starts with an empty history).
pub fn history_source<S>(mode: ContextMode, lead_session: Option<S>) -> (r: Option<S>)
    ensures
        r == (match mode {
            ContextMode::Fresh => None,
            ContextMode::Fork => lead_session,
        }),
{
    match mode {
        ContextMode::Fresh => None,
        ContextMode::Fork => lead_session,
    }
}

} // verus!
