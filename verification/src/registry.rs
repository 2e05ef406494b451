use vstd::prelude::*;

use crate::agent::AgentSession;
use crate::agent::AgentSessionView;
use crate::agent::EnvVar;
use crate::agent::SendPlan;
use crate::agent::spec_args;
use crate::agent::spec_prompt;
use crate::agent::spec_send_env;
use crate::events::AgentStatus;
use crate::events::AgentStatusChangeView;
use crate::events::BusEvent;
use crate::events::BusEventView;
use crate::events::events_view;
use crate::ids::fresh_id;
use crate::text::str_eq;
use crate::text::strs_view;

verus! {

/// Why a registry operation was refused.
#[derive(Debug, Clone, Copy, PartialEq, Eq, Structural)]
pub enum RegistryError {
    /// No session bears the given id.
    NotFound,
    /// A session with the given id already exists.
    DuplicateId,
}

impl RegistryError {
    /// A human-readable description of the error.
    pub fn message(&self) -> (r: &'static str)
        ensures
            *self == RegistryError::NotFound ==> r@ == "not found"@,
            *self == RegistryError::DuplicateId ==> r@ == "a session with this ID already exists"@,
    {
        match self {
            RegistryError::NotFound => "not found",
            RegistryError::DuplicateId => "a session with this ID already exists",
        }
    }
}

/// No two sessions of the sequence bear the same id.
pub open spec fn ids_unique(agents: Seq<AgentSession>) -> bool {
    forall|i: int, j: int| 0 <= i < j < agents.len() ==> agents[i].id@ != agents[j].id@
}

/// Whether some session of the sequence bears the given id.
pub open spec fn seq_contains_id(agents: Seq<AgentSession>, id: Seq<char>) -> bool {
    exists|i: int| 0 <= i < agents.len() && agents[i].id@ == id
}

/// The index of the session bearing the given id.
pub open spec fn spec_index_of(agents: Seq<AgentSession>, id: Seq<char>) -> int {
    choose|i: int| 0 <= i < agents.len() && agents[i].id@ == id
}

/// The views of a sequence of sessions.
pub open spec fn sessions_view(agents: Seq<AgentSession>) -> Seq<AgentSessionView> {
    agents.map_values(|s: AgentSession| s@)
}

proof fn lemma_unique_push(agents: Seq<AgentSession>, s: AgentSession)
    requires
        ids_unique(agents),
        !seq_contains_id(agents, s.id@),
    ensures
        ids_unique(agents.push(s)),
{
    assert forall|i: int, j: int| 0 <= i < j < agents.push(s).len() implies agents.push(s)[i].id@
        != agents.push(s)[j].id@ by {
        if j == agents.len() {
            assert(agents.push(s)[i] == agents[i]);
            assert(!(agents[i].id@ == s.id@));
        }
    }
}

proof fn lemma_unique_remove(agents: Seq<AgentSession>, k: int)
    requires
        ids_unique(agents),
        0 <= k < agents.len(),
    ensures
        ids_unique(agents.remove(k)),
{
    let r = agents.remove(k);
    assert forall|i: int, j: int| 0 <= i < j < r.len() implies r[i].id@ != r[j].id@ by {
        let i0 = if i < k {
            i
        } else {
            i + 1
        };
        let j0 = if j < k {
            j
        } else {
            j + 1
        };
        assert(r[i] == agents[i0]);
        assert(r[j] == agents[j0]);
    }
}

proof fn lemma_unique_update_same_id(agents: Seq<AgentSession>, k: int, s: AgentSession)
    requires
        ids_unique(agents),
        0 <= k < agents.len(),
        s.id@ == agents[k].id@,
    ensures
        ids_unique(agents.update(k, s)),
{
    let u = agents.update(k, s);
    assert forall|i: int, j: int| 0 <= i < j < u.len() implies u[i].id@ != u[j].id@ by {
        assert(agents[i].id@ != agents[j].id@);
    }
}

/// In a well-formed sequence, the only index bearing `agents[k].id` is `k`.
proof fn lemma_index_of_found(agents: Seq<AgentSession>, k: int)
    requires
        ids_unique(agents),
        0 <= k < agents.len(),
    ensures
        spec_index_of(agents, agents[k].id@) == k,
{
    let id = agents[k].id@;
    assert(seq_contains_id(agents, id));
    let c = spec_index_of(agents, id);
    assert(0 <= c < agents.len() && agents[c].id@ == id);
    if c != k {
        if c < k {
            assert(agents[c].id@ != agents[k].id@);
        } else {
            assert(agents[k].id@ != agents[c].id@);
        }
    }
}

/// The keyed collection of live assistant sessions. At any moment it
/// holds at most one session per id; `create` refuses a duplicate.
pub struct AgentRegistry {
    pub agents: Vec<AgentSession>,
}

impl AgentRegistry {
    /// The registry's invariant: session ids are unique.
    pub open spec fn wf(&self) -> bool {
        ids_unique(self.agents@)
    }

    /// Whether a session with the given id is present.
    pub open spec fn spec_contains(&self, id: Seq<char>) -> bool {
        seq_contains_id(self.agents@, id)
    }

    /// An empty registry.
    pub fn new() -> (r: AgentRegistry)
        ensures
            r.wf(),
            r.agents@.len() == 0,
    {
        AgentRegistry { agents: Vec::new() }
    }

    /// The index of the session bearing `id`, if any.
    fn find_index(&self, id: &str) -> (r: Option<usize>)
        ensures
            match r {
                Some(i) => i < self.agents@.len() && self.agents@[i as int].id@ == id@,
                None => !self.spec_contains(id@),
            },
    {
        let mut i: usize = 0;
        while i < self.agents.len()
            invariant
                i <= self.agents@.len(),
                forall|j: int| 0 <= j < i ==> self.agents@[j].id@ != id@,
            decreases self.agents@.len() - i,
        {
            if str_eq(self.agents[i].id.as_str(), id) {
                return Some(i);
            }
            i = i + 1;
        }
        None
    }

    /// Creates a session under the given id. Fails, leaving the registry
    /// unchanged, exactly when the id is already present.
    pub fn create_with_id(
        &mut self,
        id: String,
        name: String,
        working_dir: String,
        model: String,
        thinking_enabled: bool,
        mcp_servers: Vec<String>,
    ) -> (r: Result<(), RegistryError>)
        requires
            old(self).wf(),
        ensures
            final(self).wf(),
            r is Ok <==> !old(self).spec_contains(id@),
            r is Ok ==> sessions_view(final(self).agents@) == sessions_view(old(self).agents@)
                .push(
                AgentSessionView {
                    id: id@,
                    name: name@,
                    working_dir: working_dir@,
                    model: model@,
                    thinking_enabled,
                    mcp_servers: strs_view(mcp_servers@),
                    conversation_id: None,
                    child: None,
                },
            ),
            r is Err ==> r == Result::<(), RegistryError>::Err(RegistryError::DuplicateId)
                && *final(self) == *old(self),
    {
        if self.find_index(id.as_str()).is_some() {
            return Err(RegistryError::DuplicateId);
        }
        let session = AgentSession::new(id, name, working_dir, model, thinking_enabled,
            mcp_servers);
        proof {
            lemma_unique_push(self.agents@, session);
        }
        self.agents.push(session);
        proof {
            assert(sessions_view(self.agents@) =~= sessions_view(old(self).agents@).push(
                session@,
            ));
        }
        Ok(())
    }

    /// Creates a session under the given id, or under a freshly minted
    /// one when none is given, and returns the id. Fails, leaving the
    /// registry unchanged, exactly when the chosen id is already present.
    pub fn create(
        &mut self,
        id: Option<String>,
        name: String,
        working_dir: String,
        model: String,
        thinking_enabled: bool,
        mcp_servers: Vec<String>,
    ) -> (r: Result<String, RegistryError>)
        requires
            old(self).wf(),
        ensures
            final(self).wf(),
            (id matches Some(given) ==> (r is Ok <==> !old(self).spec_contains(given@))),
            match r {
                Ok(chosen) => !old(self).spec_contains(chosen@) && (id matches Some(given)
                    ==> chosen@ == given@) && sessions_view(final(self).agents@) == sessions_view(
                    old(self).agents@,
                ).push(
                    AgentSessionView {
                        id: chosen@,
                        name: name@,
                        working_dir: working_dir@,
                        model: model@,
                        thinking_enabled,
                        mcp_servers: strs_view(mcp_servers@),
                        conversation_id: None,
                        child: None,
                    },
                ),
                Err(e) => e == RegistryError::DuplicateId && *final(self) == *old(self)
                    && old(self).agents@.len() > 0,
            },
    {
        let chosen: String = match id {
            Some(given) => given,
            None => fresh_id(),
        };
        let copy = chosen.clone();
        match self.create_with_id(copy, name, working_dir, model, thinking_enabled, mcp_servers) {
            Ok(()) => Ok(chosen),
            Err(e) => Err(e),
        }
    }

    /// The session bearing `id`, if any.
    pub fn get(&self, id: &str) -> (r: Option<&AgentSession>)
        ensures
            r is Some <==> self.spec_contains(id@),
            match r {
                Some(s) => s.id@ == id@ && self.agents@.contains(*s),
                None => true,
            },
    {
        match self.find_index(id) {
            Some(i) => {
                let s = &self.agents[i];
                proof {
                    assert(self.agents@.contains(self.agents@[i as int]));
                }
                Some(s)
            },
            None => None,
        }
    }

    /// Removes and returns the session bearing `id`. Fails, leaving the
    /// registry unchanged, exactly when no session bears it.
    pub fn remove(&mut self, id: &str) -> (r: Result<AgentSession, RegistryError>)
        requires
            old(self).wf(),
        ensures
            final(self).wf(),
            r is Ok <==> old(self).spec_contains(id@),
            !final(self).spec_contains(id@),
            match r {
                Ok(s) => s.id@ == id@ && {
                    let k = spec_index_of(old(self).agents@, id@);
                    &&& 0 <= k < old(self).agents@.len()
                    &&& old(self).agents@[k] == s
                    &&& final(self).agents@ == old(self).agents@.remove(k)
                },
                Err(e) => e == RegistryError::NotFound && *final(self) == *old(self),
            },
    {
        match self.find_index(id) {
            Some(i) => {
                proof {
                    lemma_unique_remove(self.agents@, i as int);
                    lemma_index_of_found(self.agents@, i as int);
                }
                let s = self.agents.remove(i);
                proof {
                    assert forall|j: int|
                        0 <= j < self.agents@.len() implies self.agents@[j].id@ != id@ by {
                        let j0 = if j < i as int {
                            j
                        } else {
                            j + 1
                        };
                        assert(self.agents@[j] == old(self).agents@[j0]);
                        if j0 != i as int {
                            if j0 < i as int {
                                assert(old(self).agents@[j0].id@ != old(self).agents@[
                                    i as int].id@);
                            } else {
                                assert(old(self).agents@[i as int].id@ != old(self).agents@[
                                    j0].id@);
                            }
                        }
                    }
                }
                Ok(s)
            },
            None => Err(RegistryError::NotFound),
        }
    }

    /// A snapshot of every session's id, display name, working directory,
    /// model tag, thinking flag and extension-server names.
    pub fn list(&self) -> (r: Vec<(String, String, String, String, bool, Vec<String>)>)
        ensures
            r@.len() == self.agents@.len(),
            forall|i: int|
                0 <= i < r@.len() ==> {
                    &&& #[trigger] r@[i].0@ == self.agents@[i].id@
                    &&& r@[i].1@ == self.agents@[i].name@
                    &&& r@[i].2@ == self.agents@[i].working_dir@
                    &&& r@[i].3@ == self.agents@[i].model@
                    &&& r@[i].4 == self.agents@[i].thinking_enabled
                    &&& strs_view(r@[i].5@) == strs_view(self.agents@[i].mcp_servers@)
                },
    {
        let mut r: Vec<(String, String, String, String, bool, Vec<String>)> = Vec::new();
        let mut i: usize = 0;
        while i < self.agents.len()
            invariant
                i <= self.agents@.len(),
                r@.len() == i,
                forall|j: int|
                    0 <= j < i ==> {
                        &&& #[trigger] r@[j].0@ == self.agents@[j].id@
                        &&& r@[j].1@ == self.agents@[j].name@
                        &&& r@[j].2@ == self.agents@[j].working_dir@
                        &&& r@[j].3@ == self.agents@[j].model@
                        &&& r@[j].4 == self.agents@[j].thinking_enabled
                        &&& strs_view(r@[j].5@) == strs_view(self.agents@[j].mcp_servers@)
                    },
            decreases self.agents@.len() - i,
        {
            let s = &self.agents[i];
            let (model, thinking_enabled, mcp_servers) = s.get_settings();
            let entry = (s.id.clone(), s.name.clone(), s.working_dir.clone(), model,
                thinking_enabled, mcp_servers);
            proof {
                assert(entry.0@ == self.agents@[i as int].id@);
                assert(entry.1@ == self.agents@[i as int].name@);
                assert(entry.2@ == self.agents@[i as int].working_dir@);
                assert(strs_view(entry.5@) == strs_view(self.agents@[i as int].mcp_servers@));
            }
            r.push(entry);
            proof {
                assert(forall|j: int| 0 <= j < i ==> r@[j] == r@.subrange(0, i as int)[j]);
                assert(r@[i as int] == entry);
            }
            i = i + 1;
        }
        r
    }

    /// Prepares a message send on the session bearing `id`. Fails exactly
    /// when no session bears it; the registry is never changed.
    pub fn prepare_send(&self, id: &str, message: &str, images: &Vec<String>) -> (r: Result<
        SendPlan,
        RegistryError,
    >)
        requires
            self.wf(),
        ensures
            r is Ok <==> self.spec_contains(id@),
            match r {
                Ok(plan) => {
                    let k = spec_index_of(self.agents@, id@);
                    let s = self.agents@[k]@;
                    &&& 0 <= k < self.agents@.len()
                    &&& plan.prompt@ == spec_prompt(message@, strs_view(images@))
                    &&& strs_view(plan.args@) == spec_args(
                        spec_prompt(message@, strs_view(images@)),
                        s.model,
                        s.conversation_id,
                    )
                    &&& plan.env@.map_values(|v: EnvVar| v@) == spec_send_env(
                        s.thinking_enabled,
                        s.mcp_servers,
                    )
                    &&& plan.status_event@ == BusEventView::AgentStatus(
                        AgentStatusChangeView { agent_id: s.id, status: AgentStatus::Thinking },
                    )
                },
                Err(e) => e == RegistryError::NotFound,
            },
    {
        match self.find_index(id) {
            Some(i) => {
                proof {
                    lemma_index_of_found(self.agents@, i as int);
                }
                Ok(self.agents[i].prepare_send(message, images))
            },
            None => Err(RegistryError::NotFound),
        }
    }

    /// Records the spawned child on the session bearing `id`. Fails
    /// exactly when no session bears it.
    pub fn note_spawned(&mut self, id: &str, token: u64) -> (r: Result<(), RegistryError>)
        requires
            old(self).wf(),
        ensures
            final(self).wf(),
            r is Ok <==> old(self).spec_contains(id@),
            match r {
                Ok(()) => {
                    let k = spec_index_of(old(self).agents@, id@);
                    &&& 0 <= k < old(self).agents@.len()
                    &&& sessions_view(final(self).agents@) == sessions_view(old(self).agents@)
                        .update(
                        k,
                        AgentSessionView { child: Some(token), ..old(self).agents@[k]@ },
                    )
                },
                Err(e) => e == RegistryError::NotFound && *final(self) == *old(self),
            },
    {
        match self.find_index(id) {
            Some(i) => {
                proof {
                    lemma_index_of_found(self.agents@, i as int);
                }
                let mut s = self.agents.remove(i);
                s.note_spawned(token);
                proof {
                    lemma_unique_update_same_id(old(self).agents@, i as int, s);
                    assert(old(self).agents@.remove(i as int).insert(i as int, s)
                        =~= old(self).agents@.update(i as int, s));
                }
                self.agents.insert(i, s);
                proof {
                    assert(sessions_view(self.agents@) =~~= sessions_view(old(self).agents@)
                        .update(
                        i as int,
                        AgentSessionView { child: Some(token), ..old(self).agents@[i as int]@ },
                    ));
                }
                Ok(())
            },
            None => Err(RegistryError::NotFound),
        }
    }

    /// Interrupts the session bearing `id`, keeping it registered: its
    /// child handle is cleared, and the returned token and events tell
    /// the host what to terminate and publish. Fails exactly when no
    /// session bears the id.
    pub fn stop_agent(&mut self, id: &str) -> (r: Result<
        (Option<u64>, Vec<BusEvent>),
        RegistryError,
    >)
        requires
            old(self).wf(),
        ensures
            final(self).wf(),
            r is Ok <==> old(self).spec_contains(id@),
            match r {
                Ok((token, evs)) => {
                    let k = spec_index_of(old(self).agents@, id@);
                    let s = old(self).agents@[k]@;
                    &&& 0 <= k < old(self).agents@.len()
                    &&& token == s.child
                    &&& sessions_view(final(self).agents@) == sessions_view(old(self).agents@)
                        .update(k, AgentSessionView { child: None, ..s })
                    &&& events_view(evs@) == (match s.child {
                        Some(_) => seq![
                            BusEventView::AgentStatus(
                                AgentStatusChangeView {
                                    agent_id: s.id,
                                    status: AgentStatus::Idle,
                                },
                            ),
                        ],
                        None => Seq::<BusEventView>::empty(),
                    })
                },
                Err(e) => e == RegistryError::NotFound && *final(self) == *old(self),
            },
    {
        match self.find_index(id) {
            Some(i) => {
                proof {
                    lemma_index_of_found(self.agents@, i as int);
                }
                let mut s = self.agents.remove(i);
                let (token, evs) = s.stop();
                proof {
                    lemma_unique_update_same_id(old(self).agents@, i as int, s);
                    assert(old(self).agents@.remove(i as int).insert(i as int, s)
                        =~= old(self).agents@.update(i as int, s));
                }
                self.agents.insert(i, s);
                proof {
                    assert(sessions_view(self.agents@) =~~= sessions_view(old(self).agents@)
                        .update(
                        i as int,
                        AgentSessionView { child: None, ..old(self).agents@[i as int]@ },
                    ));
                }
                Ok((token, evs))
            },
            None => Err(RegistryError::NotFound),
        }
    }

    /// Observes one stdout line on the session bearing `id`: the
    /// session stores a newly seen conversation id, and the returned
    /// events are published, the raw line first. Fails exactly when no
    /// session bears the id.
    pub fn observe_line(&mut self, id: &str, line: &str) -> (r: Result<
        Vec<BusEvent>,
        RegistryError,
    >)
        requires
            old(self).wf(),
        ensures
            final(self).wf(),
            r is Ok <==> old(self).spec_contains(id@),
            match r {
                Ok(evs) => {
                    let k = spec_index_of(old(self).agents@, id@);
                    let s = old(self).agents@[k]@;
                    &&& 0 <= k < old(self).agents@.len()
                    &&& events_view(evs@) == crate::agent::spec_line_events(s.id, line@)
                    &&& sessions_view(final(self).agents@) == sessions_view(old(self).agents@)
                        .update(
                        k,
                        AgentSessionView {
                            conversation_id: crate::parser::spec_next_conversation(
                                s.conversation_id,
                                crate::parser::json_line_fields(line@),
                            ),
                            ..s
                        },
                    )
                },
                Err(e) => e == RegistryError::NotFound && *final(self) == *old(self),
            },
    {
        match self.find_index(id) {
            Some(i) => {
                proof {
                    lemma_index_of_found(self.agents@, i as int);
                }
                let mut s = self.agents.remove(i);
                let evs = s.observe_line(line);
                proof {
                    lemma_unique_update_same_id(old(self).agents@, i as int, s);
                    assert(old(self).agents@.remove(i as int).insert(i as int, s)
                        =~= old(self).agents@.update(i as int, s));
                }
                self.agents.insert(i, s);
                proof {
                    let k = i as int;
                    let sv = old(self).agents@[k]@;
                    assert(sessions_view(self.agents@) =~~= sessions_view(old(self).agents@)
                        .update(
                        k,
                        AgentSessionView {
                            conversation_id: crate::parser::spec_next_conversation(
                                sv.conversation_id,
                                crate::parser::json_line_fields(line@),
                            ),
                            ..sv
                        },
                    ));
                }
                Ok(evs)
            },
            None => Err(RegistryError::NotFound),
        }
    }

    /// Updates the settings of the session bearing `id`; only fields
    /// given as `Some` change. Fails exactly when no session bears it.
    pub fn update_settings(
        &mut self,
        id: &str,
        model: Option<String>,
        thinking_enabled: Option<bool>,
        mcp_servers: Option<Vec<String>>,
    ) -> (r: Result<(), RegistryError>)
        requires
            old(self).wf(),
        ensures
            final(self).wf(),
            r is Ok <==> old(self).spec_contains(id@),
            match r {
                Ok(()) => {
                    let k = spec_index_of(old(self).agents@, id@);
                    let s = old(self).agents@[k]@;
                    &&& 0 <= k < old(self).agents@.len()
                    &&& sessions_view(final(self).agents@) == sessions_view(old(self).agents@)
                        .update(
                        k,
                        AgentSessionView {
                            model: match model {
                                Some(m) => m@,
                                None => s.model,
                            },
                            thinking_enabled: match thinking_enabled {
                                Some(t) => t,
                                None => s.thinking_enabled,
                            },
                            mcp_servers: match mcp_servers {
                                Some(v) => strs_view(v@),
                                None => s.mcp_servers,
                            },
                            ..s
                        },
                    )
                },
                Err(e) => e == RegistryError::NotFound && *final(self) == *old(self),
            },
    {
        match self.find_index(id) {
            Some(i) => {
                proof {
                    lemma_index_of_found(self.agents@, i as int);
                }
                let ghost model_g = model;
                let ghost thinking_g = thinking_enabled;
                let ghost mcp_g = mcp_servers;
                let mut s = self.agents.remove(i);
                s.update_settings(model, thinking_enabled, mcp_servers);
                proof {
                    lemma_unique_update_same_id(old(self).agents@, i as int, s);
                    assert(old(self).agents@.remove(i as int).insert(i as int, s)
                        =~= old(self).agents@.update(i as int, s));
                }
                self.agents.insert(i, s);
                proof {
                    let k = i as int;
                    let sv = old(self).agents@[k]@;
                    assert(sessions_view(self.agents@) =~~= sessions_view(old(self).agents@)
                        .update(
                        k,
                        AgentSessionView {
                            model: match model_g {
                                Some(m) => m@,
                                None => sv.model,
                            },
                            thinking_enabled: match thinking_g {
                                Some(t) => t,
                                None => sv.thinking_enabled,
                            },
                            mcp_servers: match mcp_g {
                                Some(v) => strs_view(v@),
                                None => sv.mcp_servers,
                            },
                            ..sv
                        },
                    ));
                }
                Ok(())
            },
            None => Err(RegistryError::NotFound),
        }
    }
}

/// At most one session bears any given id: in a well-formed registry,
/// two indices holding the same id coincide.
pub proof fn lemma_at_most_one_per_id(r: &AgentRegistry, i: int, j: int)
    requires
        r.wf(),
        0 <= i < r.agents@.len(),
        0 <= j < r.agents@.len(),
        r.agents@[i].id@ == r.agents@[j].id@,
    ensures
        i == j,
{
    if i < j {
        assert(r.agents@[i].id@ != r.agents@[j].id@);
    } else if j < i {
        assert(r.agents@[j].id@ != r.agents@[i].id@);
    }
}

} // verus!
