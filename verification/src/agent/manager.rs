//! Several terminal-agent sessions with one of them active.
use vstd::prelude::*;

use vstd::arithmetic::div_mod::{
    lemma_add_mod_noop, lemma_fundamental_div_mod, lemma_mod_add_multiples_vanish, lemma_mod_bound,
    lemma_mod_multiples_basic, lemma_small_mod, lemma_sub_mod_noop,
};

use super::id::AgentId;
use super::state::AgentState;
use super::status::spec_status_bar_label;
use crate::text::{chars_starts_with, decimal, push_decimal, push_str, slice_sub, str_chars, string_from_chars};

verus! {

/// GitHub issue number linked to an agent session.
pub type IssueNumber = u64;

/// Default maximum number of concurrent agent sessions.
pub const DEFAULT_MAX_AGENTS: usize = 3;

/// One managed agent: identity, label, linked issue and process state.
#[derive(Debug, PartialEq, Eq)]
pub struct ManagedAgentSession {
    pub id: AgentId,
    pub label: String,
    pub linked_issue: Option<IssueNumber>,
    pub pty: AgentState,
}

impl ManagedAgentSession {
    pub fn new(id: AgentId, label: String, pty: AgentState) -> (r: Self)
        ensures
            r.id == id,
            r.label == label,
            r.linked_issue is None,
            r.pty == pty,
    {
        ManagedAgentSession { id, label, linked_issue: None, pty }
    }

    pub fn with_linked_issue(self, issue: IssueNumber) -> (r: Self)
        ensures
            r.id == self.id,
            r.label == self.label,
            r.linked_issue == Some(issue),
            r.pty == self.pty,
    {
        ManagedAgentSession { linked_issue: Some(issue), ..self }
    }
}

/// Why a manager operation was refused.
#[derive(Debug, Clone, Copy, PartialEq, Eq, Structural)]
pub enum AgentManagerError {
    AtCapacity,
    UnknownAgent(AgentId),
    CannotRemoveLast,
}

impl AgentManagerError {
    /// Human-readable message.
    pub fn message(self) -> (r: String)
        ensures
            self == AgentManagerError::AtCapacity ==> r@ == "agent session limit reached"@,
            self == AgentManagerError::CannotRemoveLast ==> r@ == "cannot remove the last agent session"@,
            self matches AgentManagerError::UnknownAgent(id) ==> r@ == "unknown agent id "@ + decimal(id.0 as nat),
    {
        match self {
            AgentManagerError::AtCapacity => String::from_str("agent session limit reached"),
            AgentManagerError::CannotRemoveLast => String::from_str("cannot remove the last agent session"),
            AgentManagerError::UnknownAgent(id) => {
                let mut s = String::from_str("unknown agent id ");
                push_decimal(&mut s, id.0 as u64);
                s
            },
        }
    }
}

/// Owns all managed sessions, ordered by id, and tracks the active one.
#[derive(Debug, PartialEq, Eq)]
pub struct AgentManager {
    agents: Vec<ManagedAgentSession>,
    active_agent: AgentId,
    next_id: u32,
    max_agents: usize,
}

/// Ids of a session list, in order.
pub open spec fn ids_of(s: Seq<ManagedAgentSession>) -> Seq<u32> {
    s.map_values(|x: ManagedAgentSession| x.id.0)
}

/// Session ids strictly increase along the list.
pub open spec fn strictly_ordered(s: Seq<ManagedAgentSession>) -> bool {
    forall|i: int, j: int| 0 <= i < j < s.len() ==> s[i].id.0 < s[j].id.0
}

/// Whether some session has the given id.
pub open spec fn has_id(s: Seq<ManagedAgentSession>, id: u32) -> bool {
    exists|i: int| 0 <= i < s.len() && s[i].id.0 == id
}

/// A session with an id at least as large as every other one placed in the
/// list: appended, or replacing the last one when the ids are equal.
pub open spec fn spec_insert_session(s: Seq<ManagedAgentSession>, x: ManagedAgentSession) -> Seq<ManagedAgentSession> {
    if s.len() > 0 && s.last().id == x.id {
        s.drop_last().push(x)
    } else {
        s.push(x)
    }
}

/// The list without the session at position `k`.
pub open spec fn spec_remove_at(s: Seq<ManagedAgentSession>, k: int) -> Seq<ManagedAgentSession> {
    s.subrange(0, k) + s.subrange(k + 1, s.len() as int)
}

/// Active position after moving `delta` steps from `pos` among `n` sessions.
pub open spec fn cycle_position(pos: int, delta: int, n: int) -> int {
    (pos + delta) % n
}

/// Label given to a new session: the template's agent name, or `Agent <index>`.
pub open spec fn spec_default_label(index: nat, pty: AgentState) -> Seq<char> {
    if pty.agent_name@.len() > 0 {
        pty.agent_name@
    } else {
        "Agent "@ + decimal(index)
    }
}

/// Agent name derived from a session label: the label without a leading `Agent `.
pub open spec fn spec_agent_name_for_label(label: Seq<char>) -> Seq<char> {
    if crate::text::is_prefix("Agent "@, label) {
        label.skip(6)
    } else {
        label
    }
}

/// Number of sessions whose process runs.
pub open spec fn running_of(s: Seq<ManagedAgentSession>) -> nat
    decreases s.len(),
{
    if s.len() == 0 {
        0
    } else {
        running_of(s.drop_last()) + if s.last().pty.running { 1nat } else { 0nat }
    }
}

fn default_label_for_index(index: usize, pty: &AgentState) -> (r: String)
    ensures
        r@ == spec_default_label(index as nat, *pty),
{
    if !pty.agent_name.as_str().is_empty() {
        return pty.agent_name.clone();
    }
    let mut s = String::from_str("Agent ");
    push_decimal(&mut s, index as u64);
    s
}

fn agent_name_for_label(label: &String) -> (r: String)
    ensures
        r@ == spec_agent_name_for_label(label@),
{
    let v = str_chars(label.as_str());
    let p = str_chars("Agent ");
    proof {
        reveal_strlit("Agent ");
    }
    if chars_starts_with(v.as_slice(), p.as_slice()) {
        let rest = slice_sub(v.as_slice(), 6, v.len());
        assert(rest@ =~= label@.skip(6));
        string_from_chars(rest.as_slice())
    } else {
        label.clone()
    }
}

impl AgentManager {
    /// Sessions ordered by id.
    pub closed spec fn sessions_view(&self) -> Seq<ManagedAgentSession> {
        self.agents@
    }

    /// Id of the active session.
    pub closed spec fn active_view(&self) -> u32 {
        self.active_agent.0
    }

    /// Id the next created session receives.
    pub closed spec fn next_id_view(&self) -> u32 {
        self.next_id
    }

    /// Capacity.
    pub closed spec fn max_view(&self) -> usize {
        self.max_agents
    }

    /// Ids are unique and ordered, a session is active, and no session id
    /// exceeds the next id (it may equal it only once ids are exhausted).
    pub closed spec fn wf(&self) -> bool {
        &&& self.agents@.len() >= 1
        &&& strictly_ordered(self.agents@)
        &&& has_id(self.agents@, self.active_agent.0)
        &&& forall|i: int| 0 <= i < self.agents@.len() ==> (#[trigger] self.agents@[i]).id.0
            < self.next_id || self.next_id == u32::MAX
    }

    /// Position of the active session in the id order.
    pub closed spec fn active_index(&self) -> int {
        choose|k: int| 0 <= k < self.agents@.len() && self.agents@[k].id.0 == self.active_agent.0
    }

    /// The active position holds the active session, and no other position does.
    pub proof fn lemma_active_index(&self)
        requires
            self.wf(),
        ensures
            0 <= self.active_index() < self.sessions_view().len(),
            self.sessions_view()[self.active_index()].id.0 == self.active_view(),
            forall|k: int|
                0 <= k < self.sessions_view().len() && (#[trigger] self.sessions_view()[k]).id.0
                    == self.active_view() ==> k == self.active_index(),
    {
        let ai = self.active_index();
        assert forall|k: int|
            0 <= k < self.sessions_view().len() && (#[trigger] self.sessions_view()[k]).id.0
                == self.active_view() implies k == ai by {
            if k < ai {
                assert(self.agents@[k].id.0 < self.agents@[ai].id.0);
            } else if k > ai {
                assert(self.agents@[ai].id.0 < self.agents@[k].id.0);
            }
        }
    }

    /// What the invariant gives clients.
    pub proof fn lemma_wf(&self)
        requires
            self.wf(),
        ensures
            self.sessions_view().len() >= 1,
            strictly_ordered(self.sessions_view()),
            has_id(self.sessions_view(), self.active_view()),
            self.next_id_view() < u32::MAX ==> forall|i: int|
                0 <= i < self.sessions_view().len() ==> (#[trigger] self.sessions_view()[i]).id.0 < self.next_id_view(),
    {
    }

    fn position_of(&self, id: AgentId) -> (r: Option<usize>)
        requires
            strictly_ordered(self.agents@),
        ensures
            match r {
                Some(k) => k < self.agents@.len() && self.agents@[k as int].id == id,
                None => !has_id(self.agents@, id.0),
            },
    {
        let mut k: usize = 0;
        while k < self.agents.len()
            invariant
                k <= self.agents@.len(),
                forall|j: int| 0 <= j < k ==> (#[trigger] self.agents@[j]).id.0 != id.0,
            decreases self.agents.len() - k,
        {
            if self.agents[k].id.0 == id.0 {
                return Some(k);
            }
            k = k + 1;
        }
        None
    }

    pub fn with_initial_agent(pty: AgentState) -> (r: Self)
        ensures
            r.wf(),
            r.sessions_view().len() == 1,
            r.sessions_view()[0].id.0 == 1,
            r.sessions_view()[0].label@ == spec_default_label(1, pty),
            r.sessions_view()[0].linked_issue is None,
            r.sessions_view()[0].pty == pty,
            r.active_view() == 1,
            r.next_id_view() == 2,
            r.max_view() == DEFAULT_MAX_AGENTS,
    {
        let id = AgentId::first();
        let label = default_label_for_index(1, &pty);
        let mut agents: Vec<ManagedAgentSession> = Vec::new();
        agents.push(ManagedAgentSession::new(id, label, pty));
        let r = AgentManager { agents, active_agent: id, next_id: 2, max_agents: DEFAULT_MAX_AGENTS };
        assert(r.agents@[0].id.0 == 1);
        r
    }

    pub fn with_max_agents(self, max_agents: usize) -> (r: Self)
        requires
            self.wf(),
        ensures
            r.wf(),
            r.max_view() == if max_agents >= 1 { max_agents } else { 1 },
            r.sessions_view() == self.sessions_view(),
            r.active_view() == self.active_view(),
            r.next_id_view() == self.next_id_view(),
    {
        let m = if max_agents >= 1 { max_agents } else { 1 };
        AgentManager { max_agents: m, ..self }
    }

    pub fn active_id(&self) -> (r: AgentId)
        ensures
            r.0 == self.active_view(),
    {
        self.active_agent
    }

    pub fn session_count(&self) -> (r: usize)
        ensures
            r == self.sessions_view().len(),
    {
        self.agents.len()
    }

    pub fn running_count(&self) -> (r: usize)
        ensures
            r == running_of(self.sessions_view()),
    {
        let mut count: usize = 0;
        let mut k: usize = 0;
        while k < self.agents.len()
            invariant
                k <= self.agents@.len(),
                count == running_of(self.agents@.take(k as int)),
                count <= k,
            decreases self.agents.len() - k,
        {
            assert(self.agents@.take(k + 1).drop_last() =~= self.agents@.take(k as int));
            if self.agents[k].pty.running {
                count = count + 1;
            }
            k = k + 1;
        }
        assert(self.agents@.take(k as int) =~= self.agents@);
        count
    }

    pub fn max_agents(&self) -> (r: usize)
        ensures
            r == self.max_view(),
    {
        self.max_agents
    }

    /// Sessions in id order.
    pub fn sessions(&self) -> (r: &[ManagedAgentSession])
        ensures
            r@ == self.sessions_view(),
    {
        self.agents.as_slice()
    }

    /// Session ids in increasing order.
    pub fn session_ids(&self) -> (r: Vec<AgentId>)
        ensures
            r@.len() == self.sessions_view().len(),
            forall|i: int| 0 <= i < r@.len() ==> #[trigger] r@[i] == self.sessions_view()[i].id,
    {
        let mut r: Vec<AgentId> = Vec::new();
        let mut k: usize = 0;
        while k < self.agents.len()
            invariant
                k <= self.agents@.len(),
                r@.len() == k,
                forall|i: int| 0 <= i < k ==> #[trigger] r@[i] == self.agents@[i].id,
            decreases self.agents.len() - k,
        {
            r.push(self.agents[k].id);
            k = k + 1;
        }
        r
    }

    pub fn pty(&self, id: AgentId) -> (r: Option<&AgentState>)
        requires
            self.wf(),
        ensures
            match r {
                Some(p) => exists|k: int| 0 <= k < self.sessions_view().len() && self.sessions_view()[k].id == id && self.sessions_view()[k].pty == *p,
                None => !has_id(self.sessions_view(), id.0),
            },
    {
        match self.position_of(id) {
            Some(k) => {
                assert(self.sessions_view()[k as int].id == id);
                Some(&self.agents[k].pty)
            },
            None => None,
        }
    }

    #[verifier::spinoff_prover]
    fn pty_at_mut(&mut self, k: usize) -> (r: &mut AgentState)
        requires
            old(self).wf(),
            k < old(self).agents@.len(),
        ensures
            final(self).wf(),
            final(self).active_agent == old(self).active_agent,
            final(self).next_id == old(self).next_id,
            final(self).max_agents == old(self).max_agents,
            *r == old(self).agents@[k as int].pty,
            final(self).agents@ == old(self).agents@.update(
                k as int,
                ManagedAgentSession { pty: *final(r), ..old(self).agents@[k as int] },
            ),
    {
        let ghost before = self.agents@;
        proof {
            let j = choose|j: int| 0 <= j < before.len() && before[j].id.0 == self.active_agent.0;
            assert forall|x: ManagedAgentSession| x.id == before[k as int].id implies #[trigger] has_id(
                before.update(k as int, x),
                self.active_agent.0,
            ) by {
                assert(before.update(k as int, x)[j].id.0 == self.active_agent.0);
            }
        }
        let session = &mut self.agents[k];
        &mut session.pty
    }

    /// Mutable access to the process state of session `id`, if there is one.
    pub fn pty_mut(&mut self, id: AgentId) -> (r: Option<&mut AgentState>)
        requires
            old(self).wf(),
        ensures
            final(self).wf(),
            final(self).active_view() == old(self).active_view(),
            final(self).next_id_view() == old(self).next_id_view(),
            final(self).max_view() == old(self).max_view(),
            match r {
                Some(p) => exists|k: int|
                    0 <= k < old(self).sessions_view().len()
                    && old(self).sessions_view()[k].id == id
                    && *p == old(self).sessions_view()[k].pty
                    && final(self).sessions_view() == old(self).sessions_view().update(
                        k,
                        ManagedAgentSession { pty: *final(p), ..old(self).sessions_view()[k] },
                    ),
                None => !has_id(old(self).sessions_view(), id.0) && final(self).sessions_view() == old(self).sessions_view(),
            },
    {
        match self.position_of(id) {
            Some(k) => {
                assert(old(self).sessions_view()[k as int].id == id);
                let p = self.pty_at_mut(k);
                Some(p)
            },
            None => None,
        }
    }

    fn active_position(&self) -> (k: usize)
        requires
            self.wf(),
        ensures
            k < self.agents@.len(),
            self.agents@[k as int].id.0 == self.active_agent.0,
            k == self.active_index(),
    {
        proof {
            self.lemma_active_index();
        }
        match self.position_of(self.active_agent) {
            Some(k) => k,
            None => {
                assert(false);
                0
            },
        }
    }

    /// Moves the active session `delta` places along the id order, wrapping.
    #[verifier::spinoff_prover]
    pub fn cycle_active(&mut self, delta: i32) -> (r: AgentId)
        requires
            old(self).wf(),
        ensures
            final(self).wf(),
            final(self).sessions_view() == old(self).sessions_view(),
            final(self).next_id_view() == old(self).next_id_view(),
            final(self).max_view() == old(self).max_view(),
            exists|p: int|
                0 <= p < old(self).sessions_view().len()
                    && old(self).sessions_view()[p].id.0 == old(self).active_view()
                    && final(self).active_view() == old(self).sessions_view()[cycle_position(
                    p,
                    delta as int,
                    old(self).sessions_view().len() as int,
                )].id.0,
            r.0 == final(self).active_view(),
    {
        let pos = self.active_position();
        let n = self.agents.len();
        let nn = n as u64;
        let p = pos as u64;
        let m: u64;
        if delta >= 0 {
            let mag = (delta as u64) % nn;
            m = if mag < nn - p { p + mag } else { mag - (nn - p) };
            proof {
                lemma_add_mod_noop(pos as int, delta as int, n as int);
                lemma_small_mod(pos as nat, n as nat);
                if mag < nn - p {
                    lemma_small_mod((p + mag) as nat, n as nat);
                } else {
                    lemma_mod_add_multiples_vanish(m as int, n as int);
                    lemma_small_mod(m as nat, n as nat);
                }
            }
        } else {
            let a = (0i64 - delta as i64) as u64;
            let mag = a % nn;
            m = if mag <= p { p - mag } else { p + (nn - mag) };
            proof {
                lemma_sub_mod_noop(pos as int, a as int, n as int);
                lemma_small_mod(pos as nat, n as nat);
                assert(pos as int + delta as int == pos as int - a as int);
                if mag <= p {
                    lemma_small_mod((p - mag) as nat, n as nat);
                } else {
                    lemma_mod_add_multiples_vanish(pos as int - mag as int, n as int);
                    lemma_small_mod(m as nat, n as nat);
                }
            }
        }
        assert(m == cycle_position(pos as int, delta as int, n as int));
        let next = m as usize;
        self.active_agent = self.agents[next].id;
        assert(has_id(self.agents@, self.active_agent.0));
        assert(self.agents@ == old(self).agents@);
        assert(old(self).sessions_view()[pos as int].id.0 == old(self).active_view());
        assert(self.active_agent.0 == old(self).sessions_view()[cycle_position(
            pos as int,
            delta as int,
            n as int,
        )].id.0);
        self.active_agent
    }

    pub fn active_session(&self) -> (r: &ManagedAgentSession)
        requires
            self.wf(),
        ensures
            r.id.0 == self.active_view(),
            *r == self.sessions_view()[self.active_index()],
    {
        let k = self.active_position();
        &self.agents[k]
    }

    /// Mutable access to the active session. The session stays where it
    /// is; keeping its id keeps the manager well formed.
    pub fn active_session_mut(&mut self) -> (r: &mut ManagedAgentSession)
        requires
            old(self).wf(),
        ensures
            *r == old(self).sessions_view()[old(self).active_index()],
            final(self).active_view() == old(self).active_view(),
            final(self).next_id_view() == old(self).next_id_view(),
            final(self).max_view() == old(self).max_view(),
            final(self).sessions_view() == old(self).sessions_view().update(old(self).active_index(), *final(r)),
            final(r).id == (*r).id ==> final(self).wf(),
    {
        let k = self.active_position();
        &mut self.agents[k]
    }

    pub fn active_pty(&self) -> (r: &AgentState)
        requires
            self.wf(),
        ensures
            *r == self.sessions_view()[self.active_index()].pty,
    {
        let k = self.active_position();
        &self.agents[k].pty
    }

    /// Mutable access to the active session's process state.
    pub fn active_pty_mut(&mut self) -> (r: &mut AgentState)
        requires
            old(self).wf(),
        ensures
            final(self).wf(),
            final(self).active_view() == old(self).active_view(),
            final(self).next_id_view() == old(self).next_id_view(),
            final(self).max_view() == old(self).max_view(),
            *r == old(self).sessions_view()[old(self).active_index()].pty,
            final(self).sessions_view() == old(self).sessions_view().update(
                old(self).active_index(),
                ManagedAgentSession { pty: *final(r), ..old(self).sessions_view()[old(self).active_index()] },
            ),
    {
        let k = self.active_position();
        let ghost before = self.agents@;
        proof {
            let j = choose|j: int| 0 <= j < before.len() && before[j].id.0 == self.active_agent.0;
            assert forall|x: ManagedAgentSession| x.id == before[k as int].id implies #[trigger] has_id(
                before.update(k as int, x),
                self.active_agent.0,
            ) by {
                assert(before.update(k as int, x)[j].id.0 == self.active_agent.0);
            }
        }
        let session = &mut self.agents[k];
        &mut session.pty
    }

    pub fn session_id_at_index(&self, index: usize) -> (r: Option<AgentId>)
        ensures
            index < self.sessions_view().len() ==> r == Some(self.sessions_view()[index as int].id),
            index >= self.sessions_view().len() ==> r is None,
    {
        if index < self.agents.len() {
            Some(self.agents[index].id)
        } else {
            None
        }
    }

    pub fn set_active(&mut self, id: AgentId) -> (r: Result<(), AgentManagerError>)
        requires
            old(self).wf(),
        ensures
            final(self).wf(),
            final(self).sessions_view() == old(self).sessions_view(),
            final(self).next_id_view() == old(self).next_id_view(),
            final(self).max_view() == old(self).max_view(),
            has_id(old(self).sessions_view(), id.0) ==> r is Ok && final(self).active_view() == id.0,
            !has_id(old(self).sessions_view(), id.0) ==> r == Err::<(), AgentManagerError>(
                AgentManagerError::UnknownAgent(id),
            ) && final(self).active_view() == old(self).active_view(),
    {
        match self.position_of(id) {
            Some(_) => {
                self.active_agent = id;
                Ok(())
            },
            None => Err(AgentManagerError::UnknownAgent(id)),
        }
    }

    /// Creates a session after the others and makes it active; refused at
    /// capacity. Its process state copies the active session's command and
    /// agent name, with the agent name then taken from the label.
    pub fn create_agent(&mut self, label: Option<String>, linked_issue: Option<IssueNumber>) -> (r: Result<AgentId, AgentManagerError>)
        requires
            old(self).wf(),
        ensures
            final(self).wf(),
            final(self).max_view() == old(self).max_view(),
            old(self).sessions_view().len() >= old(self).max_view() ==> r == Err::<AgentId, AgentManagerError>(AgentManagerError::AtCapacity)
                && final(self).sessions_view() == old(self).sessions_view()
                && final(self).active_view() == old(self).active_view()
                && final(self).next_id_view() == old(self).next_id_view(),
            old(self).sessions_view().len() < old(self).max_view() ==> {
                &&& r == Ok::<AgentId, AgentManagerError>(AgentId(old(self).next_id_view()))
                &&& final(self).active_view() == old(self).next_id_view()
                &&& final(self).next_id_view() == (if old(self).next_id_view() == u32::MAX { u32::MAX } else { (old(self).next_id_view() + 1) as u32 })
                &&& old(self).next_id_view() < u32::MAX ==> {
                    &&& !has_id(old(self).sessions_view(), old(self).next_id_view())
                    &&& final(self).sessions_view().len() == old(self).sessions_view().len() + 1
                    &&& final(self).sessions_view().drop_last() == old(self).sessions_view()
                }
                &&& exists|x: ManagedAgentSession, k: int| {
                    &&& final(self).sessions_view() == spec_insert_session(old(self).sessions_view(), x)
                    &&& x.id.0 == old(self).next_id_view()
                    &&& x.linked_issue == linked_issue
                    &&& 0 <= k < old(self).sessions_view().len()
                    &&& old(self).sessions_view()[k].id.0 == old(self).active_view()
                    &&& x.label@ == (match label {
                        Some(l) => l@,
                        None => spec_default_label(
                            (old(self).sessions_view().len() + 1) as nat,
                            AgentState {
                                command: old(self).sessions_view()[k].pty.command,
                                agent_name: old(self).sessions_view()[k].pty.agent_name,
                                running: false,
                                status: super::status::AgentStatus::Idle,
                            },
                        ),
                    })
                    &&& x.pty.command == old(self).sessions_view()[k].pty.command
                    &&& x.pty.agent_name@ == spec_agent_name_for_label(x.label@)
                    &&& !x.pty.running
                    &&& x.pty.status == super::status::AgentStatus::Idle
                }
            },
    {
        if self.agents.len() >= self.max_agents {
            return Err(AgentManagerError::AtCapacity);
        }
        let ghost before = self.agents@;
        let id = AgentId::from_u32(self.next_id);
        self.next_id = if self.next_id == u32::MAX { u32::MAX } else { self.next_id + 1 };
        let index = self.agents.len() + 1;
        let k = self.active_position();
        let mut pty = AgentState {
            command: self.agents[k].pty.command.clone(),
            agent_name: self.agents[k].pty.agent_name.clone(),
            running: false,
            status: super::status::AgentStatus::Idle,
        };
        let ghost template = pty;
        let session_label = match label {
            Some(l) => l,
            None => default_label_for_index(index, &pty),
        };
        pty.agent_name = agent_name_for_label(&session_label);
        let session = ManagedAgentSession { id, label: session_label, linked_issue, pty };
        let n = self.agents.len();
        if self.agents[n - 1].id.0 == id.0 {
            self.agents.pop();
        }
        self.agents.push(session);
        proof {
            assert(self.agents@ == spec_insert_session(before, session));
            assert forall|i: int, j: int| 0 <= i < j < self.agents@.len() implies self.agents@[i].id.0 < self.agents@[j].id.0 by {
                if j == self.agents@.len() - 1 {
                    assert(before[i].id.0 < id.0 || before[i].id.0 == id.0);
                    if before[i].id.0 == id.0 {
                        assert(before.last().id.0 >= before[i].id.0);
                    }
                }
            }
            assert(self.agents@.last().id.0 == id.0);
        }
        self.active_agent = id;
        Ok(id)
    }

    /// Removes a session; the last one cannot be removed. When the active
    /// session goes, the session with the smallest remaining id becomes active.
    #[verifier::rlimit(30)]
    pub fn remove_agent(&mut self, id: AgentId) -> (r: Result<(), AgentManagerError>)
        requires
            old(self).wf(),
        ensures
            final(self).wf(),
            final(self).next_id_view() == old(self).next_id_view(),
            final(self).max_view() == old(self).max_view(),
            old(self).sessions_view().len() <= 1 ==> r == Err::<(), AgentManagerError>(AgentManagerError::CannotRemoveLast)
                && final(self).sessions_view() == old(self).sessions_view()
                && final(self).active_view() == old(self).active_view(),
            old(self).sessions_view().len() > 1 && !has_id(old(self).sessions_view(), id.0) ==> r
                == Err::<(), AgentManagerError>(AgentManagerError::UnknownAgent(id)) && final(self).sessions_view()
                == old(self).sessions_view() && final(self).active_view() == old(self).active_view(),
            old(self).sessions_view().len() > 1 && has_id(old(self).sessions_view(), id.0) ==> {
                &&& r is Ok
                &&& exists|k: int|
                    0 <= k < old(self).sessions_view().len() && old(self).sessions_view()[k].id == id
                        && final(self).sessions_view() == spec_remove_at(old(self).sessions_view(), k)
                &&& final(self).active_view() == if old(self).active_view() == id.0 {
                    final(self).sessions_view()[0].id.0
                } else {
                    old(self).active_view()
                }
            },
    {
        if self.agents.len() <= 1 {
            return Err(AgentManagerError::CannotRemoveLast);
        }
        let k = match self.position_of(id) {
            Some(k) => k,
            None => return Err(AgentManagerError::UnknownAgent(id)),
        };
        let ghost before = self.agents@;
        let reassign = self.active_agent.0 == id.0;
        self.agents.remove(k);
        proof {
            assert(self.agents@ =~= spec_remove_at(before, k as int));
            assert forall|i: int, j: int| 0 <= i < j < self.agents@.len() implies self.agents@[i].id.0 < self.agents@[j].id.0 by {
                let oi = if i < k { i } else { i + 1 };
                let oj = if j < k { j } else { j + 1 };
                assert(self.agents@[i] == before[oi]);
                assert(self.agents@[j] == before[oj]);
            }
            assert forall|i: int| 0 <= i < self.agents@.len() implies (#[trigger] self.agents@[i]).id.0 < self.next_id || self.next_id == u32::MAX by {
                let oi = if i < k { i } else { i + 1 };
                assert(self.agents@[i] == before[oi]);
            }
        }
        if reassign {
            self.active_agent = self.agents[0].id;
            assert(has_id(self.agents@, self.active_agent.0));
        } else {
            proof {
                let p = choose|p: int| 0 <= p < before.len() && before[p].id.0 == self.active_agent.0;
                assert(p != k);
                let q = if p < k { p } else { p - 1 };
                assert(self.agents@[q] == before[p]);
            }
        }
        Ok(())
    }

    /// Links an issue to the active session.
    pub fn link_active_issue(&mut self, issue: IssueNumber)
        requires
            old(self).wf(),
        ensures
            final(self).wf(),
            final(self).active_view() == old(self).active_view(),
            final(self).sessions_view() == old(self).sessions_view().update(
                old(self).active_index(),
                ManagedAgentSession { linked_issue: Some(issue), ..old(self).sessions_view()[old(self).active_index()] },
            ),
    {
        let k = self.active_position();
        let session = &mut self.agents[k];
        session.linked_issue = Some(issue);
    }

    /// Status-bar text: the active process status for a single session,
    /// otherwise the session and running counts.
    pub fn status_bar_label(&self) -> (r: String)
        requires
            self.wf(),
        ensures
            self.sessions_view().len() <= 1 ==> r@ == spec_status_bar_label(
                self.sessions_view()[self.active_index()].pty.status,
                self.sessions_view()[self.active_index()].pty.running,
            ),
            self.sessions_view().len() > 1 ==> r@ == decimal(self.sessions_view().len()) + " Agents ("@
                + decimal(running_of(self.sessions_view())) + " Running)"@,
    {
        let k = self.active_position();
        if self.agents.len() <= 1 {
            let p = &self.agents[k].pty;
            return String::from_str(p.status.status_bar_label(p.running));
        }
        let total = self.agents.len();
        let running = self.running_count();
        let mut s = String::new();
        push_decimal(&mut s, total as u64);
        push_str(&mut s, " Agents (");
        push_decimal(&mut s, running as u64);
        push_str(&mut s, " Running)");
        assert(s@ =~= decimal(total as nat) + " Agents ("@ + decimal(running as nat) + " Running)"@);
        s
    }
}

/// Creating a session and then removing it gives the session list back:
/// the new session goes after all existing ones, and removing it there
/// restores the rest.
pub proof fn law_create_then_remove_restores_sessions(s: Seq<ManagedAgentSession>, x: ManagedAgentSession)
    requires
        s.len() >= 1,
        forall|i: int| 0 <= i < s.len() ==> (#[trigger] s[i]).id.0 < x.id.0,
    ensures
        spec_remove_at(spec_insert_session(s, x), s.len() as int) == s,
        spec_insert_session(s, x)[s.len() as int] == x,
{
    assert(s.last().id.0 < x.id.0);
    assert(spec_remove_at(s.push(x), s.len() as int) =~= s);
}

/// Cycling forward by `delta` and back by `delta` returns to the same
/// position, and a full turn of `n` steps changes nothing.
pub proof fn law_cycle_round_trip(pos: int, delta: int, n: int)
    requires
        n >= 1,
        0 <= pos < n,
    ensures
        cycle_position(cycle_position(pos, delta, n), -delta, n) == pos,
        cycle_position(pos, n, n) == pos,
        0 <= cycle_position(pos, delta, n) < n,
{
    let x = pos + delta;
    let y = -delta;
    lemma_mod_bound(x, n);
    lemma_small_mod((x % n) as nat, n as nat);
    lemma_add_mod_noop(x % n, y, n);
    lemma_add_mod_noop(x, y, n);
    lemma_small_mod(pos as nat, n as nat);
    assert(x + y == pos);
    lemma_mod_add_multiples_vanish(pos, n);
}

/// Cycling moves by `delta` places around the `n` sessions in id order:
/// the new position is congruent to `pos + delta` modulo `n`, so one step
/// forward reaches the next session (wrapping from the last to the first)
/// and one step back the previous one.
pub proof fn law_cycle_steps(pos: int, delta: int, n: int)
    requires
        n >= 1,
        0 <= pos < n,
    ensures
        (cycle_position(pos, delta, n) - (pos + delta)) % n == 0,
        pos + 1 < n ==> cycle_position(pos, 1, n) == pos + 1,
        cycle_position(n - 1, 1, n) == 0,
        pos > 0 ==> cycle_position(pos, -1, n) == pos - 1,
        cycle_position(0, -1, n) == n - 1,
{
    let x = pos + delta;
    lemma_fundamental_div_mod(x, n);
    assert(x % n - x == (-(x / n)) * n) by (nonlinear_arith)
        requires
            x == n * (x / n) + (x % n),
    ;
    lemma_mod_multiples_basic(-(x / n), n);
    if pos + 1 < n {
        lemma_small_mod((pos + 1) as nat, n as nat);
    }
    lemma_mod_add_multiples_vanish(0, n);
    lemma_small_mod(0, n as nat);
    if pos > 0 {
        lemma_small_mod((pos - 1) as nat, n as nat);
    }
    lemma_mod_add_multiples_vanish(-1, n);
    lemma_small_mod((n - 1) as nat, n as nat);
}

} // verus!
