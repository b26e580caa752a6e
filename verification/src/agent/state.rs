use vstd::prelude::*;

use super::status::AgentStatus;

verus! {

/// Terminal-agent process state kept per managed session.
#[derive(Debug, PartialEq, Eq)]
pub struct AgentState {
    pub command: String,
    pub agent_name: String,
    pub running: bool,
    pub status: AgentStatus,
}

impl AgentState {
    pub fn new() -> (r: Self)
        ensures
            r.command@.len() == 0,
            r.agent_name@.len() == 0,
            !r.running,
            r.status == AgentStatus::Idle,
    {
        AgentState {
            command: String::new(),
            agent_name: String::new(),
            running: false,
            status: AgentStatus::Idle,
        }
    }
}

impl Clone for AgentState {
    fn clone(&self) -> (r: Self)
        ensures
            r == *self,
    {
        AgentState {
            command: self.command.clone(),
            agent_name: self.agent_name.clone(),
            running: self.running,
            status: self.status,
        }
    }
}

impl Default for AgentState {
    fn default() -> (r: Self)
        ensures
            r.command@.len() == 0,
            r.agent_name@.len() == 0,
            !r.running,
            r.status == AgentStatus::Idle,
    {
        AgentState::new()
    }
}

} // verus!
