use vstd::prelude::*;

verus! {

/// Activity status of an agent, shown in the chrome and the status bar.
#[derive(Debug, Clone, Copy, PartialEq, Eq, Structural)]
pub enum AgentStatus {
    Idle,
}

/// Status-bar caption for a status and whether the agent process runs.
pub open spec fn spec_status_bar_label(status: AgentStatus, running: bool) -> Seq<char> {
    match status {
        AgentStatus::Idle => if running {
            "Agent Running"@
        } else {
            "Agent Idle"@
        },
    }
}

impl AgentStatus {
    pub fn status_bar_label(self, running: bool) -> (r: &'static str)
        ensures
            r@ == spec_status_bar_label(self, running),
    {
        match self {
            AgentStatus::Idle => if running {
                "Agent Running"
            } else {
                "Agent Idle"
            },
        }
    }
}

impl Default for AgentStatus {
    fn default() -> (r: Self)
        ensures
            r == AgentStatus::Idle,
    {
        AgentStatus::Idle
    }
}

} // verus!
