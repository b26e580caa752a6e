use vstd::prelude::*;

use crate::config::AgentSettings;
use crate::path::{file_name, spec_file_name};
use crate::config::types::same_pairs;
use crate::config::types::same_strings;

verus! {

/// What is needed to start a terminal agent.
#[derive(Debug, Clone, PartialEq, Eq)]
pub struct AgentLaunchSpec {
    pub command: String,
    pub args: Vec<String>,
    pub env: Vec<(String, String)>,
    pub agent_name: String,
}

/// Name shown for an agent command: its final path component, or the
/// command itself when it has none.
pub open spec fn spec_display_name(command: Seq<char>) -> Seq<char> {
    match spec_file_name(command) {
        Some(n) => n,
        None => command,
    }
}

pub fn agent_display_name(command: &str) -> (r: String)
    ensures
        r@ == spec_display_name(command@),
{
    match file_name(command) {
        Some(n) => n,
        None => String::from_str(command),
    }
}

fn copy_strings(v: &Vec<String>) -> (r: Vec<String>)
    ensures
        same_strings(r@, v@),
{
    let mut r: Vec<String> = Vec::new();
    let mut i: usize = 0;
    while i < v.len()
        invariant
            i <= v@.len(),
            r@.len() == i,
            forall|k: int| 0 <= k < i ==> #[trigger] r@[k]@ == v@[k]@,
        decreases v.len() - i,
    {
        r.push(v[i].clone());
        i = i + 1;
    }
    r
}

fn copy_pairs(v: &Vec<(String, String)>) -> (r: Vec<(String, String)>)
    ensures
        same_pairs(r@, v@),
{
    let mut r: Vec<(String, String)> = Vec::new();
    let mut i: usize = 0;
    while i < v.len()
        invariant
            i <= v@.len(),
            r@.len() == i,
            forall|k: int| 0 <= k < i ==> #[trigger] r@[k].0@ == v@[k].0@ && r@[k].1@ == v@[k].1@,
        decreases v.len() - i,
    {
        r.push((v[i].0.clone(), v[i].1.clone()));
        i = i + 1;
    }
    r
}

/// Launch description built from the agent settings.
pub fn agent_launch_spec(settings: &AgentSettings) -> (r: AgentLaunchSpec)
    ensures
        r.command@ == settings.command@,
        same_strings(r.args@, settings.args@),
        same_pairs(r.env@, settings.env@),
        r.agent_name@ == spec_display_name(settings.command@),
{
    let command = settings.command.clone();
    AgentLaunchSpec {
        agent_name: agent_display_name(command.as_str()),
        args: copy_strings(&settings.args),
        env: copy_pairs(&settings.env),
        command,
    }
}

} // verus!
