use vstd::prelude::*;

use crate::text::{decimal, decimal_string};

verus! {

/// Stable identifier for a managed agent session.
#[derive(Debug, Clone, Copy, PartialEq, Eq, Hash, Structural)]
pub struct AgentId(pub u32);

impl AgentId {
    /// The identifier of the first session.
    pub fn first() -> (r: AgentId)
        ensures
            r.0 == 1,
    {
        AgentId(1)
    }

    pub fn from_u32(id: u32) -> (r: AgentId)
        ensures
            r.0 == id,
    {
        AgentId(id)
    }

    pub fn as_u32(self) -> (r: u32)
        ensures
            r == self.0,
    {
        self.0
    }

    /// Decimal rendering, as shown to users.
    pub fn to_display_string(self) -> (r: String)
        ensures
            r@ == decimal(self.0 as nat),
    {
        decimal_string(self.0 as u64)
    }
}

} // verus!
