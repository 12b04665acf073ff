//! Teams of agents.

use vstd::prelude::*;

verus! {

/// The role of a team member.
#[derive(Debug)]
pub struct RoleDef {
    /// Member name, used as workspace name suffix.
    pub name: String,
    /// Role description (e.g. "researcher" or "coder").
    pub role: String,
    /// Skills of the agent.
    pub skills: Vec<String>,
    /// What the member is for.
    pub description: String,
}

} // verus!
