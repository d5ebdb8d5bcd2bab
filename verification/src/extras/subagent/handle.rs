//! Per-subagent state held by the registry.

use std::collections::VecDeque;

use vstd::prelude::*;

use super::{SubagentId, SubagentStatus};

verus! {

/// Per-subagent state: status, pending messages and the last final response.
pub struct SubagentInner {
    /// Current lifecycle status.
    pub status: SubagentStatus,
    /// Pending messages waiting to be injected into the next runner turn.
    pub inbox: VecDeque<String>,
    /// The final response text from the last completed runner turn.
    pub final_response: Option<String>,
}

impl SubagentInner {
    /// Fresh state: idle, empty inbox, no response yet.
    pub fn new() -> (r: Self)
        ensures
            r.status == SubagentStatus::Idle,
            r.inbox@ == Seq::<String>::empty(),
            r.final_response is None,
    {
        SubagentInner { status: SubagentStatus::Idle, inbox: VecDeque::new(), final_response: None }
    }

    /// The state a subagent is registered with when it is spawned: its first
    /// run has started, so it is running, with an empty inbox and no
    /// response yet.
    pub fn spawned() -> (r: Self)
        ensures
            r.status == SubagentStatus::Running,
            r.inbox@ == Seq::<String>::empty(),
            r.final_response is None,
    {
        let mut state = SubagentInner::new();
        state.status = SubagentStatus::Running;
        state
    }
}

/// One registered subagent: its id, name and state.
pub struct SubagentHandle {
    pub id: SubagentId,
    pub name: String,
    pub state: SubagentInner,
}

} // verus!
