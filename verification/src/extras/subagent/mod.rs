//! Subagent subsystem: ids, statuses and the registry of background agents.

pub mod handle;
pub mod registry;
pub mod tools;

use vstd::prelude::*;

use crate::text::{dec_text, decimal};

pub use registry::SubagentRegistry;

verus! {

/// Unique identifier for a subagent, assigned consecutively by the registry.
#[derive(Debug, Clone, Copy, PartialEq, Eq, Hash, Structural)]
pub struct SubagentId(pub u32);

impl SubagentId {
    /// The decimal text of the id.
    pub fn to_string(&self) -> (r: String)
        ensures
            r@ == dec_text(self.0 as nat),
    {
        decimal(self.0 as u64)
    }
}

/// Lifecycle status of a subagent.
#[derive(Debug, Clone, PartialEq, Eq)]
pub enum SubagentStatus {
    /// Runner is active and processing.
    Running,
    /// Runner is idle, waiting for messages.
    Idle,
    /// Subagent has completed all work.
    Done,
    /// Subagent stopped with an error.
    Error(String),
}

impl SubagentStatus {
    /// How the status is displayed.
    pub open spec fn text(self) -> Seq<char> {
        match self {
            SubagentStatus::Running => "running"@,
            SubagentStatus::Idle => "idle"@,
            SubagentStatus::Done => "done"@,
            SubagentStatus::Error(e) => "error: "@ + e@,
        }
    }

    /// How the status is displayed.
    pub fn to_string(&self) -> (r: String)
        ensures
            r@ == self.text(),
    {
        match self {
            SubagentStatus::Running => String::from_str("running"),
            SubagentStatus::Idle => String::from_str("idle"),
            SubagentStatus::Done => String::from_str("done"),
            SubagentStatus::Error(e) => {
                let mut s = String::from_str("error: ");
                s.append(e.as_str());
                s
            },
        }
    }

    /// An equal copy of the status.
    pub fn duplicate(&self) -> (r: Self)
        ensures
            r == *self,
    {
        match self {
            SubagentStatus::Running => SubagentStatus::Running,
            SubagentStatus::Idle => SubagentStatus::Idle,
            SubagentStatus::Done => SubagentStatus::Done,
            SubagentStatus::Error(e) => SubagentStatus::Error(e.clone()),
        }
    }
}

/// How the subagent's initial session history is populated at spawn time.
#[derive(Debug, Clone, Copy, PartialEq, Eq, Structural)]
pub enum ContextMode {
    /// Start with an empty history — clean slate.
    Fresh,
    /// Fork: copy the lead's compacted history at spawn time.
    Fork,
}

/// Routing target for messages sent between agents.
#[derive(Debug, Clone, Copy, PartialEq, Eq, Structural)]
pub enum MessageTarget {
    /// Route to the lead agent's pending injections queue.
    Lead,
    /// Route to a specific subagent's inbox.
    Subagent(SubagentId),
    /// Deliver to all members of a group.
    Broadcast,
}

/// Snapshot of a subagent's state for display purposes.
#[derive(Debug, Clone)]
pub struct SubagentSnapshot {
    pub id: SubagentId,
    pub name: String,
    pub status: SubagentStatus,
    pub final_response: Option<String>,
}

} // verus!
