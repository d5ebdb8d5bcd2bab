//! Optional subsystems: tool servers, background subagents and teams.

pub mod mcp;
pub mod subagent;
pub mod teams;
