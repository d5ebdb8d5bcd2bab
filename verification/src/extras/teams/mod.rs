//! Teams subsystem: group subagents into named teams with shared task boards.
//!
//! Teams do not own agents, they track their ids.

pub mod task_board;
pub mod team;
pub mod registry;
pub mod tools;
