//! Verified core of a terminal coding agent with background subagents,
//! named teams with shared task boards, tool sets and switchable views.

pub mod agent;
pub mod extras;
pub mod named_list;
pub mod text;
pub mod ui;
