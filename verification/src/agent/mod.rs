//! Agent tools and tool sets.

pub mod tools;
pub mod toolset;
pub mod builder;
