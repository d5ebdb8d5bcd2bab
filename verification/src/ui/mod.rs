//! Terminal UI state.

pub mod view;
