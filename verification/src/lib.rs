//! Attention-ordered status board for the coding agents that herdr runs.

pub mod agents;
pub mod board;
pub mod cli;
pub mod collect;
pub mod path;
pub mod status;
pub mod text;
