//! Deterministic, owner-local cleanup of merged worktrees and branches. No agent or model
//! takes part in it.
pub mod engine;
pub mod evidence;
pub mod git;
pub mod ownership;
pub mod policy;
pub mod round;
pub mod runs;
pub mod service;
pub mod store;
pub mod worktree;
