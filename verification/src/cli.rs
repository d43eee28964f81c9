//! What the command line asks for.
pub mod runtime_provider;
pub mod worktree;
