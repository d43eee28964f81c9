//! External terminals: their persisted identity, their registry and their view.
pub mod backend;
pub mod external;
pub mod runtime_registry;
pub mod table;
