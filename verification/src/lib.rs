//! Verified core of a terminal workspace manager.
pub mod api;
pub mod app;
pub mod canvas;
pub mod cleanup;
pub mod cli;
pub mod coven;
pub mod digest;
pub mod external_renderer;
pub mod json;
pub mod lines;
pub mod path;
pub mod protocol;
pub mod runtime_provider;
pub mod server;
pub mod terminal;
pub mod text;
