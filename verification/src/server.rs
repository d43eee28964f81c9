//! The server's part in what clients send to panes.
pub mod pane_batch;
pub mod pane_input;
