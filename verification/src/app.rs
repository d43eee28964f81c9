//! The application: provider attachments, their polling and the API.
pub mod attachments;
pub mod cleanup;
pub mod execution_api;
pub mod operations;
pub mod polling;
pub mod provider_api;
pub mod runtime_providers;
