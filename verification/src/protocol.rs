//! What goes over the wire between the server and its clients.
pub mod surface;
