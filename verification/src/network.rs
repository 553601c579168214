//! Session state and transport connections.

pub mod connection;
pub mod state;
