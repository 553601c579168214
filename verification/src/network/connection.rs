//! The transport framings, and the request flow that is common to them.

pub mod common;
pub mod http;
pub mod tcp_abridged;
pub mod tcp_common;
pub mod tcp_full;
pub mod tcp_intermediate;
