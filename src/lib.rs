//! Single-instance coordination over a local socket: endpoint naming,
//! the wire codec of requests, the listener's handling of one connection and
//! the sender's discovery of a live endpoint.

pub mod codec;
pub mod discovery;
pub mod endpoint;
pub mod json;
pub mod listener;
pub mod overlay;
pub mod quad;
pub mod text;
