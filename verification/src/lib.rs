//! The core of a Debug Adapter Protocol client: message framing, request and
//! response correlation, and the session state machine that drives one
//! debug adapter.

pub mod breakpoints;
pub mod client;
pub mod framing;
pub mod rpc;
pub mod text;
pub mod types;
