//! A gateway core: per-connection session state machines, the shared
//! registry of live sessions, and delivery of pushed messages to a session
//! by its key.

pub mod channel;
pub mod envelope;
pub mod registry;
pub mod session;
pub mod theorems;
