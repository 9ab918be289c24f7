//! A single-room line relay: the registry of live sessions, the fan-out of one
//! sender's line to every other session, and the per-connection control flow.

pub mod broadcast;
pub mod client;
pub mod identity;
pub mod registry;
pub mod registry_laws;
pub mod session;
pub mod text;
pub mod text_laws;
