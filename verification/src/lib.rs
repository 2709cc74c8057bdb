//! Session management logic for ACP agents: the session status state machine,
//! the restoration contract, reconciliation planning, the capability cache, the
//! debug ring buffer and session configuration.

pub mod acp_debug;
pub mod agent_router;
pub mod capability_probe;
pub mod discovery;
pub mod legacy;
pub mod restoration;
pub mod session_commands;
pub mod session_config;
pub mod session_store;
pub mod text;
