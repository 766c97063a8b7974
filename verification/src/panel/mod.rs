//! State machines of the dashboard panels: how each panel's state changes
//! on events and key presses. Drawing them is left to the application.

pub mod gate_alert;
pub mod workflow_map;
pub mod token_usage;
pub mod artifact_preview;
pub mod audit_log;
pub mod agent_status;
pub mod git_status;
