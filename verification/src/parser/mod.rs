//! Parsers for the workflow documents (`devflow-state.md`,
//! `session-summary.md`, the audit log) and session token logs.

pub mod models;
pub mod section;
pub mod devflow_state;
pub mod session_summary;
pub mod audit_log;
pub mod jsonl_token;
