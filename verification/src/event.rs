//! Events delivered to the app by the adapters and the command runner.

use vstd::prelude::*;

use crate::parser::models::{
    ArtifactFile, AuditEntry, FlowState, GitSnapshot, SessionSummary, TokenSnapshot,
};

verus! {

#[derive(Debug)]
pub enum AppEvent {
    // File watcher
    FlowStateChanged(FlowState),
    SessionSummaryChanged(SessionSummary),
    AuditLogAppended(Vec<AuditEntry>),
    ArtifactListChanged(Vec<ArtifactFile>),
    // Git polling
    GitStatusUpdated(GitSnapshot),
    // Hooks
    AgentStarted { agent_id: String, agent_type: String },
    AgentStopped { agent_id: String },
    ToolUseStarted { tool_name: String },
    ToolUseCompleted { tool_name: String },
    TurnCompleted { last_message: String },
    // Session token log
    TokenUsageUpdated(TokenSnapshot),
    // System
    HooksServerStarted { port: u16 },
    HooksServerFailed { reason: String },
    FileWatcherError { path: String, error: String },
    GitPollError { error: String },
    ParseError { file: String, error: String },
    CommandCompleted { action_name: String },
    CommandFailed { action_name: String, error: String },
    AdapterCrashed { name: String },
}

} // verus!
