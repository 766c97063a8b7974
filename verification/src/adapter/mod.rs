//! The computing side of the adapters: parsing what the git CLI, the
//! session logs and the hook endpoint deliver.

pub mod git_poller;
pub mod hooks_server;
pub mod file_watcher;
pub mod jsonl_watcher;
