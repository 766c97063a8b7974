//! Services shared by the adapters: input sanitizing, hook tokens and
//! hook configuration checks.

pub mod sanitizer;
pub mod hook_config;
pub mod token;
