//! Verified core of the devflow dashboard: parsers for the workflow
//! documents, git CLI output and hook payloads, the sanitizer, and the
//! state machines behind each dashboard panel.

pub mod text;
pub mod service;
pub mod parser;
pub mod adapter;
pub mod action;
pub mod input;
pub mod event;
pub mod panel;
pub mod ui;
pub mod config;
pub mod app;
pub mod demo;
