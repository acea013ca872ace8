//! Core logic of a coding-agent orchestration service: commit-message
//! sanitation and validation, git branch synchronization decisions,
//! task/attempt lifecycle rules, session continuation, and the kanban
//! stream filter.

pub mod belt;
pub mod commit_message;
pub mod commit_validator;
pub mod config;
pub mod git_cli;
pub mod git_sync;
pub mod kanban;
pub mod lifecycle;
pub mod logs;
pub mod omni;
pub mod profiles;
pub mod run_store;
pub mod session;
pub mod settings;
pub mod text;
