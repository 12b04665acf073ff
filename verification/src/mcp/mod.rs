//! The tool server: sessions and quotas, rate limits, the vault, and the
//! decisions behind each tool.

pub mod access;
pub mod access_laws;
pub mod auth;
pub mod error;
pub mod exchange;
pub mod git_laws;
pub mod git_tools;
pub mod merge;
pub mod merge_laws;
pub mod metrics;
pub mod note_laws;
pub mod pattern;
pub mod prepare;
pub mod prepare_laws;
pub mod rate_limit;
pub mod team_laws;
pub mod team_tools;
pub mod tools;
pub mod tools_laws;
pub mod vault;
pub mod vault_call_laws;
pub mod vault_laws;
pub mod vault_tools;
pub mod walk;
pub mod workspace_laws;
pub mod workspace_tools;
pub mod yaml;
