//! Server configuration.

use vstd::prelude::*;

verus! {

/// Rate limits for tool calls.
#[derive(Clone, Copy, Debug, PartialEq, Eq, Structural)]
pub struct RateLimitConfig {
    /// Whether calls are limited at all.
    pub enabled: bool,
    /// Workspace creations and forks per minute.
    pub create_per_minute: u32,
    /// Command executions per minute.
    pub exec_per_minute: u32,
    /// All other calls per minute.
    pub default_per_minute: u32,
    /// Team messages per minute.
    pub team_message_per_minute: u32,
}

impl Default for RateLimitConfig {
    fn default() -> (c: RateLimitConfig)
        ensures
            c == (RateLimitConfig {
                enabled: true,
                create_per_minute: 5,
                exec_per_minute: 60,
                default_per_minute: 120,
                team_message_per_minute: 300,
            }),
    {
        RateLimitConfig {
            enabled: true,
            create_per_minute: 5,
            exec_per_minute: 60,
            default_per_minute: 120,
            team_message_per_minute: 300,
        }
    }
}

/// The vault of notes.
#[derive(Debug)]
pub struct VaultConfig {
    /// Whether there is a vault.
    pub enabled: bool,
    /// The directory of the vault.
    pub path: String,
    /// File extensions of notes.
    pub extensions: Vec<String>,
    /// Names of directories that are left out.
    pub exclude_dirs: Vec<String>,
}

} // verus!
