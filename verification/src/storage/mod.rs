//! Workspace storage.

pub mod laws;
pub mod manager;
pub mod zfs;

pub use manager::{ForkedStorage, StorageManager, WorkspaceStorage};
pub use zfs::{Zfs, ZfsDatasetInfo, ZfsSnapshotInfo, ZvolInfo};
