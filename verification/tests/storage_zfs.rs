//! ZFS names, commands and listings.

use agentiso::storage::zfs::{build_clone_args, parse_dataset_info_line, parse_snapshot_list};
use agentiso::storage::{StorageManager, Zfs, ZvolInfo};
use std::path::PathBuf;

#[test]
fn test_storage_manager_zfs_accessor() {
    let sm = StorageManager::new("tank/agentiso".to_string());
    assert_eq!(sm.zfs().pool_root(), "tank/agentiso");
}

#[test]
fn test_storage_manager_workspace_paths() {
    let sm = StorageManager::new("tank/agentiso".to_string());
    let zfs = sm.zfs();

    assert_eq!(
        zfs.workspace_dataset("abc12345"),
        "tank/agentiso/workspaces/ws-abc12345"
    );
    assert_eq!(
        PathBuf::from(zfs.zvol_path("abc12345")),
        PathBuf::from("/dev/zvol/tank/agentiso/workspaces/ws-abc12345")
    );
}

#[test]
fn test_storage_manager_fork_paths() {
    let sm = StorageManager::new("tank/agentiso".to_string());
    let zfs = sm.zfs();

    assert_eq!(
        zfs.fork_dataset("def67890"),
        "tank/agentiso/forks/ws-def67890"
    );
    assert_eq!(
        PathBuf::from(zfs.fork_zvol_path("def67890")),
        PathBuf::from("/dev/zvol/tank/agentiso/forks/ws-def67890")
    );
}

#[test]
fn test_zfs_pool_root() {
    let zfs = Zfs::new("tank/agentiso".to_string());
    assert_eq!(zfs.pool_root(), "tank/agentiso");
}

#[test]
fn test_workspace_dataset_path() {
    let zfs = Zfs::new("tank/agentiso".to_string());
    assert_eq!(
        zfs.workspace_dataset("abc12345"),
        "tank/agentiso/workspaces/ws-abc12345"
    );
}

#[test]
fn test_fork_dataset_path() {
    let zfs = Zfs::new("tank/agentiso".to_string());
    assert_eq!(
        zfs.fork_dataset("def67890"),
        "tank/agentiso/forks/ws-def67890"
    );
}

#[test]
fn test_snapshot_name_construction() {
    let zfs = Zfs::new("tank/agentiso".to_string());
    assert_eq!(
        zfs.snapshot_name("abc12345", "checkpoint-1"),
        "tank/agentiso/workspaces/ws-abc12345@checkpoint-1"
    );
}

#[test]
fn test_zvol_path() {
    let zfs = Zfs::new("tank/agentiso".to_string());
    assert_eq!(
        PathBuf::from(zfs.zvol_path("abc12345")),
        PathBuf::from("/dev/zvol/tank/agentiso/workspaces/ws-abc12345")
    );
}

#[test]
fn test_fork_zvol_path() {
    let zfs = Zfs::new("tank/agentiso".to_string());
    assert_eq!(
        PathBuf::from(zfs.fork_zvol_path("abc12345")),
        PathBuf::from("/dev/zvol/tank/agentiso/forks/ws-abc12345")
    );
}

#[test]
fn test_parse_dataset_info_line() {
    let line = "tank/agentiso/workspaces/ws-abc\t1048576\t5368709120\t524288\t/mnt/ws-abc";
    let info = parse_dataset_info_line(line).unwrap();
    assert_eq!(info.name, "tank/agentiso/workspaces/ws-abc");
    assert_eq!(info.used, 1048576);
    assert_eq!(info.available, 5368709120);
    assert_eq!(info.referenced, 524288);
    assert_eq!(info.mountpoint, Some("/mnt/ws-abc".to_string()));
}

#[test]
fn test_parse_dataset_info_no_mountpoint() {
    let line = "tank/agentiso/workspaces/ws-abc\t1024\t999\t512\t-";
    let info = parse_dataset_info_line(line).unwrap();
    assert!(info.mountpoint.is_none());

    let line2 = "tank/agentiso/workspaces/ws-abc\t1024\t999\t512\tnone";
    let info2 = parse_dataset_info_line(line2).unwrap();
    assert!(info2.mountpoint.is_none());
}

#[test]
fn test_parse_dataset_info_malformed() {
    let line = "too\tfew\tcolumns";
    assert!(parse_dataset_info_line(line).is_err());
}

#[test]
fn test_parse_snapshot_list() {
    let output = "tank/agentiso/workspaces/ws-abc@snap1\t1700000000\t4096\n\
                   tank/agentiso/workspaces/ws-abc@snap2\t1700001000\t8192\n";
    let snaps = parse_snapshot_list(output);
    assert_eq!(snaps.len(), 2);
    assert_eq!(snaps[0].snap_name, "snap1");
    assert_eq!(snaps[0].creation, 1700000000);
    assert_eq!(snaps[0].referenced, 4096);
    assert_eq!(snaps[1].snap_name, "snap2");
    assert_eq!(snaps[1].full_name, "tank/agentiso/workspaces/ws-abc@snap2");
}

#[test]
fn test_parse_snapshot_list_malformed_lines() {
    let output = "too_few_columns\n\
                   no_at_sign\t100\t200\n\
                   tank/ws@good\t300\t400\n";
    let snaps = parse_snapshot_list(output);
    assert_eq!(snaps.len(), 1);
    assert_eq!(snaps[0].snap_name, "good");
}

#[test]
fn test_parse_snapshot_list_empty() {
    let snaps = parse_snapshot_list("");
    assert!(snaps.is_empty());
}

#[test]
fn test_pool_dataset_path() {
    let zfs = Zfs::new("tank/agentiso".to_string());
    assert_eq!(
        zfs.pool_dataset("abc12345"),
        "tank/agentiso/pool/warm-abc12345"
    );
}

#[test]
fn test_pool_zvol_path() {
    let zfs = Zfs::new("tank/agentiso".to_string());
    assert_eq!(
        PathBuf::from(zfs.pool_zvol_path("abc12345")),
        PathBuf::from("/dev/zvol/tank/agentiso/pool/warm-abc12345")
    );
}

#[test]
fn test_destroy_rejects_parent_dataset() {
    let zfs = Zfs::new("tank/agentiso".to_string());

    // Attempting to destroy the pool root should fail
    let result = zfs.destroy("tank/agentiso");
    assert!(result.is_err());
    assert!(
        result
            .unwrap_err()
            .to_string()
            .contains("refusing to destroy")
    );

    // Attempting to destroy the base dataset should fail
    let result = zfs.destroy("tank/agentiso/base/alpine-dev");
    assert!(result.is_err());

    // Attempting to destroy a completely unrelated dataset should fail
    let result = zfs.destroy("rpool/ROOT");
    assert!(result.is_err());

    // Attempting to destroy the workspaces parent (without trailing content) should fail
    let result = zfs.destroy("tank/agentiso/workspaces");
    assert!(result.is_err());
}

#[test]
fn test_destroy_accepts_valid_prefixes() {
    let zfs = Zfs::new("tank/agentiso".to_string());

    for dataset in [
        "tank/agentiso/workspaces/ws-abc12345",
        "tank/agentiso/forks/ws-def67890",
        "tank/agentiso/pool/warm-abc12345",
    ] {
        let step = zfs.destroy(dataset).unwrap();
        assert_eq!(step.program, "zfs");
        assert_eq!(step.args, vec!["destroy", "-r", dataset]);
    }
}

#[test]
fn test_different_pool_root() {
    let zfs = Zfs::new("rpool/vms".to_string());
    assert_eq!(
        zfs.workspace_dataset("12345678"),
        "rpool/vms/workspaces/ws-12345678"
    );
    assert_eq!(
        PathBuf::from(zfs.zvol_path("12345678")),
        PathBuf::from("/dev/zvol/rpool/vms/workspaces/ws-12345678")
    );
    assert_eq!(
        zfs.snapshot_name("12345678", "save1"),
        "rpool/vms/workspaces/ws-12345678@save1"
    );
}

#[test]
fn test_build_clone_args_with_disk_gb_ignored() {
    // disk_gb is accepted but ignored (zvols don't support refquota)
    let args = build_clone_args(
        "tank/agentiso/base/alpine-dev@ready",
        "tank/agentiso/workspaces/ws-abc12345",
        Some(10),
    );
    assert_eq!(
        args,
        vec![
            "clone",
            "-o",
            "compression=lz4",
            "tank/agentiso/base/alpine-dev@ready",
            "tank/agentiso/workspaces/ws-abc12345",
        ]
    );
    // refquota should NOT be present (invalid for zvols)
    assert!(!args.iter().any(|a| a.contains("refquota")));
}

#[test]
fn test_build_clone_args_without_disk_gb() {
    let args = build_clone_args(
        "tank/agentiso/base/alpine-dev@ready",
        "tank/agentiso/workspaces/ws-abc12345",
        None,
    );
    assert_eq!(
        args,
        vec![
            "clone",
            "-o",
            "compression=lz4",
            "tank/agentiso/base/alpine-dev@ready",
            "tank/agentiso/workspaces/ws-abc12345",
        ]
    );
    assert!(!args.iter().any(|a| a.contains("refquota")));
}

#[test]
fn test_build_clone_args_always_has_compression() {
    // Verify compression=lz4 is present regardless of disk_gb
    let args_none = build_clone_args("pool/base@snap", "pool/workspaces/ws-xyz", None);
    assert!(args_none.contains(&"compression=lz4".to_string()));

    let args_some = build_clone_args("pool/base@snap", "pool/workspaces/ws-xyz", Some(100));
    assert!(args_some.contains(&"compression=lz4".to_string()));
    // No refquota even when disk_gb is provided
    assert!(!args_some.iter().any(|a| a.contains("refquota")));
}

#[test]
fn test_build_clone_args_fork_path() {
    let args = build_clone_args(
        "pool/base@snap",
        "pool/forks/ws-fork1",
        Some(1),
    );
    assert_eq!(
        args,
        vec![
            "clone",
            "-o",
            "compression=lz4",
            "pool/base@snap",
            "pool/forks/ws-fork1",
        ]
    );
}

#[test]
fn test_zvol_info_struct() {
    let info = ZvolInfo {
        volsize: 10 * 1024 * 1024 * 1024,
        used: 256 * 1024 * 1024,
    };
    assert_eq!(info.volsize, 10_737_418_240);
    assert_eq!(info.used, 268_435_456);
}

#[test]
fn test_zvol_info_clone() {
    let info = ZvolInfo {
        volsize: 5_368_709_120,
        used: 1_073_741_824,
    };
    let cloned = info.clone();
    assert_eq!(cloned.volsize, info.volsize);
    assert_eq!(cloned.used, info.used);
}
