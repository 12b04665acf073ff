//! Sessions, ownership and quotas.
#![allow(unused_mut)]

use agentiso::mcp::auth::{AuthError, AuthManager, PersistedSession, SessionQuota};
use std::collections::HashMap;
use uuid::Uuid;

#[test]
fn test_session_lifecycle() {
    let mut auth = AuthManager::new(SessionQuota::default());
    let sid = auth.register_session("test-session".into(), 0);
    assert_eq!(sid, "test-session");

    let ws_id = Uuid::new_v4().as_u128();
    auth.register_workspace(&sid, ws_id, 1024, 10)
        .unwrap();

    auth.check_ownership(&sid, ws_id).unwrap();

    let other_ws = Uuid::new_v4().as_u128();
    assert!(auth.check_ownership(&sid, other_ws).is_err());

    let usage = auth.get_usage(&sid).unwrap();
    assert_eq!(usage.workspace_count, 1);
    assert_eq!(usage.memory_mb, 1024);
    assert_eq!(usage.disk_gb, 10);

    auth.unregister_workspace(&sid, ws_id, 1024, 10)
        .unwrap();
    let usage = auth.get_usage(&sid).unwrap();
    assert_eq!(usage.workspace_count, 0);

    let removed = auth.remove_session(&sid);
    assert!(removed.is_empty());
}

#[test]
fn test_quota_enforcement() {
    let quota = SessionQuota {
        max_workspaces: 2,
        max_memory_mb: 2048,
        max_disk_gb: 20,
    };
    let mut auth = AuthManager::new(quota);
    let sid = auth.register_session("quota-test".into(), 0);

    auth.register_workspace(&sid, Uuid::new_v4().as_u128(), 1024, 10)
        .unwrap();
    auth.register_workspace(&sid, Uuid::new_v4().as_u128(), 1024, 10)
        .unwrap();

    // Third workspace should fail (max_workspaces = 2).
    let result = auth
        .register_workspace(&sid, Uuid::new_v4().as_u128(), 512, 5);
    assert!(matches!(result, Err(AuthError::QuotaExceeded { .. })));
}

#[test]
fn test_memory_quota_exceeded() {
    let quota = SessionQuota {
        max_workspaces: 10,
        max_memory_mb: 2048,
        max_disk_gb: 100,
    };
    let mut auth = AuthManager::new(quota);
    let sid = auth.register_session("mem-test".into(), 0);

    auth.register_workspace(&sid, Uuid::new_v4().as_u128(), 1500, 10)
        .unwrap();

    // This should exceed memory quota.
    let result = auth
        .register_workspace(&sid, Uuid::new_v4().as_u128(), 600, 10);
    assert!(matches!(result, Err(AuthError::QuotaExceeded { .. })));
}

#[test]
fn test_unknown_session() {
    let mut auth = AuthManager::new(SessionQuota::default());
    let result = auth.check_ownership("nonexistent", Uuid::new_v4().as_u128());
    assert!(matches!(result, Err(AuthError::UnknownSession(_))));
}

#[test]
fn test_check_quota_readonly() {
    let quota = SessionQuota {
        max_workspaces: 1,
        max_memory_mb: 1024,
        max_disk_gb: 10,
    };
    let mut auth = AuthManager::new(quota);
    let sid = auth.register_session("quota-check".into(), 0);

    // check_quota should pass when there's room.
    auth.check_quota(&sid, 512, 5).unwrap();

    // Usage should still be zero -- check_quota is read-only.
    let usage = auth.get_usage(&sid).unwrap();
    assert_eq!(usage.workspace_count, 0);

    // Fill the quota.
    auth.register_workspace(&sid, Uuid::new_v4().as_u128(), 512, 5)
        .unwrap();

    // check_quota should now fail.
    let result = auth.check_quota(&sid, 512, 5);
    assert!(matches!(result, Err(AuthError::QuotaExceeded { .. })));
}

#[test]
fn test_session_removal_returns_workspaces() {
    let mut auth = AuthManager::new(SessionQuota::default());
    let sid = auth.register_session("remove-test".into(), 0);

    let ws1 = Uuid::new_v4().as_u128();
    let ws2 = Uuid::new_v4().as_u128();
    auth.register_workspace(&sid, ws1, 512, 5).unwrap();
    auth.register_workspace(&sid, ws2, 512, 5).unwrap();

    let removed = auth.remove_session(&sid);
    assert_eq!(removed.len(), 2);
    assert!(removed.contains(&ws1));
    assert!(removed.contains(&ws2));

    // Session should no longer exist.
    let result = auth.check_ownership(&sid, ws1);
    assert!(matches!(result, Err(AuthError::UnknownSession(_))));
}

#[test]
fn test_cross_session_ownership() {
    let mut auth = AuthManager::new(SessionQuota::default());
    let sid_a = auth.register_session("session-a".into(), 0);
    let sid_b = auth.register_session("session-b".into(), 0);

    let ws_a = Uuid::new_v4().as_u128();
    auth.register_workspace(&sid_a, ws_a, 512, 5)
        .unwrap();

    // Session A owns ws_a.
    auth.check_ownership(&sid_a, ws_a).unwrap();

    // Session B does NOT own ws_a.
    let result = auth.check_ownership(&sid_b, ws_a);
    assert!(matches!(result, Err(AuthError::NotOwner { .. })));
}

#[test]
fn test_disk_quota_exceeded() {
    let quota = SessionQuota {
        max_workspaces: 10,
        max_memory_mb: 16384,
        max_disk_gb: 20,
    };
    let mut auth = AuthManager::new(quota);
    let sid = auth.register_session("disk-test".into(), 0);

    auth.register_workspace(&sid, Uuid::new_v4().as_u128(), 512, 15)
        .unwrap();

    // This should exceed disk quota (15 + 10 > 20).
    let result = auth
        .register_workspace(&sid, Uuid::new_v4().as_u128(), 512, 10);
    assert!(matches!(result, Err(AuthError::QuotaExceeded { .. })));
}

#[test]
fn test_double_register_session_is_noop() {
    let mut auth = AuthManager::new(SessionQuota::default());
    let sid = auth.register_session("double-reg".into(), 0);

    let ws = Uuid::new_v4().as_u128();
    auth.register_workspace(&sid, ws, 512, 5).unwrap();

    // Re-register same session ID -- should be a no-op, not reset state.
    auth.register_session("double-reg".into(), 0);

    // Workspace should still be owned.
    auth.check_ownership(&sid, ws).unwrap();

    // Usage should still reflect the workspace.
    let usage = auth.get_usage(&sid).unwrap();
    assert_eq!(usage.workspace_count, 1);
}

#[test]
fn test_get_quota_returns_defaults() {
    let mut auth = AuthManager::new(SessionQuota::default());
    let sid = auth.register_session("quota-info".into(), 0);

    let quota = auth.get_quota(&sid).unwrap();
    assert_eq!(quota.max_workspaces, 10);
    assert_eq!(quota.max_memory_mb, 16384);
    assert_eq!(quota.max_disk_gb, 100);
}

#[test]
fn test_list_workspaces_empty_and_populated() {
    let mut auth = AuthManager::new(SessionQuota::default());
    let sid = auth.register_session("list-test".into(), 0);

    // Empty session has no workspaces.
    let list = auth.list_workspaces(&sid).unwrap();
    assert!(list.is_empty());

    let ws = Uuid::new_v4().as_u128();
    auth.register_workspace(&sid, ws, 256, 5).unwrap();

    let list = auth.list_workspaces(&sid).unwrap();
    assert_eq!(list.len(), 1);
    assert!(list.contains(&ws));
}

#[test]
fn test_is_workspace_orphaned() {
    let mut auth = AuthManager::new(SessionQuota::default());
    let sid = auth.register_session("orphan-test".into(), 0);

    let owned_ws = Uuid::new_v4().as_u128();
    let orphaned_ws = Uuid::new_v4().as_u128();
    auth.register_workspace(&sid, owned_ws, 512, 5)
        .unwrap();

    // Owned workspace is not orphaned.
    assert!(!auth.is_workspace_orphaned(&owned_ws));

    // Unregistered workspace is orphaned.
    assert!(auth.is_workspace_orphaned(&orphaned_ws));
}

#[test]
fn test_list_orphaned_workspaces() {
    let mut auth = AuthManager::new(SessionQuota::default());
    let sid = auth.register_session("orphan-list".into(), 0);

    let ws1 = Uuid::new_v4().as_u128();
    let ws2 = Uuid::new_v4().as_u128();
    let ws3 = Uuid::new_v4().as_u128();
    auth.register_workspace(&sid, ws1, 256, 5).unwrap();

    // ws1 is owned; ws2 and ws3 are orphaned.
    let orphans = auth.list_orphaned_workspaces(&[ws1, ws2, ws3]);
    assert_eq!(orphans.len(), 2);
    assert!(orphans.contains(&ws2));
    assert!(orphans.contains(&ws3));
    assert!(!orphans.contains(&ws1));
}

#[test]
fn test_adopt_workspace_basic() {
    let mut auth = AuthManager::new(SessionQuota::default());
    let sid = auth.register_session("adopt-test".into(), 0);

    let ws = Uuid::new_v4().as_u128();

    // Workspace is orphaned before adoption.
    assert!(auth.is_workspace_orphaned(&ws));

    // Adopt it.
    auth.adopt_workspace(&sid, &ws, 1024, 10, false).unwrap();

    // Now it's owned.
    assert!(!auth.is_workspace_orphaned(&ws));
    auth.check_ownership(&sid, ws).unwrap();

    // Usage should reflect the adopted workspace.
    let usage = auth.get_usage(&sid).unwrap();
    assert_eq!(usage.workspace_count, 1);
    assert_eq!(usage.memory_mb, 1024);
    assert_eq!(usage.disk_gb, 10);
}

#[test]
fn test_adopt_workspace_already_owned_by_other() {
    let mut auth = AuthManager::new(SessionQuota::default());
    let sid_a = auth.register_session("session-a".into(), 0);
    let sid_b = auth.register_session("session-b".into(), 0);

    let ws = Uuid::new_v4().as_u128();
    auth.register_workspace(&sid_a, ws, 512, 5).unwrap();

    // Session B should not be able to adopt a workspace owned by session A (without force).
    let result = auth.adopt_workspace(&sid_b, &ws, 512, 5, false);
    assert!(matches!(result, Err(AuthError::AlreadyOwned { .. })));
}

#[test]
fn test_adopt_workspace_force_from_other_session() {
    let mut auth = AuthManager::new(SessionQuota::default());
    let sid_a = auth.register_session("session-a".into(), 0);
    let sid_b = auth.register_session("session-b".into(), 0);

    let ws = Uuid::new_v4().as_u128();
    auth.register_workspace(&sid_a, ws, 512, 5).unwrap();

    // Session A owns it.
    auth.check_ownership(&sid_a, ws).unwrap();

    // Session B force-adopts it.
    auth.adopt_workspace(&sid_b, &ws, 512, 5, true)
        .unwrap();

    // Session B now owns it.
    auth.check_ownership(&sid_b, ws).unwrap();

    // Session A no longer owns it.
    let result = auth.check_ownership(&sid_a, ws);
    assert!(matches!(result, Err(AuthError::NotOwner { .. })));

    // Session A usage should be decremented.
    let usage_a = auth.get_usage(&sid_a).unwrap();
    assert_eq!(usage_a.workspace_count, 0);
    assert_eq!(usage_a.memory_mb, 0);
    assert_eq!(usage_a.disk_gb, 0);

    // Session B usage should reflect the workspace.
    let usage_b = auth.get_usage(&sid_b).unwrap();
    assert_eq!(usage_b.workspace_count, 1);
    assert_eq!(usage_b.memory_mb, 512);
    assert_eq!(usage_b.disk_gb, 5);
}

#[test]
fn test_adopt_workspace_idempotent() {
    let mut auth = AuthManager::new(SessionQuota::default());
    let sid = auth.register_session("adopt-idem".into(), 0);

    let ws = Uuid::new_v4().as_u128();
    auth.adopt_workspace(&sid, &ws, 512, 5, false).unwrap();

    // Adopting again should be a no-op.
    auth.adopt_workspace(&sid, &ws, 512, 5, false).unwrap();

    // Usage should still reflect only one workspace.
    let usage = auth.get_usage(&sid).unwrap();
    assert_eq!(usage.workspace_count, 1);
    assert_eq!(usage.memory_mb, 512);
    assert_eq!(usage.disk_gb, 5);
}

#[test]
fn test_adopt_workspace_quota_exceeded() {
    let quota = SessionQuota {
        max_workspaces: 1,
        max_memory_mb: 1024,
        max_disk_gb: 10,
    };
    let mut auth = AuthManager::new(quota);
    let sid = auth.register_session("adopt-quota".into(), 0);

    let ws1 = Uuid::new_v4().as_u128();
    auth.adopt_workspace(&sid, &ws1, 512, 5, false).unwrap();

    // Second adoption should fail (max_workspaces = 1).
    let ws2 = Uuid::new_v4().as_u128();
    let result = auth.adopt_workspace(&sid, &ws2, 512, 5, false);
    assert!(matches!(result, Err(AuthError::QuotaExceeded { .. })));
}

#[test]
fn test_adopt_workspace_unknown_session() {
    let mut auth = AuthManager::new(SessionQuota::default());
    let ws = Uuid::new_v4().as_u128();
    let result = auth.adopt_workspace("nonexistent", &ws, 512, 5, false);
    assert!(matches!(result, Err(AuthError::UnknownSession(_))));
}

#[test]
fn test_export_sessions_empty() {
    let mut auth = AuthManager::new(SessionQuota::default());
    let _sid = auth.register_session("empty-session".into(), 0);

    // Sessions with no workspaces are not exported
    let exported = auth.export_sessions();
    assert!(exported.is_empty());
}

#[test]
fn test_export_sessions_with_workspaces() {
    let mut auth = AuthManager::new(SessionQuota::default());
    let sid = auth.register_session("export-test".into(), 0);

    let ws1 = Uuid::new_v4().as_u128();
    let ws2 = Uuid::new_v4().as_u128();
    auth.register_workspace(&sid, ws1, 512, 5).unwrap();
    auth.register_workspace(&sid, ws2, 1024, 10).unwrap();

    let exported = auth.export_sessions();
    assert_eq!(exported.len(), 1);
    assert_eq!(exported[0].session_id, "export-test");
    assert_eq!(exported[0].workspace_ids.len(), 2);
}

#[test]
fn test_restore_sessions_basic() {
    let mut auth = AuthManager::new(SessionQuota::default());
    let ws1 = Uuid::new_v4().as_u128();
    let ws2 = Uuid::new_v4().as_u128();

    let persisted = vec![PersistedSession {
        session_id: "restored-session".to_string(),
        workspace_ids: vec![ws1, ws2],
        created_at: 1_700_000_000,
    }];

    let mut resources = HashMap::new();
    resources.insert(ws1, (512u64, 5u64));
    resources.insert(ws2, (1024u64, 10u64));

    auth.restore_sessions(&persisted, &resources);

    // Session should now exist with ownership of both workspaces
    auth.check_ownership("restored-session", ws1).unwrap();
    auth.check_ownership("restored-session", ws2).unwrap();

    // Usage should be correct
    let usage = auth.get_usage("restored-session").unwrap();
    assert_eq!(usage.workspace_count, 2);
    assert_eq!(usage.memory_mb, 1536); // 512 + 1024
    assert_eq!(usage.disk_gb, 15); // 5 + 10
}

#[test]
fn test_restore_sessions_skips_missing_workspaces() {
    let mut auth = AuthManager::new(SessionQuota::default());
    let ws1 = Uuid::new_v4().as_u128();
    let ws_gone = Uuid::new_v4().as_u128();

    let persisted = vec![PersistedSession {
        session_id: "partial-restore".to_string(),
        workspace_ids: vec![ws1, ws_gone],
        created_at: 1_700_000_000,
    }];

    // Only ws1 exists; ws_gone was destroyed while server was down
    let mut resources = HashMap::new();
    resources.insert(ws1, (512u64, 5u64));

    auth.restore_sessions(&persisted, &resources);

    // Session should own only ws1
    auth.check_ownership("partial-restore", ws1).unwrap();
    assert!(auth.check_ownership("partial-restore", ws_gone).is_err());

    let usage = auth.get_usage("partial-restore").unwrap();
    assert_eq!(usage.workspace_count, 1);
}

#[test]
fn test_restore_sessions_all_workspaces_gone() {
    let mut auth = AuthManager::new(SessionQuota::default());
    let ws_gone = Uuid::new_v4().as_u128();

    let persisted = vec![PersistedSession {
        session_id: "stale-session".to_string(),
        workspace_ids: vec![ws_gone],
        created_at: 1_700_000_000,
    }];

    // No workspaces exist anymore
    let resources = HashMap::new();

    auth.restore_sessions(&persisted, &resources);

    // Session should not be created (all workspaces gone)
    let result = auth.check_ownership("stale-session", ws_gone);
    assert!(matches!(result, Err(AuthError::UnknownSession(_))));
}

#[test]
fn test_export_restore_roundtrip() {
    // Create sessions with workspaces, export, then restore to a new AuthManager
    let mut auth1 = AuthManager::new(SessionQuota::default());
    let sid = auth1.register_session("roundtrip".into(), 0);

    let ws1 = Uuid::new_v4().as_u128();
    let ws2 = Uuid::new_v4().as_u128();
    auth1.register_workspace(&sid, ws1, 512, 5).unwrap();
    auth1.register_workspace(&sid, ws2, 1024, 10).unwrap();

    let exported = auth1.export_sessions();

    // Restore into a fresh AuthManager
    let mut auth2 = AuthManager::new(SessionQuota::default());
    let mut resources = HashMap::new();
    resources.insert(ws1, (512u64, 5u64));
    resources.insert(ws2, (1024u64, 10u64));

    auth2.restore_sessions(&exported, &resources);

    // Verify ownership transferred
    auth2.check_ownership("roundtrip", ws1).unwrap();
    auth2.check_ownership("roundtrip", ws2).unwrap();

    let usage = auth2.get_usage("roundtrip").unwrap();
    assert_eq!(usage.workspace_count, 2);
    assert_eq!(usage.memory_mb, 1536);
    assert_eq!(usage.disk_gb, 15);
}

#[test]
fn test_force_adopt_quota_exceeded_preserves_previous_owner() {
    // Session B has a tight quota (max 1 workspace, already full).
    let quota = SessionQuota {
        max_workspaces: 1,
        max_memory_mb: 1024,
        max_disk_gb: 10,
    };
    let mut auth = AuthManager::new(quota);
    let sid_a = auth.register_session("session-a".into(), 0);
    let sid_b = auth.register_session("session-b".into(), 0);

    let ws_owned_by_a = Uuid::new_v4().as_u128();
    auth.register_workspace(&sid_a, ws_owned_by_a, 512, 5).unwrap();

    // Fill session B to its quota.
    let ws_owned_by_b = Uuid::new_v4().as_u128();
    auth.register_workspace(&sid_b, ws_owned_by_b, 512, 5).unwrap();

    // Force-adopt should fail because session B is at quota.
    let result = auth
        .adopt_workspace(&sid_b, &ws_owned_by_a, 512, 5, true);
    assert!(matches!(result, Err(AuthError::QuotaExceeded { .. })));

    // CRITICAL: Session A must still own the workspace (not orphaned).
    auth.check_ownership(&sid_a, ws_owned_by_a).unwrap();

    // Session A usage should be unchanged.
    let usage_a = auth.get_usage(&sid_a).unwrap();
    assert_eq!(usage_a.workspace_count, 1);
    assert_eq!(usage_a.memory_mb, 512);
    assert_eq!(usage_a.disk_gb, 5);
}
