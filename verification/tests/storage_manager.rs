//! Storage operations, step by step.

use agentiso::host::{HostOutput, Step};
use agentiso::job::Action;
use agentiso::storage::manager::{
    check_pool_space, PoolShortage, PoolSpace, MIN_POOL_BYTES, WARN_POOL_BYTES,
};
use agentiso::storage::zfs::{
    parse_available_bytes, parse_children, parse_dataset_info, parse_zvol_info,
};
use agentiso::storage::StorageManager;

const GIB: u64 = 1 << 30;

fn line(s: &Step) -> String {
    format!("{} {}", s.program, s.args.join(" "))
}

fn sm() -> StorageManager {
    StorageManager::new("tank/agentiso".to_string())
}

#[test]
fn clones_are_steps() {
    let room: Result<u64, String> = Ok(21 * GIB);
    let (space, storage, steps) = sm()
        .create_workspace("alpine", "latest", "w1", Some(20), &room)
        .unwrap();
    assert_eq!(space, PoolSpace::Plenty);
    assert_eq!(storage.dataset, "tank/agentiso/workspaces/ws-w1");
    assert_eq!(storage.zvol_path, "/dev/zvol/tank/agentiso/workspaces/ws-w1");
    assert!(line(&steps[0]).starts_with("zfs clone "));
    assert!(line(&steps[0])
        .ends_with("tank/agentiso/base/alpine@latest tank/agentiso/workspaces/ws-w1"));
    let e = steps[0]
        .judge(&Ok(HostOutput {
            success: false,
            stdout: String::new(),
            stderr: "out of space\n".to_string(),
        }))
        .unwrap_err();
    assert!(e.starts_with("failed to clone base image for workspace: "));
    assert!(e.ends_with("out of space"));
    let (_, fork, _) = sm()
        .fork_workspace("w1", "golden", "w2", None, &room)
        .unwrap();
    assert_eq!(fork.dataset, "tank/agentiso/forks/ws-w2");
    let (_, pool, _) = sm()
        .create_pool_vm("alpine", "latest", "p", None, &room)
        .unwrap();
    assert_eq!(pool.dataset, "tank/agentiso/pool/warm-p");
    let short = sm()
        .fork_workspace("w1", "golden", "w2", Some(21), &room)
        .err()
        .unwrap();
    assert_eq!((short.available, short.required), (21 * GIB, 22 * GIB));
}

#[test]
fn snapshots_are_steps() {
    let (name, s) = sm().create_snapshot("w1", "a");
    assert_eq!(name, "tank/agentiso/workspaces/ws-w1@a");
    assert_eq!(line(&s), "zfs snapshot tank/agentiso/workspaces/ws-w1@a");
    assert_eq!(
        line(&sm().restore_snapshot("w1", "a")),
        "zfs rollback -r tank/agentiso/workspaces/ws-w1@a"
    );
    assert_eq!(
        line(&sm().delete_snapshot("w1", "a")),
        "zfs destroy tank/agentiso/workspaces/ws-w1@a"
    );
    let mut job = sm().init();
    let mut done = Vec::new();
    while let Action::Run(step) = job.action() {
        // All but one dataset exist already.
        let success = !line(&step).ends_with("name tank/agentiso/forks");
        done.push(line(&step));
        job = job.resume(&Ok(HostOutput {
            success,
            stdout: String::new(),
            stderr: String::new(),
        }));
    }
    assert!(matches!(job.action(), Action::Done));
    assert_eq!(
        done,
        vec![
            "zfs list -H -o name tank/agentiso/base",
            "zfs list -H -o name tank/agentiso/workspaces",
            "zfs list -H -o name tank/agentiso/forks",
            "zfs create -p -o compression=lz4 tank/agentiso/forks",
            "zfs list -H -o name tank/agentiso/pool",
        ]
    );
}

#[test]
fn the_dataset_that_exists_is_destroyed() {
    let ws = "tank/agentiso/workspaces/ws-w1";
    let fork = "tank/agentiso/forks/ws-w1";
    assert_eq!(sm().destroy_workspace("w1", true, true).unwrap(), ws);
    assert_eq!(sm().destroy_workspace("w1", false, true).unwrap(), fork);
    assert_eq!(
        sm().destroy_workspace("w1", false, false).unwrap_err(),
        "workspace dataset not found: tank/agentiso/workspaces/ws-w1"
    );
    assert_eq!(line(&sm().destroy_dataset(ws).unwrap()), format!("zfs destroy -r {}", ws));
    assert!(sm().destroy_dataset("tank/agentiso/workspaces").is_err());
}

#[test]
fn pool_space_is_checked() {
    assert_eq!(check_pool_space(&Ok(WARN_POOL_BYTES), None), Ok(PoolSpace::Plenty));
    assert_eq!(check_pool_space(&Ok(WARN_POOL_BYTES - 1), None), Ok(PoolSpace::Low));
    assert_eq!(
        check_pool_space(&Ok(11 * GIB - 1), Some(10)),
        Err(PoolShortage {
            available: 11 * GIB - 1,
            required: 11 * GIB
        })
    );
    assert_eq!(check_pool_space(&Ok(11 * GIB), Some(10)), Ok(PoolSpace::Plenty));
    assert_eq!(
        check_pool_space(&Ok(MIN_POOL_BYTES - 1), None),
        Err(PoolShortage {
            available: MIN_POOL_BYTES - 1,
            required: MIN_POOL_BYTES
        })
    );
    assert_eq!(
        check_pool_space(&Err("no pool".to_string()), Some(10)),
        Ok(PoolSpace::Unknown)
    );
}

#[test]
fn listings_are_parsed() {
    assert_eq!(parse_available_bytes("123\n").unwrap(), 123);
    let e = parse_available_bytes("a\"b\n").unwrap_err();
    assert!(e.contains("\"a\\\"b\""), "{}", e);
    let z = parse_zvol_info("d", "10737418240\n4096\n").unwrap();
    assert_eq!((z.volsize, z.used), (10 * GIB, 4096));
    assert!(parse_zvol_info("d", "12\n").is_err());
    assert_eq!(
        parse_children("p\np/a\np/b\n", "p"),
        vec!["p/a", "p/b"]
    );
    assert!(parse_dataset_info("").is_err());
    assert_eq!(
        sm().list_all_workspace_datasets(
            Ok(vec!["a".to_string()]),
            Ok(vec!["b".to_string(), "c".to_string()])
        ),
        vec!["a", "b", "c"]
    );
    assert_eq!(
        sm().list_all_workspace_datasets(Err("x".to_string()), Ok(vec!["b".to_string()])),
        vec!["b"]
    );
}
