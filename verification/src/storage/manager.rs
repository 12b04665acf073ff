//! Storage over the life of a workspace: creation from base images, snapshots,
//! forks and cleanup.

use crate::host::{all_headed, command_step, head_step, head_steps, headed, steps_view, Step};
use crate::job::{job_of, job_ok, must, single, Job};
use crate::storage::zfs::{
    base_path, clone_steps, dataset_query, fork_path, is_destroyable, layout_setup, pool_path,
    snapshot_listing, snapshot_path, workspace_path, zvol_query, Zfs,
};
use crate::text::{cat2, texts};
use vstd::prelude::*;

verus! {

/// Minimum available pool space (in bytes) below which workspace creation
/// fails.
pub const MIN_POOL_BYTES: u64 = 1_073_741_824;

/// Available pool space (in bytes) below which there is a warning.
pub const WARN_POOL_BYTES: u64 = 10_737_418_240;

/// Result of creating a new workspace's storage.
#[derive(Debug)]
pub struct WorkspaceStorage {
    /// ZFS dataset name.
    pub dataset: String,
    /// Path to the zvol block device.
    pub zvol_path: String,
}

/// Result of forking a workspace from a snapshot.
#[derive(Debug)]
pub struct ForkedStorage {
    /// ZFS dataset name for the fork.
    pub dataset: String,
    /// Path to the zvol block device for the fork.
    pub zvol_path: String,
}

/// How much space a pool has.
#[derive(Clone, Copy, Debug, PartialEq, Eq, Structural)]
pub enum PoolSpace {
    /// Enough.
    Plenty,
    /// Enough for now, but a warning is due.
    Low,
    /// The space could not be found out. This stops nothing: cloning fails by
    /// itself if there is no space.
    Unknown,
}

/// A pool does not have the space that is needed.
#[derive(Clone, Copy, Debug, PartialEq, Eq, Structural)]
pub struct PoolShortage {
    /// Bytes that are available.
    pub available: u64,
    /// Bytes that are needed.
    pub required: u64,
}

/// The bytes that must be available: the size of the workspace and a buffer.
pub open spec fn required_bytes(required_gb: Option<u32>) -> int {
    match required_gb {
        Some(gb) => gb * 1_073_741_824 + MIN_POOL_BYTES,
        None => MIN_POOL_BYTES as int,
    }
}

/// What is left in a pool for a workspace: too little, some or plenty. A pool
/// whose space is not known is used anyway.
pub open spec fn space(available: Result<u64, String>, required_gb: Option<u32>) -> Result<
    PoolSpace,
    PoolShortage,
> {
    match available {
        Err(_) => Ok(PoolSpace::Unknown),
        Ok(n) => if n < required_bytes(required_gb) {
            Err(PoolShortage { available: n, required: required_bytes(required_gb) as u64 })
        } else if n < WARN_POOL_BYTES {
            Ok(PoolSpace::Low)
        } else {
            Ok(PoolSpace::Plenty)
        },
    }
}

/// Check available pool space.
pub fn check_pool_space(available: &Result<u64, String>, required_gb: Option<u32>) -> (r: Result<
    PoolSpace,
    PoolShortage,
>)
    ensures
        r == space(*available, required_gb),
{
    match available {
        Err(_) => Ok(PoolSpace::Unknown),
        Ok(n) => {
            let required: u64 = match required_gb {
                Some(gb) => gb as u64 * 1_073_741_824 + MIN_POOL_BYTES,
                None => MIN_POOL_BYTES,
            };
            if *n < required {
                Err(PoolShortage { available: *n, required })
            } else if *n < WARN_POOL_BYTES {
                Ok(PoolSpace::Low)
            } else {
                Ok(PoolSpace::Plenty)
            }
        },
    }
}

/// High-level storage manager for workspace lifecycle operations.
#[derive(Debug)]
pub struct StorageManager {
    zfs: Zfs,
}

impl StorageManager {
    /// The pool root.
    pub closed spec fn root(&self) -> Seq<char> {
        self.zfs.root()
    }

    /// Create a new manager; `pool_root` is the ZFS dataset root, e.g.
    /// "tank/agentiso".
    pub fn new(pool_root: String) -> (r: StorageManager)
        ensures
            r.root() == pool_root@,
    {
        StorageManager { zfs: Zfs::new(pool_root) }
    }

    /// Access the underlying ZFS operations.
    pub fn zfs(&self) -> (r: &Zfs)
        ensures
            r.root() == self.root(),
    {
        &self.zfs
    }

    /// Create storage for a new workspace by cloning the base image. It is
    /// refused if the pool, with so many bytes available, has no room.
    pub fn create_workspace(
        &self,
        base_image: &str,
        base_snapshot: &str,
        workspace_id: &str,
        disk_gb: Option<u32>,
        available: &Result<u64, String>,
    ) -> (r: Result<(PoolSpace, WorkspaceStorage, Vec<Step>), PoolShortage>)
        ensures
            match space(*available, disk_gb) {
                Err(short) => r is Err && r->Err_0 == short,
                Ok(left) => {
                    &&& r is Ok
                    &&& r->Ok_0.0 == left
                    &&& r->Ok_0.1.dataset@ == workspace_path(self.root(), workspace_id@)
                    &&& r->Ok_0.1.zvol_path@ == "/dev/zvol/"@ + workspace_path(
                        self.root(),
                        workspace_id@,
                    )
                    &&& steps_view(r->Ok_0.2@) == all_headed(
                        clone_steps(
                            base_path(self.root(), base_image@, base_snapshot@),
                            workspace_path(self.root(), workspace_id@),
                            disk_gb,
                        ),
                        "failed to clone base image for workspace"@,
                    )
                },
            },
    {
        let left: PoolSpace = match check_pool_space(available, disk_gb) {
            Err(short) => {
                return Err(short);
            },
            Ok(left) => left,
        };
        let c: (String, Vec<Step>) = self.zfs.clone_from_base(
            base_image,
            base_snapshot,
            workspace_id,
            disk_gb,
        );
        let zvol_path: String = self.zfs.zvol_path(workspace_id);
        let steps: Vec<Step> = head_steps(c.1, "failed to clone base image for workspace");
        Ok((left, WorkspaceStorage { dataset: c.0, zvol_path }, steps))
    }

    /// Create storage for a warm pool VM by cloning the base image. It is
    /// refused if the pool, with so many bytes available, has no room.
    pub fn create_pool_vm(
        &self,
        base_image: &str,
        base_snapshot: &str,
        pool_id: &str,
        disk_gb: Option<u32>,
        available: &Result<u64, String>,
    ) -> (r: Result<(PoolSpace, WorkspaceStorage, Vec<Step>), PoolShortage>)
        ensures
            match space(*available, disk_gb) {
                Err(short) => r is Err && r->Err_0 == short,
                Ok(left) => {
                    &&& r is Ok
                    &&& r->Ok_0.0 == left
                    &&& r->Ok_0.1.dataset@ == pool_path(self.root(), pool_id@)
                    &&& r->Ok_0.1.zvol_path@ == "/dev/zvol/"@ + pool_path(
                        self.root(),
                        pool_id@,
                    )
                    &&& steps_view(r->Ok_0.2@) == all_headed(
                        clone_steps(
                            base_path(self.root(), base_image@, base_snapshot@),
                            pool_path(self.root(), pool_id@),
                            disk_gb,
                        ),
                        "failed to clone base image for pool VM"@,
                    )
                },
            },
    {
        let left: PoolSpace = match check_pool_space(available, disk_gb) {
            Err(short) => {
                return Err(short);
            },
            Ok(left) => left,
        };
        let c: (String, Vec<Step>) = self.zfs.clone_for_pool(
            base_image,
            base_snapshot,
            pool_id,
            disk_gb,
        );
        let zvol_path: String = self.zfs.pool_zvol_path(pool_id);
        let steps: Vec<Step> = head_steps(c.1, "failed to clone base image for pool VM");
        Ok((left, WorkspaceStorage { dataset: c.0, zvol_path }, steps))
    }

    /// Fork a workspace from a snapshot. It is refused if the pool, with so
    /// many bytes available, has no room.
    pub fn fork_workspace(
        &self,
        source_workspace_id: &str,
        snap_name: &str,
        new_workspace_id: &str,
        disk_gb: Option<u32>,
        available: &Result<u64, String>,
    ) -> (r: Result<(PoolSpace, ForkedStorage, Vec<Step>), PoolShortage>)
        ensures
            match space(*available, disk_gb) {
                Err(short) => r is Err && r->Err_0 == short,
                Ok(left) => {
                    &&& r is Ok
                    &&& r->Ok_0.0 == left
                    &&& r->Ok_0.1.dataset@ == fork_path(self.root(), new_workspace_id@)
                    &&& r->Ok_0.1.zvol_path@ == "/dev/zvol/"@ + fork_path(
                        self.root(),
                        new_workspace_id@,
                    )
                    &&& steps_view(r->Ok_0.2@) == all_headed(
                        clone_steps(
                            snapshot_path(self.root(), source_workspace_id@, snap_name@),
                            fork_path(self.root(), new_workspace_id@),
                            disk_gb,
                        ),
                        "failed to fork workspace from snapshot"@,
                    )
                },
            },
    {
        let left: PoolSpace = match check_pool_space(available, disk_gb) {
            Err(short) => {
                return Err(short);
            },
            Ok(left) => left,
        };
        let c: (String, Vec<Step>) = self.zfs.clone_snapshot(
            source_workspace_id,
            snap_name,
            new_workspace_id,
            disk_gb,
        );
        let zvol_path: String = self.zfs.fork_zvol_path(new_workspace_id);
        let steps: Vec<Step> = head_steps(c.1, "failed to fork workspace from snapshot");
        Ok((left, ForkedStorage { dataset: c.0, zvol_path }, steps))
    }

    /// Which dataset holds the storage of a workspace that is to be destroyed,
    /// given whether its workspace dataset and its fork dataset exist.
    pub fn destroy_workspace(&self, workspace_id: &str, as_workspace: bool, as_fork: bool) -> (r:
        Result<String, String>)
        ensures
            if as_workspace {
                r is Ok && r->Ok_0@ == workspace_path(self.root(), workspace_id@)
            } else if as_fork {
                r is Ok && r->Ok_0@ == fork_path(self.root(), workspace_id@)
            } else {
                r is Err && r->Err_0@ == "workspace dataset not found: "@ + workspace_path(
                    self.root(),
                    workspace_id@,
                )
            },
    {
        let dataset: String = self.zfs.workspace_dataset(workspace_id);
        if as_workspace {
            Ok(dataset)
        } else if as_fork {
            Ok(self.zfs.fork_dataset(workspace_id))
        } else {
            Err(cat2("workspace dataset not found: ", dataset.as_str()))
        }
    }

    /// The command that creates a named snapshot of a workspace, and the full
    /// name of the snapshot.
    pub fn create_snapshot(&self, workspace_id: &str, snap_name: &str) -> (r: (String, Step))
        ensures
            r.0@ == snapshot_path(self.root(), workspace_id@, snap_name@),
            r.1@ == headed(
                command_step(
                    "zfs"@,
                    seq!["snapshot"@, snapshot_path(self.root(), workspace_id@, snap_name@)],
                    true,
                    Some(
                        "failed to create snapshot "@ + snapshot_path(
                            self.root(),
                            workspace_id@,
                            snap_name@,
                        ),
                    ),
                ),
                "failed to create workspace snapshot"@,
            ),
    {
        let c: (String, Step) = self.zfs.create_snapshot(workspace_id, snap_name);
        (c.0, head_step(c.1, "failed to create workspace snapshot"))
    }

    /// The command that restores a workspace to a named snapshot. The VM must
    /// be stopped before.
    pub fn restore_snapshot(&self, workspace_id: &str, snap_name: &str) -> (s: Step)
        ensures
            s@ == headed(
                command_step(
                    "zfs"@,
                    seq![
                        "rollback"@,
                        "-r"@,
                        snapshot_path(self.root(), workspace_id@, snap_name@),
                    ],
                    true,
                    Some(
                        "failed to rollback to "@ + snapshot_path(
                            self.root(),
                            workspace_id@,
                            snap_name@,
                        ),
                    ),
                ),
                "failed to rollback workspace to snapshot"@,
            ),
    {
        head_step(
            self.zfs.rollback(workspace_id, snap_name),
            "failed to rollback workspace to snapshot",
        )
    }

    /// The command that deletes a single snapshot of a workspace.
    pub fn delete_snapshot(&self, workspace_id: &str, snap_name: &str) -> (s: Step)
        ensures
            s@ == headed(
                command_step(
                    "zfs"@,
                    seq!["destroy"@, snapshot_path(self.root(), workspace_id@, snap_name@)],
                    true,
                    Some(
                        "failed to destroy snapshot "@ + snapshot_path(
                            self.root(),
                            workspace_id@,
                            snap_name@,
                        ),
                    ),
                ),
                "failed to delete snapshot"@,
            ),
    {
        head_step(
            self.zfs.destroy_snapshot(workspace_id, snap_name),
            "failed to delete snapshot",
        )
    }

    /// Initialize the storage pool: make sure that its layout is there.
    pub fn init(&self) -> (r: Job)
        ensures
            job_ok(r@),
            r@ == job_of(
                seq![
                    must(
                        layout_setup(self.root()),
                        "failed to initialize ZFS pool layout"@,
                        seq![],
                    ),
                ],
            ),
    {
        single(self.zfs.ensure_pool_layout(), "failed to initialize ZFS pool layout")
    }

    /// The command that lists all snapshots of a workspace.
    pub fn list_snapshots(&self, workspace_id: &str) -> (s: Step)
        ensures
            s@ == headed(
                snapshot_listing(workspace_path(self.root(), workspace_id@)),
                "failed to list workspace snapshots"@,
            ),
    {
        head_step(self.zfs.list_snapshots(workspace_id), "failed to list workspace snapshots")
    }

    /// The command that tells about the dataset of a workspace.
    pub fn workspace_info(&self, workspace_id: &str) -> (s: Step)
        ensures
            s@ == headed(
                dataset_query(workspace_path(self.root(), workspace_id@)),
                "failed to get workspace dataset info"@,
            ),
    {
        let dataset: String = self.zfs.workspace_dataset(workspace_id);
        head_step(
            self.zfs.dataset_info(dataset.as_str()),
            "failed to get workspace dataset info",
        )
    }

    /// The command that tells the size of a zvol and how much of it is used, by
    /// dataset path.
    pub fn zvol_info(&self, dataset: &str) -> (s: Step)
        ensures
            s@ == headed(zvol_query(dataset@), "failed to get zvol info"@),
    {
        head_step(self.zfs.get_zvol_info(dataset), "failed to get zvol info")
    }

    /// The command that destroys the storage of a pool VM or workspace by
    /// dataset path.
    pub fn destroy_dataset(&self, dataset: &str) -> (r: Result<Step, String>)
        ensures
            if is_destroyable(self.root(), dataset@) {
                r is Ok && r->Ok_0@ == command_step(
                    "zfs"@,
                    seq!["destroy"@, "-r"@, dataset@],
                    true,
                    Some("failed to destroy "@ + dataset@),
                )
            } else {
                r is Err && r->Err_0@ == "refusing to destroy dataset '"@ + dataset@
                    + "': not under workspaces/, forks/, or pool/ of '"@ + self.root() + "'"@
            },
    {
        self.zfs.destroy(dataset)
    }

    /// The parents whose children are workspace datasets.
    pub fn workspace_parents(&self) -> (r: (String, String))
        ensures
            r.0@ == self.root() + "/workspaces"@,
            r.1@ == self.root() + "/forks"@,
    {
        (cat2(self.zfs.pool_root(), "/workspaces"), cat2(self.zfs.pool_root(), "/forks"))
    }

    /// All workspace datasets: those under `workspaces/` and then those under
    /// `forks/`, as far as they could be listed.
    pub fn list_all_workspace_datasets(
        &self,
        workspaces: Result<Vec<String>, String>,
        forks: Result<Vec<String>, String>,
    ) -> (r: Vec<String>)
        ensures
            texts(r@) == listed(workspaces) + listed(forks),
    {
        let mut out: Vec<String> = match workspaces {
            Ok(v) => v,
            Err(_) => Vec::new(),
        };
        proof {
            assert(texts(out@) =~= listed(workspaces));
        }
        match forks {
            Ok(v) => {
                let mut rest: Vec<String> = v;
                let ghost a = out@;
                let ghost b = rest@;
                out.append(&mut rest);
                proof {
                    assert(texts(out@) =~= texts(a) + texts(b));
                }
            },
            Err(_) => {
                proof {
                    assert(texts(out@) =~= texts(out@) + listed(forks));
                }
            },
        }
        out
    }
}

/// What could be listed.
pub open spec fn listed(r: Result<Vec<String>, String>) -> Seq<Seq<char>> {
    match r {
        Ok(v) => texts(v@),
        Err(_) => seq![],
    }
}

// ---------------------------------------------------------------------------
// Laws
// ---------------------------------------------------------------------------

/// A pool that has the space for a workspace has at least the size of the
/// workspace and one gigabyte more.
pub proof fn law_space_check_keeps_buffer(available: u64, gb: u32)
    requires
        available >= required_bytes(Some(gb)),
    ensures
        available - gb * 1_073_741_824 >= 1_073_741_824,
{
}

} // verus!
