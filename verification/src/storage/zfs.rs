//! ZFS datasets: their names, the commands on them, and what these print.

use crate::host::{args_from, command, command_step, steps_view, Step, StepView};
use crate::job::{add_unless, tasks_view, Task, TaskView};
use crate::number::{
    decimal, decimal_of, nat_or_zero, parse_nat, parse_problem, parse_problem_of, parse_unsigned,
    u64_or_zero,
};
use crate::text;
use crate::text::{
    cat2, cat3, cat4, cat5, cat6, chars_of, debug_form, debug_of, find_char, lemma_texts_push,
    lines, opt_text, owned, position_of, same, split, split_lines, split_on, starts_with,
    string_of, texts, trim, trimmed,
};
use vstd::prelude::*;
use vstd::string::*;

verus! {

/// Information about a ZFS snapshot.
#[derive(Debug)]
pub struct ZfsSnapshotInfo {
    /// Full snapshot name.
    pub full_name: String,
    /// Short snapshot name after the '@'.
    pub snap_name: String,
    /// Creation time (seconds since epoch).
    pub creation: u64,
    /// Referenced size in bytes.
    pub referenced: u64,
}

/// The contents of a [`ZfsSnapshotInfo`].
pub struct SnapshotView {
    pub full_name: Seq<char>,
    pub snap_name: Seq<char>,
    pub creation: nat,
    pub referenced: nat,
}

impl View for ZfsSnapshotInfo {
    type V = SnapshotView;

    open spec fn view(&self) -> SnapshotView {
        SnapshotView {
            full_name: self.full_name@,
            snap_name: self.snap_name@,
            creation: self.creation as nat,
            referenced: self.referenced as nat,
        }
    }
}

/// The contents of a list of snapshots.
pub open spec fn snapshots_view(v: Seq<ZfsSnapshotInfo>) -> Seq<SnapshotView> {
    Seq::new(v.len(), |i: int| v[i]@)
}

/// Information about a ZFS dataset.
#[derive(Debug)]
pub struct ZfsDatasetInfo {
    pub name: String,
    pub used: u64,
    pub available: u64,
    pub referenced: u64,
    pub mountpoint: Option<String>,
}

/// The contents of a [`ZfsDatasetInfo`].
pub struct DatasetView {
    pub name: Seq<char>,
    pub used: nat,
    pub available: nat,
    pub referenced: nat,
    pub mountpoint: Option<Seq<char>>,
}

impl View for ZfsDatasetInfo {
    type V = DatasetView;

    open spec fn view(&self) -> DatasetView {
        DatasetView {
            name: self.name@,
            used: self.used as nat,
            available: self.available as nat,
            referenced: self.referenced as nat,
            mountpoint: opt_text(self.mountpoint),
        }
    }
}

/// Zvol usage information.
#[derive(Clone, Copy, Debug, PartialEq, Eq, Structural)]
pub struct ZvolInfo {
    /// The configured maximum size of the zvol in bytes.
    pub volsize: u64,
    /// Bytes actually used by the zvol, snapshots among them.
    pub used: u64,
}

// ---------------------------------------------------------------------------
// Parsing
// ---------------------------------------------------------------------------

/// The dataset that a tab-separated line tells of; `None` where it has fewer
/// than five columns. Sizes that cannot be read count as zero.
pub open spec fn dataset_on(line: Seq<char>) -> Option<DatasetView> {
    let f = split(line, '\t');
    if f.len() < 5 {
        None
    } else {
        let mp = trim(f[4]);
        Some(
            DatasetView {
                name: f[0],
                used: nat_or_zero(trim(f[1])),
                available: nat_or_zero(trim(f[2])),
                referenced: nat_or_zero(trim(f[3])),
                mountpoint: if mp == "-"@ || mp == "none"@ {
                    None
                } else {
                    Some(mp)
                },
            },
        )
    }
}

/// The snapshot that a tab-separated line tells of; `None` where it has fewer
/// than three columns or the name has no '@'.
pub open spec fn snapshot_on(line: Seq<char>) -> Option<SnapshotView> {
    let f = split(line, '\t');
    if f.len() < 3 {
        None
    } else {
        let at = find_char(f[0], '@', 0);
        if at < f[0].len() {
            Some(
                SnapshotView {
                    full_name: f[0],
                    snap_name: f[0].skip(at + 1),
                    creation: nat_or_zero(trim(f[1])),
                    referenced: nat_or_zero(trim(f[2])),
                },
            )
        } else {
            None
        }
    }
}

/// The snapshots that lines tell of, in order.
pub open spec fn snapshots_in(ls: Seq<Seq<char>>) -> Seq<SnapshotView>
    decreases ls.len(),
{
    if ls.len() == 0 {
        seq![]
    } else {
        match snapshot_on(ls.last()) {
            Some(s) => snapshots_in(ls.drop_last()).push(s),
            None => snapshots_in(ls.drop_last()),
        }
    }
}

/// The datasets that lines name, trimmed, but the parent.
pub open spec fn children_in(ls: Seq<Seq<char>>, parent: Seq<char>) -> Seq<Seq<char>>
    decreases ls.len(),
{
    if ls.len() == 0 {
        seq![]
    } else {
        let name = trim(ls.last());
        if name.len() > 0 && name != parent {
            children_in(ls.drop_last(), parent).push(name)
        } else {
            children_in(ls.drop_last(), parent)
        }
    }
}

/// The trimmed number in a column, or zero.
fn column(s: &str) -> (n: u64)
    ensures
        n == nat_or_zero(trim(s@)),
{
    let t: String = trimmed(s);
    u64_or_zero(t.as_str())
}

/// Parse a tab-separated `zfs list` line.
///
/// Expected format: name, used, available, referenced, mountpoint.
pub fn parse_dataset_info_line(line: &str) -> (r: Result<ZfsDatasetInfo, String>)
    ensures
        match dataset_on(line@) {
            Some(d) => r is Ok && r->Ok_0@ == d,
            None => r is Err && r->Err_0@ == "unexpected zfs list output: "@ + line@,
        },
{
    let f: Vec<String> = split_on(line, '\t');
    proof {
        assert(texts(f@).len() == f@.len());
    }
    if f.len() < 5 {
        return Err(cat2("unexpected zfs list output: ", line));
    }
    proof {
        assert(texts(f@)[0] == f@[0]@);
        assert(texts(f@)[1] == f@[1]@);
        assert(texts(f@)[2] == f@[2]@);
        assert(texts(f@)[3] == f@[3]@);
        assert(texts(f@)[4] == f@[4]@);
    }
    let mp: String = trimmed(f[4].as_str());
    let mountpoint: Option<String> = if same(mp.as_str(), "-") || same(mp.as_str(), "none") {
        None
    } else {
        Some(mp)
    };
    Ok(
        ZfsDatasetInfo {
            name: owned(f[0].as_str()),
            used: column(f[1].as_str()),
            available: column(f[2].as_str()),
            referenced: column(f[3].as_str()),
            mountpoint,
        },
    )
}

/// The snapshot that a line tells of.
fn parse_snapshot_line(line: &str) -> (r: Option<ZfsSnapshotInfo>)
    ensures
        match snapshot_on(line@) {
            Some(s) => r is Some && r->0@ == s,
            None => r is None,
        },
{
    let f: Vec<String> = split_on(line, '\t');
    proof {
        assert(texts(f@).len() == f@.len());
    }
    if f.len() < 3 {
        return None;
    }
    proof {
        assert(texts(f@)[0] == f@[0]@);
        assert(texts(f@)[1] == f@[1]@);
        assert(texts(f@)[2] == f@[2]@);
    }
    let name: Vec<char> = chars_of(f[0].as_str());
    let at: usize = position_of(&name, '@', 0);
    if at == name.len() {
        return None;
    }
    let snap_name: String = string_of(&name, at + 1, name.len());
    proof {
        assert(snap_name@ =~= f@[0]@.skip(at + 1));
    }
    Some(
        ZfsSnapshotInfo {
            full_name: owned(f[0].as_str()),
            snap_name,
            creation: column(f[1].as_str()),
            referenced: column(f[2].as_str()),
        },
    )
}

/// Parse tab-separated `zfs list -t snapshot` output. Malformed lines are left
/// out.
///
/// Expected format per line: full name, creation, referenced.
pub fn parse_snapshot_list(output: &str) -> (r: Vec<ZfsSnapshotInfo>)
    ensures
        snapshots_view(r@) == snapshots_in(lines(output@)),
{
    let ls: Vec<String> = split_lines(output);
    let mut out: Vec<ZfsSnapshotInfo> = Vec::new();
    let mut i: usize = 0;
    proof {
        assert(snapshots_view(out@) =~= seq![]);
    }
    while i < ls.len()
        invariant
            i <= ls@.len(),
            snapshots_view(out@) == snapshots_in(texts(ls@).take(i as int)),
        decreases ls.len() - i,
    {
        proof {
            let t = texts(ls@).take(i + 1);
            assert(t.drop_last() =~= texts(ls@).take(i as int));
            assert(t.last() == ls@[i as int]@);
        }
        match parse_snapshot_line(ls[i].as_str()) {
            Some(s) => {
                proof {
                    assert(snapshots_view(out@.push(s)) =~= snapshots_view(out@).push(s@));
                }
                out.push(s);
            },
            None => {},
        }
        i = i + 1;
    }
    proof {
        assert(texts(ls@).take(ls@.len() as int) =~= texts(ls@));
    }
    out
}

/// Parse the dataset that `zfs list` prints first.
pub fn parse_dataset_info(output: &str) -> (r: Result<ZfsDatasetInfo, String>)
    ensures
        if lines(output@).len() == 0 {
            r is Err && r->Err_0@ == "empty output from zfs list"@
        } else {
            match dataset_on(lines(output@)[0]) {
                Some(d) => r is Ok && r->Ok_0@ == d,
                None => r is Err && r->Err_0@ == "unexpected zfs list output: "@ + lines(
                    output@,
                )[0],
            }
        },
{
    let ls: Vec<String> = split_lines(output);
    proof {
        assert(texts(ls@).len() == ls@.len());
    }
    if ls.len() == 0 {
        return Err(owned("empty output from zfs list"));
    }
    proof {
        assert(texts(ls@)[0] == ls@[0]@);
    }
    parse_dataset_info_line(ls[0].as_str())
}

/// What a text that should be a number is answered with.
pub open spec fn bad_number(what: Seq<char>, s: Seq<char>) -> Seq<char> {
    "failed to parse "@ + what + ": "@ + debug_form(s) + ": "@ + parse_problem(s, u64::MAX as nat)
}

/// The trimmed number that a text holds.
fn parse_size(what: &str, s: &str) -> (r: Result<u64, String>)
    ensures
        match parse_nat(trim(s@), 10, u64::MAX as nat) {
            Some(n) => r == Ok::<u64, String>(n as u64),
            None => r is Err && r->Err_0@ == bad_number(what@, trim(s@)),
        },
{
    let t: String = trimmed(s);
    match parse_unsigned(t.as_str(), 10, u64::MAX) {
        Some(n) => Ok(n),
        None => {
            let d: String = debug_of(t.as_str());
            let p: String = parse_problem_of(t.as_str(), u64::MAX);
            Err(cat6("failed to parse ", what, ": ", d.as_str(), ": ", p.as_str()))
        },
    }
}

/// Parse the available bytes of a pool.
pub fn parse_available_bytes(output: &str) -> (r: Result<u64, String>)
    ensures
        match parse_nat(trim(output@), 10, u64::MAX as nat) {
            Some(n) => r == Ok::<u64, String>(n as u64),
            None => r is Err && r->Err_0@ == bad_number("available bytes"@, trim(output@)),
        },
{
    parse_size("available bytes", output)
}

/// The size of a zvol and how much of it is used, from the two lines that
/// `zfs get` prints.
pub fn parse_zvol_info(dataset: &str, output: &str) -> (r: Result<ZvolInfo, String>)
    ensures
        ({
            let ls = lines(output@);
            if ls.len() < 2 {
                r is Err && r->Err_0@ == "unexpected zfs get output for "@ + dataset@
                    + ": expected 2 lines, got "@ + decimal(ls.len())
            } else {
                match (
                    parse_nat(trim(ls[0]), 10, u64::MAX as nat),
                    parse_nat(trim(ls[1]), 10, u64::MAX as nat),
                ) {
                    (Some(v), Some(u)) => r == Ok::<ZvolInfo, String>(
                        ZvolInfo { volsize: v as u64, used: u as u64 },
                    ),
                    (None, _) => r is Err && r->Err_0@ == bad_number("volsize"@, trim(ls[0])),
                    (Some(_), None) => r is Err && r->Err_0@ == bad_number("used"@, trim(ls[1])),
                }
            }
        }),
{
    let ls: Vec<String> = split_lines(output);
    proof {
        assert(texts(ls@).len() == ls@.len());
    }
    if ls.len() < 2 {
        let n: String = decimal_of(ls.len() as u64);
        return Err(
            cat4(
                "unexpected zfs get output for ",
                dataset,
                ": expected 2 lines, got ",
                n.as_str(),
            ),
        );
    }
    proof {
        assert(texts(ls@)[0] == ls@[0]@);
        assert(texts(ls@)[1] == ls@[1]@);
    }
    let volsize: u64 = match parse_size("volsize", ls[0].as_str()) {
        Ok(n) => n,
        Err(e) => {
            return Err(e);
        },
    };
    let used: u64 = match parse_size("used", ls[1].as_str()) {
        Ok(n) => n,
        Err(e) => {
            return Err(e);
        },
    };
    Ok(ZvolInfo { volsize, used })
}

/// Parse the children of a dataset: the names that `zfs list` prints, but the
/// parent's own.
pub fn parse_children(output: &str, parent: &str) -> (r: Vec<String>)
    ensures
        texts(r@) == children_in(lines(output@), parent@),
{
    let ls: Vec<String> = split_lines(output);
    let mut out: Vec<String> = Vec::new();
    let mut i: usize = 0;
    proof {
        assert(texts(out@) =~= seq![]);
    }
    while i < ls.len()
        invariant
            i <= ls@.len(),
            texts(out@) == children_in(texts(ls@).take(i as int), parent@),
        decreases ls.len() - i,
    {
        proof {
            let t = texts(ls@).take(i + 1);
            assert(t.drop_last() =~= texts(ls@).take(i as int));
            assert(t.last() == ls@[i as int]@);
        }
        let name: String = trimmed(ls[i].as_str());
        if !name.as_str().is_empty() && !same(name.as_str(), parent) {
            proof {
                lemma_texts_push(out@, name);
            }
            out.push(name);
        }
        i = i + 1;
    }
    proof {
        assert(texts(ls@).take(ls@.len() as int) =~= texts(ls@));
    }
    out
}

/// The arguments of a `zfs clone` command. The disk size is not among them:
/// zvols take their size from the snapshot, and it is set afterwards.
pub open spec fn clone_args(source: Seq<char>, target: Seq<char>) -> Seq<Seq<char>> {
    seq!["clone"@, "-o"@, "compression=lz4"@, source, target]
}

/// Build the argument list for a `zfs clone` command. `disk_gb` is accepted but
/// not used.
pub fn build_clone_args(source: &str, target: &str, disk_gb: Option<u32>) -> (r: Vec<String>)
    ensures
        texts(r@) == clone_args(source@, target@),
{
    let r: Vec<String> = args_from(&["clone", "-o", "compression=lz4", source, target]);
    proof {
        assert(texts(r@) =~= clone_args(source@, target@));
    }
    r
}

// ---------------------------------------------------------------------------
// Datasets and commands
// ---------------------------------------------------------------------------

/// The dataset of a workspace.
pub open spec fn workspace_path(root: Seq<char>, id: Seq<char>) -> Seq<char> {
    root + "/workspaces/ws-"@ + id
}

/// The dataset of a forked workspace.
pub open spec fn fork_path(root: Seq<char>, id: Seq<char>) -> Seq<char> {
    root + "/forks/ws-"@ + id
}

/// The dataset of a warm pool VM.
pub open spec fn pool_path(root: Seq<char>, id: Seq<char>) -> Seq<char> {
    root + "/pool/warm-"@ + id
}

/// The name of a snapshot of a workspace.
pub open spec fn snapshot_path(root: Seq<char>, id: Seq<char>, snap: Seq<char>) -> Seq<char> {
    workspace_path(root, id) + "@"@ + snap
}

/// The snapshot of a base image.
pub open spec fn base_path(root: Seq<char>, image: Seq<char>, snap: Seq<char>) -> Seq<char> {
    root + "/base/"@ + image + "@"@ + snap
}

/// The command that sets the size of a zvol.
pub open spec fn volsize_step(dataset: Seq<char>, gb: u32, context: Seq<char>) -> StepView {
    command_step(
        "zfs"@,
        seq!["set"@, "volsize="@ + decimal(gb as nat) + "G"@, dataset],
        true,
        Some(
            context + "failed to set volsize="@ + decimal(gb as nat) + "G on "@ + dataset,
        ),
    )
}

/// The commands that clone a snapshot and, if a size is given, set it.
pub open spec fn clone_steps(source: Seq<char>, target: Seq<char>, disk_gb: Option<u32>) -> Seq<
    StepView,
> {
    let clone = command_step(
        "zfs"@,
        clone_args(source, target),
        true,
        Some("failed to clone "@ + source + " -> "@ + target),
    );
    match disk_gb {
        Some(gb) => seq![
            clone,
            volsize_step(target, gb, "failed to set volsize on "@ + target + ": "@),
        ],
        None => seq![clone],
    }
}

/// The command that lists all snapshots of a dataset, oldest first.
pub open spec fn snapshot_listing(dataset: Seq<char>) -> StepView {
    command_step(
        "zfs"@,
        seq![
            "list"@,
            "-t"@,
            "snapshot"@,
            "-H"@,
            "-p"@,
            "-o"@,
            "name,creation,referenced"@,
            "-s"@,
            "creation"@,
            "-r"@,
            dataset,
        ],
        true,
        Some("failed to list snapshots for "@ + dataset),
    )
}

/// The command that tells about a dataset.
pub open spec fn dataset_query(dataset: Seq<char>) -> StepView {
    command_step(
        "zfs"@,
        seq!["list"@, "-H"@, "-p"@, "-o"@, "name,used,avail,refer,mountpoint"@, dataset],
        true,
        Some("failed to get info for "@ + dataset),
    )
}

/// The command that tells the size of a zvol and how much of it is used.
pub open spec fn zvol_query(dataset: Seq<char>) -> StepView {
    command_step(
        "zfs"@,
        seq!["get"@, "-Hp"@, "-o"@, "value"@, "volsize,used"@, dataset],
        true,
        Some("failed to get zvol info for "@ + dataset),
    )
}

/// A dataset that may be destroyed: one of a workspace, a fork or a pool VM.
pub open spec fn is_destroyable(root: Seq<char>, dataset: Seq<char>) -> bool {
    ||| (root + "/workspaces/"@).is_prefix_of(dataset)
    ||| (root + "/forks/"@).is_prefix_of(dataset)
    ||| (root + "/pool/"@).is_prefix_of(dataset)
}

/// Low-level ZFS command wrapper.
#[derive(Debug)]
pub struct Zfs {
    /// Pool root for datasets (e.g. "tank/agentiso").
    pool_root: String,
}

impl Zfs {
    /// The pool root.
    pub closed spec fn root(&self) -> Seq<char> {
        self.pool_root@
    }

    /// ZFS under a pool root.
    pub fn new(pool_root: String) -> (r: Zfs)
        ensures
            r.root() == pool_root@,
    {
        Zfs { pool_root }
    }

    /// Returns the pool root path (e.g. "tank/agentiso").
    pub fn pool_root(&self) -> (r: &str)
        ensures
            r@ == self.root(),
    {
        self.pool_root.as_str()
    }

    /// Full dataset path for a workspace zvol.
    pub fn workspace_dataset(&self, workspace_id: &str) -> (r: String)
        ensures
            r@ == workspace_path(self.root(), workspace_id@),
    {
        cat3(self.pool_root.as_str(), "/workspaces/ws-", workspace_id)
    }

    /// Full dataset path for a forked workspace zvol.
    pub fn fork_dataset(&self, workspace_id: &str) -> (r: String)
        ensures
            r@ == fork_path(self.root(), workspace_id@),
    {
        cat3(self.pool_root.as_str(), "/forks/ws-", workspace_id)
    }

    /// Full dataset path for a warm pool zvol.
    pub fn pool_dataset(&self, pool_id: &str) -> (r: String)
        ensures
            r@ == pool_path(self.root(), pool_id@),
    {
        cat3(self.pool_root.as_str(), "/pool/warm-", pool_id)
    }

    /// Path to the zvol block device for a warm pool VM.
    pub fn pool_zvol_path(&self, pool_id: &str) -> (r: String)
        ensures
            r@ == "/dev/zvol/"@ + pool_path(self.root(), pool_id@),
    {
        let d: String = self.pool_dataset(pool_id);
        cat2("/dev/zvol/", d.as_str())
    }

    /// Full snapshot name for a workspace.
    pub fn snapshot_name(&self, workspace_id: &str, snap_name: &str) -> (r: String)
        ensures
            r@ == snapshot_path(self.root(), workspace_id@, snap_name@),
    {
        let d: String = self.workspace_dataset(workspace_id);
        cat3(d.as_str(), "@", snap_name)
    }

    /// Path to the zvol block device for a workspace.
    pub fn zvol_path(&self, workspace_id: &str) -> (r: String)
        ensures
            r@ == "/dev/zvol/"@ + workspace_path(self.root(), workspace_id@),
    {
        let d: String = self.workspace_dataset(workspace_id);
        cat2("/dev/zvol/", d.as_str())
    }

    /// Path to the zvol block device for a forked workspace.
    pub fn fork_zvol_path(&self, workspace_id: &str) -> (r: String)
        ensures
            r@ == "/dev/zvol/"@ + fork_path(self.root(), workspace_id@),
    {
        let d: String = self.fork_dataset(workspace_id);
        cat2("/dev/zvol/", d.as_str())
    }

    /// The command that sets the size of a zvol.
    pub fn set_volsize(&self, dataset: &str, size_gb: u32) -> (s: Step)
        ensures
            s@ == volsize_step(dataset@, size_gb, seq![]),
    {
        let s: Step = volsize(dataset, size_gb, "");
        proof {
            reveal_strlit("");
            assert(""@ =~= seq![]);
        }
        s
    }

    /// The dataset for a new workspace, and the commands that clone the base
    /// image snapshot to create it.
    pub fn clone_from_base(
        &self,
        base_image: &str,
        base_snapshot: &str,
        workspace_id: &str,
        disk_gb: Option<u32>,
    ) -> (r: (String, Vec<Step>))
        ensures
            r.0@ == workspace_path(self.root(), workspace_id@),
            steps_view(r.1@) == clone_steps(
                base_path(self.root(), base_image@, base_snapshot@),
                workspace_path(self.root(), workspace_id@),
                disk_gb,
            ),
    {
        let source: String = cat5(
            self.pool_root.as_str(),
            "/base/",
            base_image,
            "@",
            base_snapshot,
        );
        let target: String = self.workspace_dataset(workspace_id);
        let steps: Vec<Step> = clone(source.as_str(), target.as_str(), disk_gb);
        (target, steps)
    }

    /// The dataset for a warm pool VM, and the commands that clone the base
    /// image snapshot to create it.
    pub fn clone_for_pool(
        &self,
        base_image: &str,
        base_snapshot: &str,
        pool_id: &str,
        disk_gb: Option<u32>,
    ) -> (r: (String, Vec<Step>))
        ensures
            r.0@ == pool_path(self.root(), pool_id@),
            steps_view(r.1@) == clone_steps(
                base_path(self.root(), base_image@, base_snapshot@),
                pool_path(self.root(), pool_id@),
                disk_gb,
            ),
    {
        let source: String = cat5(
            self.pool_root.as_str(),
            "/base/",
            base_image,
            "@",
            base_snapshot,
        );
        let target: String = self.pool_dataset(pool_id);
        let steps: Vec<Step> = clone(source.as_str(), target.as_str(), disk_gb);
        (target, steps)
    }

    /// The dataset for a fork, and the commands that clone a snapshot to create
    /// it.
    pub fn clone_snapshot(
        &self,
        source_workspace_id: &str,
        snap_name: &str,
        new_workspace_id: &str,
        disk_gb: Option<u32>,
    ) -> (r: (String, Vec<Step>))
        ensures
            r.0@ == fork_path(self.root(), new_workspace_id@),
            steps_view(r.1@) == clone_steps(
                snapshot_path(self.root(), source_workspace_id@, snap_name@),
                fork_path(self.root(), new_workspace_id@),
                disk_gb,
            ),
    {
        let source: String = self.snapshot_name(source_workspace_id, snap_name);
        let target: String = self.fork_dataset(new_workspace_id);
        let steps: Vec<Step> = clone(source.as_str(), target.as_str(), disk_gb);
        (target, steps)
    }

    /// The command that creates a snapshot of a workspace, and the full name of
    /// the snapshot.
    pub fn create_snapshot(&self, workspace_id: &str, snap_name: &str) -> (r: (String, Step))
        ensures
            r.0@ == snapshot_path(self.root(), workspace_id@, snap_name@),
            r.1@ == command_step(
                "zfs"@,
                seq!["snapshot"@, snapshot_path(self.root(), workspace_id@, snap_name@)],
                true,
                Some(
                    "failed to create snapshot "@ + snapshot_path(
                        self.root(),
                        workspace_id@,
                        snap_name@,
                    ),
                ),
            ),
    {
        let full: String = self.snapshot_name(workspace_id, snap_name);
        let args: Vec<String> = args_from(&["snapshot", full.as_str()]);
        proof {
            assert(texts(args@) =~= seq!["snapshot"@, full@]);
        }
        let s: Step = command(
            "zfs",
            args,
            true,
            Some(cat2("failed to create snapshot ", full.as_str())),
        );
        (full, s)
    }

    /// The command that rolls a workspace back to a snapshot. Newer snapshots
    /// are destroyed.
    pub fn rollback(&self, workspace_id: &str, snap_name: &str) -> (s: Step)
        ensures
            s@ == command_step(
                "zfs"@,
                seq![
                    "rollback"@,
                    "-r"@,
                    snapshot_path(self.root(), workspace_id@, snap_name@),
                ],
                true,
                Some(
                    "failed to rollback to "@ + snapshot_path(
                        self.root(),
                        workspace_id@,
                        snap_name@,
                    ),
                ),
            ),
    {
        let full: String = self.snapshot_name(workspace_id, snap_name);
        let args: Vec<String> = args_from(&["rollback", "-r", full.as_str()]);
        proof {
            assert(texts(args@) =~= seq!["rollback"@, "-r"@, full@]);
        }
        command("zfs", args, true, Some(cat2("failed to rollback to ", full.as_str())))
    }

    /// The command that destroys a dataset and all its snapshots. Datasets
    /// outside `workspaces/`, `forks/` and `pool/` are refused.
    pub fn destroy(&self, dataset: &str) -> (r: Result<Step, String>)
        ensures
            if is_destroyable(self.root(), dataset@) {
                r is Ok && r->Ok_0@ == command_step(
                    "zfs"@,
                    seq!["destroy"@, "-r"@, dataset@],
                    true,
                    Some("failed to destroy "@ + dataset@),
                )
            } else {
                r is Err && r->Err_0@ == "refusing to destroy dataset '"@ + dataset@
                    + "': not under workspaces/, forks/, or pool/ of '"@ + self.root() + "'"@
            },
    {
        let root: &str = self.pool_root.as_str();
        let a: String = cat2(root, "/workspaces/");
        let b: String = cat2(root, "/forks/");
        let c: String = cat2(root, "/pool/");
        if starts_with(dataset, a.as_str()) || starts_with(dataset, b.as_str()) || starts_with(
            dataset,
            c.as_str(),
        ) {
            let args: Vec<String> = args_from(&["destroy", "-r", dataset]);
            proof {
                assert(texts(args@) =~= seq!["destroy"@, "-r"@, dataset@]);
            }
            Ok(command("zfs", args, true, Some(cat2("failed to destroy ", dataset))))
        } else {
            Err(
                cat5(
                    "refusing to destroy dataset '",
                    dataset,
                    "': not under workspaces/, forks/, or pool/ of '",
                    root,
                    "'",
                ),
            )
        }
    }

    /// The command that destroys a single snapshot.
    pub fn destroy_snapshot(&self, workspace_id: &str, snap_name: &str) -> (s: Step)
        ensures
            s@ == command_step(
                "zfs"@,
                seq!["destroy"@, snapshot_path(self.root(), workspace_id@, snap_name@)],
                true,
                Some(
                    "failed to destroy snapshot "@ + snapshot_path(
                        self.root(),
                        workspace_id@,
                        snap_name@,
                    ),
                ),
            ),
    {
        let full: String = self.snapshot_name(workspace_id, snap_name);
        let args: Vec<String> = args_from(&["destroy", full.as_str()]);
        proof {
            assert(texts(args@) =~= seq!["destroy"@, full@]);
        }
        command("zfs", args, true, Some(cat2("failed to destroy snapshot ", full.as_str())))
    }

    /// The command that lists all snapshots of a workspace, oldest first.
    pub fn list_snapshots(&self, workspace_id: &str) -> (s: Step)
        ensures
            s@ == snapshot_listing(workspace_path(self.root(), workspace_id@)),
    {
        let d: String = self.workspace_dataset(workspace_id);
        let args: Vec<String> = args_from(
            &[
                "list",
                "-t",
                "snapshot",
                "-H",
                "-p",
                "-o",
                "name,creation,referenced",
                "-s",
                "creation",
                "-r",
                d.as_str(),
            ],
        );
        proof {
            assert(texts(args@) =~= seq![
                "list"@,
                "-t"@,
                "snapshot"@,
                "-H"@,
                "-p"@,
                "-o"@,
                "name,creation,referenced"@,
                "-s"@,
                "creation"@,
                "-r"@,
                d@,
            ]);
        }
        command("zfs", args, true, Some(cat2("failed to list snapshots for ", d.as_str())))
    }

    /// The command that tells whether a dataset exists.
    pub fn dataset_exists(&self, dataset: &str) -> (s: Step)
        ensures
            s@ == existence_query(dataset@),
    {
        let args: Vec<String> = args_from(&["list", "-H", "-o", "name", dataset]);
        proof {
            assert(texts(args@) =~= seq!["list"@, "-H"@, "-o"@, "name"@, dataset@]);
        }
        Step {
            program: owned("zfs"),
            args,
            stdin: None,
            required: true,
            unavailable: owned("failed to run zfs list"),
            failure: owned("zfs list failed: "),
            context: None,
        }
    }

    /// The command that tells about a dataset.
    pub fn dataset_info(&self, dataset: &str) -> (s: Step)
        ensures
            s@ == dataset_query(dataset@),
    {
        let args: Vec<String> = args_from(
            &["list", "-H", "-p", "-o", "name,used,avail,refer,mountpoint", dataset],
        );
        proof {
            assert(texts(args@) =~= seq![
                "list"@,
                "-H"@,
                "-p"@,
                "-o"@,
                "name,used,avail,refer,mountpoint"@,
                dataset@,
            ]);
        }
        command("zfs", args, true, Some(cat2("failed to get info for ", dataset)))
    }

    /// The command that tells the available bytes of the pool.
    pub fn pool_available_bytes(&self) -> (s: Step)
        ensures
            s@ == command_step(
                "zfs"@,
                seq!["get"@, "-Hp"@, "-o"@, "value"@, "available"@, self.root()],
                true,
                Some("failed to get available space for "@ + self.root()),
            ),
    {
        let root: &str = self.pool_root.as_str();
        let args: Vec<String> = args_from(&["get", "-Hp", "-o", "value", "available", root]);
        proof {
            assert(texts(args@) =~= seq![
                "get"@,
                "-Hp"@,
                "-o"@,
                "value"@,
                "available"@,
                root@,
            ]);
        }
        command("zfs", args, true, Some(cat2("failed to get available space for ", root)))
    }

    /// The command that lists the direct children of a dataset.
    pub fn list_children(&self, parent: &str) -> (s: Step)
        ensures
            s@ == command_step(
                "zfs"@,
                seq![
                    "list"@,
                    "-H"@,
                    "-o"@,
                    "name"@,
                    "-t"@,
                    "volume,filesystem"@,
                    "-r"@,
                    "-d"@,
                    "1"@,
                    parent@,
                ],
                true,
                Some("failed to list children of "@ + parent@),
            ),
    {
        let args: Vec<String> = args_from(
            &["list", "-H", "-o", "name", "-t", "volume,filesystem", "-r", "-d", "1", parent],
        );
        proof {
            assert(texts(args@) =~= seq![
                "list"@,
                "-H"@,
                "-o"@,
                "name"@,
                "-t"@,
                "volume,filesystem"@,
                "-r"@,
                "-d"@,
                "1"@,
                parent@,
            ]);
        }
        command("zfs", args, true, Some(cat2("failed to list children of ", parent)))
    }

    /// The command that tells the size of a zvol and how much of it is used.
    pub fn get_zvol_info(&self, dataset: &str) -> (s: Step)
        ensures
            s@ == zvol_query(dataset@),
    {
        let args: Vec<String> = args_from(&["get", "-Hp", "-o", "value", "volsize,used", dataset]);
        proof {
            assert(texts(args@) =~= seq![
                "get"@,
                "-Hp"@,
                "-o"@,
                "value"@,
                "volsize,used"@,
                dataset@,
            ]);
        }
        command("zfs", args, true, Some(cat2("failed to get zvol info for ", dataset)))
    }

    /// Make sure that the datasets exist that all others stand below.
    pub fn ensure_pool_layout(&self) -> (r: Vec<Task>)
        ensures
            tasks_view(r@) == layout_setup(self.root()),
    {
        let r: Vec<Task> = vec![
            self.ensure_dataset("base"),
            self.ensure_dataset("workspaces"),
            self.ensure_dataset("forks"),
            self.ensure_dataset("pool"),
        ];
        proof {
            assert(tasks_view(r@) =~= layout_setup(self.root()));
        }
        r
    }

    /// Create a dataset below the pool root unless it exists.
    fn ensure_dataset(&self, sub_name: &str) -> (t: Task)
        ensures
            t@ == dataset_ensured(self.root() + "/"@ + sub_name@),
    {
        let d: String = cat3(self.pool_root.as_str(), "/", sub_name);
        let args: Vec<String> = args_from(&["create", "-p", "-o", "compression=lz4", d.as_str()]);
        proof {
            assert(texts(args@) =~= seq!["create"@, "-p"@, "-o"@, "compression=lz4"@, d@]);
        }
        let create: Step = command("zfs", args, true, Some(cat2("failed to create ", d.as_str())));
        add_unless(self.dataset_exists(d.as_str()), create)
    }
}

/// Creating a dataset unless it exists.
pub open spec fn dataset_ensured(dataset: Seq<char>) -> TaskView {
    TaskView::Choose {
        check: existence_query(dataset),
        must_run: true,
        passed: seq![],
        failed: seq![
            command_step(
                "zfs"@,
                seq!["create"@, "-p"@, "-o"@, "compression=lz4"@, dataset],
                true,
                Some("failed to create "@ + dataset),
            ),
        ],
    }
}

/// Making sure that the datasets exist that all others stand below.
pub open spec fn layout_setup(root: Seq<char>) -> Seq<TaskView> {
    seq![
        dataset_ensured(root + "/"@ + "base"@),
        dataset_ensured(root + "/"@ + "workspaces"@),
        dataset_ensured(root + "/"@ + "forks"@),
        dataset_ensured(root + "/"@ + "pool"@),
    ]
}

/// The command that tells whether a dataset exists.
pub open spec fn existence_query(dataset: Seq<char>) -> StepView {
    StepView {
        program: "zfs"@,
        args: seq!["list"@, "-H"@, "-o"@, "name"@, dataset],
        stdin: None,
        required: true,
        unavailable: "failed to run zfs list"@,
        failure: "zfs list failed: "@,
        context: None,
    }
}

/// The command that sets the size of a zvol.
fn volsize(dataset: &str, gb: u32, context: &str) -> (s: Step)
    ensures
        s@ == volsize_step(dataset@, gb, context@),
{
    let n: String = decimal_of(gb as u64);
    let value: String = cat3("volsize=", n.as_str(), "G");
    let args: Vec<String> = args_from(&["set", value.as_str(), dataset]);
    proof {
        assert(texts(args@) =~= seq!["set"@, value@, dataset@]);
    }
    command(
        "zfs",
        args,
        true,
        Some(cat5(context, "failed to set volsize=", n.as_str(), "G on ", dataset)),
    )
}

/// The commands that clone a snapshot and, if a size is given, set it.
fn clone(source: &str, target: &str, disk_gb: Option<u32>) -> (r: Vec<Step>)
    ensures
        steps_view(r@) == clone_steps(source@, target@, disk_gb),
{
    let args: Vec<String> = build_clone_args(source, target, disk_gb);
    proof {
        assert(texts(args@).len() == args@.len());
    }
    let first: Step = command(
        "zfs",
        args,
        true,
        Some(cat4("failed to clone ", source, " -> ", target)),
    );
    let r: Vec<Step> = match disk_gb {
        Some(gb) => {
            let context: String = cat3("failed to set volsize on ", target, ": ");
            vec![first, volsize(target, gb, context.as_str())]
        },
        None => vec![first],
    };
    proof {
        assert(steps_view(r@) =~= clone_steps(source@, target@, disk_gb));
    }
    r
}

// ---------------------------------------------------------------------------
// Laws
// ---------------------------------------------------------------------------

/// The datasets of workspaces, forks and pool VMs may be destroyed.
pub proof fn law_own_datasets_are_destroyable(root: Seq<char>, id: Seq<char>)
    ensures
        is_destroyable(root, workspace_path(root, id)),
        is_destroyable(root, fork_path(root, id)),
        is_destroyable(root, pool_path(root, id)),
{
    reveal_strlit("/workspaces/ws-");
    reveal_strlit("/forks/ws-");
    reveal_strlit("/pool/warm-");
    reveal_strlit("/workspaces/");
    reveal_strlit("/forks/");
    reveal_strlit("/pool/");
    let a = root + "/workspaces/"@;
    assert(workspace_path(root, id).subrange(0, a.len() as int) =~= a);
    let b = root + "/forks/"@;
    assert(fork_path(root, id).subrange(0, b.len() as int) =~= b);
    let c = root + "/pool/"@;
    assert(pool_path(root, id).subrange(0, c.len() as int) =~= c);
}

/// Neither the pool root nor the datasets of base images can be destroyed.
pub proof fn law_parents_are_never_destroyed(root: Seq<char>, image: Seq<char>)
    ensures
        !is_destroyable(root, root),
        !is_destroyable(root, root + "/base/"@ + image),
        !is_destroyable(root, root + "/workspaces"@),
        !is_destroyable(root, root + "/forks"@),
        !is_destroyable(root, root + "/pool"@),
{
    reveal_strlit("/workspaces/");
    reveal_strlit("/forks/");
    reveal_strlit("/pool/");
    reveal_strlit("/base/");
    reveal_strlit("/workspaces");
    reveal_strlit("/forks");
    reveal_strlit("/pool");
    let n = root.len() as int;
    let a = root + "/workspaces/"@;
    let b = root + "/forks/"@;
    let c = root + "/pool/"@;
    let base = root + "/base/"@ + image;
    assert(a[n + 1] == 'w' && b[n + 1] == 'f' && c[n + 1] == 'p' && base[n + 1] == 'b');
    if a.is_prefix_of(base) {
        assert(base.subrange(0, a.len() as int)[n + 1] == base[n + 1]);
    }
    if b.is_prefix_of(base) {
        assert(base.subrange(0, b.len() as int)[n + 1] == base[n + 1]);
    }
    if c.is_prefix_of(base) {
        assert(base.subrange(0, c.len() as int)[n + 1] == base[n + 1]);
    }
    let ws = root + "/workspaces"@;
    let fs = root + "/forks"@;
    let ps = root + "/pool"@;
    assert(ws[n + 1] == 'w' && fs[n + 1] == 'f' && ps[n + 1] == 'p');
    if b.is_prefix_of(ws) {
        assert(ws.subrange(0, b.len() as int)[n + 1] == ws[n + 1]);
    }
    if c.is_prefix_of(ws) {
        assert(ws.subrange(0, c.len() as int)[n + 1] == ws[n + 1]);
    }
    if c.is_prefix_of(fs) {
        assert(fs.subrange(0, c.len() as int)[n + 1] == fs[n + 1]);
    }
}

/// A snapshot that is listed under the name it was created with is read back
/// with that name.
pub proof fn law_snapshot_name_is_read_back(
    root: Seq<char>,
    id: Seq<char>,
    snap: Seq<char>,
    creation: Seq<char>,
    referenced: Seq<char>,
)
    requires
        !root.contains('@') && !root.contains('\t'),
        !id.contains('@') && !id.contains('\t'),
        !snap.contains('\t'),
        !creation.contains('\t'),
        !referenced.contains('\t'),
    ensures
        ({
            let line = snapshot_path(root, id, snap) + seq!['\t'] + creation + seq!['\t']
                + referenced;
            &&& snapshot_on(line) is Some
            &&& snapshot_on(line)->0.full_name == snapshot_path(root, id, snap)
            &&& snapshot_on(line)->0.snap_name == snap
            &&& snapshot_on(line)->0.creation == nat_or_zero(trim(creation))
            &&& snapshot_on(line)->0.referenced == nat_or_zero(trim(referenced))
        }),
{
    reveal_strlit("/workspaces/ws-");
    reveal_strlit("@");
    let full = snapshot_path(root, id, snap);
    let rest = creation + seq!['\t'] + referenced;
    let line = full + seq!['\t'] + creation + seq!['\t'] + referenced;
    let path = workspace_path(root, id);
    assert forall|i: int| 0 <= i < full.len() implies full[i] != '\t' by {
        if i < root.len() {
            assert(full[i] == root[i]);
        } else if i < root.len() + "/workspaces/ws-"@.len() {
            assert(full[i] == "/workspaces/ws-"@[i - root.len()]);
        } else if i < path.len() {
            assert(full[i] == id[i - root.len() - "/workspaces/ws-"@.len()]);
        } else if i == path.len() {
            assert(full[i] == '@');
        } else {
            assert(full[i] == snap[i - path.len() - 1]);
        }
    }
    lemma_split_first(full, rest);
    assert(line =~= full + seq!['\t'] + rest);
    lemma_split_first(creation, referenced);
    lemma_split_none(referenced);
    assert(split(line, '\t') =~= seq![full, creation, referenced]);
    assert forall|i: int| 0 <= i < path.len() implies full[i] != '@' by {
        if i < root.len() {
            assert(full[i] == root[i]);
        } else if i < root.len() + "/workspaces/ws-"@.len() {
            assert(full[i] == "/workspaces/ws-"@[i - root.len()]);
        } else {
            assert(full[i] == id[i - root.len() - "/workspaces/ws-"@.len()]);
        }
    }
    assert(full[path.len() as int] == '@');
    lemma_first_at(full, '@', path.len() as int, 0);
    assert(full.skip(path.len() as int + 1) =~= snap);
}

/// The first position of a character is where nothing before holds it.
proof fn lemma_first_at(s: Seq<char>, c: char, at: int, from: int)
    requires
        0 <= from <= at < s.len(),
        s[at] == c,
        forall|i: int| from <= i < at ==> s[i] != c,
    ensures
        find_char(s, c, from) == at,
    decreases at - from,
{
    if from < at {
        lemma_first_at(s, c, at, from + 1);
    }
}

/// The first column of a line, and the rest.
proof fn lemma_split_first(first: Seq<char>, rest: Seq<char>)
    requires
        forall|i: int| 0 <= i < first.len() ==> first[i] != '\t',
    ensures
        split(first + seq!['\t'] + rest, '\t') == seq![first] + split(rest, '\t'),
{
    let s = first + seq!['\t'] + rest;
    let n = first.len() as int;
    assert forall|i: int| 0 <= i < n implies s[i] != '\t' by {
        assert(s[i] == first[i]);
    }
    assert(s[n] == '\t');
    lemma_first_at(s, '\t', n, 0);
    assert(s.take(n) =~= first);
    assert(s.skip(n + 1) =~= rest);
}

/// A text without tabs is one column.
proof fn lemma_split_none(s: Seq<char>)
    requires
        !s.contains('\t'),
    ensures
        split(s, '\t') == seq![s],
{
    text::lemma_find_char(s, '\t', 0);
}

} // verus!
