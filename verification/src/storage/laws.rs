//! What the storage commands do to a pool.
//!
//! A pool is modelled as its volumes and snapshots, and each command by what it
//! does to them.

use crate::host::{steps_view, Step, StepView};
use crate::number::{decimal, is_digit, law_decimal_round_trip, lemma_decimal, nat_or_zero, parse_nat};
use crate::storage::manager::{
    space, ForkedStorage, PoolShortage, PoolSpace, StorageManager,
    WorkspaceStorage,
};
use crate::storage::zfs::{
    children_in, dataset_on, layout_setup, parse_available_bytes, parse_zvol_info, snapshot_on,
    snapshots_in, DatasetView, Zfs, ZvolInfo,
};
use crate::text::{find_char, is_space, lemma_find_char, lines, split, texts, trim};
use crate::text_laws::{
    is_blank, law_lines_end_at_newlines, law_split_at_each_separator, law_trim_takes_the_white_space_around,
};
use vstd::prelude::*;

verus! {

/// What is stored, and how many bytes it may take.
pub struct Volume {
    pub content: int,
    pub bytes: nat,
}

/// The volumes and the snapshots of a pool, by their full names.
pub struct Pool {
    pub volumes: Map<Seq<char>, Volume>,
    pub snapshots: Map<Seq<char>, Volume>,
}

/// How many bytes a unit stands for.
pub open spec fn unit_bytes(unit: char) -> nat {
    if unit == 'K' {
        1024
    } else if unit == 'M' {
        1024 * 1024
    } else if unit == 'G' {
        1024 * 1024 * 1024
    } else if unit == 'T' {
        1024 * 1024 * 1024 * 1024
    } else {
        0
    }
}

/// How many bytes a size stands for: a number and a unit.
pub open spec fn size_bytes(size: Seq<char>) -> nat {
    nat_or_zero(size.drop_last()) * unit_bytes(size.last())
}

/// The dataset that a snapshot is of.
pub open spec fn dataset_of(snapshot: Seq<char>) -> Seq<char> {
    snapshot.take(find_char(snapshot, '@', 0))
}

/// What a command does to a pool.
pub open spec fn after(pool: Pool, step: StepView) -> Pool {
    let args = step.args;
    if step.program != "zfs"@ || args.len() < 2 {
        pool
    } else if args[0] == "clone"@ && args.len() == 5 && args[1] == "-o"@ {
        Pool { volumes: pool.volumes.insert(args[4], pool.snapshots[args[3]]), ..pool }
    } else if args[0] == "set"@ && args.len() == 3 && "volsize="@.is_prefix_of(args[1]) {
        Pool {
            volumes: pool.volumes.insert(
                args[2],
                Volume { bytes: size_bytes(args[1].skip(8)), ..pool.volumes[args[2]] },
            ),
            ..pool
        }
    } else if args[0] == "snapshot"@ && args.len() == 2 {
        Pool { snapshots: pool.snapshots.insert(args[1], pool.volumes[dataset_of(args[1])]), ..pool }
    } else if args[0] == "rollback"@ && args.len() == 3 && args[1] == "-r"@ {
        Pool { volumes: pool.volumes.insert(dataset_of(args[2]), pool.snapshots[args[2]]), ..pool }
    } else if args[0] == "destroy"@ && args.len() == 2 && args[1].contains('@') {
        Pool { snapshots: pool.snapshots.remove(args[1]), ..pool }
    } else if args[0] == "destroy"@ && args.len() == 3 && args[1] == "-r"@ {
        Pool {
            volumes: pool.volumes.remove(args[2]),
            snapshots: pool.snapshots.remove_keys(
                Set::new(|name: Seq<char>| dataset_of(name) == args[2]),
            ),
        }
    } else {
        pool
    }
}

/// What commands do to a pool, one after the other.
pub open spec fn after_all(pool: Pool, steps: Seq<StepView>) -> Pool
    decreases steps.len(),
{
    if steps.len() == 0 {
        pool
    } else {
        after(after_all(pool, steps.drop_last()), steps.last())
    }
}

/// A volume of the given size, where one is given.
pub open spec fn sized(v: Volume, disk_gb: Option<u32>) -> Volume {
    match disk_gb {
        Some(gb) => Volume { bytes: gb as nat * 1_073_741_824, ..v },
        None => v,
    }
}

/// Every step is one that must succeed.
pub open spec fn all_required(steps: Seq<StepView>) -> bool {
    forall|i: int| 0 <= i < steps.len() ==> (#[trigger] steps[i]).required
}

/// The words of the commands differ.
proof fn lemma_words()
    ensures
        "clone"@ != "set"@,
        "snapshot"@ != "clone"@,
        "snapshot"@ != "set"@,
        "rollback"@ != "clone"@,
        "rollback"@ != "set"@,
        "rollback"@ != "snapshot"@,
        "destroy"@ != "clone"@,
        "destroy"@ != "set"@,
        "destroy"@ != "snapshot"@,
        "destroy"@ != "rollback"@,
{
    reveal_strlit("clone");
    reveal_strlit("set");
    reveal_strlit("snapshot");
    reveal_strlit("rollback");
    reveal_strlit("destroy");
    assert("clone"@[0] == 'c' && "set"@.len() == 3 && "snapshot"@.len() == 8);
    assert("rollback"@[0] == 'r' && "destroy"@[0] == 'd' && "snapshot"@[0] == 's');
    assert("set"@[0] == 's');
}

/// A size in gigabytes.
proof fn lemma_size(gb: u32)
    ensures
        "volsize="@.is_prefix_of("volsize="@ + decimal(gb as nat) + "G"@),
        size_bytes(("volsize="@ + decimal(gb as nat) + "G"@).skip(8)) == gb * 1_073_741_824,
{
    reveal_strlit("volsize=");
    reveal_strlit("G");
    let s = "volsize="@ + decimal(gb as nat) + "G"@;
    assert(s.take(8) =~= "volsize="@);
    let size = s.skip(8);
    assert(size.drop_last() =~= decimal(gb as nat));
    assert(size.last() == 'G');
    law_decimal_round_trip(gb as nat, u64::MAX as nat);
}

/// What cloning and sizing do.
#[verifier::rlimit(40)]
proof fn lemma_clone(
    pool: Pool,
    steps: Seq<StepView>,
    source: Seq<char>,
    target: Seq<char>,
    disk_gb: Option<u32>,
)
    requires
        steps.len() == if disk_gb is Some {
            2int
        } else {
            1
        },
        steps[0].program == "zfs"@,
        steps[0].args.len() == 5,
        steps[0].args[0] == "clone"@,
        steps[0].args[1] == "-o"@,
        steps[0].args[3] == source,
        steps[0].args[4] == target,
        disk_gb matches Some(gb) ==> steps[1].program == "zfs"@ && steps[1].args == seq![
            "set"@,
            "volsize="@ + decimal(gb as nat) + "G"@,
            target,
        ],
    ensures
        after_all(pool, steps).snapshots == pool.snapshots,
        after_all(pool, steps).volumes == pool.volumes.insert(
            target,
            sized(pool.snapshots[source], disk_gb),
        ),
{
    lemma_words();
    reveal_with_fuel(after_all, 3);
    match disk_gb {
        Some(gb) => {
            lemma_size(gb);
            assert(steps.drop_last().drop_last() =~= Seq::<StepView>::empty());
            assert(steps.drop_last().last() == steps[0]);
            let mid = after(pool, steps[0]);
            assert(after_all(pool, steps.drop_last()) == mid);
            assert(after_all(pool, steps) == after(mid, steps[1]));
            assert(after_all(pool, steps).volumes =~= pool.volumes.insert(
                target,
                sized(pool.snapshots[source], disk_gb),
            ));
        },
        None => {
            assert(steps.drop_last() =~= Seq::<StepView>::empty());
        },
    }
}

/// A new workspace is a copy of its base image, of the size that was asked for,
/// and nothing else changes. It is made exactly if the pool has that size and a
/// gigabyte more, or does not tell.
pub proof fn law_workspace_is_a_copy_of_its_base(
    m: &StorageManager,
    image: &str,
    snapshot: &str,
    id: &str,
    disk_gb: Option<u32>,
    available: &Result<u64, String>,
    r: Result<(PoolSpace, WorkspaceStorage, Vec<Step>), PoolShortage>,
    pool: Pool,
)
    requires
        call_ensures(
            StorageManager::create_workspace,
            (m, image, snapshot, id, disk_gb, available),
            r,
        ),
    ensures
        r is Err <==> available is Ok && available->Ok_0 < 1_073_741_824 + match disk_gb {
            Some(gb) => gb * 1_073_741_824,
            None => 0int,
        },
        r matches Ok(made) ==> {
            let base = m.root() + "/base/"@ + image@ + "@"@ + snapshot@;
            let dataset = m.root() + "/workspaces/ws-"@ + id@;
            let now = after_all(pool, steps_view(made.2@));
            &&& made.1.dataset@ == dataset
            &&& made.1.zvol_path@ == "/dev/zvol/"@ + dataset
            &&& now.snapshots == pool.snapshots
            &&& now.volumes == pool.volumes.insert(dataset, sized(pool.snapshots[base], disk_gb))
            &&& all_required(steps_view(made.2@))
        },
{
    if r is Ok {
        let base = m.root() + "/base/"@ + image@ + "@"@ + snapshot@;
        let dataset = m.root() + "/workspaces/ws-"@ + id@;
        lemma_clone(pool, steps_view(r->Ok_0.2@), base, dataset, disk_gb);
    }
}

/// A warm pool VM is a copy of its base image, of the size that was asked for,
/// and nothing else changes.
pub proof fn law_pool_vm_is_a_copy_of_its_base(
    m: &StorageManager,
    image: &str,
    snapshot: &str,
    id: &str,
    disk_gb: Option<u32>,
    available: &Result<u64, String>,
    r: Result<(PoolSpace, WorkspaceStorage, Vec<Step>), PoolShortage>,
    pool: Pool,
)
    requires
        call_ensures(
            StorageManager::create_pool_vm,
            (m, image, snapshot, id, disk_gb, available),
            r,
        ),
    ensures
        r is Err <==> available is Ok && available->Ok_0 < 1_073_741_824 + match disk_gb {
            Some(gb) => gb * 1_073_741_824,
            None => 0int,
        },
        r matches Ok(made) ==> {
            let base = m.root() + "/base/"@ + image@ + "@"@ + snapshot@;
            let dataset = m.root() + "/pool/warm-"@ + id@;
            let now = after_all(pool, steps_view(made.2@));
            &&& made.1.dataset@ == dataset
            &&& made.1.zvol_path@ == "/dev/zvol/"@ + dataset
            &&& now.snapshots == pool.snapshots
            &&& now.volumes == pool.volumes.insert(dataset, sized(pool.snapshots[base], disk_gb))
            &&& all_required(steps_view(made.2@))
        },
{
    if r is Ok {
        let base = m.root() + "/base/"@ + image@ + "@"@ + snapshot@;
        let dataset = m.root() + "/pool/warm-"@ + id@;
        lemma_clone(pool, steps_view(r->Ok_0.2@), base, dataset, disk_gb);
    }
}

/// A name with an at sign behind a dataset is that of a snapshot of it.
proof fn lemma_dataset_of(dataset: Seq<char>, snap: Seq<char>)
    requires
        !dataset.contains('@'),
    ensures
        dataset_of(dataset + "@"@ + snap) == dataset,
        (dataset + "@"@ + snap).contains('@'),
{
    reveal_strlit("@");
    let s = dataset + "@"@ + snap;
    assert(s[dataset.len() as int] == '@');
    lemma_find_char(s, '@', 0);
    let i = find_char(s, '@', 0);
    if i < dataset.len() {
        assert(dataset[i] == s[i]);
    }
    assert(s.take(i) =~= dataset);
}

/// The dataset of a workspace holds no at sign.
proof fn lemma_workspace_name(root: Seq<char>, id: Seq<char>)
    requires
        !root.contains('@'),
        !id.contains('@'),
    ensures
        !(root + "/workspaces/ws-"@ + id).contains('@'),
{
    reveal_strlit("/workspaces/ws-");
    let s = root + "/workspaces/ws-"@ + id;
    if s.contains('@') {
        let i = choose|i: int| 0 <= i < s.len() && s[i] == '@';
        if i < root.len() {
            assert(root[i] == '@');
        } else if i >= root.len() + 15 {
            assert(id[i - root.len() - 15] == '@');
        }
    }
}

/// A snapshot holds what its workspace held when it was made: whatever becomes
/// of the workspace later, restoring the snapshot brings it back, and leaves
/// the snapshot and all other volumes as they are.
pub proof fn law_restoring_brings_back_what_was_there(
    m: &StorageManager,
    id: &str,
    snap: &str,
    made: (String, Step),
    restore: Step,
    pool: Pool,
    later: Pool,
)
    requires
        call_ensures(StorageManager::create_snapshot, (m, id, snap), made),
        call_ensures(StorageManager::restore_snapshot, (m, id, snap), restore),
        !m.root().contains('@'),
        !id@.contains('@'),
        later.snapshots.contains_pair(
            made.0@,
            after(pool, made.1@).snapshots[made.0@],
        ),
    ensures
        ({
            let dataset = m.root() + "/workspaces/ws-"@ + id@;
            &&& after(pool, made.1@).volumes == pool.volumes
            &&& after(pool, made.1@).snapshots == pool.snapshots.insert(
                made.0@,
                pool.volumes[dataset],
            )
            &&& made.0@ == dataset + "@"@ + snap@
            &&& after(later, restore@).snapshots == later.snapshots
            &&& after(later, restore@).volumes == later.volumes.insert(
                dataset,
                pool.volumes[dataset],
            )
            &&& made.1@.required
            &&& restore@.required
        }),
{
    lemma_words();
    lemma_workspace_name(m.root(), id@);
    lemma_dataset_of(m.root() + "/workspaces/ws-"@ + id@, snap@);
}

/// Deleting a snapshot takes away the one that was made under the name, and
/// nothing else.
pub proof fn law_deleting_takes_away_one_snapshot(
    m: &StorageManager,
    id: &str,
    snap: &str,
    made: (String, Step),
    delete: Step,
    pool: Pool,
)
    requires
        call_ensures(StorageManager::create_snapshot, (m, id, snap), made),
        call_ensures(StorageManager::delete_snapshot, (m, id, snap), delete),
        !m.root().contains('@'),
        !id@.contains('@'),
    ensures
        after(pool, delete@).volumes == pool.volumes,
        after(pool, delete@).snapshots == pool.snapshots.remove(made.0@),
        delete@.required,
{
    lemma_words();
    lemma_workspace_name(m.root(), id@);
    lemma_dataset_of(m.root() + "/workspaces/ws-"@ + id@, snap@);
}

/// A fork is a copy of what a snapshot of its source holds, of the size that
/// was asked for. Its source stays as it is.
pub proof fn law_fork_is_a_copy_of_a_snapshot(
    m: &StorageManager,
    source: &str,
    snap: &str,
    made: (String, Step),
    id: &str,
    disk_gb: Option<u32>,
    available: &Result<u64, String>,
    r: Result<(PoolSpace, ForkedStorage, Vec<Step>), PoolShortage>,
    pool: Pool,
)
    requires
        call_ensures(StorageManager::create_snapshot, (m, source, snap), made),
        call_ensures(
            StorageManager::fork_workspace,
            (m, source, snap, id, disk_gb, available),
            r,
        ),
    ensures
        r is Err <==> available is Ok && available->Ok_0 < 1_073_741_824 + match disk_gb {
            Some(gb) => gb * 1_073_741_824,
            None => 0int,
        },
        r matches Ok(forked) ==> {
            let dataset = m.root() + "/forks/ws-"@ + id@;
            let now = after_all(pool, steps_view(forked.2@));
            &&& forked.1.dataset@ == dataset
            &&& forked.1.zvol_path@ == "/dev/zvol/"@ + dataset
            &&& now.snapshots == pool.snapshots
            &&& now.volumes == pool.volumes.insert(
                dataset,
                sized(pool.snapshots[made.0@], disk_gb),
            )
            &&& all_required(steps_view(forked.2@))
        },
{
    if r is Ok {
        lemma_clone(
            pool,
            steps_view(r->Ok_0.2@),
            made.0@,
            m.root() + "/forks/ws-"@ + id@,
            disk_gb,
        );
    }
}

/// Setting a size gives a volume that many gigabytes, and keeps what it holds.
pub proof fn law_volume_gets_the_size_asked_for(
    zfs: &Zfs,
    dataset: &str,
    gb: u32,
    step: Step,
    pool: Pool,
)
    requires
        call_ensures(Zfs::set_volsize, (zfs, dataset, gb), step),
    ensures
        after(pool, step@).snapshots == pool.snapshots,
        after(pool, step@).volumes == pool.volumes.insert(
            dataset@,
            sized(pool.volumes[dataset@], Some(gb)),
        ),
        step@.required,
{
    lemma_words();
    lemma_size(gb);
}

/// Destroying takes away a dataset with its snapshots, and nothing else. Only
/// what stands below the workspaces, the forks or the pool is destroyed; that
/// is where workspaces, forks and pool VMs are made.
#[verifier::rlimit(40)]
pub proof fn law_destroying_takes_away_one_dataset(
    m: &StorageManager,
    dataset: &str,
    r: Result<Step, String>,
    pool: Pool,
)
    requires
        call_ensures(StorageManager::destroy_dataset, (m, dataset), r),
    ensures
        r is Ok <==> exists|parent: Seq<char>, name: Seq<char>|
            #![trigger parent + name]
            (parent == m.root() + "/workspaces/"@ || parent == m.root() + "/forks/"@ || parent
                == m.root() + "/pool/"@) && dataset@ == parent + name,
        r matches Ok(step) ==> {
            &&& after(pool, step@).volumes == pool.volumes.remove(dataset@)
            &&& forall|name: Seq<char>| #[trigger]
                after(pool, step@).snapshots.contains_key(name) <==> pool.snapshots.contains_key(
                    name,
                ) && dataset_of(name) != dataset@
            &&& step@.required
        },
{
    lemma_words();
    let a = m.root() + "/workspaces/"@;
    let b = m.root() + "/forks/"@;
    let c = m.root() + "/pool/"@;
    if r is Ok {
        let parent = if a.is_prefix_of(dataset@) {
            a
        } else if b.is_prefix_of(dataset@) {
            b
        } else {
            c
        };
        let name = dataset@.skip(parent.len() as int);
        assert(dataset@ =~= parent + name);
    }
    if exists|parent: Seq<char>, name: Seq<char>|
        #![trigger parent + name]
        (parent == a || parent == b || parent == c) && dataset@ == parent + name {
        let (parent, name) = choose|parent: Seq<char>, name: Seq<char>|
            #![trigger parent + name]
            (parent == a || parent == b || parent == c) && dataset@ == parent + name;
        assert(dataset@.take(parent.len() as int) =~= parent);
        assert(parent.is_prefix_of(dataset@));
    }
}

/// A workspace is destroyed where it was made: in its workspace dataset, or as
/// a fork in its fork dataset. What is chosen can always be destroyed.
pub proof fn law_workspace_is_destroyed_where_it_was_made(
    m: &StorageManager,
    id: &str,
    as_workspace: bool,
    as_fork: bool,
    r: Result<String, String>,
)
    requires
        call_ensures(StorageManager::destroy_workspace, (m, id, as_workspace, as_fork), r),
    ensures
        r is Ok <==> as_workspace || as_fork,
        as_workspace ==> r is Ok && r->Ok_0@ == m.root() + "/workspaces/ws-"@ + id@,
        !as_workspace && as_fork ==> r is Ok && r->Ok_0@ == m.root() + "/forks/ws-"@ + id@,
{
}

/// Columns with a tab between neighbours are read back.
proof fn lemma_columns(a: Seq<char>, b: Seq<char>)
    requires
        !a.contains('\t'),
    ensures
        split(a + seq!['\t'] + b, '\t') == seq![a] + split(b, '\t'),
        split(a, '\t') == seq![a],
{
    law_split_at_each_separator(a, '\t', b);
    assert(a + seq!['\t'] + b =~= a.push('\t') + b);
}

/// A number in a column is read back.
proof fn lemma_number(n: nat)
    requires
        n <= u64::MAX,
    ensures
        nat_or_zero(trim(decimal(n))) == n,
        !decimal(n).contains('\t'),
{
    lemma_decimal(n);
    let s = decimal(n);
    assert(is_digit(s[0], 10) && is_digit(s[s.len() - 1], 10));
    law_trim_takes_the_white_space_around(seq![], s, seq![]);
    assert(Seq::<char>::empty() + s + Seq::<char>::empty() =~= s);
    law_decimal_round_trip(n, u64::MAX as nat);
    if s.contains('\t') {
        let i = choose|i: int| 0 <= i < s.len() && s[i] == '\t';
        assert(is_digit(s[i], 10));
    }
}

/// What `zfs list` prints about a dataset is read back; a volume has no mount
/// point.
#[verifier::rlimit(40)]
pub proof fn law_dataset_is_read_back(
    name: Seq<char>,
    used: u64,
    available: u64,
    referenced: u64,
    mountpoint: Seq<char>,
)
    requires
        !name.contains('\t'),
        !mountpoint.contains('\t'),
        mountpoint.len() > 0,
        !is_space(mountpoint[0]),
        !is_space(mountpoint.last()),
    ensures
        ({
            let tab = seq!['\t'];
            let line = name + tab + (decimal(used as nat) + tab + (decimal(available as nat) + tab
                + (decimal(referenced as nat) + tab + mountpoint)));
            dataset_on(line) == Some(
                DatasetView {
                    name,
                    used: used as nat,
                    available: available as nat,
                    referenced: referenced as nat,
                    mountpoint: if mountpoint == "-"@ || mountpoint == "none"@ {
                        None
                    } else {
                        Some(mountpoint)
                    },
                },
            )
        }),
{
    let tab = seq!['\t'];
    let d = decimal(referenced as nat) + tab + mountpoint;
    let c = decimal(available as nat) + tab + d;
    let b = decimal(used as nat) + tab + c;
    lemma_number(used as nat);
    lemma_number(available as nat);
    lemma_number(referenced as nat);
    lemma_columns(name, b);
    lemma_columns(decimal(used as nat), c);
    lemma_columns(decimal(available as nat), d);
    lemma_columns(decimal(referenced as nat), mountpoint);
    lemma_columns(mountpoint, mountpoint);
    law_trim_takes_the_white_space_around(seq![], mountpoint, seq![]);
    assert(Seq::<char>::empty() + mountpoint + Seq::<char>::empty() =~= mountpoint);
}

/// What `zfs list` prints about a snapshot is read back, and snapshots are
/// listed in the order of their lines.
#[verifier::rlimit(40)]
pub proof fn law_snapshot_is_read_back(
    before: Seq<Seq<char>>,
    dataset: Seq<char>,
    snap: Seq<char>,
    creation: u64,
    referenced: u64,
)
    requires
        !dataset.contains('@') && !dataset.contains('\t'),
        !snap.contains('\t'),
    ensures
        ({
            let full = dataset + "@"@ + snap;
            let tab = seq!['\t'];
            let line = full + tab + (decimal(creation as nat) + tab + decimal(referenced as nat));
            let found = snapshot_on(line);
            &&& found is Some
            &&& found->0.full_name == full
            &&& found->0.snap_name == snap
            &&& found->0.creation == creation
            &&& found->0.referenced == referenced
            &&& snapshots_in(before.push(line)) == snapshots_in(before).push(found->0)
        }),
{
    reveal_strlit("@");
    let full = dataset + "@"@ + snap;
    let tab = seq!['\t'];
    let rest = decimal(creation as nat) + tab + decimal(referenced as nat);
    let line = full + tab + rest;
    if full.contains('\t') {
        let i = choose|i: int| 0 <= i < full.len() && full[i] == '\t';
        if i < dataset.len() {
            assert(dataset[i] == '\t');
        } else if i > dataset.len() {
            assert(snap[i - dataset.len() - 1] == '\t');
        }
    }
    lemma_dataset_of(dataset, snap);
    lemma_find_char(full, '@', 0);
    assert(full.take(find_char(full, '@', 0)).len() == dataset.len());
    assert(full.skip(dataset.len() as int + 1) =~= snap);
    lemma_number(creation as nat);
    lemma_number(referenced as nat);
    lemma_columns(full, rest);
    lemma_columns(decimal(creation as nat), decimal(referenced as nat));
    lemma_columns(decimal(referenced as nat), seq![]);
    assert(before.push(line).drop_last() =~= before);
}

/// The children of a dataset are the other datasets that are listed, in order.
pub proof fn law_children_are_the_others(
    before: Seq<Seq<char>>,
    parent: Seq<char>,
    name: Seq<char>,
    end: Seq<char>,
)
    requires
        is_blank(end),
        name.len() > 0,
        !is_space(name[0]),
        !is_space(name.last()),
    ensures
        children_in(before.push(name + end), parent) == if name == parent {
            children_in(before, parent)
        } else {
            children_in(before, parent).push(name)
        },
        children_in(before.push(end), parent) == children_in(before, parent),
{
    law_trim_takes_the_white_space_around(seq![], name, end);
    assert(Seq::<char>::empty() + name + end =~= name + end);
    law_trim_takes_the_white_space_around(seq![], seq![], end);
    assert(Seq::<char>::empty() + Seq::<char>::empty() + end =~= end);
    assert(before.push(name + end).drop_last() =~= before);
    assert(before.push(end).drop_last() =~= before);
}

/// A pool is set up with a parent for base images, workspaces, forks and pool
/// VMs: each is made only where it is missing.
pub proof fn law_pool_gets_its_parents(root: Seq<char>, i: int)
    requires
        0 <= i < 4,
    ensures
        ({
            let parents = seq![
                root + "/base"@,
                root + "/workspaces"@,
                root + "/forks"@,
                root + "/pool"@,
            ];
            let tasks = layout_setup(root);
            &&& tasks.len() == 4
            &&& tasks[i] is Choose
            &&& tasks[i]->check.program == "zfs"@
            &&& tasks[i]->check.args == seq!["list"@, "-H"@, "-o"@, "name"@, parents[i]]
            &&& tasks[i]->must_run
            &&& tasks[i]->passed.len() == 0
            &&& tasks[i]->failed.len() == 1
            &&& tasks[i]->failed[0].program == "zfs"@
            &&& tasks[i]->failed[0].args[0] == "create"@
            &&& tasks[i]->failed[0].args[1] == "-p"@
            &&& tasks[i]->failed[0].args.last() == parents[i]
            &&& tasks[i]->failed[0].required
        }),
{
    reveal_strlit("/");
    reveal_strlit("base");
    reveal_strlit("workspaces");
    reveal_strlit("forks");
    reveal_strlit("pool");
    reveal_strlit("/base");
    reveal_strlit("/workspaces");
    reveal_strlit("/forks");
    reveal_strlit("/pool");
    assert(root + "/"@ + "base"@ =~= root + "/base"@);
    assert(root + "/"@ + "workspaces"@ =~= root + "/workspaces"@);
    assert(root + "/"@ + "forks"@ =~= root + "/forks"@);
    assert(root + "/"@ + "pool"@ =~= root + "/pool"@);
}

/// A pool with less than is required is short of it, one with less than ten
/// gigabytes is low, and one with more has plenty.
pub proof fn law_pool_space_is_told(available: u64, disk_gb: Option<u32>)
    ensures
        ({
            let required = 1_073_741_824 + match disk_gb {
                Some(gb) => gb * 1_073_741_824,
                None => 0int,
            };
            let told = space(Ok(available), disk_gb);
            &&& told is Err <==> available < required
            &&& told matches Err(short) ==> short.available == available && short.required
                == required
            &&& told == Ok::<PoolSpace, PoolShortage>(PoolSpace::Low) <==> required <= available
                < 10_737_418_240
            &&& told == Ok::<PoolSpace, PoolShortage>(PoolSpace::Plenty) <==> required <= available
                && available >= 10_737_418_240
        }),
{
}

/// What `zfs get` prints about a volume is read back: its size first, then how
/// much of it is used. What it prints about the pool is read back as well.
pub proof fn law_volume_is_read_back(
    dataset: &str,
    size: u64,
    used: u64,
    output: &str,
    r: Result<ZvolInfo, String>,
    free: u64,
    shown: &str,
    available: Result<u64, String>,
)
    requires
        output@ == decimal(size as nat).push('\n') + decimal(used as nat).push('\n'),
        call_ensures(parse_zvol_info, (dataset, output), r),
        shown@ == decimal(free as nat).push('\n'),
        call_ensures(parse_available_bytes, (shown,), available),
    ensures
        r is Ok,
        r->Ok_0.volsize == size,
        r->Ok_0.used == used,
        available == Ok::<u64, String>(free),
{
    lemma_shown_number(size as nat);
    lemma_shown_number(used as nat);
    lemma_shown_number(free as nat);
    let a = decimal(size as nat);
    let b = decimal(used as nat);
    let none = Seq::<char>::empty();
    law_lines_end_at_newlines(a, b.push('\n'));
    law_lines_end_at_newlines(b, none);
    law_lines_end_at_newlines(none, none);
    assert(b.push('\n') + none =~= b.push('\n'));
    assert(lines(output@) =~= seq![a, b]);
}

/// A number is one line, and is read whether or not the line ends.
proof fn lemma_shown_number(n: nat)
    requires
        n <= u64::MAX,
    ensures
        decimal(n).len() > 0,
        !decimal(n).contains('\n'),
        decimal(n).last() != '\r',
        parse_nat(trim(decimal(n)), 10, u64::MAX as nat) == Some(n),
        parse_nat(trim(decimal(n).push('\n')), 10, u64::MAX as nat) == Some(n),
{
    lemma_decimal(n);
    let s = decimal(n);
    assert(is_digit(s[0], 10) && is_digit(s[s.len() - 1], 10));
    if s.contains('\n') {
        let i = choose|i: int| 0 <= i < s.len() && s[i] == '\n';
        assert(is_digit(s[i], 10));
    }
    let none = Seq::<char>::empty();
    law_trim_takes_the_white_space_around(none, s, none);
    assert(none + s + none =~= s);
    assert(is_blank(seq!['\n']));
    law_trim_takes_the_white_space_around(none, s, seq!['\n']);
    assert(none + s + seq!['\n'] =~= s.push('\n'));
    law_decimal_round_trip(n, u64::MAX as nat);
}

/// Commands that ask about storage ask `zfs` about the dataset that is meant,
/// for the columns that are read, in plain numbers and without headings.
pub proof fn law_queries_ask_for_what_is_read(
    m: &StorageManager,
    zfs: &Zfs,
    id: &str,
    dataset: &str,
    snapshots: Step,
    info: Step,
    zvol: Step,
    available: Step,
    children: Step,
)
    requires
        call_ensures(StorageManager::list_snapshots, (m, id), snapshots),
        call_ensures(StorageManager::workspace_info, (m, id), info),
        call_ensures(StorageManager::zvol_info, (m, dataset), zvol),
        call_ensures(Zfs::pool_available_bytes, (zfs,), available),
        call_ensures(Zfs::list_children, (zfs, dataset), children),
    ensures
        ({
            let own = m.root() + "/workspaces/ws-"@ + id@;
            &&& snapshots@.args.last() == own
            &&& snapshots@.args.contains("name,creation,referenced"@)
            &&& snapshots@.args.contains("snapshot"@)
            &&& snapshots@.args.contains("-H"@) && snapshots@.args.contains("-p"@)
            &&& info@.args.last() == own
            &&& info@.args.contains("name,used,avail,refer,mountpoint"@)
            &&& info@.args.contains("-H"@) && info@.args.contains("-p"@)
            &&& zvol@.args == seq!["get"@, "-Hp"@, "-o"@, "value"@, "volsize,used"@, dataset@]
            &&& available@.args == seq!["get"@, "-Hp"@, "-o"@, "value"@, "available"@, zfs.root()]
            &&& children@.args.last() == dataset@
            &&& children@.args.contains("-r"@) && children@.args.contains("1"@)
            &&& snapshots@.program == "zfs"@ && info@.program == "zfs"@ && zvol@.program == "zfs"@
            &&& available@.program == "zfs"@ && children@.program == "zfs"@
        }),
{
    assert(snapshots@.args[6] == "name,creation,referenced"@);
    assert(snapshots@.args[2] == "snapshot"@);
    assert(snapshots@.args[3] == "-H"@ && snapshots@.args[4] == "-p"@);
    assert(info@.args[4] == "name,used,avail,refer,mountpoint"@);
    assert(info@.args[1] == "-H"@ && info@.args[2] == "-p"@);
    assert(children@.args[6] == "-r"@ && children@.args[8] == "1"@);
}

/// Clones, snapshots, rollbacks and deletions of single volumes do to a pool
/// what they do for a workspace, under the same names.
pub proof fn law_volumes_go_by_their_names(
    zfs: &Zfs,
    image: &str,
    snap: &str,
    id: &str,
    fork: &str,
    disk_gb: Option<u32>,
    workspace: (String, Vec<Step>),
    warm: (String, Vec<Step>),
    copy: (String, Vec<Step>),
    pool: Pool,
)
    requires
        call_ensures(Zfs::clone_from_base, (zfs, image, snap, id, disk_gb), workspace),
        call_ensures(Zfs::clone_for_pool, (zfs, image, snap, id, disk_gb), warm),
        call_ensures(Zfs::clone_snapshot, (zfs, id, snap, fork, disk_gb), copy),
    ensures
        ({
            let base = zfs.root() + "/base/"@ + image@ + "@"@ + snap@;
            let a = zfs.root() + "/workspaces/ws-"@ + id@;
            let b = zfs.root() + "/pool/warm-"@ + id@;
            let c = zfs.root() + "/forks/ws-"@ + fork@;
            &&& workspace.0@ == a
            &&& warm.0@ == b
            &&& copy.0@ == c
            &&& after_all(pool, steps_view(workspace.1@)).volumes == pool.volumes.insert(
                a,
                sized(pool.snapshots[base], disk_gb),
            )
            &&& after_all(pool, steps_view(warm.1@)).volumes == pool.volumes.insert(
                b,
                sized(pool.snapshots[base], disk_gb),
            )
            &&& after_all(pool, steps_view(copy.1@)).volumes == pool.volumes.insert(
                c,
                sized(pool.snapshots[a + "@"@ + snap@], disk_gb),
            )
        }),
{
    let base = zfs.root() + "/base/"@ + image@ + "@"@ + snap@;
    let a = zfs.root() + "/workspaces/ws-"@ + id@;
    lemma_clone(pool, steps_view(workspace.1@), base, a, disk_gb);
    lemma_clone(
        pool,
        steps_view(warm.1@),
        base,
        zfs.root() + "/pool/warm-"@ + id@,
        disk_gb,
    );
    lemma_clone(
        pool,
        steps_view(copy.1@),
        a + "@"@ + snap@,
        zfs.root() + "/forks/ws-"@ + fork@,
        disk_gb,
    );
}

/// A snapshot of a volume is made, rolled back to and deleted under one name.
pub proof fn law_snapshots_go_by_their_names(
    zfs: &Zfs,
    id: &str,
    snap: &str,
    full: String,
    made: (String, Step),
    back: Step,
    gone: Step,
    pool: Pool,
)
    requires
        call_ensures(Zfs::snapshot_name, (zfs, id, snap), full),
        call_ensures(Zfs::create_snapshot, (zfs, id, snap), made),
        call_ensures(Zfs::rollback, (zfs, id, snap), back),
        call_ensures(Zfs::destroy_snapshot, (zfs, id, snap), gone),
        !zfs.root().contains('@'),
        !id@.contains('@'),
    ensures
        ({
            let dataset = zfs.root() + "/workspaces/ws-"@ + id@;
            &&& full@ == dataset + "@"@ + snap@
            &&& made.0@ == full@
            &&& after(pool, made.1@) == (Pool {
                snapshots: pool.snapshots.insert(full@, pool.volumes[dataset]),
                ..pool
            })
            &&& after(pool, back@) == (Pool {
                volumes: pool.volumes.insert(dataset, pool.snapshots[full@]),
                ..pool
            })
            &&& after(pool, gone@) == (Pool { snapshots: pool.snapshots.remove(full@), ..pool })
        }),
{
    lemma_words();
    lemma_workspace_name(zfs.root(), id@);
    lemma_dataset_of(zfs.root() + "/workspaces/ws-"@ + id@, snap@);
}

/// The block device of a volume stands under the name of its dataset, and
/// whether a dataset is there is asked for by its name.
pub proof fn law_devices_go_by_their_datasets(
    zfs: &Zfs,
    id: &str,
    a: String,
    b: String,
    c: String,
    x: String,
    y: String,
    z: String,
    asked: Step,
)
    requires
        call_ensures(Zfs::workspace_dataset, (zfs, id), a),
        call_ensures(Zfs::fork_dataset, (zfs, id), b),
        call_ensures(Zfs::pool_dataset, (zfs, id), c),
        call_ensures(Zfs::zvol_path, (zfs, id), x),
        call_ensures(Zfs::fork_zvol_path, (zfs, id), y),
        call_ensures(Zfs::pool_zvol_path, (zfs, id), z),
        call_ensures(Zfs::dataset_exists, (zfs, id), asked),
    ensures
        a@ == zfs.root() + "/workspaces/ws-"@ + id@,
        b@ == zfs.root() + "/forks/ws-"@ + id@,
        c@ == zfs.root() + "/pool/warm-"@ + id@,
        x@ == "/dev/zvol/"@ + a@,
        y@ == "/dev/zvol/"@ + b@,
        z@ == "/dev/zvol/"@ + c@,
        asked@.program == "zfs"@,
        asked@.args[0] == "list"@,
        asked@.args.last() == id@,
{
}

/// All workspaces are those under `workspaces`, then those under `forks`; what
/// could not be listed counts as none.
pub proof fn law_all_datasets_are_listed(
    m: &StorageManager,
    workspaces: Result<Vec<String>, String>,
    forks: Result<Vec<String>, String>,
    r: Vec<String>,
    parents: (String, String),
)
    requires
        call_ensures(
            StorageManager::list_all_workspace_datasets,
            (m, workspaces, forks),
            r,
        ),
        call_ensures(StorageManager::workspace_parents, (m,), parents),
    ensures
        workspaces is Ok && forks is Ok ==> texts(r@) == texts(workspaces->Ok_0@) + texts(
            forks->Ok_0@,
        ),
        workspaces is Ok && forks is Err ==> texts(r@) == texts(workspaces->Ok_0@),
        workspaces is Err && forks is Ok ==> texts(r@) == texts(forks->Ok_0@),
        workspaces is Err && forks is Err ==> r@.len() == 0,
        parents.0@ == m.root() + "/workspaces"@,
        parents.1@ == m.root() + "/forks"@,
{
    let none = Seq::<Seq<char>>::empty();
    if workspaces is Ok {
        assert(texts(workspaces->Ok_0@) + none =~= texts(workspaces->Ok_0@));
    }
    if forks is Ok {
        assert(none + texts(forks->Ok_0@) =~= texts(forks->Ok_0@));
    }
    assert(texts(r@).len() == r@.len());
}

} // verus!
