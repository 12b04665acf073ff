//! What the network commands do to devices, firewall and addresses.
//!
//! Devices and `iptables` rules are modelled as sets, and each command by what
//! it does to them.

use crate::host::{steps_view, HostOutput, Step, StepView};
use crate::job::{runs, tasks_view, Job, JobView, Task, TaskView};
use crate::network::addr::Ipv4Addr;
use crate::network::bridge::{
    cleanup_iptables_forward, cleanup_iptables_nat, enable_ip_forwarding, ensure_iptables_forward,
    ensure_iptables_nat, tap_device_name, tap_on_line, taps_in, BridgeManager,
};
use crate::network::dhcp::{AllocatorView, IpAllocator};
use crate::network::manager::{NetworkManager, WorkspaceNetworkSetup};
use crate::network::nftables::{NetworkPolicy, NftablesManager};
use crate::number::{decimal, is_digit, law_decimal_round_trip, lemma_decimal};
use crate::text::{byte_size, cut, find_char, is_space, lemma_cut, lemma_find_char, lines, texts};
use crate::text_laws::law_trim_takes_the_white_space_around;
use vstd::prelude::*;

verus! {

// ---------------------------------------------------------------------------
// Devices
// ---------------------------------------------------------------------------

/// The network devices of a host.
pub struct Links {
    pub devices: Set<Seq<char>>,
    pub up: Set<Seq<char>>,
    pub master: Map<Seq<char>, Seq<char>>,
    pub addresses: Map<Seq<char>, Seq<char>>,
}

/// What an `ip` command does to the devices.
pub open spec fn linked(l: Links, step: StepView) -> Links {
    let a = step.args;
    if step.program != "ip"@ {
        l
    } else if a.len() == 5 && a[0] == "tuntap"@ && a[1] == "add"@ && a[3] == "mode"@ && a[4] == "tap"@ {
        Links { devices: l.devices.insert(a[2]), ..l }
    } else if a.len() == 5 && a[0] == "link"@ && a[1] == "add"@ && a[3] == "type"@ && a[4] == "bridge"@ {
        Links { devices: l.devices.insert(a[2]), ..l }
    } else if a.len() == 5 && a[0] == "addr"@ && a[1] == "add"@ && a[3] == "dev"@ {
        Links { addresses: l.addresses.insert(a[4], a[2]), ..l }
    } else if a.len() == 5 && a[0] == "link"@ && a[1] == "set"@ && a[3] == "master"@ {
        Links { master: l.master.insert(a[2], a[4]), ..l }
    } else if a.len() == 4 && a[0] == "link"@ && a[1] == "set"@ && a[3] == "up"@ {
        Links { up: l.up.insert(a[2]), ..l }
    } else if a.len() == 4 && a[0] == "link"@ && a[1] == "set"@ && a[3] == "down"@ {
        Links { up: l.up.remove(a[2]), ..l }
    } else if a.len() == 3 && a[0] == "link"@ && a[1] == "del"@ {
        Links { devices: l.devices.remove(a[2]), up: l.up.remove(a[2]), master: l.master.remove(a[2]), ..l }
    } else {
        l
    }
}

/// What commands do to the devices, one after the other.
pub open spec fn linked_all(l: Links, steps: Seq<StepView>) -> Links
    decreases steps.len(),
{
    if steps.len() == 0 {
        l
    } else {
        linked(linked_all(l, steps.drop_last()), steps.last())
    }
}

/// The words of the commands differ.
proof fn lemma_link_words()
    ensures
        "tuntap"@ != "link"@,
        "tuntap"@ != "addr"@,
        "link"@ != "addr"@,
        "add"@ != "set"@,
        "add"@ != "del"@,
        "set"@ != "del"@,
        "up"@ != "down"@,
{
    reveal_strlit("tuntap");
    reveal_strlit("link");
    reveal_strlit("addr");
    reveal_strlit("add");
    reveal_strlit("set");
    reveal_strlit("del");
    reveal_strlit("up");
    reveal_strlit("down");
    assert("tuntap"@[0] == 't' && "link"@[0] == 'l' && "addr"@[0] == 'a');
    assert("add"@[0] == 'a' && "set"@[0] == 's' && "del"@[0] == 'd');
    assert("up"@[0] == 'u' && "down"@[0] == 'd');
}

/// Three commands.
proof fn lemma_three(l: Links, s: Seq<StepView>)
    requires
        s.len() == 3,
    ensures
        linked_all(l, s) == linked(linked(linked(l, s[0]), s[1]), s[2]),
{
    reveal_with_fuel(linked_all, 4);
    assert(s.drop_last().last() == s[1]);
    assert(s.drop_last().drop_last().last() == s[0]);
    assert(s.drop_last().drop_last().drop_last() =~= Seq::<StepView>::empty());
}

/// Two commands.
proof fn lemma_two(l: Links, s: Seq<StepView>)
    requires
        s.len() == 2,
    ensures
        linked_all(l, s) == linked(linked(l, s[0]), s[1]),
{
    reveal_with_fuel(linked_all, 3);
    assert(s.drop_last().last() == s[0]);
    assert(s.drop_last().drop_last() =~= Seq::<StepView>::empty());
}

/// Creating the TAP device of a workspace makes it, attaches it to the bridge
/// and brings it up. Destroying it takes the same device away, even if it is
/// down already, and leaves all others as they are.
#[verifier::rlimit(40)]
pub proof fn law_tap_comes_and_goes(
    b: &BridgeManager,
    id: &str,
    made: (String, Vec<Step>),
    gone: Vec<Step>,
    name: String,
    l: Links,
    later: Links,
)
    requires
        call_ensures(BridgeManager::create_tap, (b, id), made),
        call_ensures(BridgeManager::destroy_tap, (b, id), gone),
        call_ensures(tap_device_name, (id,), name),
    ensures
        ({
            let tap = made.0@;
            let after = linked_all(l, steps_view(made.1@));
            let end = linked_all(later, steps_view(gone@));
            &&& name@ == tap
            &&& tap == "tap-"@ + cut(id@, 8)
            &&& after.devices == l.devices.insert(tap)
            &&& after.master == l.master.insert(tap, b.name())
            &&& after.up == l.up.insert(tap)
            &&& after.addresses == l.addresses
            &&& end.devices == later.devices.remove(tap)
            &&& end.up == later.up.remove(tap)
            &&& end.master == later.master.remove(tap)
            &&& end.addresses == later.addresses
            &&& forall|i: int|
                0 <= i < made.1@.len() ==> (#[trigger] steps_view(made.1@)[i]).required
            &&& gone@.len() == 2
            &&& !steps_view(gone@)[0].required
            &&& steps_view(gone@)[1].required
        }),
{
    lemma_link_words();
    lemma_three(l, steps_view(made.1@));
    assert(steps_view(gone@).len() == gone@.len());
    lemma_two(later, steps_view(gone@));
    assert(later.up.remove(made.0@).remove(made.0@) =~= later.up.remove(made.0@));
}

/// Making sure of the bridge: one that is there is brought up, and one that is
/// not is made, with its address, and brought up.
#[verifier::rlimit(40)]
pub proof fn law_bridge_is_made_if_missing(b: &BridgeManager, tasks: Vec<Task>, l: Links)
    requires
        call_ensures(BridgeManager::ensure_bridge, (b,), tasks),
    ensures
        ({
            let t = tasks_view(tasks@);
            let name = b.name();
            let made = linked_all(l, t[0]->failed);
            let kept = linked_all(l, t[0]->passed);
            &&& t.len() == 2
            &&& t[0] is Choose
            &&& t[0]->check.program == "ip"@
            &&& t[0]->check.args == seq!["link"@, "show"@, name]
            &&& t[0]->must_run
            &&& made.devices == l.devices.insert(name)
            &&& made.addresses == l.addresses.insert(name, b.cidr())
            &&& made.up == l.up.insert(name)
            &&& made.master == l.master
            &&& kept == (Links { up: l.up.insert(name), ..l })
            &&& t[1] == (TaskView::Write {
                path: "/sys/class/net/"@ + name + "/bridge/nf_call_iptables"@,
                content: "0\n"@,
            })
        }),
{
    lemma_link_words();
    let t = tasks_view(tasks@);
    lemma_three(l, t[0]->failed);
    reveal_with_fuel(linked_all, 2);
    assert(t[0]->passed.drop_last() =~= Seq::<StepView>::empty());
}

/// The name of a TAP device fits a device name, and begins with the workspace's
/// identifier behind a prefix.
pub proof fn law_tap_is_named_by_its_workspace(id: &str, name: String)
    requires
        call_ensures(tap_device_name, (id,), name),
    ensures
        name@.take(4) == "tap-"@,
        name@.skip(4).is_prefix_of(id@),
        byte_size(name@.skip(4)) <= 8,
        byte_size(id@) <= 8 ==> name@.skip(4) == id@,
{
    lemma_cut(id@, 8);
    reveal_strlit("tap-");
    assert(name@.skip(4) =~= cut(id@, 8));
    assert(name@.take(4) =~= "tap-"@);
}

/// A TAP device is found on the line on which `ip` lists it, and nothing is
/// found on the lines of other devices.
#[verifier::rlimit(40)]
pub proof fn law_listed_tap_is_found(
    before: Seq<Seq<char>>,
    index: u32,
    name: Seq<char>,
    rest: Seq<char>,
)
    requires
        name.len() > 0,
        !name.contains(':'),
        !is_space(name[0]),
        !is_space(name.last()),
        rest.len() > 0,
        !is_space(rest.last()),
    ensures
        ({
            let line = decimal(index as nat) + ": "@ + name + ": "@ + rest;
            &&& tap_on_line(line) == if "tap-"@.is_prefix_of(name) {
                Some(name)
            } else {
                None::<Seq<char>>
            }
            &&& taps_in(before.push(line)) == if "tap-"@.is_prefix_of(name) {
                taps_in(before).push(name)
            } else {
                taps_in(before)
            }
        }),
{
    reveal_strlit(": ");
    let n = decimal(index as nat);
    let line = n + ": "@ + name + ": "@ + rest;
    lemma_decimal(index as nat);
    assert(is_digit(n[0], 10) && is_digit(n[n.len() - 1], 10));
    assert(line[0] == n[0]);
    assert(line.last() == rest.last());
    law_trim_takes_the_white_space_around(seq![], line, seq![]);
    assert(Seq::<char>::empty() + line + Seq::<char>::empty() =~= line);
    lemma_find_char(line, ':', 0);
    let first = find_char(line, ':', 0);
    assert(line[n.len() as int] == ':');
    if first < n.len() {
        assert(is_digit(n[first], 10));
        assert(line[first] == n[first]);
    }
    assert(line.take(first) =~= n);
    law_trim_takes_the_white_space_around(seq![], n, seq![]);
    assert(Seq::<char>::empty() + n + Seq::<char>::empty() =~= n);
    law_decimal_round_trip(index as nat, u32::MAX as nat);
    let tail = line.skip(first + 1);
    assert(tail =~= seq![' '] + name + ": "@ + rest);
    lemma_find_char(tail, ':', 0);
    let second = find_char(tail, ':', 0);
    assert(tail[name.len() as int + 1] == ':');
    if second < name.len() + 1 {
        if second > 0 {
            assert(tail[second] == name[second - 1]);
        }
    }
    assert(tail.take(second) =~= seq![' '] + name + Seq::<char>::empty());
    law_trim_takes_the_white_space_around(seq![' '], name, seq![]);
    assert(before.push(line).drop_last() =~= before);
}

// ---------------------------------------------------------------------------
// iptables
// ---------------------------------------------------------------------------

/// A rule of `iptables`: its table, its chain, and what it says.
pub struct ChainRule {
    pub table: Seq<char>,
    pub chain: Seq<char>,
    pub says: Seq<Seq<char>>,
}

/// The arguments behind the table.
pub open spec fn behind_table(args: Seq<Seq<char>>) -> Seq<Seq<char>> {
    if args[0] == "-t"@ {
        args.skip(2)
    } else {
        args
    }
}

/// The rule that a command is about. An insertion gives a place behind the
/// chain.
pub open spec fn rule_of(step: StepView) -> ChainRule {
    let rest = behind_table(step.args);
    ChainRule {
        table: if step.args[0] == "-t"@ {
            step.args[1]
        } else {
            "filter"@
        },
        chain: rest[1],
        says: if rest[0] == "-I"@ {
            rest.skip(3)
        } else {
            rest.skip(2)
        },
    }
}

/// A command does this to a rule: `-C` tells whether it is there, `-I` inserts
/// it and `-D` deletes it.
pub open spec fn does(step: StepView, what: Seq<char>, rule: ChainRule) -> bool {
    step.program == "iptables"@ && behind_table(step.args)[0] == what && rule_of(step) == rule
}

/// The task inserts a rule if it is not there, and must find that out.
pub open spec fn makes_sure_of(task: TaskView, rule: ChainRule) -> bool {
    &&& task is Choose
    &&& does(task->check, "-C"@, rule)
    &&& task->passed.len() == 0
    &&& task->failed.len() == 1
    &&& does(task->failed[0], "-I"@, rule)
    &&& behind_table(task->failed[0].args)[2] == "1"@
    &&& task->failed[0].required
    &&& task->must_run
}

/// The task deletes a rule if it is there, as far as it can.
pub open spec fn gets_rid_of(task: TaskView, rule: ChainRule) -> bool {
    &&& task is Choose
    &&& does(task->check, "-C"@, rule)
    &&& task->failed.len() == 0
    &&& task->passed.len() == 1
    &&& does(task->passed[0], "-D"@, rule)
    &&& !task->passed[0].required
    &&& !task->must_run
}

/// The words of the commands differ.
proof fn lemma_flags()
    ensures
        "-C"@ != "-I"@,
        "-D"@ != "-I"@,
        "-C"@ != "-t"@,
        "-D"@ != "-t"@,
        "-I"@ != "-t"@,
{
    reveal_strlit("-C");
    reveal_strlit("-D");
    reveal_strlit("-I");
    reveal_strlit("-t");
    assert("-C"@[1] == 'C' && "-D"@[1] == 'D' && "-I"@[1] == 'I' && "-t"@[1] == 't');
}

/// Traffic that comes in or goes out by the bridge is accepted: the rules are
/// inserted if they are missing, and those very rules are deleted again.
#[verifier::rlimit(40)]
pub proof fn law_bridge_traffic_is_accepted(
    bridge: &str,
    ensured: Vec<Task>,
    removed: Vec<Task>,
)
    requires
        call_ensures(ensure_iptables_forward, (bridge,), ensured),
        call_ensures(cleanup_iptables_forward, (bridge,), removed),
    ensures
        ({
            let inward = ChainRule {
                table: "filter"@,
                chain: "FORWARD"@,
                says: seq!["-i"@, bridge@, "-j"@, "ACCEPT"@],
            };
            let outward = ChainRule {
                table: "filter"@,
                chain: "FORWARD"@,
                says: seq!["-o"@, bridge@, "-j"@, "ACCEPT"@],
            };
            &&& ensured@.len() == 2
            &&& makes_sure_of(tasks_view(ensured@)[0], inward)
            &&& makes_sure_of(tasks_view(ensured@)[1], outward)
            &&& removed@.len() == 2
            &&& gets_rid_of(tasks_view(removed@)[0], inward)
            &&& gets_rid_of(tasks_view(removed@)[1], outward)
        }),
{
    lemma_flags();
    let e = tasks_view(ensured@);
    let r = tasks_view(removed@);
    assert(e.len() == ensured@.len() && r.len() == removed@.len());
    let inward = seq!["-i"@, bridge@, "-j"@, "ACCEPT"@];
    let outward = seq!["-o"@, bridge@, "-j"@, "ACCEPT"@];
    assert(e[0]->check.args.skip(2) =~= inward);
    assert(e[0]->failed[0].args.skip(3) =~= inward);
    assert(e[1]->check.args.skip(2) =~= outward);
    assert(e[1]->failed[0].args.skip(3) =~= outward);
    assert(r[0]->check.args.skip(2) =~= inward);
    assert(r[0]->passed[0].args.skip(2) =~= inward);
    assert(r[1]->check.args.skip(2) =~= outward);
    assert(r[1]->passed[0].args.skip(2) =~= outward);
}

/// What leaves the subnet by another device than the bridge hides its source:
/// the rule is inserted if it is missing, and that very rule is deleted again.
#[verifier::rlimit(40)]
pub proof fn law_subnet_is_masqueraded(
    bridge: &str,
    subnet: &str,
    ensured: Vec<Task>,
    removed: Vec<Task>,
)
    requires
        call_ensures(ensure_iptables_nat, (bridge, subnet), ensured),
        call_ensures(cleanup_iptables_nat, (bridge, subnet), removed),
    ensures
        ({
            let hiding = ChainRule {
                table: "nat"@,
                chain: "POSTROUTING"@,
                says: seq!["-s"@, subnet@, "!"@, "-o"@, bridge@, "-j"@, "MASQUERADE"@],
            };
            &&& ensured@.len() == 1
            &&& makes_sure_of(tasks_view(ensured@)[0], hiding)
            &&& removed@.len() == 1
            &&& gets_rid_of(tasks_view(removed@)[0], hiding)
        }),
{
    lemma_flags();
    let e = tasks_view(ensured@);
    let r = tasks_view(removed@);
    assert(e.len() == ensured@.len() && r.len() == removed@.len());
    let says = seq!["-s"@, subnet@, "!"@, "-o"@, bridge@, "-j"@, "MASQUERADE"@];
    assert(e[0]->check.args.skip(2).skip(2) =~= says);
    assert(e[0]->failed[0].args.skip(2).skip(3) =~= says);
    assert(r[0]->check.args.skip(2).skip(2) =~= says);
    assert(r[0]->passed[0].args.skip(2).skip(2) =~= says);
}

// ---------------------------------------------------------------------------
// Addresses
// ---------------------------------------------------------------------------

/// An address is taken.
pub open spec fn is_taken(s: AllocatorView, ip: Ipv4Addr) -> bool {
    (ip.a, ip.b) == s.prefix && s.taken.contains((ip.c * 256 + ip.d) as u16)
}

/// No address but this one was taken or set free.
pub open spec fn only_address(before: AllocatorView, after: AllocatorView, ip: Ipv4Addr) -> bool {
    &&& after.prefix == before.prefix
    &&& after.gateway == before.gateway
    &&& forall|other: Ipv4Addr|
        other != ip ==> (#[trigger] is_taken(after, other) <==> is_taken(before, other))
}

/// An address is told by its last two octets.
proof fn lemma_octets(x: Ipv4Addr, y: Ipv4Addr)
    requires
        x.a == y.a,
        x.b == y.b,
        x.c * 256 + x.d == y.c * 256 + y.d,
    ensures
        x == y,
{
}

/// Allocating hands out an address of the subnet that was free, and that is
/// neither the network's, the gateway's nor the broadcast address. It is then
/// taken, and nothing else changes.
pub proof fn law_allocated_address_was_free(
    allocator: &mut IpAllocator,
    r: Result<Ipv4Addr, String>,
)
    requires
        crate::network::dhcp::allocator_ok(old(allocator)@),
        call_ensures(IpAllocator::allocate, (allocator,), r),
    ensures
        r matches Ok(ip) ==> {
            let before = old(allocator)@;
            let after = final(allocator)@;
            &&& (ip.a, ip.b) == before.prefix
            &&& !is_taken(before, ip)
            &&& is_taken(after, ip)
            &&& only_address(before, after, ip)
            &&& !(ip.c == 0 && ip.d == 0)
            &&& !(ip.c == 255 && ip.d == 255)
            &&& ip.c * 256 + ip.d != before.gateway
        },
        r is Err ==> final(allocator)@ == old(allocator)@ && forall|ip: Ipv4Addr|
            (ip.a, ip.b) == old(allocator)@.prefix && !(ip.c == 0 && ip.d < 2) && !(ip.c == 255
                && ip.d == 255) ==> #[trigger] is_taken(old(allocator)@, ip),
{
    let before = old(allocator)@;
    crate::network::dhcp::law_exhaustion(before);
    if r is Ok {
        crate::network::dhcp::law_allocation_is_fresh(before);
        let ip = r->Ok_0;
        let after = final(allocator)@;
        assert forall|other: Ipv4Addr| other != ip implies (#[trigger] is_taken(after, other)
            <==> is_taken(before, other)) by {
            if (other.a, other.b) == before.prefix && other.c * 256 + other.d == ip.c * 256 + ip.d {
                lemma_octets(other, ip);
            }
        }
    }
}

/// Releasing an address of the subnet sets it free, unless it is reserved, and
/// changes nothing else; one of another subnet changes nothing.
pub proof fn law_released_address_is_free(allocator: &mut IpAllocator, ip: Ipv4Addr)
    requires
        crate::network::dhcp::allocator_ok(old(allocator)@),
        call_ensures(IpAllocator::release, (allocator, ip), ()),
    ensures
        only_address(old(allocator)@, final(allocator)@, ip),
        !(ip.c == 0 && ip.d == 0) && !(ip.c == 255 && ip.d == 255) && ip.c * 256 + ip.d != old(
            allocator,
        )@.gateway ==> !is_taken(final(allocator)@, ip),
        (ip.c == 0 && ip.d == 0) || (ip.c == 255 && ip.d == 255) || ip.c * 256 + ip.d == old(
            allocator,
        )@.gateway ==> final(allocator)@ == old(allocator)@,
{
    let before = old(allocator)@;
    let after = final(allocator)@;
    assert forall|other: Ipv4Addr| other != ip implies (#[trigger] is_taken(after, other)
        <==> is_taken(before, other)) by {
        if (other.a, other.b) == (ip.a, ip.b) && other.c * 256 + other.d == ip.c * 256 + ip.d {
            lemma_octets(other, ip);
        }
    }
}

/// Marking takes an address of the subnet, and changes nothing else; an address
/// of another subnet is refused.
pub proof fn law_marked_address_is_taken(
    allocator: &mut IpAllocator,
    ip: Ipv4Addr,
    r: Result<(), String>,
)
    requires
        crate::network::dhcp::allocator_ok(old(allocator)@),
        call_ensures(IpAllocator::mark_allocated, (allocator, ip), r),
    ensures
        r is Ok <==> (ip.a, ip.b) == old(allocator)@.prefix,
        r is Ok ==> is_taken(final(allocator)@, ip) && only_address(
            old(allocator)@,
            final(allocator)@,
            ip,
        ),
        r is Err ==> final(allocator)@ == old(allocator)@,
{
    let before = old(allocator)@;
    let after = final(allocator)@;
    assert forall|other: Ipv4Addr| other != ip implies (#[trigger] is_taken(after, other)
        <==> is_taken(before, other)) by {
        if (other.a, other.b) == (ip.a, ip.b) && other.c * 256 + other.d == ip.c * 256 + ip.d {
            lemma_octets(other, ip);
        }
    }
}

// ---------------------------------------------------------------------------
// Jobs
// ---------------------------------------------------------------------------

/// A group of a job that must succeed.
pub open spec fn is_due(job: JobView, i: int, tasks: Seq<TaskView>, undo: Seq<StepView>) -> bool {
    &&& job is Working
    &&& 0 <= i < job->Working_0.len()
    &&& job->Working_0[i].tasks == tasks
    &&& job->Working_0[i].required
    &&& job->Working_0[i].undo == undo
}

/// A group of a job that may fail.
pub open spec fn is_tried(job: JobView, i: int, tasks: Seq<TaskView>) -> bool {
    &&& job is Working
    &&& 0 <= i < job->Working_0.len()
    &&& job->Working_0[i].tasks == tasks
    &&& !job->Working_0[i].required
}

/// The network is started in this order: the bridge, IP forwarding, the rules
/// of `iptables`, and the firewall's table. Only the rules of `iptables` may
/// fail.
#[verifier::rlimit(40)]
pub proof fn law_network_starts_in_order(
    m: &NetworkManager,
    bridge: &BridgeManager,
    firewall: &NftablesManager,
    name: &str,
    subnet: &str,
    job: Job,
    first: Vec<Task>,
    second: Step,
    third: Vec<Task>,
    fourth: Vec<Task>,
    fifth: Vec<Step>,
)
    requires
        *bridge == m.the_bridge(),
        *firewall == m.firewall(),
        name@ == bridge.name(),
        subnet@ == m.subnet(),
        call_ensures(NetworkManager::init, (m,), job),
        call_ensures(BridgeManager::ensure_bridge, (bridge,), first),
        call_ensures(enable_ip_forwarding, (), second),
        call_ensures(ensure_iptables_forward, (name,), third),
        call_ensures(ensure_iptables_nat, (name, subnet), fourth),
        call_ensures(NftablesManager::init, (firewall,), fifth),
    ensures
        job@ is Working,
        job@->Working_0.len() == 5,
        is_due(job@, 0, tasks_view(first@), seq![]),
        is_due(job@, 1, seq![TaskView::Run(second@)], seq![]),
        is_tried(job@, 2, tasks_view(third@)),
        is_tried(job@, 3, tasks_view(fourth@)),
        is_due(job@, 4, runs(steps_view(fifth@)), seq![]),
        second@.program == "sysctl"@,
        second@.args == seq!["-w"@, "net.ipv4.ip_forward=1"@],
{
    let g = job@->Working_0;
    assert(g[1].tasks =~= seq![TaskView::Run(second@)]);
    assert(g[2].tasks =~= tasks_view(third@));
    assert(g[3].tasks =~= tasks_view(fourth@));
}

/// A workspace gets an address that was free, a TAP device on the bridge, and
/// then the rules of its policy; where the rules cannot be applied, the TAP
/// device is destroyed.
pub proof fn law_workspace_gets_its_network(
    m: &mut NetworkManager,
    bridge: &BridgeManager,
    firewall: &NftablesManager,
    id: &str,
    policy: &NetworkPolicy,
    r: Result<(Ipv4Addr, Job), String>,
    tap: (String, Vec<Step>),
    rules: Vec<Task>,
    undo: Vec<Step>,
)
    requires
        old(m).wf(),
        *bridge == old(m).the_bridge(),
        *firewall == old(m).firewall(),
        call_ensures(NetworkManager::setup_workspace, (m, id, policy), r),
        r is Ok,
        call_ensures(BridgeManager::create_tap, (bridge, id), tap),
        call_ensures(
            NftablesManager::apply_workspace_rules,
            (firewall, id, r->Ok_0.0, policy, true),
            rules,
        ),
        call_ensures(BridgeManager::destroy_tap, (bridge, id), undo),
        crate::network::dhcp::allocator_ok(old(m).addresses()),
    ensures
        ({
            let ip = r->Ok_0.0;
            let job = r->Ok_0.1@;
            &&& !is_taken(old(m).addresses(), ip)
            &&& is_taken(final(m).addresses(), ip)
            &&& job is Working
            &&& job->Working_0.len() == 2
            &&& is_due(job, 0, runs(steps_view(tap.1@)), seq![])
            &&& is_due(job, 1, tasks_view(rules@), steps_view(undo@))
        }),
{
    crate::network::dhcp::law_allocation_is_fresh(old(m).addresses());
}

/// What was set up is told under the same names: the TAP device that was
/// created, and the address that was allocated. A setup that failed gives the
/// address back.
pub proof fn law_setup_is_told(
    m: &mut NetworkManager,
    id: &str,
    ip: Ipv4Addr,
    outcome: Result<(), String>,
    r: Result<WorkspaceNetworkSetup, String>,
    tap: String,
)
    requires
        old(m).wf(),
        call_ensures(NetworkManager::setup_finish, (m, id, ip, outcome), r),
        call_ensures(tap_device_name, (id,), tap),
    ensures
        r is Ok <==> outcome is Ok,
        r matches Ok(setup) ==> setup.tap_device@ == tap@ && setup.guest_ip == ip
            && setup.gateway_ip == old(m).gateway() && final(m).addresses() == old(m).addresses(),
        outcome matches Err(e) ==> r == Err::<WorkspaceNetworkSetup, String>(e) && (!(ip.c == 0
            && ip.d == 0) && !(ip.c == 255 && ip.d == 255) && ip.c * 256 + ip.d != old(
            m,
        ).addresses().gateway ==> !is_taken(final(m).addresses(), ip)),
{
}

/// A new policy takes the place of the old one: the workspace's rules are
/// removed and then those of the policy are added. A restarted workspace gets a
/// new TAP device and its rules in the same way.
#[verifier::rlimit(40)]
pub proof fn law_policy_is_replaced(
    m: &NetworkManager,
    bridge: &BridgeManager,
    firewall: &NftablesManager,
    id: &str,
    ip: Ipv4Addr,
    policy: &NetworkPolicy,
    job: Job,
    restart: (String, Job),
    rules: Vec<Task>,
    removed: Vec<Task>,
    tap: (String, Vec<Step>),
    undo: Vec<Step>,
)
    requires
        *bridge == m.the_bridge(),
        *firewall == m.firewall(),
        call_ensures(NetworkManager::update_policy, (m, id, ip, policy), job),
        call_ensures(NetworkManager::ensure_workspace_network, (m, id, ip, policy), restart),
        call_ensures(
            NftablesManager::apply_workspace_rules,
            (firewall, id, ip, policy, false),
            rules,
        ),
        call_ensures(NftablesManager::remove_workspace_rules, (firewall, id), removed),
        call_ensures(BridgeManager::create_tap, (bridge, id), tap),
        call_ensures(BridgeManager::destroy_tap, (bridge, id), undo),
    ensures
        tasks_view(removed@).is_prefix_of(tasks_view(rules@)),
        removed@.len() == 3,
        is_due(job@, 0, tasks_view(rules@), seq![]),
        job@->Working_0.len() == 1,
        restart.0@ == tap.0@,
        restart.1@ is Working,
        restart.1@->Working_0.len() == 3,
        is_tried(restart.1@, 0, runs(steps_view(undo@))),
        is_due(restart.1@, 1, runs(steps_view(tap.1@)), seq![]),
        is_due(restart.1@, 2, tasks_view(rules@), steps_view(undo@)),
{
    let a = tasks_view(removed@);
    let b = tasks_view(rules@);
    assert(removed@.len() == a.len());
    assert(b.take(3) =~= a);
}

/// A workspace that goes loses its rules and its TAP device, whatever fails, and
/// its address is free again.
pub proof fn law_workspace_leaves_nothing_behind(
    m: &NetworkManager,
    bridge: &BridgeManager,
    firewall: &NftablesManager,
    id: &str,
    job: Job,
    removed: Vec<Task>,
    gone: Vec<Step>,
    leaving: &mut NetworkManager,
    ip: Ipv4Addr,
)
    requires
        *bridge == m.the_bridge(),
        *firewall == m.firewall(),
        call_ensures(NetworkManager::cleanup_workspace, (m, id), job),
        call_ensures(NftablesManager::remove_workspace_rules, (firewall, id), removed),
        call_ensures(BridgeManager::destroy_tap, (bridge, id), gone),
        old(leaving).wf(),
        call_ensures(NetworkManager::cleanup_finish, (leaving, ip), ()),
    ensures
        job@ is Working,
        job@->Working_0.len() == 2,
        is_tried(job@, 0, tasks_view(removed@)),
        is_tried(job@, 1, runs(steps_view(gone@))),
        !(ip.c == 0 && ip.d == 0) && !(ip.c == 255 && ip.d == 255) && ip.c * 256 + ip.d != old(
            leaving,
        ).addresses().gateway ==> !is_taken(final(leaving).addresses(), ip),
{
}

/// A forwarded port is added and removed by the firewall's commands; shutting
/// down removes the rules of `iptables` that starting up made sure of.
pub proof fn law_forwards_and_shutdown(
    m: &NetworkManager,
    firewall: &NftablesManager,
    id: &str,
    ip: Ipv4Addr,
    guest_port: u16,
    host_port: u16,
    add: Job,
    load: Step,
    remove: Job,
    deletions: Vec<Task>,
    name: &str,
    subnet: &str,
    down: Job,
    forward: Vec<Task>,
    hiding: Vec<Task>,
)
    requires
        *firewall == m.firewall(),
        name@ == m.the_bridge().name(),
        subnet@ == m.subnet(),
        call_ensures(NetworkManager::add_port_forward, (m, id, ip, guest_port, host_port), add),
        call_ensures(
            NftablesManager::add_port_forward,
            (firewall, id, ip, guest_port, host_port),
            load,
        ),
        call_ensures(NetworkManager::remove_port_forward, (m, id, guest_port), remove),
        call_ensures(
            NftablesManager::remove_port_forward,
            (firewall, id, guest_port),
            deletions,
        ),
        call_ensures(NetworkManager::shutdown, (m,), down),
        call_ensures(cleanup_iptables_forward, (name,), forward),
        call_ensures(cleanup_iptables_nat, (name, subnet), hiding),
    ensures
        add@ is Working && add@->Working_0.len() == 1,
        is_due(add@, 0, seq![TaskView::Run(load@)], seq![]),
        crate::network::policy::loads(
            load@,
            crate::network::nftables::port_forward_rules(id@, ip, guest_port, host_port),
        ),
        remove@ is Working && remove@->Working_0.len() == 1,
        is_due(remove@, 0, tasks_view(deletions@), seq![]),
        down@ is Working && down@->Working_0.len() == 2,
        is_tried(down@, 0, tasks_view(forward@)),
        is_tried(down@, 1, tasks_view(hiding@)),
{
}

/// TAP devices are listed in the order of the lines that name them; where the
/// bridge has none to show, there are none.
pub proof fn law_attached_taps_are_listed(
    b: &BridgeManager,
    shown: Step,
    reply: &Result<HostOutput, String>,
    r: Result<Vec<String>, String>,
)
    requires
        call_ensures(BridgeManager::show_attached, (b,), shown),
        call_ensures(BridgeManager::list_tap_devices, (b, reply), r),
    ensures
        shown@.program == "ip"@,
        shown@.args == seq!["link"@, "show"@, "master"@, b.name()],
        r is Ok <==> reply is Ok,
        r matches Ok(taps) ==> if reply->Ok_0.success {
            texts(taps@) == taps_in(lines(reply->Ok_0.stdout@))
        } else {
            taps@.len() == 0
        },
{
    if r is Ok {
        assert(texts(r->Ok_0@).len() == r->Ok_0@.len());
    }
}

/// The default network is 10.99.0.0/16 with its gateway at 10.99.0.1, and the
/// bridge and the firewall agree on it; a configured network is as configured.
pub proof fn law_bridge_and_firewall_agree(
    m: NetworkManager,
    name: String,
    cidr: String,
    subnet: String,
    gateway: Ipv4Addr,
    c: NetworkManager,
)
    requires
        call_ensures(NetworkManager::new, (), m),
        call_ensures(NetworkManager::with_config, (name, cidr, subnet, gateway), c),
    ensures
        m.the_bridge().name() == m.firewall().bridge(),
        m.subnet() == m.firewall().subnet(),
        m.gateway() == m.firewall().gateway(),
        m.gateway() == (Ipv4Addr { a: 10, b: 99, c: 0, d: 1 }),
        m.the_bridge().cidr() == "10.99.0.1/16"@,
        is_taken(m.addresses(), m.gateway()),
        c.the_bridge().name() == name@ && c.firewall().bridge() == name@,
        c.the_bridge().cidr() == cidr@,
        c.subnet() == subnet@ && c.firewall().subnet() == subnet@,
        c.gateway() == gateway && c.firewall().gateway() == gateway,
        is_taken(c.addresses(), gateway),
        forall|ip: Ipv4Addr| #[trigger]
            is_taken(c.addresses(), ip) ==> ip == gateway || (ip.c == 0 && ip.d == 0),
{
    assert forall|ip: Ipv4Addr| #[trigger] is_taken(c.addresses(), ip) implies ip == gateway || (
    ip.c == 0 && ip.d == 0) by {
        if ip.c * 256 + ip.d == gateway.c * 256 + gateway.d {
            lemma_octets(ip, gateway);
        }
    }
}

/// Restoring an address takes it, if it is one of the subnet.
pub proof fn law_restored_address_is_taken(
    m: &mut NetworkManager,
    ip: Ipv4Addr,
    r: Result<(), String>,
)
    requires
        old(m).wf(),
        call_ensures(NetworkManager::restore_ip, (m, ip), r),
    ensures
        r is Ok <==> (ip.a, ip.b) == old(m).addresses().prefix,
        r is Ok ==> is_taken(final(m).addresses(), ip),
        r is Err ==> final(m).addresses() == old(m).addresses(),
{
}

/// Addresses are handed out in order: the next one is the first free one from
/// the candidate on, or else from the beginning on; and the one behind it is
/// the next candidate.
pub proof fn law_addresses_are_handed_out_in_order(
    allocator: &mut IpAllocator,
    r: Result<Ipv4Addr, String>,
)
    requires
        crate::network::dhcp::allocator_ok(old(allocator)@),
        2 <= old(allocator)@.next < 0xffff,
        call_ensures(IpAllocator::allocate, (allocator,), r),
    ensures
        r matches Ok(ip) ==> {
            let before = old(allocator)@;
            let offset = ip.c * 256 + ip.d;
            &&& final(allocator)@.next == offset + 1
            &&& offset >= before.next ==> forall|x: u16|
                before.next <= x < offset ==> before.taken.contains(x)
            &&& offset < before.next ==> forall|x: u16|
                (before.next <= x < 0xffff || 2 <= x < offset) ==> before.taken.contains(x)
        },
{
    let s = old(allocator)@;
    lemma_first(s.taken, s.next as int, 0xfffe);
    lemma_first(s.taken, 2, s.next - 1);
}

/// The first free offset has none before it.
proof fn lemma_first(taken: Set<u16>, lo: int, hi: int)
    requires
        0 <= lo,
        hi <= 0xfffe,
    ensures
        match crate::network::dhcp::first_free(taken, lo, hi) {
            Some(x) => lo <= x <= hi && forall|y: u16| lo <= y < x ==> taken.contains(y),
            None => forall|y: u16| lo <= y <= hi ==> taken.contains(y),
        },
    decreases hi - lo + 1,
{
    if lo <= hi && taken.contains(lo as u16) {
        lemma_first(taken, lo + 1, hi);
    }
}

} // verus!
