//! The bridge and the TAP devices of the workspaces.

use crate::host::{args_from, command, command_step, steps_view, HostOutput, Step, StepView};
use crate::job::{add_unless, remove_if, tasks_view, Task, TaskView};
use crate::number::{parse_nat, parse_unsigned};
use crate::text;
use crate::text::{
    cat2, cat3, cat4, cat5, chars_of, cut, cut_to, find_char, lemma_texts_push, lines, opt_text,
    owned, position_of, split_lines, starts_with, string_of, texts, trim, trimmed,
};
use vstd::prelude::*;

verus! {

/// The name of the TAP device of a workspace.
pub open spec fn tap_name(workspace_id: Seq<char>) -> Seq<char> {
    "tap-"@ + cut(workspace_id, 8)
}

/// Generate the TAP device name for a workspace.
///
/// Uses the first 8 bytes of the workspace ID, never splitting a character, to
/// keep it under the 15-character Linux interface name limit.
pub fn tap_device_name(workspace_id: &str) -> (r: String)
    ensures
        r@ == tap_name(workspace_id@),
{
    let short_id: String = cut_to(workspace_id, 8);
    cat2("tap-", short_id.as_str())
}

/// Bridge and TAP device manager.
#[derive(Debug)]
pub struct BridgeManager {
    /// Name of the bridge device (default: "br-agentiso").
    bridge_name: String,
    /// Address of the bridge in CIDR notation (default: "10.99.0.1/16").
    bridge_cidr: String,
}

/// The command that brings a link up.
pub open spec fn link_up(device: Seq<char>) -> StepView {
    command_step(
        "ip"@,
        seq!["link"@, "set"@, device, "up"@],
        true,
        Some("failed to bring up "@ + device),
    )
}

/// The commands that create a bridge.
pub open spec fn bridge_creation(name: Seq<char>, cidr: Seq<char>) -> Seq<StepView> {
    seq![
        command_step(
            "ip"@,
            seq!["link"@, "add"@, name, "type"@, "bridge"@],
            true,
            Some("failed to create bridge "@ + name),
        ),
        command_step(
            "ip"@,
            seq!["addr"@, "add"@, cidr, "dev"@, name],
            true,
            Some("failed to assign "@ + cidr + " to "@ + name),
        ),
        link_up(name),
    ]
}

/// The command that tells whether a bridge exists.
pub open spec fn bridge_query(name: Seq<char>) -> StepView {
    StepView {
        program: "ip"@,
        args: seq!["link"@, "show"@, name],
        stdin: None,
        required: true,
        unavailable: "failed to run ip link show"@,
        failure: "ip link failed: "@,
        context: None,
    }
}

/// Making sure that a bridge is there and up: one that exists is brought up,
/// another is created. Then its frames are kept out of iptables, if the kernel
/// has that.
pub open spec fn bridge_setup(name: Seq<char>, cidr: Seq<char>) -> Seq<TaskView> {
    seq![
        TaskView::Choose {
            check: bridge_query(name),
            must_run: true,
            passed: seq![link_up(name)],
            failed: bridge_creation(name, cidr),
        },
        TaskView::Write {
            path: "/sys/class/net/"@ + name + "/bridge/nf_call_iptables"@,
            content: "0\n"@,
        },
    ]
}

/// The commands that create a TAP device and attach it to a bridge.
pub open spec fn tap_creation(tap: Seq<char>, bridge: Seq<char>) -> Seq<StepView> {
    seq![
        command_step(
            "ip"@,
            seq!["tuntap"@, "add"@, tap, "mode"@, "tap"@],
            true,
            Some("failed to create TAP device "@ + tap),
        ),
        command_step(
            "ip"@,
            seq!["link"@, "set"@, tap, "master"@, bridge],
            true,
            Some("failed to attach "@ + tap + " to bridge "@ + bridge),
        ),
        link_up(tap),
    ]
}

/// The commands that destroy a TAP device. That it cannot be brought down does
/// not matter.
pub open spec fn tap_destruction(tap: Seq<char>) -> Seq<StepView> {
    seq![
        command_step("ip"@, seq!["link"@, "set"@, tap, "down"@], false, None),
        command_step(
            "ip"@,
            seq!["link"@, "del"@, tap],
            true,
            Some("failed to delete TAP device "@ + tap),
        ),
    ]
}

/// The command that brings a link up.
fn set_link_up(device: &str) -> (s: Step)
    ensures
        s@ == link_up(device@),
{
    let args: Vec<String> = args_from(&["link", "set", device, "up"]);
    proof {
        assert(texts(args@) =~= seq!["link"@, "set"@, device@, "up"@]);
    }
    command("ip", args, true, Some(cat2("failed to bring up ", device)))
}

/// The interface that a line of `ip link show` begins with a number for, if it
/// is a TAP device: the name between the first two colons.
pub open spec fn tap_on_line(line: Seq<char>) -> Option<Seq<char>> {
    let l = trim(line);
    let first = find_char(l, ':', 0);
    if first < l.len() && parse_nat(trim(l.take(first)), 10, u32::MAX as nat) is Some {
        let rest = l.skip(first + 1);
        let second = find_char(rest, ':', 0);
        let name = trim(rest.take(second));
        if second < rest.len() && "tap-"@.is_prefix_of(name) {
            Some(name)
        } else {
            None
        }
    } else {
        None
    }
}

/// The TAP devices that the lines name, in order.
pub open spec fn taps_in(ls: Seq<Seq<char>>) -> Seq<Seq<char>>
    decreases ls.len(),
{
    if ls.len() == 0 {
        seq![]
    } else {
        match tap_on_line(ls.last()) {
            Some(name) => taps_in(ls.drop_last()).push(name),
            None => taps_in(ls.drop_last()),
        }
    }
}

/// The TAP device that a line of `ip link show` names.
fn tap_of_line(line: &str) -> (r: Option<String>)
    ensures
        opt_text(r) == tap_on_line(line@),
{
    let l: String = trimmed(line);
    let v: Vec<char> = chars_of(l.as_str());
    let first: usize = position_of(&v, ':', 0);
    if first == v.len() {
        return None;
    }
    let head: String = string_of(&v, 0, first);
    proof {
        assert(head@ =~= l@.take(first as int));
    }
    let index: String = trimmed(head.as_str());
    match parse_unsigned(index.as_str(), 10, u32::MAX as u64) {
        None => None,
        Some(_) => {
            let second: usize = position_of(&v, ':', first + 1);
            proof {
                text::lemma_find_char_skip(v@, ':', first + 1, first + 1);
            }
            if second == v.len() {
                return None;
            }
            let part: String = string_of(&v, first + 1, second);
            proof {
                assert(part@ =~= l@.skip(first + 1).take(second - first - 1));
            }
            let name: String = trimmed(part.as_str());
            if starts_with(name.as_str(), "tap-") {
                Some(name)
            } else {
                None
            }
        },
    }
}

impl BridgeManager {
    /// The name of the bridge device.
    pub closed spec fn name(&self) -> Seq<char> {
        self.bridge_name@
    }

    /// The address of the bridge.
    pub closed spec fn cidr(&self) -> Seq<char> {
        self.bridge_cidr@
    }

    /// A manager for a bridge.
    pub fn new(bridge_name: String, bridge_cidr: String) -> (r: BridgeManager)
        ensures
            r.name() == bridge_name@,
            r.cidr() == bridge_cidr@,
    {
        BridgeManager { bridge_name, bridge_cidr }
    }

    /// Returns the bridge device name.
    pub fn bridge_name(&self) -> (r: &str)
        ensures
            r@ == self.name(),
    {
        self.bridge_name.as_str()
    }

    /// The command that tells whether the bridge exists.
    pub fn bridge_exists(&self) -> (s: Step)
        ensures
            s@ == bridge_query(self.name()),
    {
        let args: Vec<String> = args_from(&["link", "show", self.bridge_name.as_str()]);
        proof {
            assert(texts(args@) =~= seq!["link"@, "show"@, self.name()]);
        }
        Step {
            program: owned("ip"),
            args,
            stdin: None,
            required: true,
            unavailable: owned("failed to run ip link show"),
            failure: owned("ip link failed: "),
            context: None,
        }
    }

    /// Make sure that the bridge is there and up, and keep its frames out of
    /// iptables where the kernel allows that.
    pub fn ensure_bridge(&self) -> (r: Vec<Task>)
        ensures
            tasks_view(r@) == bridge_setup(self.name(), self.cidr()),
    {
        let name: &str = self.bridge_name.as_str();
        let cidr: &str = self.bridge_cidr.as_str();
        let passed: Vec<Step> = vec![set_link_up(name)];
        let add: Vec<String> = args_from(&["link", "add", name, "type", "bridge"]);
        let addr: Vec<String> = args_from(&["addr", "add", cidr, "dev", name]);
        proof {
            assert(texts(add@) =~= seq!["link"@, "add"@, name@, "type"@, "bridge"@]);
            assert(texts(addr@) =~= seq!["addr"@, "add"@, cidr@, "dev"@, name@]);
        }
        let failed: Vec<Step> = vec![
            command("ip", add, true, Some(cat2("failed to create bridge ", name))),
            command("ip", addr, true, Some(cat4("failed to assign ", cidr, " to ", name))),
            set_link_up(name),
        ];
        proof {
            assert(steps_view(passed@) =~= seq![link_up(self.name())]);
            assert(steps_view(failed@) =~= bridge_creation(self.name(), self.cidr()));
        }
        let r: Vec<Task> = vec![
            Task::Choose { check: self.bridge_exists(), must_run: true, passed, failed },
            Task::Write { path: self.nf_call_path(), content: owned("0\n") },
        ];
        proof {
            assert(tasks_view(r@) =~= bridge_setup(self.name(), self.cidr()));
        }
        r
    }

    /// The file that keeps frames of the bridge out of iptables when it holds
    /// `0`.
    pub fn nf_call_path(&self) -> (r: String)
        ensures
            r@ == "/sys/class/net/"@ + self.name() + "/bridge/nf_call_iptables"@,
    {
        cat3("/sys/class/net/", self.bridge_name.as_str(), "/bridge/nf_call_iptables")
    }

    /// The commands that create a TAP device for a workspace and attach it to
    /// the bridge, and the name of the device.
    pub fn create_tap(&self, workspace_id: &str) -> (r: (String, Vec<Step>))
        ensures
            r.0@ == tap_name(workspace_id@),
            steps_view(r.1@) == tap_creation(tap_name(workspace_id@), self.name()),
    {
        let tap: String = tap_device_name(workspace_id);
        let name: &str = self.bridge_name.as_str();
        let add: Vec<String> = args_from(&["tuntap", "add", tap.as_str(), "mode", "tap"]);
        let attach: Vec<String> = args_from(&["link", "set", tap.as_str(), "master", name]);
        proof {
            assert(texts(add@) =~= seq!["tuntap"@, "add"@, tap@, "mode"@, "tap"@]);
            assert(texts(attach@) =~= seq!["link"@, "set"@, tap@, "master"@, name@]);
        }
        let steps: Vec<Step> = vec![
            command("ip", add, true, Some(cat2("failed to create TAP device ", tap.as_str()))),
            command(
                "ip",
                attach,
                true,
                Some(cat4("failed to attach ", tap.as_str(), " to bridge ", name)),
            ),
            set_link_up(tap.as_str()),
        ];
        proof {
            assert(steps_view(steps@) =~= tap_creation(tap@, self.name()));
        }
        (tap, steps)
    }

    /// The commands that destroy the TAP device of a workspace.
    pub fn destroy_tap(&self, workspace_id: &str) -> (r: Vec<Step>)
        ensures
            steps_view(r@) == tap_destruction(tap_name(workspace_id@)),
    {
        let tap: String = tap_device_name(workspace_id);
        let down: Vec<String> = args_from(&["link", "set", tap.as_str(), "down"]);
        let del: Vec<String> = args_from(&["link", "del", tap.as_str()]);
        proof {
            assert(texts(down@) =~= seq!["link"@, "set"@, tap@, "down"@]);
            assert(texts(del@) =~= seq!["link"@, "del"@, tap@]);
        }
        let steps: Vec<Step> = vec![
            command("ip", down, false, None),
            command("ip", del, true, Some(cat2("failed to delete TAP device ", tap.as_str()))),
        ];
        proof {
            assert(steps_view(steps@) =~= tap_destruction(tap@));
        }
        steps
    }

    /// The command that lists what is attached to the bridge.
    pub fn show_attached(&self) -> (s: Step)
        ensures
            s@ == (StepView {
                program: "ip"@,
                args: seq!["link"@, "show"@, "master"@, self.name()],
                stdin: None,
                required: true,
                unavailable: "failed to run ip link show master"@,
                failure: "ip link failed: "@,
                context: None,
            }),
    {
        let args: Vec<String> = args_from(&["link", "show", "master", self.bridge_name.as_str()]);
        proof {
            assert(texts(args@) =~= seq!["link"@, "show"@, "master"@, self.name()]);
        }
        Step {
            program: owned("ip"),
            args,
            stdin: None,
            required: true,
            unavailable: owned("failed to run ip link show master"),
            failure: owned("ip link failed: "),
            context: None,
        }
    }

    /// The TAP devices attached to the bridge, given what [`show_attached`]
    /// printed: the interfaces whose names begin with `tap-`. There are none
    /// where the command fails, as it does while the bridge does not exist.
    ///
    /// [`show_attached`]: BridgeManager::show_attached
    pub fn list_tap_devices(&self, reply: &Result<HostOutput, String>) -> (r: Result<
        Vec<String>,
        String,
    >)
        ensures
            match *reply {
                Err(e) => r is Err && r->Err_0@ == "failed to run ip link show master"@ + ": "@
                    + e@,
                Ok(o) => r is Ok && texts(r->Ok_0@) == if o.success {
                    taps_in(lines(o.stdout@))
                } else {
                    seq![]
                },
            },
    {
        let mut out: Vec<String> = Vec::new();
        proof {
            assert(texts(out@) =~= seq![]);
        }
        match reply {
            Err(e) => Err(cat3("failed to run ip link show master", ": ", e.as_str())),
            Ok(o) => {
                if !o.success {
                    return Ok(out);
                }
                let ls: Vec<String> = split_lines(o.stdout.as_str());
                let mut i: usize = 0;
                while i < ls.len()
                    invariant
                        i <= ls@.len(),
                        texts(out@) == taps_in(texts(ls@).take(i as int)),
                    decreases ls.len() - i,
                {
                    proof {
                        let t = texts(ls@).take(i + 1);
                        assert(t.drop_last() =~= texts(ls@).take(i as int));
                        assert(t.last() == ls@[i as int]@);
                    }
                    match tap_of_line(ls[i].as_str()) {
                        Some(name) => {
                            proof {
                                lemma_texts_push(out@, name);
                            }
                            out.push(name);
                        },
                        None => {},
                    }
                    i = i + 1;
                }
                proof {
                    assert(texts(ls@).take(ls@.len() as int) =~= texts(ls@));
                }
                Ok(out)
            },
        }
    }
}

// ---------------------------------------------------------------------------
// Host rules
// ---------------------------------------------------------------------------

/// The command that turns on forwarding, which NAT needs.
pub open spec fn forwarding_step() -> StepView {
    StepView {
        program: "sysctl"@,
        args: seq!["-w"@, "net.ipv4.ip_forward=1"@],
        stdin: None,
        required: true,
        unavailable: "failed to run sysctl"@,
        failure: "failed to enable IP forwarding: "@,
        context: None,
    }
}

/// The command that turns on forwarding, which NAT needs.
pub fn enable_ip_forwarding() -> (s: Step)
    ensures
        s@ == forwarding_step(),
{
    let args: Vec<String> = args_from(&["-w", "net.ipv4.ip_forward=1"]);
    proof {
        assert(texts(args@) =~= seq!["-w"@, "net.ipv4.ip_forward=1"@]);
    }
    Step {
        program: owned("sysctl"),
        args,
        stdin: None,
        required: true,
        unavailable: owned("failed to run sysctl"),
        failure: owned("failed to enable IP forwarding: "),
        context: None,
    }
}

/// An iptables command.
pub open spec fn iptables(
    args: Seq<Seq<char>>,
    required: bool,
    unavailable: Seq<char>,
    failure: Seq<char>,
) -> StepView {
    StepView {
        program: "iptables"@,
        args,
        stdin: None,
        required,
        unavailable,
        failure,
        context: None,
    }
}

/// An iptables command.
fn iptables_step(args: Vec<String>, required: bool, unavailable: &str, failure: String) -> (s: Step)
    ensures
        s@ == iptables(texts(args@), required, unavailable@, failure@),
{
    Step {
        program: owned("iptables"),
        args,
        stdin: None,
        required,
        unavailable: owned(unavailable),
        failure,
        context: None,
    }
}

/// The command that tells whether a rule for forwarded traffic is there.
pub open spec fn forward_check(flag: Seq<char>, bridge: Seq<char>) -> StepView {
    iptables(
        seq!["-C"@, "FORWARD"@, flag, bridge, "-j"@, "ACCEPT"@],
        true,
        "failed to run iptables -C (is the iptables binary installed?)"@,
        ""@,
    )
}

/// Making sure that traffic passes the bridge in one direction.
pub open spec fn forward_ensured(
    flag: Seq<char>,
    direction: Seq<char>,
    bridge: Seq<char>,
) -> TaskView {
    TaskView::Choose {
        check: forward_check(flag, bridge),
        must_run: true,
        passed: seq![],
        failed: seq![
            iptables(
                seq!["-I"@, "FORWARD"@, "1"@, flag, bridge, "-j"@, "ACCEPT"@],
                true,
                "failed to run iptables -I"@,
                "failed to add iptables FORWARD "@ + direction + " rule for "@ + bridge + ": "@,
            ),
        ],
    }
}

/// Removing the rule that lets traffic pass the bridge in one direction.
pub open spec fn forward_removed(flag: Seq<char>, bridge: Seq<char>) -> TaskView {
    TaskView::Choose {
        check: forward_check(flag, bridge),
        must_run: false,
        passed: seq![
            iptables(
                seq!["-D"@, "FORWARD"@, flag, bridge, "-j"@, "ACCEPT"@],
                false,
                "failed to run iptables -D"@,
                "failed to remove iptables rule: "@,
            ),
        ],
        failed: seq![],
    }
}

/// The arguments of an iptables command on the rule that masquerades traffic
/// from a subnet that leaves by another interface than the bridge.
pub open spec fn masquerade(
    front: Seq<Seq<char>>,
    subnet: Seq<char>,
    bridge: Seq<char>,
) -> Seq<Seq<char>> {
    seq!["-t"@, "nat"@] + front + seq![
        "-s"@,
        subnet,
        "!"@,
        "-o"@,
        bridge,
        "-j"@,
        "MASQUERADE"@,
    ]
}

/// The command that tells whether the rule that masquerades is there.
pub open spec fn nat_check(bridge: Seq<char>, subnet: Seq<char>) -> StepView {
    iptables(
        masquerade(seq!["-C"@, "POSTROUTING"@], subnet, bridge),
        true,
        "failed to run iptables -t nat -C (is iptables installed?)"@,
        ""@,
    )
}

/// Making sure that outbound traffic is masqueraded.
pub open spec fn nat_ensured(bridge: Seq<char>, subnet: Seq<char>) -> TaskView {
    TaskView::Choose {
        check: nat_check(bridge, subnet),
        must_run: true,
        passed: seq![],
        failed: seq![
            iptables(
                masquerade(seq!["-I"@, "POSTROUTING"@, "1"@], subnet, bridge),
                true,
                "failed to run iptables -t nat -I"@,
                "failed to add iptables NAT MASQUERADE rule for "@ + subnet + " via "@ + bridge
                    + ": "@,
            ),
        ],
    }
}

/// Removing the rule that masquerades.
pub open spec fn nat_removed(bridge: Seq<char>, subnet: Seq<char>) -> TaskView {
    TaskView::Choose {
        check: nat_check(bridge, subnet),
        must_run: false,
        passed: seq![
            iptables(
                masquerade(seq!["-D"@, "POSTROUTING"@], subnet, bridge),
                false,
                "failed to run iptables -t nat -D"@,
                "failed to remove iptables NAT MASQUERADE rule: "@,
            ),
        ],
        failed: seq![],
    }
}

/// The command that tells whether a rule for forwarded traffic is there.
fn check_forward(flag: &str, bridge: &str) -> (s: Step)
    ensures
        s@ == forward_check(flag@, bridge@),
{
    let args: Vec<String> = args_from(&["-C", "FORWARD", flag, bridge, "-j", "ACCEPT"]);
    proof {
        assert(texts(args@) =~= seq!["-C"@, "FORWARD"@, flag@, bridge@, "-j"@, "ACCEPT"@]);
    }
    iptables_step(
        args,
        true,
        "failed to run iptables -C (is the iptables binary installed?)",
        owned(""),
    )
}

/// Add a single rule for forwarded traffic unless it is there.
fn ensure_iptables_rule(flag: &str, direction: &str, bridge: &str) -> (t: Task)
    ensures
        t@ == forward_ensured(flag@, direction@, bridge@),
{
    let args: Vec<String> = args_from(&["-I", "FORWARD", "1", flag, bridge, "-j", "ACCEPT"]);
    proof {
        assert(texts(args@) =~= seq!["-I"@, "FORWARD"@, "1"@, flag@, bridge@, "-j"@, "ACCEPT"@]);
    }
    let add: Step = iptables_step(
        args,
        true,
        "failed to run iptables -I",
        cat5("failed to add iptables FORWARD ", direction, " rule for ", bridge, ": "),
    );
    add_unless(check_forward(flag, bridge), add)
}

/// Remove a single rule for forwarded traffic if it is there.
fn cleanup_iptables_rule(flag: &str, bridge: &str) -> (t: Task)
    ensures
        t@ == forward_removed(flag@, bridge@),
{
    let args: Vec<String> = args_from(&["-D", "FORWARD", flag, bridge, "-j", "ACCEPT"]);
    proof {
        assert(texts(args@) =~= seq!["-D"@, "FORWARD"@, flag@, bridge@, "-j"@, "ACCEPT"@]);
    }
    let delete: Step = iptables_step(
        args,
        false,
        "failed to run iptables -D",
        owned("failed to remove iptables rule: "),
    );
    remove_if(check_forward(flag, bridge), delete)
}

/// Make sure that routed traffic of a bridge passes, out and in. Hosts with
/// other container software often drop forwarded traffic otherwise.
pub fn ensure_iptables_forward(bridge_name: &str) -> (r: Vec<Task>)
    ensures
        tasks_view(r@) == seq![
            forward_ensured("-i"@, "outbound"@, bridge_name@),
            forward_ensured("-o"@, "inbound"@, bridge_name@),
        ],
{
    let r: Vec<Task> = vec![
        ensure_iptables_rule("-i", "outbound", bridge_name),
        ensure_iptables_rule("-o", "inbound", bridge_name),
    ];
    proof {
        assert(tasks_view(r@) =~= seq![
            forward_ensured("-i"@, "outbound"@, bridge_name@),
            forward_ensured("-o"@, "inbound"@, bridge_name@),
        ]);
    }
    r
}

/// Remove the rules that [`ensure_iptables_forward`] added. What is not there
/// or cannot be removed is passed over.
pub fn cleanup_iptables_forward(bridge_name: &str) -> (r: Vec<Task>)
    ensures
        tasks_view(r@) == seq![
            forward_removed("-i"@, bridge_name@),
            forward_removed("-o"@, bridge_name@),
        ],
{
    let r: Vec<Task> = vec![
        cleanup_iptables_rule("-i", bridge_name),
        cleanup_iptables_rule("-o", bridge_name),
    ];
    proof {
        assert(tasks_view(r@) =~= seq![
            forward_removed("-i"@, bridge_name@),
            forward_removed("-o"@, bridge_name@),
        ]);
    }
    r
}

/// The arguments of an iptables command on the rule that masquerades.
fn masquerade_args(front: &[&str], subnet: &str, bridge: &str) -> (r: Vec<String>)
    ensures
        texts(r@) == masquerade(
            Seq::new(front@.len(), |i: int| front@[i]@),
            subnet@,
            bridge@,
        ),
{
    let mut r: Vec<String> = args_from(&["-t", "nat"]);
    let ghost a = r@;
    let mut middle: Vec<String> = args_from(front);
    let ghost b = middle@;
    let mut end: Vec<String> = args_from(&["-s", subnet, "!", "-o", bridge, "-j", "MASQUERADE"]);
    let ghost c = end@;
    r.append(&mut middle);
    r.append(&mut end);
    proof {
        assert(texts(a) =~= seq!["-t"@, "nat"@]);
        assert(texts(c) =~= seq!["-s"@, subnet@, "!"@, "-o"@, bridge@, "-j"@, "MASQUERADE"@]);
        assert(texts(r@) =~= texts(a) + texts(b) + texts(c));
    }
    r
}

/// The command that tells whether the rule that masquerades is there.
fn check_nat(bridge: &str, subnet: &str) -> (s: Step)
    ensures
        s@ == nat_check(bridge@, subnet@),
{
    let front: [&str; 2] = ["-C", "POSTROUTING"];
    let args: Vec<String> = masquerade_args(&front, subnet, bridge);
    proof {
        assert(Seq::new(front@.len(), |i: int| front@[i]@) =~= seq!["-C"@, "POSTROUTING"@]);
    }
    iptables_step(
        args,
        true,
        "failed to run iptables -t nat -C (is iptables installed?)",
        owned(""),
    )
}

/// Make sure that outbound traffic of the bridge subnet is masqueraded.
pub fn ensure_iptables_nat(bridge_name: &str, subnet: &str) -> (r: Vec<Task>)
    ensures
        tasks_view(r@) == seq![nat_ensured(bridge_name@, subnet@)],
{
    let front: [&str; 3] = ["-I", "POSTROUTING", "1"];
    let args: Vec<String> = masquerade_args(&front, subnet, bridge_name);
    proof {
        assert(Seq::new(front@.len(), |i: int| front@[i]@) =~= seq!["-I"@, "POSTROUTING"@, "1"@]);
    }
    let add: Step = iptables_step(
        args,
        true,
        "failed to run iptables -t nat -I",
        cat5(
            "failed to add iptables NAT MASQUERADE rule for ",
            subnet,
            " via ",
            bridge_name,
            ": ",
        ),
    );
    let r: Vec<Task> = vec![add_unless(check_nat(bridge_name, subnet), add)];
    proof {
        assert(tasks_view(r@) =~= seq![nat_ensured(bridge_name@, subnet@)]);
    }
    r
}

/// Remove the rule that [`ensure_iptables_nat`] added. If it is not there or
/// cannot be removed, that is passed over.
pub fn cleanup_iptables_nat(bridge_name: &str, subnet: &str) -> (r: Vec<Task>)
    ensures
        tasks_view(r@) == seq![nat_removed(bridge_name@, subnet@)],
{
    let front: [&str; 2] = ["-D", "POSTROUTING"];
    let args: Vec<String> = masquerade_args(&front, subnet, bridge_name);
    proof {
        assert(Seq::new(front@.len(), |i: int| front@[i]@) =~= seq!["-D"@, "POSTROUTING"@]);
    }
    let delete: Step = iptables_step(
        args,
        false,
        "failed to run iptables -t nat -D",
        owned("failed to remove iptables NAT MASQUERADE rule: "),
    );
    let r: Vec<Task> = vec![remove_if(check_nat(bridge_name, subnet), delete)];
    proof {
        assert(tasks_view(r@) =~= seq![nat_removed(bridge_name@, subnet@)]);
    }
    r
}

// ---------------------------------------------------------------------------
// Laws
// ---------------------------------------------------------------------------

/// TAP device names keep within the 15 bytes that Linux allows.
pub proof fn law_tap_name_fits(workspace_id: Seq<char>)
    ensures
        text::byte_size(tap_name(workspace_id)) <= 12,
{
    reveal_strlit("tap-");
    text::lemma_cut(workspace_id, 8);
    text::lemma_byte_size_concat("tap-"@, cut(workspace_id, 8));
    assert("tap-"@ =~= seq!['t', 'a', 'p', '-']);
    let p = seq!['t', 'a', 'p', '-'];
    assert(p.skip(1) =~= seq!['a', 'p', '-']);
    assert(p.skip(1).skip(1) =~= seq!['p', '-']);
    assert(p.skip(1).skip(1).skip(1) =~= seq!['-']);
    assert(p.skip(1).skip(1).skip(1).skip(1) =~= seq![]);
    reveal_with_fuel(text::byte_size, 6);
}

} // verus!
