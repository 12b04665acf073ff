//! Per-workspace firewall rules: isolation, NAT and port forwarding.
//!
//! All rules live in the table `inet agentiso`, whose chain `forward` drops
//! what no rule accepts. The rules of a workspace carry comments that begin
//! with `ws-<id>-`, by which they are found again.

use crate::host::{args_from, HostOutput, Step, StepView};
use crate::network::addr::{ip_form, Ipv4Addr};
use crate::job::{tasks_view, Task, TaskView};
use crate::number::{decimal, decimal_of, parse_nat, parse_unsigned};
use crate::text;
use crate::text::{
    cat2, cat3, cat4, cat5, chars_of, find, find_char, index_of, lines, opt_text, owned,
    position_of, same, split_lines, split_words, starts_with, string_of, texts, trim, trimmed,
    words,
};
use vstd::prelude::*;
use vstd::string::*;

verus! {

/// Network policy of a workspace.
#[derive(Debug)]
pub struct NetworkPolicy {
    /// Allow outbound internet access (NAT).
    pub allow_internet: bool,
    /// Allow traffic to other VMs on the bridge.
    pub allow_inter_vm: bool,
    /// TCP ports allowed for inbound connections from outside.
    pub allowed_ports: Vec<u16>,
}

impl Default for NetworkPolicy {
    fn default() -> (p: NetworkPolicy)
        ensures
            p.allow_internet,
            !p.allow_inter_vm,
            p.allowed_ports@ == Seq::<u16>::empty(),
    {
        NetworkPolicy { allow_internet: true, allow_inter_vm: false, allowed_ports: Vec::new() }
    }
}

/// Port forward rule: host_port -> guest_ip:guest_port.
#[derive(Debug)]
pub struct PortForwardRule {
    pub host_port: u16,
    pub guest_ip: Ipv4Addr,
    pub guest_port: u16,
    pub workspace_id: String,
}

// ---------------------------------------------------------------------------
// Rules
// ---------------------------------------------------------------------------

/// The base ruleset.
pub open spec fn base_ruleset(bridge: Seq<char>, subnet: Seq<char>, gateway: Ipv4Addr) -> Seq<
    char,
> {
    "\ntable inet agentiso {\n    chain forward {\n        type filter hook forward priority 0; policy drop;\n\n        # Allow established/related connections\n        ct state established,related accept\n\n        # Allow host -> VM (bridge subnet)\n        iifname != \""@
        + bridge + "\" oifname \""@ + bridge + "\" ip daddr "@ + subnet
        + " accept\n\n        # Allow VM -> host (bridge IP)\n        iifname \""@ + bridge
        + "\" oifname != \""@ + bridge + "\" ip saddr "@ + subnet + " ip daddr "@ + ip_form(gateway)
        + " accept\n    }\n\n    chain postrouting {\n        type nat hook postrouting priority 100; policy accept;\n    }\n\n    chain prerouting {\n        type nat hook prerouting priority -100; policy accept;\n    }\n}\n"@
}

/// Generate the base ruleset.
pub fn generate_base_ruleset(bridge_name: &str, bridge_subnet: &str, gateway_ip: Ipv4Addr) -> (r:
    String)
    ensures
        r@ == base_ruleset(bridge_name@, bridge_subnet@, gateway_ip),
{
    let gateway: String = gateway_ip.text();
    let mut s: String = owned(
        "\ntable inet agentiso {\n    chain forward {\n        type filter hook forward priority 0; policy drop;\n\n        # Allow established/related connections\n        ct state established,related accept\n\n        # Allow host -> VM (bridge subnet)\n        iifname != \"",
    );
    s.append(bridge_name);
    s.append("\" oifname \"");
    s.append(bridge_name);
    s.append("\" ip daddr ");
    s.append(bridge_subnet);
    s.append(" accept\n\n        # Allow VM -> host (bridge IP)\n        iifname \"");
    s.append(bridge_name);
    s.append("\" oifname != \"");
    s.append(bridge_name);
    s.append("\" ip saddr ");
    s.append(bridge_subnet);
    s.append(" ip daddr ");
    s.append(gateway.as_str());
    s.append(
        " accept\n    }\n\n    chain postrouting {\n        type nat hook postrouting priority 100; policy accept;\n    }\n\n    chain prerouting {\n        type nat hook prerouting priority -100; policy accept;\n    }\n}\n",
    );
    s
}

/// The rule that lets a guest reach the internet.
pub open spec fn internet_rule(bridge: Seq<char>, id: Seq<char>, ip: Ipv4Addr) -> Seq<char> {
    "add rule inet agentiso forward iifname \""@ + bridge + "\" ip saddr "@ + ip_form(ip)
        + " oifname != \""@ + bridge + "\" accept comment \"ws-"@ + id + "-internet\"\n"@
}

/// The rule that masquerades the traffic of a guest.
pub open spec fn nat_rule(bridge: Seq<char>, id: Seq<char>, ip: Ipv4Addr) -> Seq<char> {
    "add rule inet agentiso postrouting ip saddr "@ + ip_form(ip) + " oifname != \""@ + bridge
        + "\" masquerade comment \"ws-"@ + id + "-nat\"\n"@
}

/// The rule that lets a guest reach other guests.
pub open spec fn intervm_rule(bridge: Seq<char>, id: Seq<char>, ip: Ipv4Addr) -> Seq<char> {
    "add rule inet agentiso forward iifname \""@ + bridge + "\" ip saddr "@ + ip_form(ip)
        + " oifname \""@ + bridge + "\" accept comment \"ws-"@ + id + "-intervm\"\n"@
}

/// The rule that lets others reach a port of a guest.
pub open spec fn port_rule(id: Seq<char>, ip: Ipv4Addr, port: u16) -> Seq<char> {
    "add rule inet agentiso forward ip daddr "@ + ip_form(ip) + " tcp dport "@ + decimal(
        port as nat,
    ) + " accept comment \"ws-"@ + id + "-allow-"@ + decimal(port as nat) + "\"\n"@
}

/// The rules for inbound ports, in order.
pub open spec fn port_rules(id: Seq<char>, ip: Ipv4Addr, ports: Seq<u16>) -> Seq<char>
    decreases ports.len(),
{
    if ports.len() == 0 {
        seq![]
    } else {
        port_rules(id, ip, ports.drop_last()) + port_rule(id, ip, ports.last())
    }
}

/// The rules that a policy asks for.
pub open spec fn workspace_rules(
    bridge: Seq<char>,
    id: Seq<char>,
    ip: Ipv4Addr,
    policy: NetworkPolicy,
) -> Seq<char> {
    (if policy.allow_internet {
        internet_rule(bridge, id, ip) + nat_rule(bridge, id, ip)
    } else {
        seq![]
    }) + (if policy.allow_inter_vm {
        intervm_rule(bridge, id, ip)
    } else {
        seq![]
    }) + port_rules(id, ip, policy.allowed_ports@)
}

/// Generate workspace firewall rules based on the network policy.
pub fn generate_workspace_rules(
    bridge_name: &str,
    workspace_id: &str,
    guest_ip: Ipv4Addr,
    policy: &NetworkPolicy,
) -> (r: String)
    ensures
        r@ == workspace_rules(bridge_name@, workspace_id@, guest_ip, *policy),
{
    let ip: String = guest_ip.text();
    let mut rules: String = String::new();
    if policy.allow_internet {
        let mut a: String = cat5(
            "add rule inet agentiso forward iifname \"",
            bridge_name,
            "\" ip saddr ",
            ip.as_str(),
            " oifname != \"",
        );
        a.append(bridge_name);
        a.append("\" accept comment \"ws-");
        a.append(workspace_id);
        a.append("-internet\"\n");
        let mut b: String = cat5(
            "add rule inet agentiso postrouting ip saddr ",
            ip.as_str(),
            " oifname != \"",
            bridge_name,
            "\" masquerade comment \"ws-",
        );
        b.append(workspace_id);
        b.append("-nat\"\n");
        rules = cat2(a.as_str(), b.as_str());
    }
    let ghost internet = if policy.allow_internet {
        internet_rule(bridge_name@, workspace_id@, guest_ip) + nat_rule(
            bridge_name@,
            workspace_id@,
            guest_ip,
        )
    } else {
        seq![]
    };
    let ghost intervm = if policy.allow_inter_vm {
        intervm_rule(bridge_name@, workspace_id@, guest_ip)
    } else {
        seq![]
    };
    proof {
        assert(rules@ =~= internet);
    }
    if policy.allow_inter_vm {
        let mut a: String = cat5(
            "add rule inet agentiso forward iifname \"",
            bridge_name,
            "\" ip saddr ",
            ip.as_str(),
            " oifname \"",
        );
        a.append(bridge_name);
        a.append("\" accept comment \"ws-");
        a.append(workspace_id);
        a.append("-intervm\"\n");
        rules.append(a.as_str());
    }
    let ghost head = internet + intervm;
    proof {
        assert(rules@ =~= head);
        assert(head + port_rules(workspace_id@, guest_ip, policy.allowed_ports@.take(0)) =~= head);
    }
    let mut i: usize = 0;
    while i < policy.allowed_ports.len()
        invariant
            i <= policy.allowed_ports@.len(),
            ip@ == ip_form(guest_ip),
            rules@ == head + port_rules(
                workspace_id@,
                guest_ip,
                policy.allowed_ports@.take(i as int),
            ),
        decreases policy.allowed_ports.len() - i,
    {
        let port: String = decimal_of(policy.allowed_ports[i] as u64);
        let mut a: String = cat5(
            "add rule inet agentiso forward ip daddr ",
            ip.as_str(),
            " tcp dport ",
            port.as_str(),
            " accept comment \"ws-",
        );
        a.append(workspace_id);
        a.append("-allow-");
        a.append(port.as_str());
        a.append("\"\n");
        proof {
            let t = policy.allowed_ports@.take(i + 1);
            assert(t.drop_last() =~= policy.allowed_ports@.take(i as int));
            let before = port_rules(
                workspace_id@,
                guest_ip,
                policy.allowed_ports@.take(i as int),
            );
            assert((head + before) + a@ =~= head + (before + a@));
        }
        rules.append(a.as_str());
        i = i + 1;
    }
    proof {
        assert(policy.allowed_ports@.take(policy.allowed_ports@.len() as int)
            =~= policy.allowed_ports@);
    }
    rules
}

/// The comment of the rule that redirects a forwarded port.
pub open spec fn pf_comment(id: Seq<char>, guest_port: u16) -> Seq<char> {
    "ws-"@ + id + "-pf-"@ + decimal(guest_port as nat)
}

/// The comment of the rule that accepts traffic for a forwarded port.
pub open spec fn pf_fwd_comment(id: Seq<char>, guest_port: u16) -> Seq<char> {
    "ws-"@ + id + "-pf-fwd-"@ + decimal(guest_port as nat)
}

/// The rules that forward a port of the host to a guest.
pub open spec fn port_forward_rules(
    id: Seq<char>,
    ip: Ipv4Addr,
    guest_port: u16,
    host_port: u16,
) -> Seq<char> {
    "add rule inet agentiso prerouting tcp dport "@ + decimal(host_port as nat) + " dnat to "@
        + ip_form(ip) + ":"@ + decimal(guest_port as nat) + " comment \""@ + pf_comment(
        id,
        guest_port,
    ) + "\"\nadd rule inet agentiso forward ip daddr "@ + ip_form(ip) + " tcp dport "@ + decimal(
        guest_port as nat,
    ) + " accept comment \""@ + pf_fwd_comment(id, guest_port) + "\"\n"@
}

/// The comment of the rule that redirects a forwarded port.
fn pf_comment_of(workspace_id: &str, guest_port: u16) -> (r: String)
    ensures
        r@ == pf_comment(workspace_id@, guest_port),
{
    let p: String = decimal_of(guest_port as u64);
    cat4("ws-", workspace_id, "-pf-", p.as_str())
}

/// The comment of the rule that accepts traffic for a forwarded port.
fn pf_fwd_comment_of(workspace_id: &str, guest_port: u16) -> (r: String)
    ensures
        r@ == pf_fwd_comment(workspace_id@, guest_port),
{
    let p: String = decimal_of(guest_port as u64);
    cat4("ws-", workspace_id, "-pf-fwd-", p.as_str())
}

/// Generate port forwarding (DNAT) rules.
pub fn generate_port_forward_rules(
    workspace_id: &str,
    guest_ip: Ipv4Addr,
    guest_port: u16,
    host_port: u16,
) -> (r: String)
    ensures
        r@ == port_forward_rules(workspace_id@, guest_ip, guest_port, host_port),
{
    let ip: String = guest_ip.text();
    let guest: String = decimal_of(guest_port as u64);
    let host: String = decimal_of(host_port as u64);
    let first: String = pf_comment_of(workspace_id, guest_port);
    let second: String = pf_fwd_comment_of(workspace_id, guest_port);
    let mut s: String = cat5(
        "add rule inet agentiso prerouting tcp dport ",
        host.as_str(),
        " dnat to ",
        ip.as_str(),
        ":",
    );
    s.append(guest.as_str());
    s.append(" comment \"");
    s.append(first.as_str());
    s.append("\"\nadd rule inet agentiso forward ip daddr ");
    s.append(ip.as_str());
    s.append(" tcp dport ");
    s.append(guest.as_str());
    s.append(" accept comment \"");
    s.append(second.as_str());
    s.append("\"\n");
    s
}

// ---------------------------------------------------------------------------
// Listings
// ---------------------------------------------------------------------------

/// The comment on a line: what stands between `comment "` and the next quote.
pub open spec fn comment_on(line: Seq<char>) -> Option<Seq<char>> {
    match index_of(line, "comment \""@, 0) {
        Some(i) => {
            let start = i + 9;
            let end = find_char(line, '"', start);
            if end < line.len() {
                Some(line.subrange(start, end))
            } else {
                None
            }
        },
        None => None,
    }
}

/// The handle on a line: the number behind `# handle `.
pub open spec fn handle_on(line: Seq<char>) -> Option<nat> {
    match index_of(line, "# handle "@, 0) {
        Some(i) => {
            let ws = words(line.skip(i + 9));
            if ws.len() > 0 {
                parse_nat(ws[0], 10, u64::MAX as nat)
            } else {
                None
            }
        },
        None => None,
    }
}

/// Extract the comment from an nft rule line.
pub fn extract_comment(line: &str) -> (r: Option<String>)
    ensures
        opt_text(r) == comment_on(line@),
{
    proof {
        reveal_strlit("comment \"");
    }
    let v: Vec<char> = chars_of(line);
    let marker: Vec<char> = chars_of("comment \"");
    match find(&v, &marker, 0) {
        None => None,
        Some(i) => {
            let start: usize = i + 9;
            let end: usize = position_of(&v, '"', start);
            if end < v.len() {
                Some(string_of(&v, start, end))
            } else {
                None
            }
        },
    }
}

/// Extract the handle number from an nft rule line.
pub fn extract_handle(line: &str) -> (r: Option<u64>)
    ensures
        match r {
            Some(n) => handle_on(line@) == Some(n as nat),
            None => handle_on(line@) is None,
        },
{
    proof {
        reveal_strlit("# handle ");
    }
    let v: Vec<char> = chars_of(line);
    let marker: Vec<char> = chars_of("# handle ");
    match find(&v, &marker, 0) {
        None => None,
        Some(i) => {
            let rest: String = string_of(&v, i + 9, v.len());
            proof {
                assert(rest@ =~= line@.skip(i + 9));
            }
            let ws: Vec<String> = split_words(rest.as_str());
            proof {
                assert(texts(ws@).len() == ws@.len());
            }
            if ws.len() > 0 {
                proof {
                    assert(texts(ws@)[0] == ws@[0]@);
                }
                parse_unsigned(ws[0].as_str(), 10, u64::MAX)
            } else {
                None
            }
        },
    }
}

/// Which rules are meant: those with this comment, or those whose comment
/// begins with this text.
#[derive(Debug)]
pub enum Selector {
    Exact(String),
    Prefix(String),
}

/// The contents of a [`Selector`].
pub enum SelectorView {
    Exact(Seq<char>),
    Prefix(Seq<char>),
}

impl View for Selector {
    type V = SelectorView;

    open spec fn view(&self) -> SelectorView {
        match *self {
            Selector::Exact(c) => SelectorView::Exact(c@),
            Selector::Prefix(p) => SelectorView::Prefix(p@),
        }
    }
}

impl SelectorView {
    /// The comment is one of a rule that is meant.
    pub open spec fn selects(self, comment: Seq<char>) -> bool {
        match self {
            SelectorView::Exact(c) => comment == c,
            SelectorView::Prefix(p) => p.is_prefix_of(comment),
        }
    }
}

impl Selector {
    /// Whether the comment is one of a rule that is meant.
    pub fn matches_comment(&self, comment: &str) -> (r: bool)
        ensures
            r == self@.selects(comment@),
    {
        match self {
            Selector::Exact(c) => same(comment, c.as_str()),
            Selector::Prefix(p) => starts_with(comment, p.as_str()),
        }
    }
}

/// The handle of the rule on a line, if the rule is meant.
pub open spec fn selected_handle(line: Seq<char>, selector: SelectorView) -> Option<nat> {
    match comment_on(trim(line)) {
        Some(c) => if selector.selects(c) {
            handle_on(trim(line))
        } else {
            None
        },
        None => None,
    }
}

/// The handles of the rules that are meant, in order.
pub open spec fn selected_handles(ls: Seq<Seq<char>>, selector: SelectorView) -> Seq<nat>
    decreases ls.len(),
{
    if ls.len() == 0 {
        seq![]
    } else {
        match selected_handle(ls.last(), selector) {
            Some(h) => selected_handles(ls.drop_last(), selector).push(h),
            None => selected_handles(ls.drop_last(), selector),
        }
    }
}

/// Numbers as mathematical ones.
pub open spec fn nats(v: Seq<u64>) -> Seq<nat> {
    Seq::new(v.len(), |i: int| v[i] as nat)
}

/// Find the handles of the rules that are meant in the listing of a chain.
pub fn find_rule_handles(listing: &str, selector: &Selector) -> (r: Vec<u64>)
    ensures
        nats(r@) == selected_handles(lines(listing@), selector@),
{
    let ls: Vec<String> = split_lines(listing);
    let mut out: Vec<u64> = Vec::new();
    let mut i: usize = 0;
    proof {
        assert(nats(out@) =~= seq![]);
    }
    while i < ls.len()
        invariant
            i <= ls@.len(),
            nats(out@) == selected_handles(texts(ls@).take(i as int), selector@),
        decreases ls.len() - i,
    {
        proof {
            let t = texts(ls@).take(i + 1);
            assert(t.drop_last() =~= texts(ls@).take(i as int));
            assert(t.last() == ls@[i as int]@);
        }
        let line: String = trimmed(ls[i].as_str());
        match extract_comment(line.as_str()) {
            Some(comment) => {
                if selector.matches_comment(comment.as_str()) {
                    match extract_handle(line.as_str()) {
                        Some(handle) => {
                            proof {
                                assert(nats(out@.push(handle)) =~= nats(out@).push(handle as nat));
                            }
                            out.push(handle);
                        },
                        None => {},
                    }
                }
            },
            None => {},
        }
        i = i + 1;
    }
    proof {
        assert(texts(ls@).take(ls@.len() as int) =~= texts(ls@));
    }
    out
}

// ---------------------------------------------------------------------------
// Commands
// ---------------------------------------------------------------------------

/// An `nft` command.
pub open spec fn nft(args: Seq<Seq<char>>, required: bool, context: Option<Seq<char>>) -> StepView {
    StepView {
        program: "nft"@,
        args,
        stdin: None,
        required,
        unavailable: "failed to execute nft command"@,
        failure: "nft failed: "@,
        context,
    }
}

/// An `nft` command that reads rules.
pub open spec fn nft_load(rules: Seq<char>, context: Seq<char>) -> StepView {
    StepView {
        program: "nft"@,
        args: seq!["-f"@, "-"@],
        stdin: Some(rules),
        required: true,
        unavailable: "failed to spawn nft"@,
        failure: "nft -f - failed: "@,
        context: Some(context),
    }
}

/// An `nft` command.
fn nft_step(args: Vec<String>, required: bool, context: Option<String>) -> (s: Step)
    ensures
        s@ == nft(texts(args@), required, opt_text(context)),
{
    Step {
        program: owned("nft"),
        args,
        stdin: None,
        required,
        unavailable: owned("failed to execute nft command"),
        failure: owned("nft failed: "),
        context,
    }
}

/// An `nft` command that reads rules.
fn nft_load_step(rules: String, context: String) -> (s: Step)
    ensures
        s@ == nft_load(rules@, context@),
{
    let args: Vec<String> = args_from(&["-f", "-"]);
    proof {
        assert(texts(args@) =~= seq!["-f"@, "-"@]);
    }
    Step {
        program: owned("nft"),
        args,
        stdin: Some(rules),
        required: true,
        unavailable: owned("failed to spawn nft"),
        failure: owned("nft -f - failed: "),
        context: Some(context),
    }
}

/// The command that adds the rules of a forwarded port.
pub open spec fn port_forward_load(
    id: Seq<char>,
    ip: Ipv4Addr,
    guest_port: u16,
    host_port: u16,
) -> StepView {
    nft_load(
        port_forward_rules(id, ip, guest_port, host_port),
        "failed to add port forward "@ + decimal(host_port as nat) + "->"@ + ip_form(ip) + ":"@
            + decimal(guest_port as nat) + " for workspace "@ + id,
    )
}

/// The command that lists a chain with the handles of its rules.
pub open spec fn chain_listing(chain: Seq<char>) -> StepView {
    nft(seq!["-a"@, "list"@, "chain"@, "inet"@, "agentiso"@, chain], true, None)
}

/// The command that lists a chain with the handles of its rules.
pub fn list_chain(chain: &str) -> (s: Step)
    ensures
        s@ == chain_listing(chain@),
{
    let args: Vec<String> = args_from(&["-a", "list", "chain", "inet", "agentiso", chain]);
    proof {
        assert(texts(args@) =~= seq!["-a"@, "list"@, "chain"@, "inet"@, "agentiso"@, chain@]);
    }
    nft_step(args, true, None)
}

/// The command that deletes a rule.
pub open spec fn rule_deletion(chain: Seq<char>, handle: nat) -> StepView {
    nft(
        seq![
            "delete"@,
            "rule"@,
            "inet"@,
            "agentiso"@,
            chain,
            "handle"@,
            decimal(handle),
        ],
        true,
        Some("failed to delete rule handle "@ + decimal(handle) + " in chain "@ + chain),
    )
}

/// The command that deletes a rule.
fn delete_rule(chain: &str, handle: u64) -> (s: Step)
    ensures
        s@ == rule_deletion(chain@, handle as nat),
{
    let h: String = decimal_of(handle);
    let args: Vec<String> = args_from(
        &["delete", "rule", "inet", "agentiso", chain, "handle", h.as_str()],
    );
    proof {
        assert(texts(args@) =~= seq![
            "delete"@,
            "rule"@,
            "inet"@,
            "agentiso"@,
            chain@,
            "handle"@,
            h@,
        ]);
    }
    nft_step(
        args,
        true,
        Some(cat4("failed to delete rule handle ", h.as_str(), " in chain ", chain)),
    )
}

/// The listing of a chain: nothing where it cannot be had.
pub open spec fn listing(reply: Result<HostOutput, String>) -> Seq<char> {
    match reply {
        Ok(o) => if o.success {
            o.stdout@
        } else {
            seq![]
        },
        Err(_) => seq![],
    }
}

/// The commands that delete the rules of a chain that are meant, given the
/// reply to [`list_chain`]. Where the chain cannot be listed, there are none.
pub fn rule_deletions(chain: &str, selector: &Selector, reply: &Result<HostOutput, String>) -> (r:
    Vec<Step>)
    ensures
        ({
            let handles = selected_handles(lines(listing(*reply)), selector@);
            crate::host::steps_view(r@) == Seq::new(
                handles.len(),
                |i: int| rule_deletion(chain@, handles[i]),
            )
        }),
{
    let shown: String = match reply {
        Ok(o) => if o.success {
            owned(o.stdout.as_str())
        } else {
            String::new()
        },
        Err(_) => String::new(),
    };
    proof {
        assert(shown@ =~= listing(*reply));
    }
    let handles: Vec<u64> = find_rule_handles(shown.as_str(), selector);
    let ghost all = nats(handles@);
    let mut out: Vec<Step> = Vec::new();
    let mut i: usize = 0;
    while i < handles.len()
        invariant
            i <= handles@.len(),
            all == nats(handles@),
            out@.len() == i,
            forall|k: int| 0 <= k < i ==> (#[trigger] out@[k])@ == rule_deletion(chain@, all[k]),
        decreases handles.len() - i,
    {
        let s: Step = delete_rule(chain, handles[i]);
        out.push(s);
        i = i + 1;
    }
    proof {
        assert(crate::host::steps_view(out@) =~= Seq::new(
            all.len(),
            |i: int| rule_deletion(chain@, all[i]),
        ));
    }
    out
}

/// The rules of a workspace.
pub fn workspace_selector(workspace_id: &str) -> (s: Selector)
    ensures
        s@ == SelectorView::Prefix("ws-"@ + workspace_id@ + "-"@),
{
    Selector::Prefix(cat3("ws-", workspace_id, "-"))
}

/// Removing the rules of a workspace from a chain.
pub open spec fn chain_removal(chain: Seq<char>, id: Seq<char>) -> TaskView {
    TaskView::DeleteRules { chain, selector: SelectorView::Prefix("ws-"@ + id + "-"@) }
}

/// Removing all rules of a workspace.
pub open spec fn rule_removal(id: Seq<char>) -> Seq<TaskView> {
    seq![
        chain_removal("forward"@, id),
        chain_removal("postrouting"@, id),
        chain_removal("prerouting"@, id),
    ]
}

/// Removing the rules of a forwarded port.
pub open spec fn port_removal(id: Seq<char>, guest_port: u16) -> Seq<TaskView> {
    seq![
        TaskView::DeleteRules {
            chain: "prerouting"@,
            selector: SelectorView::Exact(pf_comment(id, guest_port)),
        },
        TaskView::DeleteRules {
            chain: "forward"@,
            selector: SelectorView::Exact(pf_fwd_comment(id, guest_port)),
        },
    ]
}

/// Adding the rules that a policy asks for, if it asks for any. Unless the
/// workspace is new, its rules are removed before.
pub open spec fn rule_application(
    bridge: Seq<char>,
    id: Seq<char>,
    ip: Ipv4Addr,
    policy: NetworkPolicy,
    is_new: bool,
) -> Seq<TaskView> {
    let rules = workspace_rules(bridge, id, ip, policy);
    (if is_new {
        seq![]
    } else {
        rule_removal(id)
    }) + (if rules.len() == 0 {
        seq![]
    } else {
        seq![TaskView::Run(nft_load(rules, "failed to apply rules for workspace "@ + id))]
    })
}

/// The commands that set up the table. One that is there already is deleted
/// first.
pub open spec fn table_setup(rules: Seq<char>) -> Seq<StepView> {
    seq![
        nft(seq!["delete"@, "table"@, "inet"@, "agentiso"@], false, None),
        nft_load(rules, "failed to initialize nftables base ruleset"@),
    ]
}

/// nftables firewall manager.
#[derive(Debug)]
pub struct NftablesManager {
    /// Bridge device name.
    bridge_name: String,
    /// Bridge subnet in CIDR form.
    bridge_subnet: String,
    /// Address of the bridge.
    gateway_ip: Ipv4Addr,
}

impl NftablesManager {
    /// The name of the bridge.
    pub closed spec fn bridge(&self) -> Seq<char> {
        self.bridge_name@
    }

    /// The subnet of the bridge.
    pub closed spec fn subnet(&self) -> Seq<char> {
        self.bridge_subnet@
    }

    /// The address of the bridge.
    pub closed spec fn gateway(&self) -> Ipv4Addr {
        self.gateway_ip
    }

    /// A manager for the rules of a bridge.
    pub fn new(bridge_name: String, bridge_subnet: String, gateway_ip: Ipv4Addr) -> (r:
        NftablesManager)
        ensures
            r.bridge() == bridge_name@,
            r.subnet() == bridge_subnet@,
            r.gateway() == gateway_ip,
    {
        NftablesManager { bridge_name, bridge_subnet, gateway_ip }
    }

    /// The commands that set up the table with its base chains. A table that
    /// is there already is deleted first.
    pub fn init(&self) -> (r: Vec<Step>)
        ensures
            crate::host::steps_view(r@) == table_setup(
                base_ruleset(self.bridge(), self.subnet(), self.gateway()),
            ),
    {
        let args: Vec<String> = args_from(&["delete", "table", "inet", "agentiso"]);
        proof {
            assert(texts(args@) =~= seq!["delete"@, "table"@, "inet"@, "agentiso"@]);
        }
        let rules: String = generate_base_ruleset(
            self.bridge_name.as_str(),
            self.bridge_subnet.as_str(),
            self.gateway_ip,
        );
        let r: Vec<Step> = vec![
            nft_step(args, false, None),
            nft_load_step(rules, owned("failed to initialize nftables base ruleset")),
        ];
        proof {
            assert(crate::host::steps_view(r@) =~= table_setup(
                base_ruleset(self.bridge(), self.subnet(), self.gateway()),
            ));
        }
        r
    }

    /// Apply the firewall rules of a workspace. Each rule has a comment of its
    /// own, by which it can be found and removed.
    pub fn apply_workspace_rules(
        &self,
        workspace_id: &str,
        guest_ip: Ipv4Addr,
        policy: &NetworkPolicy,
        is_new: bool,
    ) -> (r: Vec<Task>)
        ensures
            tasks_view(r@) == rule_application(
                self.bridge(),
                workspace_id@,
                guest_ip,
                *policy,
                is_new,
            ),
    {
        let rules: String = generate_workspace_rules(
            self.bridge_name.as_str(),
            workspace_id,
            guest_ip,
            policy,
        );
        let mut r: Vec<Task> = if is_new {
            Vec::new()
        } else {
            self.remove_workspace_rules(workspace_id)
        };
        let ghost first = r@;
        let blank: bool = rules.as_str().is_empty();
        if !blank {
            let context: String = cat2("failed to apply rules for workspace ", workspace_id);
            r.push(Task::Run(nft_load_step(rules, context)));
        }
        proof {
            assert(tasks_view(r@) =~= rule_application(
                self.bridge(),
                workspace_id@,
                guest_ip,
                *policy,
                is_new,
            ));
        }
        r
    }

    /// Remove all rules of a workspace.
    pub fn remove_workspace_rules(&self, workspace_id: &str) -> (r: Vec<Task>)
        ensures
            tasks_view(r@) == rule_removal(workspace_id@),
    {
        let r: Vec<Task> = vec![
            Task::DeleteRules {
                chain: owned("forward"),
                selector: workspace_selector(workspace_id),
            },
            Task::DeleteRules {
                chain: owned("postrouting"),
                selector: workspace_selector(workspace_id),
            },
            Task::DeleteRules {
                chain: owned("prerouting"),
                selector: workspace_selector(workspace_id),
            },
        ];
        proof {
            assert(tasks_view(r@) =~= rule_removal(workspace_id@));
        }
        r
    }

    /// Remove the rules of a forwarded port.
    pub fn remove_port_forward(&self, workspace_id: &str, guest_port: u16) -> (r: Vec<Task>)
        ensures
            tasks_view(r@) == port_removal(workspace_id@, guest_port),
    {
        let r: Vec<Task> = vec![
            Task::DeleteRules {
                chain: owned("prerouting"),
                selector: Selector::Exact(pf_comment_of(workspace_id, guest_port)),
            },
            Task::DeleteRules {
                chain: owned("forward"),
                selector: Selector::Exact(pf_fwd_comment_of(workspace_id, guest_port)),
            },
        ];
        proof {
            assert(tasks_view(r@) =~= port_removal(workspace_id@, guest_port));
        }
        r
    }

    /// The command that forwards traffic arriving on `host_port` to
    /// `guest_ip:guest_port`.
    pub fn add_port_forward(
        &self,
        workspace_id: &str,
        guest_ip: Ipv4Addr,
        guest_port: u16,
        host_port: u16,
    ) -> (s: Step)
        ensures
            s@ == port_forward_load(workspace_id@, guest_ip, guest_port, host_port),
    {
        let rules: String = generate_port_forward_rules(
            workspace_id,
            guest_ip,
            guest_port,
            host_port,
        );
        let ip: String = guest_ip.text();
        let guest: String = decimal_of(guest_port as u64);
        let host: String = decimal_of(host_port as u64);
        let mut context: String = cat5(
            "failed to add port forward ",
            host.as_str(),
            "->",
            ip.as_str(),
            ":",
        );
        context.append(guest.as_str());
        context.append(" for workspace ");
        context.append(workspace_id);
        nft_load_step(rules, context)
    }
}

// ---------------------------------------------------------------------------
// Laws
// ---------------------------------------------------------------------------

/// A policy that allows nothing asks for no rule, so that the chain's policy
/// drops all forwarded traffic of the workspace.
pub proof fn law_nothing_allowed_no_rules(
    bridge: Seq<char>,
    id: Seq<char>,
    ip: Ipv4Addr,
    policy: NetworkPolicy,
)
    requires
        !policy.allow_internet,
        !policy.allow_inter_vm,
        policy.allowed_ports@.len() == 0,
    ensures
        workspace_rules(bridge, id, ip, policy).len() == 0,
{
}

/// Selecting the rules of one workspace selects no rule of another one whose
/// name is as long.
pub proof fn law_selector_is_exclusive(a: Seq<char>, b: Seq<char>, rest: Seq<char>)
    requires
        a.len() == b.len(),
        ("ws-"@ + a + "-"@).is_prefix_of("ws-"@ + b + "-"@ + rest),
    ensures
        a == b,
{
    reveal_strlit("ws-");
    let x = "ws-"@ + a + "-"@;
    let y = "ws-"@ + b + "-"@ + rest;
    assert(y.subrange(0, x.len() as int) == x);
    assert forall|i: int| 0 <= i < a.len() implies a[i] == b[i] by {
        assert(x[3 + i] == a[i]);
        assert(y[3 + i] == b[i]);
        assert(y.subrange(0, x.len() as int)[3 + i] == y[3 + i]);
    }
    assert(a =~= b);
}

/// The selector of a workspace selects the comments of all its rules.
pub proof fn law_selector_finds_own_rules(id: Seq<char>, rest: Seq<char>)
    ensures
        SelectorView::Prefix("ws-"@ + id + "-"@).selects("ws-"@ + id + "-"@ + rest),
{
    let p = "ws-"@ + id + "-"@;
    let c = p + rest;
    assert(c.subrange(0, p.len() as int) =~= p);
}

/// Removing one forwarded port of a workspace touches no other: the comments of
/// different ports differ.
pub proof fn law_port_comments_differ(id: Seq<char>, p: u16, q: u16)
    requires
        p != q,
    ensures
        pf_comment(id, p) != pf_comment(id, q),
        pf_fwd_comment(id, p) != pf_fwd_comment(id, q),
{
    crate::number::law_decimal_round_trip(p as nat, u64::MAX as nat);
    crate::number::law_decimal_round_trip(q as nat, u64::MAX as nat);
    let a = "ws-"@ + id + "-pf-"@;
    let b = "ws-"@ + id + "-pf-fwd-"@;
    if pf_comment(id, p) == pf_comment(id, q) {
        assert(pf_comment(id, p).skip(a.len() as int) =~= decimal(p as nat));
        assert(pf_comment(id, q).skip(a.len() as int) =~= decimal(q as nat));
    }
    if pf_fwd_comment(id, p) == pf_fwd_comment(id, q) {
        assert(pf_fwd_comment(id, p).skip(b.len() as int) =~= decimal(p as nat));
        assert(pf_fwd_comment(id, q).skip(b.len() as int) =~= decimal(q as nat));
    }
}

} // verus!
