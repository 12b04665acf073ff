//! What the firewall rules of a workspace let through.
//!
//! Rules are taken apart into their conditions and their verdict, so that a
//! ruleset can be held against the packets that it is meant for.

use crate::host::{steps_view, HostOutput, Step, StepView};
use crate::job::TaskView;
use crate::network::addr::{ip_form, Ipv4Addr};
use crate::network::nftables::{
    base_ruleset, chain_listing, find_rule_handles, generate_base_ruleset,
    generate_port_forward_rules, generate_workspace_rules, internet_rule, intervm_rule, nat_rule,
    nats, nft_load, pf_comment, pf_fwd_comment, port_forward_load, port_forward_rules,
    port_removal, port_rule, port_rules, rule_application, rule_deletion, rule_deletions,
    rule_removal, selected_handle, selected_handles, table_setup, workspace_rules,
    workspace_selector, NetworkPolicy, Selector, SelectorView,
};
use crate::number::{decimal, is_digit, law_decimal_round_trip, lemma_decimal};
use crate::text::{
    contains_text, find_char, index_of, is_space, lemma_find_char, lemma_index_of, occurs_at, words,
};
use crate::text_laws::{
    is_blank, is_word, law_lines_end_at_newlines, law_trim_takes_the_white_space_around,
    law_words_stand_between_white_space,
};
use vstd::prelude::*;

verus! {

/// A chain of the table.
pub enum Chain {
    Forward,
    Postrouting,
    Prerouting,
}

/// A condition of a rule.
pub enum Condition {
    /// The packet comes in by this device.
    InBy(Seq<char>),
    /// The packet goes out by this device.
    OutBy(Seq<char>),
    /// The packet goes out by another device.
    OutByOther(Seq<char>),
    /// The packet has this source.
    Source(Ipv4Addr),
    /// The packet has this destination.
    Destination(Ipv4Addr),
    /// The packet is for this TCP port.
    TcpPort(u16),
}

/// What a rule does with the packets that meet its conditions.
pub enum Verdict {
    Accept,
    Masquerade,
    Redirect(Ipv4Addr, u16),
}

/// A rule.
pub struct Rule {
    pub chain: Chain,
    pub conditions: Seq<Condition>,
    pub verdict: Verdict,
    pub comment: Seq<char>,
}

/// What rules see of a packet.
pub struct Packet {
    pub in_by: Seq<char>,
    pub out_by: Seq<char>,
    pub source: Ipv4Addr,
    pub destination: Ipv4Addr,
    pub tcp_port: Option<u16>,
}

/// The name of a chain.
pub open spec fn chain_name(chain: Chain) -> Seq<char> {
    match chain {
        Chain::Forward => "forward"@,
        Chain::Postrouting => "postrouting"@,
        Chain::Prerouting => "prerouting"@,
    }
}

/// A condition as `nft` reads it.
pub open spec fn condition_text(c: Condition) -> Seq<char> {
    match c {
        Condition::InBy(device) => "iifname \""@ + device + "\" "@,
        Condition::OutBy(device) => "oifname \""@ + device + "\" "@,
        Condition::OutByOther(device) => "oifname != \""@ + device + "\" "@,
        Condition::Source(ip) => "ip saddr "@ + ip_form(ip) + " "@,
        Condition::Destination(ip) => "ip daddr "@ + ip_form(ip) + " "@,
        Condition::TcpPort(port) => "tcp dport "@ + decimal(port as nat) + " "@,
    }
}

/// Conditions as `nft` reads them.
pub open spec fn conditions_text(cs: Seq<Condition>) -> Seq<char>
    decreases cs.len(),
{
    if cs.len() == 0 {
        seq![]
    } else {
        conditions_text(cs.drop_last()) + condition_text(cs.last())
    }
}

/// A verdict as `nft` reads it.
pub open spec fn verdict_text(v: Verdict) -> Seq<char> {
    match v {
        Verdict::Accept => "accept"@,
        Verdict::Masquerade => "masquerade"@,
        Verdict::Redirect(ip, port) => "dnat to "@ + ip_form(ip) + ":"@ + decimal(port as nat),
    }
}

/// The command that adds a rule, as `nft` reads it.
pub open spec fn rule_text(rule: Rule) -> Seq<char> {
    "add rule inet agentiso "@ + chain_name(rule.chain) + " "@ + conditions_text(rule.conditions)
        + verdict_text(rule.verdict) + " comment \""@ + rule.comment + "\"\n"@
}

/// The commands that add rules, as `nft` reads them.
pub open spec fn rules_text(rules: Seq<Rule>) -> Seq<char>
    decreases rules.len(),
{
    if rules.len() == 0 {
        seq![]
    } else {
        rules_text(rules.drop_last()) + rule_text(rules.last())
    }
}

/// A packet meets a condition.
pub open spec fn meets(p: Packet, c: Condition) -> bool {
    match c {
        Condition::InBy(device) => p.in_by == device,
        Condition::OutBy(device) => p.out_by == device,
        Condition::OutByOther(device) => p.out_by != device,
        Condition::Source(ip) => p.source == ip,
        Condition::Destination(ip) => p.destination == ip,
        Condition::TcpPort(port) => p.tcp_port == Some(port),
    }
}

/// A rule of a chain applies to a packet.
pub open spec fn applies(rule: Rule, chain: Chain, p: Packet) -> bool {
    rule.chain == chain && forall|i: int|
        0 <= i < rule.conditions.len() ==> meets(p, #[trigger] rule.conditions[i])
}

/// Rules let a packet through.
pub open spec fn let_through(rules: Seq<Rule>, p: Packet) -> bool {
    exists|i: int|
        0 <= i < rules.len() && applies(#[trigger] rules[i], Chain::Forward, p)
            && rules[i].verdict == Verdict::Accept
}

/// Rules hide the source of a packet.
pub open spec fn masqueraded(rules: Seq<Rule>, p: Packet) -> bool {
    exists|i: int|
        0 <= i < rules.len() && applies(#[trigger] rules[i], Chain::Postrouting, p)
            && rules[i].verdict == Verdict::Masquerade
}

/// A policy allows a packet: one from the guest to the internet, one from the
/// guest to another guest, or one for a port of the guest.
pub open spec fn allows(policy: NetworkPolicy, bridge: Seq<char>, ip: Ipv4Addr, p: Packet) -> bool {
    ||| policy.allow_internet && p.in_by == bridge && p.source == ip && p.out_by != bridge
    ||| policy.allow_inter_vm && p.in_by == bridge && p.source == ip && p.out_by == bridge
    ||| p.destination == ip && p.tcp_port is Some && policy.allowed_ports@.contains(p.tcp_port->0)
}

/// Removing rules takes a rule away.
pub open spec fn is_removed(rule: Rule, removal: Seq<TaskView>) -> bool {
    exists|i: int|
        0 <= i < removal.len() && #[trigger] removal[i] is DeleteRules
            && removal[i]->DeleteRules_chain == chain_name(rule.chain)
            && removal[i]->selector.selects(rule.comment)
}

/// The rule that lets a guest reach the internet.
#[verifier::rlimit(40)]
proof fn lemma_internet_rule(bridge: Seq<char>, id: Seq<char>, ip: Ipv4Addr) -> (rule: Rule)
    ensures
        rule_text(rule) == internet_rule(bridge, id, ip),
        rule == (Rule {
            chain: Chain::Forward,
            conditions: seq![
                Condition::InBy(bridge),
                Condition::Source(ip),
                Condition::OutByOther(bridge),
            ],
            verdict: Verdict::Accept,
            comment: "ws-"@ + id + "-internet"@,
        }),
{
    let cs = seq![Condition::InBy(bridge), Condition::Source(ip), Condition::OutByOther(bridge)];
    let rule = Rule {
        chain: Chain::Forward,
        conditions: cs,
        verdict: Verdict::Accept,
        comment: "ws-"@ + id + "-internet"@,
    };
    reveal_with_fuel(conditions_text, 4);
    assert(cs.drop_last() =~= seq![Condition::InBy(bridge), Condition::Source(ip)]);
    assert(cs.drop_last().drop_last() =~= seq![Condition::InBy(bridge)]);
    reveal_strlit("add rule inet agentiso ");
    reveal_strlit("forward");
    reveal_strlit(" ");
    reveal_strlit("iifname \"");
    reveal_strlit("\" ");
    reveal_strlit("ip saddr ");
    reveal_strlit("oifname != \"");
    reveal_strlit("accept");
    reveal_strlit(" comment \"");
    reveal_strlit("ws-");
    reveal_strlit("-internet");
    reveal_strlit("\"\n");
    reveal_strlit("add rule inet agentiso forward iifname \"");
    reveal_strlit("\" ip saddr ");
    reveal_strlit(" oifname != \"");
    reveal_strlit("\" accept comment \"ws-");
    reveal_strlit("-internet\"\n");
    assert(rule_text(rule) =~= internet_rule(bridge, id, ip));
    rule
}

/// The rule that masquerades the traffic of a guest.
#[verifier::rlimit(40)]
proof fn lemma_nat_rule(bridge: Seq<char>, id: Seq<char>, ip: Ipv4Addr) -> (rule: Rule)
    ensures
        rule_text(rule) == nat_rule(bridge, id, ip),
        rule == (Rule {
            chain: Chain::Postrouting,
            conditions: seq![Condition::Source(ip), Condition::OutByOther(bridge)],
            verdict: Verdict::Masquerade,
            comment: "ws-"@ + id + "-nat"@,
        }),
{
    let cs = seq![Condition::Source(ip), Condition::OutByOther(bridge)];
    let rule = Rule {
        chain: Chain::Postrouting,
        conditions: cs,
        verdict: Verdict::Masquerade,
        comment: "ws-"@ + id + "-nat"@,
    };
    reveal_with_fuel(conditions_text, 3);
    assert(cs.drop_last() =~= seq![Condition::Source(ip)]);
    reveal_strlit("add rule inet agentiso ");
    reveal_strlit("postrouting");
    reveal_strlit(" ");
    reveal_strlit("\" ");
    reveal_strlit("ip saddr ");
    reveal_strlit("oifname != \"");
    reveal_strlit("masquerade");
    reveal_strlit(" comment \"");
    reveal_strlit("ws-");
    reveal_strlit("-nat");
    reveal_strlit("\"\n");
    reveal_strlit("add rule inet agentiso postrouting ip saddr ");
    reveal_strlit(" oifname != \"");
    reveal_strlit("\" masquerade comment \"ws-");
    reveal_strlit("-nat\"\n");
    assert(rule_text(rule) =~= nat_rule(bridge, id, ip));
    rule
}

/// The rule that lets a guest reach other guests.
#[verifier::rlimit(40)]
proof fn lemma_intervm_rule(bridge: Seq<char>, id: Seq<char>, ip: Ipv4Addr) -> (rule: Rule)
    ensures
        rule_text(rule) == intervm_rule(bridge, id, ip),
        rule == (Rule {
            chain: Chain::Forward,
            conditions: seq![
                Condition::InBy(bridge),
                Condition::Source(ip),
                Condition::OutBy(bridge),
            ],
            verdict: Verdict::Accept,
            comment: "ws-"@ + id + "-intervm"@,
        }),
{
    let cs = seq![Condition::InBy(bridge), Condition::Source(ip), Condition::OutBy(bridge)];
    let rule = Rule {
        chain: Chain::Forward,
        conditions: cs,
        verdict: Verdict::Accept,
        comment: "ws-"@ + id + "-intervm"@,
    };
    reveal_with_fuel(conditions_text, 4);
    assert(cs.drop_last() =~= seq![Condition::InBy(bridge), Condition::Source(ip)]);
    assert(cs.drop_last().drop_last() =~= seq![Condition::InBy(bridge)]);
    reveal_strlit("add rule inet agentiso ");
    reveal_strlit("forward");
    reveal_strlit(" ");
    reveal_strlit("iifname \"");
    reveal_strlit("\" ");
    reveal_strlit("ip saddr ");
    reveal_strlit("oifname \"");
    reveal_strlit("accept");
    reveal_strlit(" comment \"");
    reveal_strlit("ws-");
    reveal_strlit("-intervm");
    reveal_strlit("\"\n");
    reveal_strlit("add rule inet agentiso forward iifname \"");
    reveal_strlit("\" ip saddr ");
    reveal_strlit(" oifname \"");
    reveal_strlit("\" accept comment \"ws-");
    reveal_strlit("-intervm\"\n");
    assert(rule_text(rule) =~= intervm_rule(bridge, id, ip));
    rule
}

/// A rule that lets others reach a port of a guest.
pub open spec fn opening(ip: Ipv4Addr, port: u16, comment: Seq<char>) -> Rule {
    Rule {
        chain: Chain::Forward,
        conditions: seq![Condition::Destination(ip), Condition::TcpPort(port)],
        verdict: Verdict::Accept,
        comment,
    }
}

/// The text of a rule that lets others reach a port of a guest.
#[verifier::rlimit(40)]
proof fn lemma_opening(ip: Ipv4Addr, port: u16, comment: Seq<char>)
    ensures
        rule_text(opening(ip, port, comment)) == "add rule inet agentiso forward ip daddr "@
            + ip_form(ip) + " tcp dport "@ + decimal(port as nat) + " accept comment \""@ + comment
            + "\"\n"@,
{
    let cs = seq![Condition::Destination(ip), Condition::TcpPort(port)];
    reveal_with_fuel(conditions_text, 3);
    assert(cs.drop_last() =~= seq![Condition::Destination(ip)]);
    reveal_strlit("add rule inet agentiso ");
    reveal_strlit("forward");
    reveal_strlit(" ");
    reveal_strlit("ip daddr ");
    reveal_strlit("tcp dport ");
    reveal_strlit("accept");
    reveal_strlit(" comment \"");
    reveal_strlit("\"\n");
    reveal_strlit("add rule inet agentiso forward ip daddr ");
    reveal_strlit(" tcp dport ");
    reveal_strlit(" accept comment \"");
    assert(rule_text(opening(ip, port, comment)) =~= "add rule inet agentiso forward ip daddr "@
        + ip_form(ip) + " tcp dport "@ + decimal(port as nat) + " accept comment \""@ + comment
        + "\"\n"@);
}

/// The comment of a rule for an inbound port.
pub open spec fn opening_comment(id: Seq<char>, port: u16) -> Seq<char> {
    "ws-"@ + id + "-allow-"@ + decimal(port as nat)
}

/// The rules for inbound ports.
#[verifier::rlimit(40)]
proof fn lemma_port_rules(id: Seq<char>, ip: Ipv4Addr, ports: Seq<u16>)
    ensures
        rules_text(
            Seq::new(ports.len(), |i: int| opening(ip, ports[i], opening_comment(id, ports[i]))),
        ) == port_rules(id, ip, ports),
    decreases ports.len(),
{
    let rules = Seq::new(
        ports.len(),
        |i: int| opening(ip, ports[i], opening_comment(id, ports[i])),
    );
    if ports.len() > 0 {
        let init = ports.drop_last();
        lemma_port_rules(id, ip, init);
        assert(rules.drop_last() =~= Seq::new(
            init.len(),
            |i: int| opening(ip, init[i], opening_comment(id, init[i])),
        ));
        let port = ports.last();
        lemma_opening(ip, port, opening_comment(id, port));
        reveal_strlit(" accept comment \"");
        reveal_strlit(" accept comment \"ws-");
        reveal_strlit("ws-");
        assert(rule_text(rules.last()) =~= port_rule(id, ip, port));
    }
}

/// Texts of rules add up.
proof fn lemma_rules_text_concat(a: Seq<Rule>, b: Seq<Rule>)
    ensures
        rules_text(a + b) == rules_text(a) + rules_text(b),
    decreases b.len(),
{
    if b.len() == 0 {
        assert(a + b =~= a);
        assert(rules_text(a) + rules_text(b) =~= rules_text(a));
    } else {
        lemma_rules_text_concat(a, b.drop_last());
        assert((a + b).drop_last() =~= a + b.drop_last());
        assert(rules_text(a + b) =~= rules_text(a) + rules_text(b));
    }
}

/// A single rule.
proof fn lemma_one_rule(rule: Rule)
    ensures
        rules_text(seq![rule]) == rule_text(rule),
{
    reveal_with_fuel(rules_text, 2);
    assert(seq![rule].drop_last() =~= Seq::<Rule>::empty());
    assert(rules_text(seq![rule]) =~= rule_text(rule));
}

/// A rule with two or three conditions applies where they are met.
proof fn lemma_applies(rule: Rule, chain: Chain, p: Packet)
    ensures
        rule.conditions.len() == 2 ==> applies(rule, chain, p) == (rule.chain == chain && meets(
            p,
            rule.conditions[0],
        ) && meets(p, rule.conditions[1])),
        rule.conditions.len() == 3 ==> applies(rule, chain, p) == (rule.chain == chain && meets(
            p,
            rule.conditions[0],
        ) && meets(p, rule.conditions[1]) && meets(p, rule.conditions[2])),
{
}

/// The rules of a workspace let through what its policy allows, and nothing
/// else: guests reach the internet only where that is allowed, reach each other
/// only where that is allowed, and are reached only on the ports that are
/// allowed. Their source is hidden on the way to the internet. And every rule
/// is one that removing the rules of the workspace takes away.
#[verifier::rlimit(40)]
pub proof fn law_policy_decides_what_passes(
    bridge: Seq<char>,
    id: Seq<char>,
    ip: Ipv4Addr,
    policy: NetworkPolicy,
) -> (rules: Seq<Rule>)
    ensures
        workspace_rules(bridge, id, ip, policy) == rules_text(rules),
        forall|p: Packet| #[trigger] let_through(rules, p) <==> allows(policy, bridge, ip, p),
        forall|p: Packet| #[trigger]
            masqueraded(rules, p) <==> policy.allow_internet && p.source == ip && p.out_by
                != bridge,
        forall|i: int|
            0 <= i < rules.len() ==> is_removed(#[trigger] rules[i], rule_removal(id)),
{
    let a = lemma_internet_rule(bridge, id, ip);
    let b = lemma_nat_rule(bridge, id, ip);
    let c = lemma_intervm_rule(bridge, id, ip);
    let ports = policy.allowed_ports@;
    let d = Seq::new(ports.len(), |i: int| opening(ip, ports[i], opening_comment(id, ports[i])));
    lemma_port_rules(id, ip, ports);
    let none = Seq::<Rule>::empty();
    let x = if policy.allow_internet {
        seq![a, b]
    } else {
        none
    };
    let y = if policy.allow_inter_vm {
        seq![c]
    } else {
        none
    };
    let rules = x + y + d;
    lemma_rules_text_concat(x + y, d);
    lemma_rules_text_concat(x, y);
    lemma_one_rule(a);
    lemma_one_rule(b);
    lemma_one_rule(c);
    lemma_rules_text_concat(seq![a], seq![b]);
    assert(seq![a] + seq![b] =~= seq![a, b]);
    assert(rules_text(none) =~= Seq::<char>::empty());
    assert(workspace_rules(bridge, id, ip, policy) =~= rules_text(rules));
    assert forall|p: Packet| #[trigger] let_through(rules, p) <==> allows(policy, bridge, ip, p) by {
        lemma_applies(a, Chain::Forward, p);
        lemma_applies(c, Chain::Forward, p);
        if let_through(rules, p) {
            let i = choose|i: int|
                0 <= i < rules.len() && applies(#[trigger] rules[i], Chain::Forward, p)
                    && rules[i].verdict == Verdict::Accept;
            if i < x.len() {
                assert(rules[i] == x[i]);
            } else if i < (x + y).len() {
                assert(rules[i] == y[i - x.len()]);
            } else {
                let k = i - (x + y).len();
                assert(rules[i] == d[k]);
                lemma_applies(d[k], Chain::Forward, p);
                assert(ports.contains(ports[k]));
            }
        }
        if policy.allow_internet && p.in_by == bridge && p.source == ip && p.out_by != bridge {
            assert(rules[0] == a);
            assert(let_through(rules, p));
        }
        if policy.allow_inter_vm && p.in_by == bridge && p.source == ip && p.out_by == bridge {
            assert(rules[x.len() as int] == c);
            assert(let_through(rules, p));
        }
        if p.destination == ip && p.tcp_port is Some && ports.contains(p.tcp_port->0) {
            let k = choose|k: int| 0 <= k < ports.len() && ports[k] == p.tcp_port->0;
            lemma_applies(d[k], Chain::Forward, p);
            assert(rules[(x + y).len() + k] == d[k]);
            assert(let_through(rules, p));
        }
    }
    assert forall|p: Packet| #[trigger]
        masqueraded(rules, p) <==> policy.allow_internet && p.source == ip && p.out_by != bridge by {
        lemma_applies(b, Chain::Postrouting, p);
        if masqueraded(rules, p) {
            let i = choose|i: int|
                0 <= i < rules.len() && applies(#[trigger] rules[i], Chain::Postrouting, p)
                    && rules[i].verdict == Verdict::Masquerade;
            if i < x.len() {
                assert(rules[i] == x[i]);
            } else if i < (x + y).len() {
                assert(rules[i] == y[i - x.len()]);
            } else {
                assert(rules[i] == d[i - (x + y).len()]);
            }
        }
        if policy.allow_internet && p.source == ip && p.out_by != bridge {
            assert(rules[1] == b);
        }
    }
    let removal = rule_removal(id);
    assert forall|i: int| 0 <= i < rules.len() implies is_removed(#[trigger] rules[i], removal) by {
        let r = rules[i];
        let p = "ws-"@ + id + "-"@;
        lemma_own_comment(
            id,
            if i < (x + y).len() {
                0
            } else {
                ports[i - (x + y).len()]
            },
        );
        if i < x.len() {
            assert(r == x[i]);
        } else if i < (x + y).len() {
            assert(r == y[i - x.len()]);
        } else {
            assert(r == d[i - (x + y).len()]);
        }
        assert(removal[0] is DeleteRules);
        assert(removal[1] is DeleteRules);
        assert(p.is_prefix_of(r.comment));
    }
    rules
}

/// The comments of a workspace's rules begin alike.
proof fn lemma_own_comment(id: Seq<char>, port: u16)
    ensures
        ("ws-"@ + id + "-"@).is_prefix_of("ws-"@ + id + "-internet"@),
        ("ws-"@ + id + "-"@).is_prefix_of("ws-"@ + id + "-nat"@),
        ("ws-"@ + id + "-"@).is_prefix_of("ws-"@ + id + "-intervm"@),
        ("ws-"@ + id + "-"@).is_prefix_of(opening_comment(id, port)),
        ("ws-"@ + id + "-"@).is_prefix_of(pf_comment(id, port)),
        ("ws-"@ + id + "-"@).is_prefix_of(pf_fwd_comment(id, port)),
{
    reveal_strlit("-");
    reveal_strlit("-internet");
    reveal_strlit("-nat");
    reveal_strlit("-intervm");
    reveal_strlit("-allow-");
    reveal_strlit("-pf-");
    reveal_strlit("-pf-fwd-");
    let p = "ws-"@ + id + "-"@;
    assert(("ws-"@ + id + "-internet"@).take(p.len() as int) =~= p);
    assert(("ws-"@ + id + "-nat"@).take(p.len() as int) =~= p);
    assert(("ws-"@ + id + "-intervm"@).take(p.len() as int) =~= p);
    assert(opening_comment(id, port).take(p.len() as int) =~= p);
    assert(pf_comment(id, port).take(p.len() as int) =~= p);
    assert(pf_fwd_comment(id, port).take(p.len() as int) =~= p);
}

/// The rule that redirects a port of the host to a guest.
pub open spec fn redirection(
    ip: Ipv4Addr,
    guest_port: u16,
    host_port: u16,
    comment: Seq<char>,
) -> Rule {
    Rule {
        chain: Chain::Prerouting,
        conditions: seq![Condition::TcpPort(host_port)],
        verdict: Verdict::Redirect(ip, guest_port),
        comment,
    }
}

/// The text of a rule that redirects a port.
#[verifier::rlimit(40)]
proof fn lemma_redirection(ip: Ipv4Addr, guest_port: u16, host_port: u16, comment: Seq<char>)
    ensures
        rule_text(redirection(ip, guest_port, host_port, comment))
            == "add rule inet agentiso prerouting tcp dport "@ + decimal(host_port as nat)
            + " dnat to "@ + ip_form(ip) + ":"@ + decimal(guest_port as nat) + " comment \""@
            + comment + "\"\n"@,
{
    let cs = seq![Condition::TcpPort(host_port)];
    let s = "add rule inet agentiso prerouting tcp dport "@ + decimal(host_port as nat)
        + " dnat to "@ + ip_form(ip) + ":"@ + decimal(guest_port as nat) + " comment \""@ + comment
        + "\"\n"@;
    reveal_with_fuel(conditions_text, 2);
    assert(cs.drop_last() =~= Seq::<Condition>::empty());
    reveal_strlit("add rule inet agentiso ");
    reveal_strlit("prerouting");
    reveal_strlit(" ");
    reveal_strlit("tcp dport ");
    reveal_strlit("dnat to ");
    reveal_strlit("add rule inet agentiso prerouting tcp dport ");
    reveal_strlit(" dnat to ");
    assert(rule_text(redirection(ip, guest_port, host_port, comment)) =~= s);
}

/// The text of the rules of a forwarded port.
#[verifier::rlimit(40)]
proof fn lemma_forward_text(id: Seq<char>, ip: Ipv4Addr, guest_port: u16, host_port: u16)
    ensures
        port_forward_rules(id, ip, guest_port, host_port) == rules_text(
            seq![
                redirection(ip, guest_port, host_port, pf_comment(id, guest_port)),
                opening(ip, guest_port, pf_fwd_comment(id, guest_port)),
            ],
        ),
{
    let a = redirection(ip, guest_port, host_port, pf_comment(id, guest_port));
    let b = opening(ip, guest_port, pf_fwd_comment(id, guest_port));
    lemma_redirection(ip, guest_port, host_port, pf_comment(id, guest_port));
    lemma_opening(ip, guest_port, pf_fwd_comment(id, guest_port));
    lemma_one_rule(a);
    lemma_one_rule(b);
    lemma_rules_text_concat(seq![a], seq![b]);
    assert(seq![a] + seq![b] =~= seq![a, b]);
    reveal_strlit("\"\n");
    reveal_strlit("add rule inet agentiso forward ip daddr ");
    reveal_strlit("\"\nadd rule inet agentiso forward ip daddr ");
    assert("\"\nadd rule inet agentiso forward ip daddr "@ =~= "\"\n"@
        + "add rule inet agentiso forward ip daddr "@);
    assert(port_forward_rules(id, ip, guest_port, host_port) =~= rule_text(a) + rule_text(b));
}

/// The rules redirect a packet to a port of a guest.
pub open spec fn redirected(rules: Seq<Rule>, p: Packet, ip: Ipv4Addr, port: u16) -> bool {
    exists|i: int|
        0 <= i < rules.len() && applies(#[trigger] rules[i], Chain::Prerouting, p)
            && rules[i].verdict == Verdict::Redirect(ip, port)
}

/// A forwarded port: packets for the host's port are redirected to the guest's
/// port, and packets for the guest's port are let through. Both rules are taken
/// away when the forward is removed, and when the workspace's rules are.
#[verifier::rlimit(40)]
pub proof fn law_forwarded_port_reaches_the_guest(
    id: Seq<char>,
    ip: Ipv4Addr,
    guest_port: u16,
    host_port: u16,
) -> (rules: Seq<Rule>)
    ensures
        port_forward_rules(id, ip, guest_port, host_port) == rules_text(rules),
        forall|p: Packet| #[trigger]
            let_through(rules, p) <==> p.destination == ip && p.tcp_port == Some(guest_port),
        forall|p: Packet, to: Ipv4Addr, port: u16| #[trigger]
            redirected(rules, p, to, port) <==> p.tcp_port == Some(host_port) && to == ip && port
                == guest_port,
        forall|i: int|
            0 <= i < rules.len() ==> is_removed(
                #[trigger] rules[i],
                port_removal(id, guest_port),
            ) && is_removed(rules[i], rule_removal(id)),
{
    let a = redirection(ip, guest_port, host_port, pf_comment(id, guest_port));
    let b = opening(ip, guest_port, pf_fwd_comment(id, guest_port));
    let rules = seq![a, b];
    lemma_forward_text(id, ip, guest_port, host_port);
    assert(rules[0] == a && rules[1] == b);
    assert forall|p: Packet| #[trigger]
        let_through(rules, p) <==> p.destination == ip && p.tcp_port == Some(guest_port) by {
        lemma_applies(b, Chain::Forward, p);
        assert(!applies(a, Chain::Forward, p));
        if p.destination == ip && p.tcp_port == Some(guest_port) {
            assert(applies(rules[1], Chain::Forward, p));
        }
    }
    assert forall|p: Packet, to: Ipv4Addr, port: u16| #[trigger]
        redirected(rules, p, to, port) <==> p.tcp_port == Some(host_port) && to == ip && port
            == guest_port by {
        assert(a.conditions[0] == Condition::TcpPort(host_port));
        assert(applies(a, Chain::Prerouting, p) == meets(p, Condition::TcpPort(host_port)));
        assert(!applies(b, Chain::Prerouting, p));
        if p.tcp_port == Some(host_port) {
            assert(applies(rules[0], Chain::Prerouting, p));
        }
    }
    lemma_own_comment(id, guest_port);
    assert forall|i: int| 0 <= i < rules.len() implies is_removed(
        #[trigger] rules[i],
        port_removal(id, guest_port),
    ) && is_removed(rules[i], rule_removal(id)) by {
        assert(port_removal(id, guest_port)[0] is DeleteRules);
        assert(port_removal(id, guest_port)[1] is DeleteRules);
        assert(rule_removal(id)[0] is DeleteRules);
        assert(rule_removal(id)[2] is DeleteRules);
    }
    rules
}

/// Rules are loaded by `nft -f -`, and a workspace that had rules before loses
/// them first. A policy that asks for no rules loads none.
pub proof fn law_new_rules_take_the_place_of_old_ones(
    bridge: Seq<char>,
    id: Seq<char>,
    ip: Ipv4Addr,
    policy: NetworkPolicy,
)
    ensures
        rule_application(bridge, id, ip, policy, false) == rule_removal(id) + rule_application(
            bridge,
            id,
            ip,
            policy,
            true,
        ),
        ({
            let added = rule_application(bridge, id, ip, policy, true);
            let rules = workspace_rules(bridge, id, ip, policy);
            if rules.len() == 0 {
                added.len() == 0
            } else {
                &&& added.len() == 1
                &&& added[0] is Run
                &&& added[0]->Run_0.program == "nft"@
                &&& added[0]->Run_0.args == seq!["-f"@, "-"@]
                &&& added[0]->Run_0.stdin == Some(rules)
                &&& added[0]->Run_0.required
            }
        }),
{
    let added = rule_application(bridge, id, ip, policy, true);
    let rules = workspace_rules(bridge, id, ip, policy);
    let load = if rules.len() == 0 {
        Seq::<TaskView>::empty()
    } else {
        seq![TaskView::Run(nft_load(rules, "failed to apply rules for workspace "@ + id))]
    };
    assert(added =~= load);
    assert(rule_application(bridge, id, ip, policy, false) =~= rule_removal(id) + load);
}

/// All commands work on the one table that the rules are added to: it is listed
/// and deleted from by its chains, and it is deleted whole before it is made.
pub proof fn law_one_table(
    chain: Chain,
    handle: nat,
    rules: Seq<char>,
    id: Seq<char>,
    ip: Ipv4Addr,
    guest_port: u16,
    host_port: u16,
)
    ensures
        ({
            let table = seq!["inet"@, "agentiso"@];
            let name = chain_name(chain);
            &&& chain_listing(name).args == seq!["-a"@, "list"@, "chain"@] + table + seq![name]
            &&& rule_deletion(name, handle).args == seq!["delete"@, "rule"@] + table + seq![
                name,
                "handle"@,
                decimal(handle),
            ]
            &&& table_setup(rules).len() == 2
            &&& table_setup(rules)[0].args == seq!["delete"@, "table"@] + table
            &&& !table_setup(rules)[0].required
            &&& loads(table_setup(rules)[1], rules)
            &&& loads(
                port_forward_load(id, ip, guest_port, host_port),
                port_forward_rules(id, ip, guest_port, host_port),
            )
            &&& chain_listing(name).program == "nft"@
            &&& rule_deletion(name, handle).program == "nft"@
            &&& table_setup(rules)[0].program == "nft"@
            &&& rule_deletion(name, handle).required
        }),
{
    let table = seq!["inet"@, "agentiso"@];
    let name = chain_name(chain);
    assert(chain_listing(name).args =~= seq!["-a"@, "list"@, "chain"@] + table + seq![name]);
    assert(rule_deletion(name, handle).args =~= seq!["delete"@, "rule"@] + table + seq![
        name,
        "handle"@,
        decimal(handle),
    ]);
    assert(table_setup(rules)[0].args =~= seq!["delete"@, "table"@] + table);
}

/// A command loads rules, and must succeed.
pub open spec fn loads(step: StepView, rules: Seq<char>) -> bool {
    &&& step.program == "nft"@
    &&& step.args == seq!["-f"@, "-"@]
    &&& step.stdin == Some(rules)
    &&& step.required
}

/// The base ruleset drops what no rule lets through, and lets through what
/// belongs to a connection, what comes from elsewhere for the subnet, and what
/// guests send to the gateway.
#[verifier::rlimit(100)]
#[verifier::spinoff_prover]
pub proof fn law_base_ruleset_drops_by_default(
    bridge: Seq<char>,
    subnet: Seq<char>,
    gateway: Ipv4Addr,
)
    ensures
        ({
            let base = base_ruleset(bridge, subnet, gateway);
            &&& "\ntable inet agentiso {\n    chain forward {\n        type filter hook forward priority 0; policy drop;\n"@.is_prefix_of(base)
            &&& contains_text(base, "\n        ct state established,related accept\n"@)
            &&& contains_text(
                base,
                "\n        iifname != \""@ + bridge + "\" "@ + condition_text(
                    Condition::OutBy(bridge),
                ) + "ip daddr "@ + subnet + " accept\n"@,
            )
            &&& contains_text(
                base,
                "\n        "@ + condition_text(Condition::InBy(bridge)) + condition_text(
                    Condition::OutByOther(bridge),
                ) + "ip saddr "@ + subnet + " "@ + condition_text(Condition::Destination(gateway))
                    + "accept\n"@,
            )
            &&& contains_text(
                base,
                "    chain postrouting {\n        type nat hook postrouting priority 100; policy accept;\n    }\n"@,
            )
            &&& contains_text(
                base,
                "    chain prerouting {\n        type nat hook prerouting priority -100; policy accept;\n    }\n"@,
            )
        }),
{
    let base = base_ruleset(bridge, subnet, gateway);
    let h = "\ntable inet agentiso {\n    chain forward {\n        type filter hook forward priority 0; policy drop;\n\n        # Allow established/related connections\n        ct state established,related accept\n\n        # Allow host -> VM (bridge subnet)\n        iifname != \""@;
    let m = " accept\n\n        # Allow VM -> host (bridge IP)\n        iifname \""@;
    let t = " accept\n    }\n\n    chain postrouting {\n        type nat hook postrouting priority 100; policy accept;\n    }\n\n    chain prerouting {\n        type nat hook prerouting priority -100; policy accept;\n    }\n}\n"@;
    reveal_strlit("\ntable inet agentiso {\n    chain forward {\n        type filter hook forward priority 0; policy drop;\n\n        # Allow established/related connections\n        ct state established,related accept\n\n        # Allow host -> VM (bridge subnet)\n        iifname != \"");
    reveal_strlit(" accept\n\n        # Allow VM -> host (bridge IP)\n        iifname \"");
    reveal_strlit(" accept\n    }\n\n    chain postrouting {\n        type nat hook postrouting priority 100; policy accept;\n    }\n\n    chain prerouting {\n        type nat hook prerouting priority -100; policy accept;\n    }\n}\n");
    let first = "\ntable inet agentiso {\n    chain forward {\n        type filter hook forward priority 0; policy drop;\n"@;
    assert(first.is_prefix_of(base)) by {
        reveal_strlit("\ntable inet agentiso {\n    chain forward {\n        type filter hook forward priority 0; policy drop;\n");
        assert(base.take(first.len() as int) =~= first);
    }
    let known = "\n        ct state established,related accept\n"@;
    assert(contains_text(base, known)) by {
        reveal_strlit("\n        ct state established,related accept\n");
        lemma_place(base, known, 149);
    }
    let to_guests = "\n        iifname != \""@ + bridge + "\" "@ + condition_text(
        Condition::OutBy(bridge),
    ) + "ip daddr "@ + subnet + " accept\n"@;
    assert(contains_text(base, to_guests)) by {
        reveal_strlit("\n        iifname != \"");
        reveal_strlit("\" ");
        reveal_strlit("oifname \"");
        reveal_strlit("\" oifname \"");
        reveal_strlit("ip daddr ");
        reveal_strlit("\" ip daddr ");
        reveal_strlit(" accept\n");
        lemma_place(base, to_guests, h.len() - 21);
    }
    let to_host = "\n        "@ + condition_text(Condition::InBy(bridge)) + condition_text(
        Condition::OutByOther(bridge),
    ) + "ip saddr "@ + subnet + " "@ + condition_text(Condition::Destination(gateway))
        + "accept\n"@;
    assert(contains_text(base, to_host)) by {
        reveal_strlit("\n        ");
        reveal_strlit("iifname \"");
        reveal_strlit("\" ");
        reveal_strlit(" ");
        reveal_strlit("oifname != \"");
        reveal_strlit("\" oifname \"");
        reveal_strlit("\" oifname != \"");
        reveal_strlit("ip saddr ");
        reveal_strlit("ip daddr ");
        reveal_strlit(" ip daddr ");
        reveal_strlit("\" ip saddr ");
        reveal_strlit("\" ip daddr ");
        reveal_strlit("accept\n");
        let before = h + bridge + "\" oifname \""@ + bridge + "\" ip daddr "@ + subnet + m;
        lemma_place(base, to_host, before.len() - 18);
    }
    let post = "    chain postrouting {\n        type nat hook postrouting priority 100; policy accept;\n    }\n"@;
    assert(contains_text(base, post)) by {
        reveal_strlit("    chain postrouting {\n        type nat hook postrouting priority 100; policy accept;\n    }\n");
        lemma_place(base, post, base.len() - t.len() + 15);
    }
    let pre = "    chain prerouting {\n        type nat hook prerouting priority -100; policy accept;\n    }\n"@;
    assert(contains_text(base, pre)) by {
        reveal_strlit("    chain prerouting {\n        type nat hook prerouting priority -100; policy accept;\n    }\n");
        lemma_place(base, pre, base.len() - 2 - pre.len());
    }
}

/// A text is contained at a place.
proof fn lemma_place(s: Seq<char>, p: Seq<char>, i: int)
    requires
        0 <= i,
        i + p.len() <= s.len(),
        forall|k: int| 0 <= k < p.len() ==> s[i + k] == #[trigger] p[k],
    ensures
        contains_text(s, p),
{
    assert(s.subrange(i, i + p.len()) =~= p);
    assert(occurs_at(s, p, i));
}

/// A number in decimal is one word.
proof fn lemma_number_is_word(n: nat)
    ensures
        is_word(decimal(n)),
{
    lemma_decimal(n);
    let s = decimal(n);
    assert forall|i: int| 0 <= i < s.len() implies !is_space(#[trigger] s[i]) by {
        assert(is_digit(s[i], 10));
    }
}

/// The handle of a rule is read off the line on which `nft` lists it, and is
/// taken exactly where the rule's comment is selected.
#[verifier::rlimit(40)]
pub proof fn law_listed_rule_is_selected_by_its_comment(
    indent: Seq<char>,
    rule: Seq<char>,
    comment: Seq<char>,
    handle: u64,
    selector: SelectorView,
)
    requires
        is_blank(indent),
        rule.len() > 0,
        !is_space(rule[0]),
        !rule.contains('#'),
        !comment.contains('#'),
        !comment.contains('"'),
        forall|j: int|
            0 <= j < rule.len() ==> !occurs_at(
                rule + "comment \""@ + comment + "\" # handle "@ + decimal(handle as nat),
                "comment \""@,
                j,
            ),
    ensures
        ({
            let line = indent + (rule + "comment \""@ + comment + "\" # handle "@ + decimal(
                handle as nat,
            ));
            selected_handle(line, selector) == if selector.selects(comment) {
                Some(handle as nat)
            } else {
                None::<nat>
            }
        }),
{
    let n = decimal(handle as nat);
    let body = rule + "comment \""@ + comment + "\" # handle "@ + n;
    let line = indent + body;
    reveal_strlit("comment \"");
    reveal_strlit("\" # handle ");
    reveal_strlit("# handle ");
    lemma_number_is_word(handle as nat);
    assert(body.last() == n.last());
    assert(body[0] == rule[0]);
    assert(line =~= indent + body + Seq::<char>::empty());
    law_trim_takes_the_white_space_around(indent, body, seq![]);
    let r = rule.len() as int;
    assert(body.subrange(r, r + 9) =~= "comment \""@);
    assert(occurs_at(body, "comment \""@, r));
    lemma_index_of(body, "comment \""@, 0);
    assert(index_of(body, "comment \""@, 0) == Some(r));
    lemma_find_char(body, '"', r + 9);
    let end = r + 9 + comment.len();
    assert(body[end] == '"');
    let found = find_char(body, '"', r + 9);
    if found < end {
        assert(body[found] == comment[found - (r + 9)]);
        assert(comment.contains('"'));
    }
    assert(body.subrange(r + 9, end) =~= comment);
    let at = end + 2;
    assert(body.subrange(at, at + 9) =~= "# handle "@);
    assert(occurs_at(body, "# handle "@, at));
    lemma_index_of(body, "# handle "@, 0);
    let i = index_of(body, "# handle "@, 0)->0;
    if i < at {
        assert(body.subrange(i, i + 9)[0] == body[i]);
        assert(body[i] == '#');
        if i < r {
            assert(rule[i] == '#');
        } else if r + 9 <= i < end {
            assert(comment[i - (r + 9)] == '#');
        }
        assert(false);
    }
    assert(body.skip(at + 9) =~= n);
    law_words_stand_between_white_space(seq![], n, seq![]);
    assert(seq![] + n + seq![] =~= n);
    law_words_stand_between_white_space(seq![], n, seq![]);
    assert(words(n)[0] == n);
    law_decimal_round_trip(handle as nat, u64::MAX as nat);
}

/// Generated rules let through what the policy allows, and nothing else.
pub proof fn law_generated_rules_follow_the_policy(
    bridge: &str,
    id: &str,
    ip: Ipv4Addr,
    policy: &NetworkPolicy,
    r: String,
) -> (rules: Seq<Rule>)
    requires
        call_ensures(generate_workspace_rules, (bridge, id, ip, policy), r),
    ensures
        r@ == rules_text(rules),
        forall|p: Packet| #[trigger] let_through(rules, p) <==> allows(*policy, bridge@, ip, p),
        forall|p: Packet| #[trigger]
            masqueraded(rules, p) <==> policy.allow_internet && p.source == ip && p.out_by
                != bridge@,
{
    law_policy_decides_what_passes(bridge@, id@, ip, *policy)
}

/// Generated port forwards redirect the host's port to the guest's, and let
/// through what is for the guest's port.
pub proof fn law_generated_forward_reaches_the_guest(
    id: &str,
    ip: Ipv4Addr,
    guest_port: u16,
    host_port: u16,
    r: String,
) -> (rules: Seq<Rule>)
    requires
        call_ensures(generate_port_forward_rules, (id, ip, guest_port, host_port), r),
    ensures
        r@ == rules_text(rules),
        forall|p: Packet| #[trigger]
            let_through(rules, p) <==> p.destination == ip && p.tcp_port == Some(guest_port),
        forall|p: Packet, to: Ipv4Addr, port: u16| #[trigger]
            redirected(rules, p, to, port) <==> p.tcp_port == Some(host_port) && to == ip && port
                == guest_port,
{
    law_forwarded_port_reaches_the_guest(id@, ip, guest_port, host_port)
}

/// A generated base ruleset drops by default.
pub proof fn law_generated_base_drops_by_default(
    bridge: &str,
    subnet: &str,
    gateway: Ipv4Addr,
    r: String,
)
    requires
        call_ensures(generate_base_ruleset, (bridge, subnet, gateway), r),
    ensures
        r@ == base_ruleset(bridge@, subnet@, gateway),
        "\ntable inet agentiso {\n    chain forward {\n        type filter hook forward priority 0; policy drop;\n"@.is_prefix_of(r@),
{
    law_base_ruleset_drops_by_default(bridge@, subnet@, gateway);
}

/// The selector of a workspace means the rules whose comments begin with its
/// name.
pub proof fn law_workspace_means_its_own_rules(
    id: &str,
    selector: Selector,
    comment: &str,
    r: bool,
)
    requires
        call_ensures(workspace_selector, (id,), selector),
        call_ensures(Selector::matches_comment, (&selector, comment), r),
    ensures
        r <==> ("ws-"@ + id@ + "-"@).is_prefix_of(comment@),
{
}

/// The rules that are meant are deleted, one command for each, in the order in
/// which they are listed. Where the chain could not be listed nothing is
/// deleted.
pub proof fn law_meant_rules_are_deleted(
    chain: &str,
    selector: &Selector,
    reply: &Result<HostOutput, String>,
    r: Vec<Step>,
    listing: &str,
    handles: Vec<u64>,
)
    requires
        call_ensures(rule_deletions, (chain, selector, reply), r),
        call_ensures(find_rule_handles, (listing, selector), handles),
        reply is Ok && reply->Ok_0.success ==> listing@ == reply->Ok_0.stdout@,
    ensures
        reply is Err || !reply->Ok_0.success ==> r@.len() == 0,
        reply is Ok && reply->Ok_0.success ==> {
            &&& r@.len() == handles@.len()
            &&& forall|i: int|
                0 <= i < r@.len() ==> (#[trigger] steps_view(r@)[i]).args.last() == decimal(
                    handles@[i] as nat,
                ) && steps_view(r@)[i].args[4] == chain@ && steps_view(r@)[i].args[0] == "delete"@
        },
{
    assert(steps_view(r@).len() == r@.len());
    assert(nats(handles@).len() == handles@.len());
    if !(reply is Ok && reply->Ok_0.success) {
        law_lines_end_at_newlines(seq![], seq![]);
    }
}

/// A line adds its handle to those that are meant if its comment is selected.
pub proof fn law_handles_are_found_line_by_line(
    before: Seq<Seq<char>>,
    line: Seq<char>,
    selector: SelectorView,
)
    ensures
        selected_handles(before.push(line), selector) == match selected_handle(line, selector) {
            Some(h) => selected_handles(before, selector).push(h),
            None => selected_handles(before, selector),
        },
{
    assert(before.push(line).drop_last() =~= before);
}

} // verus!
