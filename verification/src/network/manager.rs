//! Networking over the life of a workspace.
//!
//! The bridge, the address allocator and the firewall are used together here.
//! What has to be done on the host is given out as jobs (see
//! [`crate::job`]).

use crate::host::{steps_view, Step};
use crate::network::addr::Ipv4Addr;
use crate::network::bridge::{
    bridge_setup, cleanup_iptables_forward, cleanup_iptables_nat, enable_ip_forwarding,
    ensure_iptables_forward, ensure_iptables_nat, forward_ensured, forward_removed,
    forwarding_step, nat_ensured, nat_removed, tap_creation, tap_destruction, tap_device_name,
    tap_name, BridgeManager,
};
use crate::network::dhcp::{
    address_at, allocator_ok, exhausted_text, foreign_text, next_free, offset_of, with_marked,
    with_returned, with_taken, AllocatorView, IpAllocator,
};
use crate::job::{
    all_optional, groups_view, job_of, job_ok, may, may_do, must, must_do, run_all, runs, single, tasks_view,
    Group, Job, JobView, Task, TaskView,
};
use crate::network::nftables::{
    base_ruleset, port_forward_load, port_removal, rule_application, rule_removal, table_setup,
    NetworkPolicy, NftablesManager,
};
use crate::text::{cat2, owned};
use vstd::prelude::*;

verus! {

/// Result of setting up networking for a new workspace.
#[derive(Debug)]
pub struct WorkspaceNetworkSetup {
    /// Name of the TAP device (e.g. "tap-abc12345").
    pub tap_device: String,
    /// Allocated guest address.
    pub guest_ip: Ipv4Addr,
    /// Address of the bridge.
    pub gateway_ip: Ipv4Addr,
}

/// High-level network manager for workspace lifecycle operations.
#[derive(Debug)]
pub struct NetworkManager {
    bridge: BridgeManager,
    nftables: NftablesManager,
    ip_allocator: IpAllocator,
    gateway_ip: Ipv4Addr,
    bridge_subnet: String,
}

/// What is done at startup.
pub open spec fn startup(
    name: Seq<char>,
    cidr: Seq<char>,
    subnet: Seq<char>,
    rules: Seq<char>,
) -> JobView {
    job_of(
        seq![
            must(bridge_setup(name, cidr), "failed to ensure bridge"@, seq![]),
            must(runs(seq![forwarding_step()]), "failed to enable IP forwarding"@, seq![]),
            may(
                seq![
                    forward_ensured("-i"@, "outbound"@, name),
                    forward_ensured("-o"@, "inbound"@, name),
                ],
            ),
            may(seq![nat_ensured(name, subnet)]),
            must(runs(table_setup(rules)), "failed to initialize nftables"@, seq![]),
        ],
    )
}

/// What is done for a new workspace. Where its rules cannot be added, its TAP
/// device is destroyed again.
pub open spec fn setup_job(
    bridge: Seq<char>,
    rule_bridge: Seq<char>,
    id: Seq<char>,
    ip: Ipv4Addr,
    policy: NetworkPolicy,
) -> JobView {
    job_of(
        seq![
            must(
                runs(tap_creation(tap_name(id), bridge)),
                "failed to create TAP device"@,
                seq![],
            ),
            must(
                rule_application(rule_bridge, id, ip, policy, true),
                "failed to apply firewall rules"@,
                tap_destruction(tap_name(id)),
            ),
        ],
    )
}

/// What is done for a workspace that is started again.
pub open spec fn restart_job(
    bridge: Seq<char>,
    rule_bridge: Seq<char>,
    id: Seq<char>,
    ip: Ipv4Addr,
    policy: NetworkPolicy,
) -> JobView {
    job_of(
        seq![
            may(runs(tap_destruction(tap_name(id)))),
            must(
                runs(tap_creation(tap_name(id), bridge)),
                "failed to create TAP device for workspace restart"@,
                seq![],
            ),
            must(
                rule_application(rule_bridge, id, ip, policy, false),
                "failed to apply firewall rules for workspace restart"@,
                tap_destruction(tap_name(id)),
            ),
        ],
    )
}

/// What is done for a workspace that goes away.
pub open spec fn cleanup_job(id: Seq<char>) -> JobView {
    job_of(seq![may(rule_removal(id)), may(runs(tap_destruction(tap_name(id))))])
}

/// What is done at the end.
pub open spec fn shutdown_job(name: Seq<char>, subnet: Seq<char>) -> JobView {
    job_of(
        seq![
            may(seq![forward_removed("-i"@, name), forward_removed("-o"@, name)]),
            may(seq![nat_removed(name, subnet)]),
        ],
    )
}

impl NetworkManager {
    /// The invariant of the address allocator.
    pub closed spec fn wf(&self) -> bool {
        allocator_ok(self.ip_allocator@)
    }

    /// The addresses.
    pub closed spec fn addresses(&self) -> AllocatorView {
        self.ip_allocator@
    }

    /// The address of the bridge.
    pub closed spec fn gateway(&self) -> Ipv4Addr {
        self.gateway_ip
    }

    /// The subnet of the bridge.
    pub closed spec fn subnet(&self) -> Seq<char> {
        self.bridge_subnet@
    }

    /// The bridge.
    pub closed spec fn the_bridge(&self) -> BridgeManager {
        self.bridge
    }

    /// The firewall.
    pub closed spec fn firewall(&self) -> NftablesManager {
        self.nftables
    }

    /// Two managers that differ in their addresses only.
    pub open spec fn same_but_addresses(&self, other: &NetworkManager) -> bool {
        &&& self.gateway() == other.gateway()
        &&& self.subnet() == other.subnet()
        &&& self.the_bridge() == other.the_bridge()
        &&& self.firewall() == other.firewall()
    }

    /// Create a new manager with default settings: the bridge `br-agentiso`
    /// with the address `10.99.0.1/16`.
    pub fn new() -> (r: NetworkManager)
        ensures
            r.wf(),
            r.gateway() == (Ipv4Addr { a: 10, b: 99, c: 0, d: 1 }),
            r.subnet() == "10.99.0.0/16"@,
            r.the_bridge().name() == "br-agentiso"@,
            r.the_bridge().cidr() == "10.99.0.1/16"@,
            r.firewall().bridge() == "br-agentiso"@,
            r.firewall().subnet() == "10.99.0.0/16"@,
            r.firewall().gateway() == r.gateway(),
            r.addresses() == (AllocatorView {
                prefix: (10, 99),
                taken: set![0u16, 1u16],
                next: 2,
                gateway: 1,
            }),
    {
        NetworkManager::with_config(
            owned("br-agentiso"),
            owned("10.99.0.1/16"),
            owned("10.99.0.0/16"),
            Ipv4Addr::new(10, 99, 0, 1),
        )
    }

    /// Create a new manager with custom settings.
    pub fn with_config(
        bridge_name: String,
        bridge_cidr: String,
        bridge_subnet: String,
        gateway_ip: Ipv4Addr,
    ) -> (r: NetworkManager)
        ensures
            r.wf(),
            r.gateway() == gateway_ip,
            r.subnet() == bridge_subnet@,
            r.the_bridge().name() == bridge_name@,
            r.the_bridge().cidr() == bridge_cidr@,
            r.firewall().bridge() == bridge_name@,
            r.firewall().subnet() == bridge_subnet@,
            r.firewall().gateway() == gateway_ip,
            r.addresses() == (AllocatorView {
                prefix: (gateway_ip.a, gateway_ip.b),
                taken: set![0u16, offset_of(gateway_ip)],
                next: 2,
                gateway: offset_of(gateway_ip),
            }),
    {
        NetworkManager {
            bridge: BridgeManager::new(owned(bridge_name.as_str()), bridge_cidr),
            nftables: NftablesManager::new(bridge_name, owned(bridge_subnet.as_str()), gateway_ip),
            ip_allocator: IpAllocator::new(gateway_ip),
            gateway_ip,
            bridge_subnet,
        }
    }

    /// Access the bridge manager.
    pub fn bridge(&self) -> (r: &BridgeManager)
        ensures
            *r == self.the_bridge(),
    {
        &self.bridge
    }

    /// Access the nftables manager.
    pub fn nftables(&self) -> (r: &NftablesManager)
        ensures
            *r == self.firewall(),
    {
        &self.nftables
    }

    /// Access the address allocator.
    pub fn ip_allocator(&self) -> (r: &IpAllocator)
        requires
            self.wf(),
        ensures
            r@ == self.addresses(),
            allocator_ok(r@),
    {
        &self.ip_allocator
    }

    /// Access the address allocator to change it.
    pub fn ip_allocator_mut(&mut self) -> (r: &mut IpAllocator)
        requires
            old(self).wf(),
        ensures
            r@ == old(self).addresses(),
            allocator_ok(r@),
            final(self).addresses() == final(r)@,
            final(self).wf() == allocator_ok(final(r)@),
            final(self).same_but_addresses(old(self)),
    {
        &mut self.ip_allocator
    }

    /// Address of the bridge.
    pub fn gateway_ip(&self) -> (r: Ipv4Addr)
        ensures
            r == self.gateway(),
    {
        self.gateway_ip
    }

    /// Subnet of the bridge.
    pub fn bridge_subnet(&self) -> (r: &str)
        ensures
            r@ == self.subnet(),
    {
        self.bridge_subnet.as_str()
    }

    /// Initialize networking at startup: the bridge, forwarding, and the
    /// firewall. That the host's own rules cannot be changed does not matter.
    pub fn init(&self) -> (r: Job)
        ensures
            job_ok(r@),
            r@ == startup(
                self.the_bridge().name(),
                self.the_bridge().cidr(),
                self.subnet(),
                base_ruleset(
                    self.firewall().bridge(),
                    self.firewall().subnet(),
                    self.firewall().gateway(),
                ),
            ),
    {
        let name: &str = self.bridge.bridge_name();
        let subnet: &str = self.bridge_subnet.as_str();
        let forwarding: Vec<Step> = vec![enable_ip_forwarding()];
        proof {
            assert(steps_view(forwarding@) =~= seq![forwarding@[0]@]);
        }
        let groups: Vec<Group> = vec![
            must_do(self.bridge.ensure_bridge(), "failed to ensure bridge", Vec::new()),
            must_do(run_all(forwarding), "failed to enable IP forwarding", Vec::new()),
            may_do(ensure_iptables_forward(name)),
            may_do(ensure_iptables_nat(name, subnet)),
            must_do(run_all(self.nftables.init()), "failed to initialize nftables", Vec::new()),
        ];
        proof {
            assert(steps_view(Seq::<Step>::empty()) =~= seq![]);
            assert(groups_view(groups@) =~= seq![
                must(
                    bridge_setup(self.the_bridge().name(), self.the_bridge().cidr()),
                    "failed to ensure bridge"@,
                    seq![],
                ),
                must(
                    runs(seq![forwarding_step()]),
                    "failed to enable IP forwarding"@,
                    seq![],
                ),
                may(
                    seq![
                        forward_ensured("-i"@, "outbound"@, name@),
                        forward_ensured("-o"@, "inbound"@, name@),
                    ],
                ),
                may(seq![nat_ensured(name@, subnet@)]),
                must(
                    runs(
                        table_setup(
                            base_ruleset(
                                self.firewall().bridge(),
                                self.firewall().subnet(),
                                self.firewall().gateway(),
                            ),
                        ),
                    ),
                    "failed to initialize nftables"@,
                    seq![],
                ),
            ]);
        }
        Job::new(groups)
    }

    /// Begin to set up the network of a new workspace: allocate an address.
    /// What is left to do is to create a TAP device and to add the rules that
    /// the policy asks for.
    pub fn setup_workspace(&mut self, workspace_id: &str, policy: &NetworkPolicy) -> (r: Result<
        (Ipv4Addr, Job),
        String,
    >)
        requires
            old(self).wf(),
        ensures
            final(self).wf(),
            final(self).same_but_addresses(old(self)),
            match next_free(old(self).addresses()) {
                Some(offset) => {
                    &&& r is Ok
                    &&& r->Ok_0.0 == address_at(old(self).addresses().prefix, offset)
                    &&& job_ok(r->Ok_0.1@)
                    &&& r->Ok_0.1@ == setup_job(
                        old(self).the_bridge().name(),
                        old(self).firewall().bridge(),
                        workspace_id@,
                        r->Ok_0.0,
                        *policy,
                    )
                    &&& final(self).addresses() == with_taken(old(self).addresses(), offset)
                },
                None => {
                    &&& r is Err
                    &&& r->Err_0@ == "failed to allocate IP for workspace: "@ + exhausted_text(
                        old(self).addresses().prefix,
                    )
                    &&& final(self).addresses() == old(self).addresses()
                },
            },
    {
        match self.ip_allocator.allocate() {
            Err(e) => Err(cat2("failed to allocate IP for workspace: ", e.as_str())),
            Ok(guest_ip) => {
                let tap: (String, Vec<Step>) = self.bridge.create_tap(workspace_id);
                let rules: Vec<Task> = self.nftables.apply_workspace_rules(
                    workspace_id,
                    guest_ip,
                    policy,
                    true,
                );
                let groups: Vec<Group> = vec![
                    must_do(run_all(tap.1), "failed to create TAP device", Vec::new()),
                    must_do(
                        rules,
                        "failed to apply firewall rules",
                        self.bridge.destroy_tap(workspace_id),
                    ),
                ];
                proof {
                    let name = tap_name(workspace_id@);
                    assert(steps_view(Seq::<Step>::empty()) =~= seq![]);
                    assert(groups_view(groups@) =~= seq![
                        must(
                            runs(tap_creation(name, self.the_bridge().name())),
                            "failed to create TAP device"@,
                            seq![],
                        ),
                        must(
                            rule_application(
                                self.firewall().bridge(),
                                workspace_id@,
                                guest_ip,
                                *policy,
                                true,
                            ),
                            "failed to apply firewall rules"@,
                            tap_destruction(name),
                        ),
                    ]);
                }
                Ok((guest_ip, Job::new(groups)))
            },
        }
    }

    /// The end of the setup, given what became of the job. Where it failed, the
    /// address is released again.
    pub fn setup_finish(
        &mut self,
        workspace_id: &str,
        guest_ip: Ipv4Addr,
        outcome: Result<(), String>,
    ) -> (r: Result<WorkspaceNetworkSetup, String>)
        requires
            old(self).wf(),
        ensures
            final(self).wf(),
            final(self).same_but_addresses(old(self)),
            match outcome {
                Ok(_) => {
                    &&& r is Ok
                    &&& r->Ok_0.tap_device@ == tap_name(workspace_id@)
                    &&& r->Ok_0.guest_ip == guest_ip
                    &&& r->Ok_0.gateway_ip == old(self).gateway()
                    &&& final(self).addresses() == old(self).addresses()
                },
                Err(e) => {
                    &&& r == Err::<WorkspaceNetworkSetup, String>(e)
                    &&& final(self).addresses() == with_returned(old(self).addresses(), guest_ip)
                },
            },
    {
        match outcome {
            Ok(()) => Ok(
                WorkspaceNetworkSetup {
                    tap_device: tap_device_name(workspace_id),
                    guest_ip,
                    gateway_ip: self.gateway_ip,
                },
            ),
            Err(e) => {
                self.ip_allocator.release(guest_ip);
                Err(e)
            },
        }
    }

    /// Update the network policy of a running workspace.
    pub fn update_policy(&self, workspace_id: &str, guest_ip: Ipv4Addr, policy: &NetworkPolicy) -> (r:
        Job)
        ensures
            job_ok(r@),
            r@ == job_of(
                seq![
                    must(
                        rule_application(
                            self.firewall().bridge(),
                            workspace_id@,
                            guest_ip,
                            *policy,
                            false,
                        ),
                        "failed to update workspace network policy"@,
                        seq![],
                    ),
                ],
            ),
    {
        single(
            self.nftables.apply_workspace_rules(workspace_id, guest_ip, policy, false),
            "failed to update workspace network policy",
        )
    }

    /// Add a port forwarding rule for a workspace.
    pub fn add_port_forward(
        &self,
        workspace_id: &str,
        guest_ip: Ipv4Addr,
        guest_port: u16,
        host_port: u16,
    ) -> (r: Job)
        ensures
            job_ok(r@),
            r@ == job_of(
                seq![
                    must(
                        seq![
                            TaskView::Run(
                                port_forward_load(workspace_id@, guest_ip, guest_port, host_port),
                            ),
                        ],
                        "failed to add port forward"@,
                        seq![],
                    ),
                ],
            ),
    {
        let tasks: Vec<Task> = vec![
            Task::Run(
                self.nftables.add_port_forward(workspace_id, guest_ip, guest_port, host_port),
            ),
        ];
        proof {
            assert(tasks_view(tasks@) =~= seq![
                TaskView::Run(port_forward_load(workspace_id@, guest_ip, guest_port, host_port)),
            ]);
        }
        single(tasks, "failed to add port forward")
    }

    /// Remove a port forwarding rule of a workspace.
    pub fn remove_port_forward(&self, workspace_id: &str, guest_port: u16) -> (r: Job)
        ensures
            job_ok(r@),
            r@ == job_of(
                seq![
                    must(
                        port_removal(workspace_id@, guest_port),
                        "failed to remove port forward"@,
                        seq![],
                    ),
                ],
            ),
    {
        single(
            self.nftables.remove_port_forward(workspace_id, guest_port),
            "failed to remove port forward",
        )
    }

    /// Bring back the network of a workspace that has an address already: the
    /// name of its TAP device, and what is to be done. The device is made
    /// anew, and the rules are replaced.
    pub fn ensure_workspace_network(
        &self,
        workspace_id: &str,
        guest_ip: Ipv4Addr,
        policy: &NetworkPolicy,
    ) -> (r: (String, Job))
        ensures
            r.0@ == tap_name(workspace_id@),
            job_ok(r.1@),
            r.1@ == restart_job(
                self.the_bridge().name(),
                self.firewall().bridge(),
                workspace_id@,
                guest_ip,
                *policy,
            ),
    {
        let tap: (String, Vec<Step>) = self.bridge.create_tap(workspace_id);
        let rules: Vec<Task> = self.nftables.apply_workspace_rules(
            workspace_id,
            guest_ip,
            policy,
            false,
        );
        let groups: Vec<Group> = vec![
            may_do(run_all(self.bridge.destroy_tap(workspace_id))),
            must_do(
                run_all(tap.1),
                "failed to create TAP device for workspace restart",
                Vec::new(),
            ),
            must_do(
                rules,
                "failed to apply firewall rules for workspace restart",
                self.bridge.destroy_tap(workspace_id),
            ),
        ];
        proof {
            let name = tap_name(workspace_id@);
            assert(steps_view(Seq::<Step>::empty()) =~= seq![]);
            assert(groups_view(groups@) =~= seq![
                may(runs(tap_destruction(name))),
                must(
                    runs(tap_creation(name, self.the_bridge().name())),
                    "failed to create TAP device for workspace restart"@,
                    seq![],
                ),
                must(
                    rule_application(
                        self.firewall().bridge(),
                        workspace_id@,
                        guest_ip,
                        *policy,
                        false,
                    ),
                    "failed to apply firewall rules for workspace restart"@,
                    tap_destruction(name),
                ),
            ]);
        }
        (tap.0, Job::new(groups))
    }

    /// Tear down the network of a workspace: remove its rules and destroy its
    /// TAP device, as far as that can be done.
    pub fn cleanup_workspace(&self, workspace_id: &str) -> (r: Job)
        ensures
            job_ok(r@),
            r@ == cleanup_job(workspace_id@),
    {
        let groups: Vec<Group> = vec![
            may_do(self.nftables.remove_workspace_rules(workspace_id)),
            may_do(run_all(self.bridge.destroy_tap(workspace_id))),
        ];
        proof {
            assert(groups_view(groups@) =~= seq![
                may(rule_removal(workspace_id@)),
                may(runs(tap_destruction(tap_name(workspace_id@)))),
            ]);
        }
        Job::new(groups)
    }

    /// The end of tearing down the network of a workspace: whatever became of
    /// the job, its address is released.
    pub fn cleanup_finish(&mut self, guest_ip: Ipv4Addr)
        requires
            old(self).wf(),
        ensures
            final(self).wf(),
            final(self).same_but_addresses(old(self)),
            final(self).addresses() == with_returned(old(self).addresses(), guest_ip),
    {
        self.ip_allocator.release(guest_ip);
    }

    /// Shut down: remove the host's own rules that were added at startup, as
    /// far as that can be done.
    pub fn shutdown(&self) -> (r: Job)
        ensures
            job_ok(r@),
            r@ == shutdown_job(self.the_bridge().name(), self.subnet()),
    {
        let name: &str = self.bridge.bridge_name();
        let subnet: &str = self.bridge_subnet.as_str();
        let groups: Vec<Group> = vec![
            may_do(cleanup_iptables_forward(name)),
            may_do(cleanup_iptables_nat(name, subnet)),
        ];
        proof {
            assert(groups_view(groups@) =~= seq![
                may(seq![forward_removed("-i"@, name@), forward_removed("-o"@, name@)]),
                may(seq![nat_removed(name@, subnet@)]),
            ]);
        }
        Job::new(groups)
    }

    /// Restore a previously allocated address (for state recovery).
    pub fn restore_ip(&mut self, ip: Ipv4Addr) -> (r: Result<(), String>)
        requires
            old(self).wf(),
        ensures
            final(self).wf(),
            final(self).same_but_addresses(old(self)),
            if (ip.a, ip.b) == old(self).addresses().prefix {
                r is Ok && final(self).addresses() == with_marked(
                    old(self).addresses(),
                    offset_of(ip),
                )
            } else {
                &&& r is Err
                &&& r->Err_0@ == foreign_text(ip, old(self).addresses().prefix)
                &&& final(self).addresses() == old(self).addresses()
            },
    {
        self.ip_allocator.mark_allocated(ip)
    }
}

// ---------------------------------------------------------------------------
// Laws
// ---------------------------------------------------------------------------

/// A setup that fails, at whatever stage, leaves no address behind: the
/// addresses that are taken are those from before the setup.
pub proof fn law_failed_setup_leaks_no_address(s: AllocatorView)
    requires
        allocator_ok(s),
        next_free(s) is Some,
    ensures
        ({
            let offset = next_free(s)->0;
            let ip = address_at(s.prefix, offset);
            with_returned(with_taken(s, offset), ip).taken == s.taken
        }),
{
    crate::network::dhcp::law_allocation_is_fresh(s);
    crate::network::dhcp::law_release_undoes_allocate(s);
}

/// Tearing down the network of a workspace, and shutting down, never fail.
pub proof fn law_cleanup_never_fails(id: Seq<char>, name: Seq<char>, subnet: Seq<char>)
    ensures
        cleanup_job(id) is Working && all_optional(cleanup_job(id)->Working_0),
        shutdown_job(name, subnet) is Working && all_optional(
            shutdown_job(name, subnet)->Working_0,
        ),
{
    crate::job::lemma_settled_optional(
        seq![may(rule_removal(id)), may(runs(tap_destruction(tap_name(id))))],
    );
    crate::job::lemma_settled_optional(
        seq![
            may(seq![forward_removed("-i"@, name), forward_removed("-o"@, name)]),
            may(seq![nat_removed(name, subnet)]),
        ],
    );
}

} // verus!
