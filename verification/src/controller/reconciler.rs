//! Reconcile decisions for VirtualMachineNetworkConfig resources.

use vstd::prelude::*;
use crate::config::{fqdn_spec, Config};
use crate::kubernetes::{NetworkConfigStatus, VmNetworkConfig, VmNetworkConfigStatus};
use crate::registry::manager::opt_view;
use crate::text::{lowercase, str_eq, string_views};
use super::ControllerAction;
use super::finalizer::{finalizer_views, has_finalizer, with_finalizer, FINALIZER};

verus! {

/// The state of a NIC is `Allocated`.
pub open spec fn is_allocated(nc: NetworkConfigStatus) -> bool {
    nc.state matches Some(s) && s@ == "Allocated"@
}

/// The allocated IP of the first allocated NIC that has one.
pub open spec fn first_allocated(s: Seq<NetworkConfigStatus>) -> Option<Seq<char>>
    decreases s.len(),
{
    if s.len() == 0 {
        None
    } else if is_allocated(s[0]) && s[0].allocated_ip_address is Some {
        Some(s[0].allocated_ip_address->0@)
    } else {
        first_allocated(s.drop_first())
    }
}

/// The first allocated IP in a VMNC's status, if any.
pub open spec fn first_allocated_ip_spec(vmnetcfg: VmNetworkConfig) -> Option<Seq<char>> {
    match vmnetcfg.status {
        Some(st) => first_allocated(st.network_configs@),
        None => None,
    }
}

/// The NIC is in state `Allocated` and carries an allocated address.
pub open spec fn nic_has_address(nc: NetworkConfigStatus) -> bool {
    &&& nc.state matches Some(s) && s@ == "Allocated"@
    &&& nc.allocated_ip_address is Some
}

/// The IP of a VM with several NICs is that of its first NIC, in status
/// order, that is `Allocated` with an address.
pub proof fn lemma_first_allocated_ip_is_earliest(
    vmnetcfg: VmNetworkConfig,
    st: VmNetworkConfigStatus,
    i: int,
)
    requires
        vmnetcfg.status == Some(st),
        0 <= i < st.network_configs@.len(),
        nic_has_address(st.network_configs@[i]),
        forall|j: int| 0 <= j < i ==> !nic_has_address(#[trigger] st.network_configs@[j]),
    ensures
        first_allocated_ip_spec(vmnetcfg) == Some(
            st.network_configs@[i].allocated_ip_address->0@,
        ),
{
    lemma_first_allocated_at(st.network_configs@, i);
}

/// A VM none of whose NICs is `Allocated` with an address has no IP yet.
pub proof fn lemma_no_allocated_ip(vmnetcfg: VmNetworkConfig)
    requires
        vmnetcfg.status matches Some(st) ==> forall|j: int|
            0 <= j < st.network_configs@.len() ==> !nic_has_address(
                #[trigger] st.network_configs@[j],
            ),
    ensures
        first_allocated_ip_spec(vmnetcfg) is None,
{
    if let Some(st) = vmnetcfg.status {
        lemma_first_allocated_none(st.network_configs@);
    }
}

proof fn lemma_first_allocated_at(s: Seq<NetworkConfigStatus>, i: int)
    requires
        0 <= i < s.len(),
        nic_has_address(s[i]),
        forall|j: int| 0 <= j < i ==> !nic_has_address(#[trigger] s[j]),
    ensures
        first_allocated(s) == Some(s[i].allocated_ip_address->0@),
    decreases i,
{
    if i > 0 {
        let rest = s.drop_first();
        assert(!nic_has_address(s[0]));
        assert forall|j: int| 0 <= j < i - 1 implies !nic_has_address(#[trigger] rest[j]) by {
            assert(rest[j] == s[j + 1]);
        }
        assert(rest[i - 1] == s[i]);
        lemma_first_allocated_at(rest, i - 1);
    }
}

proof fn lemma_first_allocated_none(s: Seq<NetworkConfigStatus>)
    requires
        forall|j: int| 0 <= j < s.len() ==> !nic_has_address(#[trigger] s[j]),
    ensures
        first_allocated(s) is None,
    decreases s.len(),
{
    if s.len() > 0 {
        let rest = s.drop_first();
        assert(!nic_has_address(s[0]));
        assert forall|j: int| 0 <= j < rest.len() implies !nic_has_address(#[trigger] rest[j]) by {
            assert(rest[j] == s[j + 1]);
        }
        lemma_first_allocated_none(rest);
    }
}

/// Extract the first allocated IP from the VmNetworkConfig status.
pub fn first_allocated_ip(vmnetcfg: &VmNetworkConfig) -> (r: Option<String>)
    ensures
        opt_view(r) == first_allocated_ip_spec(*vmnetcfg),
{
    match &vmnetcfg.status {
        None => None,
        Some(st) => {
            let ncs = &st.network_configs;
            let mut i: usize = 0;
            assert(ncs@.skip(0) =~= ncs@);
            while i < ncs.len()
                invariant
                    i <= ncs@.len(),
                    first_allocated_ip_spec(*vmnetcfg) == first_allocated(ncs@),
                    first_allocated(ncs@) == first_allocated(ncs@.skip(i as int)),
                decreases ncs@.len() - i,
            {
                let ghost rest = ncs@.skip(i as int);
                assert(rest[0] == ncs@[i as int]);
                assert(rest.drop_first() =~= ncs@.skip(i + 1));
                let nc = &ncs[i];
                let allocated = match &nc.state {
                    Some(s) => str_eq(s.as_str(), "Allocated"),
                    None => false,
                };
                if allocated {
                    match &nc.allocated_ip_address {
                        Some(ip) => {
                            return Some(ip.clone());
                        },
                        None => {},
                    }
                }
                i = i + 1;
            }
            assert(ncs@.skip(i as int) =~= Seq::<NetworkConfigStatus>::empty());
            None
        },
    }
}

/// What reconciling a VirtualMachineNetworkConfig calls for.
#[derive(Debug)]
pub enum VmncPlan {
    /// The object is being deleted and holds our finalizer: delete the record
    /// of `fqdn`, then release the finalizer.
    ReleaseRecord { fqdn: String },
    /// The object is being deleted without our finalizer: nothing to do.
    AwaitChange,
    /// Attach our finalizer by writing this finalizer list.
    AddFinalizer { finalizers: Vec<String> },
    /// Point the record of `fqdn` at `ip`, with `ttl`.
    EnsureRecord { fqdn: String, ip: String, ttl: String },
    /// No IP is allocated yet.
    WaitForIp,
}

impl VmncPlan {
    /// When to look at the object again once the plan's work has succeeded.
    pub fn action_after_success(&self) -> (r: ControllerAction)
        ensures
            r == match self {
                VmncPlan::ReleaseRecord { .. } => ControllerAction::AwaitChange,
                VmncPlan::AwaitChange => ControllerAction::AwaitChange,
                VmncPlan::AddFinalizer { .. } => ControllerAction::RequeueAfter(1),
                VmncPlan::EnsureRecord { .. } => ControllerAction::RequeueAfter(600),
                VmncPlan::WaitForIp => ControllerAction::RequeueAfter(30),
            },
    {
        match self {
            VmncPlan::ReleaseRecord { .. } => ControllerAction::AwaitChange,
            VmncPlan::AwaitChange => ControllerAction::AwaitChange,
            VmncPlan::AddFinalizer { .. } => ControllerAction::RequeueAfter(1),
            VmncPlan::EnsureRecord { .. } => ControllerAction::RequeueAfter(600),
            VmncPlan::WaitForIp => ControllerAction::RequeueAfter(30),
        }
    }
}

/// The plan for a VirtualMachineNetworkConfig, by views.
pub open spec fn vmnc_plan_spec(vmnetcfg: VmNetworkConfig, config: Config, plan: VmncPlan) -> bool {
    let fq = fqdn_spec(vmnetcfg.spec.vm_name@, config.dns_domain@);
    let holds = finalizer_views(vmnetcfg.metadata.finalizers).contains(FINALIZER@);
    if vmnetcfg.metadata.deleting {
        if holds {
            plan matches VmncPlan::ReleaseRecord { fqdn } && fqdn@ == fq
        } else {
            plan is AwaitChange
        }
    } else if !holds {
        plan matches VmncPlan::AddFinalizer { finalizers } && string_views(finalizers@)
            == finalizer_views(vmnetcfg.metadata.finalizers).push(FINALIZER@)
    } else {
        match first_allocated_ip_spec(vmnetcfg) {
            Some(ip) => plan matches VmncPlan::EnsureRecord { fqdn, ip: p, ttl } && fqdn@ == fq
                && p@ == ip && ttl@ == config.dns_ttl@,
            None => plan is WaitForIp,
        }
    }
}

/// A deleted VMNC releases exactly the record that it held while live. Take
/// the same VMNC (same VM name), holding our finalizer, live with an
/// allocated IP and being deleted: the live plan points `name.domain` (the
/// VM name lowercased) at that IP with the configured TTL, and the deletion
/// plan releases the record of that same FQDN.
pub proof fn lemma_vmnc_release_matches_ensure(
    live: VmNetworkConfig,
    gone: VmNetworkConfig,
    config: Config,
    p_live: VmncPlan,
    p_gone: VmncPlan,
)
    requires
        vmnc_plan_spec(live, config, p_live),
        vmnc_plan_spec(gone, config, p_gone),
        !live.metadata.deleting,
        gone.metadata.deleting,
        finalizer_views(live.metadata.finalizers).contains(FINALIZER@),
        finalizer_views(gone.metadata.finalizers).contains(FINALIZER@),
        first_allocated_ip_spec(live) is Some,
        gone.spec.vm_name@ == live.spec.vm_name@,
    ensures
        p_live matches VmncPlan::EnsureRecord { fqdn: f1, ip, ttl } && p_gone matches VmncPlan::ReleaseRecord {
            fqdn: f2,
        } && f1@ == f2@ && f1@ == lowercase(live.spec.vm_name@) + "."@ + config.dns_domain@
            && ip@ == first_allocated_ip_spec(live)->0 && ttl@ == config.dns_ttl@,
{
}

/// No record is written for a VMNC before our finalizer holds its deletion
/// open: a live VMNC without it only gets the finalizer added, keeping the
/// finalizers it had; a deleted VMNC without it is left alone.
pub proof fn lemma_vmnc_finalizer_before_record(
    vmnetcfg: VmNetworkConfig,
    config: Config,
    plan: VmncPlan,
)
    requires
        vmnc_plan_spec(vmnetcfg, config, plan),
        !finalizer_views(vmnetcfg.metadata.finalizers).contains(FINALIZER@),
    ensures
        plan !is EnsureRecord && plan !is ReleaseRecord,
        !vmnetcfg.metadata.deleting ==> (plan matches VmncPlan::AddFinalizer { finalizers }
            && string_views(finalizers@).contains(FINALIZER@) && forall|i: int|
            0 <= i < finalizer_views(vmnetcfg.metadata.finalizers).len() ==> string_views(
                finalizers@,
            ).contains(#[trigger] finalizer_views(vmnetcfg.metadata.finalizers)[i])),
        vmnetcfg.metadata.deleting ==> plan is AwaitChange,
{
    if !vmnetcfg.metadata.deleting {
        let before = finalizer_views(vmnetcfg.metadata.finalizers);
        let after = before.push(FINALIZER@);
        assert(after[before.len() as int] == FINALIZER@);
        assert forall|i: int| 0 <= i < before.len() implies after.contains(#[trigger] before[i]) by {
            assert(after[i] == before[i]);
        }
    }
}

/// Decide what reconciling a VirtualMachineNetworkConfig calls for.
///
/// A deleted object gives up its record, then its finalizer; a live object
/// first gets our finalizer, then a record for its first allocated IP once
/// there is one.
pub fn plan_vmnc_reconcile(vmnetcfg: &VmNetworkConfig, config: &Config) -> (r: VmncPlan)
    ensures
        vmnc_plan_spec(*vmnetcfg, *config, r),
{
    let fqdn = config.fqdn_for(vmnetcfg.spec.vm_name.as_str());
    if vmnetcfg.metadata.deleting {
        if has_finalizer(vmnetcfg) {
            return VmncPlan::ReleaseRecord { fqdn };
        } else {
            return VmncPlan::AwaitChange;
        }
    }
    if !has_finalizer(vmnetcfg) {
        return VmncPlan::AddFinalizer { finalizers: with_finalizer(&vmnetcfg.metadata.finalizers) };
    }
    match first_allocated_ip(vmnetcfg) {
        Some(ip) => VmncPlan::EnsureRecord { fqdn, ip, ttl: config.dns_ttl.clone() },
        None => VmncPlan::WaitForIp,
    }
}

} // verus!
