//! Reconcile decisions for Harvester LoadBalancer resources.

use vstd::prelude::*;
use crate::kubernetes::{
    lb_address, lb_cluster_name, lookup_opt, name_any_spec, view_or_empty, HarvesterLB,
    LB_CLUSTER_LABEL,
};
use crate::registry::types::{same_source, ClaimSource, HostnameClaim};
use crate::text::{lowercase, owned, to_lowercase};
use super::ControllerAction;

verus! {

/// The address of a LoadBalancer's status, if any.
pub open spec fn lb_address_spec(lb: HarvesterLB) -> Option<Seq<char>> {
    match lb.status {
        Some(st) => match st.address {
            Some(a) => Some(a@),
            None => None,
        },
        None => None,
    }
}

/// The claim source that stands for a LoadBalancer.
pub open spec fn is_lb_source(lb: HarvesterLB, s: ClaimSource) -> bool {
    s matches ClaimSource::LoadBalancer { name, namespace } && name@ == name_any_spec(lb.metadata)
        && namespace@ == view_or_empty(lb.metadata.namespace)
}

/// What reconciling a LoadBalancer calls for.
#[derive(Debug)]
pub enum LbPlan {
    /// The LoadBalancer has no cluster label: nothing to do.
    Skip,
    /// The LoadBalancer is being deleted: remove its claim on `hostname`.
    RemoveClaim { hostname: String, source: ClaimSource },
    /// No address is allocated yet.
    WaitForAddress,
    /// Claim `hostname` for the LoadBalancer's address.
    UpsertClaim { hostname: String, claim: HostnameClaim },
}

impl LbPlan {
    /// When to look at the object again once the plan's work has succeeded.
    pub fn action_after_success(&self) -> (r: ControllerAction)
        ensures
            r == match self {
                LbPlan::Skip => ControllerAction::AwaitChange,
                LbPlan::RemoveClaim { .. } => ControllerAction::AwaitChange,
                LbPlan::WaitForAddress => ControllerAction::RequeueAfter(30),
                LbPlan::UpsertClaim { .. } => ControllerAction::RequeueAfter(600),
            },
    {
        match self {
            LbPlan::Skip => ControllerAction::AwaitChange,
            LbPlan::RemoveClaim { .. } => ControllerAction::AwaitChange,
            LbPlan::WaitForAddress => ControllerAction::RequeueAfter(30),
            LbPlan::UpsertClaim { .. } => ControllerAction::RequeueAfter(600),
        }
    }
}

/// The plan for a LoadBalancer, by views.
pub open spec fn lb_plan_spec(lb: HarvesterLB, plan: LbPlan) -> bool {
    match lookup_opt(lb.metadata.labels, LB_CLUSTER_LABEL@) {
        None => plan is Skip,
        Some(cluster) => if lb.metadata.deleting {
            plan matches LbPlan::RemoveClaim { hostname, source } && hostname@ == lowercase(cluster)
                && is_lb_source(lb, source)
        } else {
            match lb_address_spec(lb) {
                None => plan is WaitForAddress,
                Some(a) => plan matches LbPlan::UpsertClaim { hostname, claim } && hostname@
                    == lowercase(cluster) && claim.ip@ == a && is_lb_source(lb, claim.source),
            }
        },
    }
}

/// A deleted LoadBalancer gives up exactly the claim it made while live. Take
/// the same LoadBalancer (same name, namespace and cluster label) live with
/// an address and being deleted: the live plan claims the lowercased cluster
/// name under the LoadBalancer's own source (kind LoadBalancer, its name and
/// namespace), and the deletion plan removes the claim of that same source
/// on that same hostname.
pub proof fn lemma_lb_removes_its_own_claim(
    live: HarvesterLB,
    gone: HarvesterLB,
    p_live: LbPlan,
    p_gone: LbPlan,
)
    requires
        lb_plan_spec(live, p_live),
        lb_plan_spec(gone, p_gone),
        !live.metadata.deleting,
        gone.metadata.deleting,
        lb_address_spec(live) is Some,
        lookup_opt(live.metadata.labels, LB_CLUSTER_LABEL@) is Some,
        lookup_opt(gone.metadata.labels, LB_CLUSTER_LABEL@) == lookup_opt(
            live.metadata.labels,
            LB_CLUSTER_LABEL@,
        ),
        name_any_spec(gone.metadata) == name_any_spec(live.metadata),
        view_or_empty(gone.metadata.namespace) == view_or_empty(live.metadata.namespace),
    ensures
        p_live matches LbPlan::UpsertClaim { hostname: h1, claim } && p_gone matches LbPlan::RemoveClaim {
            hostname: h2,
            source,
        } && h1@ == h2@ && h1@ == lowercase(lookup_opt(live.metadata.labels, LB_CLUSTER_LABEL@)->0)
            && same_source(claim.source, source) && (source matches ClaimSource::LoadBalancer {
            name,
            namespace,
        } && name@ == name_any_spec(gone.metadata) && namespace@ == view_or_empty(
            gone.metadata.namespace,
        )),
{
}

/// The claim source of a LoadBalancer.
pub fn lb_source(lb: &HarvesterLB) -> (r: ClaimSource)
    ensures
        is_lb_source(*lb, r),
{
    ClaimSource::LoadBalancer {
        name: lb.metadata.name_any(),
        namespace: lb.metadata.namespace_or_default(),
    }
}

/// Decide what reconciling a LoadBalancer calls for.
///
/// The cluster label names the hostname; a deleted LoadBalancer gives up its
/// claim, a live one claims the hostname once it has an address.
pub fn plan_lb_reconcile(lb: &HarvesterLB) -> (r: LbPlan)
    ensures
        lb_plan_spec(*lb, r),
{
    let cluster_name = match lb_cluster_name(lb) {
        Some(name) => to_lowercase(name),
        None => {
            return LbPlan::Skip;
        },
    };
    let source = lb_source(lb);
    if lb.metadata.deleting {
        return LbPlan::RemoveClaim { hostname: cluster_name, source };
    }
    match lb_address(lb) {
        Some(addr) => LbPlan::UpsertClaim {
            hostname: cluster_name,
            claim: HostnameClaim { ip: owned(addr), source },
        },
        None => LbPlan::WaitForAddress,
    }
}

} // verus!
