//! Startup claims: the claims that existing VMNCs and LoadBalancers make,
//! gathered before stale records are collected.

use vstd::prelude::*;
use crate::kubernetes::{
    derive_hostname, derive_hostname_spec, lb_address, lb_cluster_name, lookup_opt,
    name_any_spec, opt_labels, view_or_empty, HarvesterLB, VmNetworkConfig, LB_CLUSTER_LABEL,
};
use crate::registry::types::{ClaimSource, HostnameClaim};
use crate::text::{lowercase, owned, to_lowercase};
use super::lb::{is_lb_source, lb_address_spec, lb_source};
use super::reconciler::{first_allocated_ip, first_allocated_ip_spec};

verus! {

/// The claim source that stands for a VMNC.
pub open spec fn is_vm_source(vmnetcfg: VmNetworkConfig, s: ClaimSource) -> bool {
    s matches ClaimSource::VirtualMachine { name, namespace } && name@ == name_any_spec(
        vmnetcfg.metadata,
    ) && namespace@ == view_or_empty(vmnetcfg.metadata.namespace)
}

/// The claim of a VMNC at startup: none while it is being deleted or has no
/// allocated IP, else its derived hostname for its first allocated IP.
pub fn startup_vm_claim(
    vmnetcfg: &VmNetworkConfig,
    vm_labels: Option<&Vec<(String, String)>>,
    use_guest_cluster_label: bool,
) -> (r: Option<(String, HostnameClaim)>)
    ensures
        match r {
            None => vmnetcfg.metadata.deleting || first_allocated_ip_spec(*vmnetcfg) is None,
            Some((h, c)) => {
                &&& !vmnetcfg.metadata.deleting
                &&& h@ == derive_hostname_spec(
                    *vmnetcfg,
                    opt_labels(vm_labels),
                    use_guest_cluster_label,
                )
                &&& first_allocated_ip_spec(*vmnetcfg) == Some(c.ip@)
                &&& is_vm_source(*vmnetcfg, c.source)
            },
        },
{
    if vmnetcfg.metadata.deleting {
        return None;
    }
    let hostname = derive_hostname(vmnetcfg, vm_labels, use_guest_cluster_label);
    match first_allocated_ip(vmnetcfg) {
        Some(ip) => Some(
            (
                hostname,
                HostnameClaim {
                    ip,
                    source: ClaimSource::VirtualMachine {
                        name: vmnetcfg.metadata.name_any(),
                        namespace: vmnetcfg.metadata.namespace_or_default(),
                    },
                },
            ),
        ),
        None => None,
    }
}

/// The claim of a LoadBalancer at startup: none while it is being deleted or
/// lacks a cluster label or an address, else its lowercased cluster name for
/// its address.
pub fn startup_lb_claim(lb: &HarvesterLB) -> (r: Option<(String, HostnameClaim)>)
    ensures
        match r {
            None => lb.metadata.deleting || lookup_opt(lb.metadata.labels, LB_CLUSTER_LABEL@) is None
                || lb_address_spec(*lb) is None,
            Some((h, c)) => {
                &&& !lb.metadata.deleting
                &&& lookup_opt(lb.metadata.labels, LB_CLUSTER_LABEL@) matches Some(cluster) && h@
                    == lowercase(cluster)
                &&& lb_address_spec(*lb) == Some(c.ip@)
                &&& is_lb_source(*lb, c.source)
            },
        },
{
    if lb.metadata.deleting {
        return None;
    }
    let cluster_name = match lb_cluster_name(lb) {
        Some(c) => to_lowercase(c),
        None => {
            return None;
        },
    };
    let address = match lb_address(lb) {
        Some(a) => owned(a),
        None => {
            return None;
        },
    };
    Some((cluster_name, HostnameClaim { ip: address, source: lb_source(lb) }))
}

} // verus!
