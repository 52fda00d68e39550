//! The parts of Harvester's VirtualMachineNetworkConfig and LoadBalancer
//! resources that the controller reads, and the hostname derivation.

use vstd::prelude::*;
use crate::text::{lowercase, to_lowercase};

verus! {

/// Label key for the Harvester guest cluster name on VirtualMachine resources.
pub const GUEST_CLUSTER_LABEL: &'static str = "guestcluster.harvesterhci.io/name";

/// Annotation key for overriding the DNS hostname.
pub const HOSTNAME_ANNOTATION: &'static str = "dns.geeko.me/hostname";

/// Label key for the cluster name on Harvester LoadBalancer resources.
pub const LB_CLUSTER_LABEL: &'static str = "cloudprovider.harvesterhci.io/cluster";

/// The value of the first entry with key `key`, if any.
pub open spec fn lookup(entries: Seq<(String, String)>, key: Seq<char>) -> Option<Seq<char>>
    decreases entries.len(),
{
    if entries.len() == 0 {
        None
    } else if entries[0].0@ == key {
        Some(entries[0].1@)
    } else {
        lookup(entries.drop_first(), key)
    }
}

/// The value of an optional map for `key`, if any.
pub open spec fn lookup_opt(entries: Option<Vec<(String, String)>>, key: Seq<char>) -> Option<Seq<char>> {
    match entries {
        Some(v) => lookup(v@, key),
        None => None,
    }
}

/// The position of the first entry with key `key`, if any.
pub fn find_key(entries: &Vec<(String, String)>, key: &str) -> (r: Option<usize>)
    ensures
        match r {
            Some(i) => i < entries@.len() && lookup(entries@, key@) == Some(entries@[i as int].1@),
            None => lookup(entries@, key@) is None,
        },
{
    let mut i: usize = 0;
    assert(entries@.skip(0) =~= entries@);
    while i < entries.len()
        invariant
            i <= entries@.len(),
            lookup(entries@, key@) == lookup(entries@.skip(i as int), key@),
        decreases entries@.len() - i,
    {
        let ghost rest = entries@.skip(i as int);
        assert(rest[0] == entries@[i as int]);
        assert(rest.drop_first() =~= entries@.skip(i + 1));
        if crate::text::str_eq(entries[i].0.as_str(), key) {
            return Some(i);
        }
        i = i + 1;
    }
    assert(entries@.skip(i as int) =~= Seq::<(String, String)>::empty());
    None
}

/// A reference from an object to its owner.
#[derive(Debug, Clone)]
pub struct OwnerReference {
    pub api_version: String,
    pub kind: String,
    pub name: String,
}

/// Object metadata: the fields the controller reads.
#[derive(Debug, Clone)]
pub struct ObjectMeta {
    pub name: Option<String>,
    pub generate_name: Option<String>,
    pub namespace: Option<String>,
    pub labels: Option<Vec<(String, String)>>,
    pub annotations: Option<Vec<(String, String)>>,
    pub finalizers: Option<Vec<String>>,
    pub owner_references: Option<Vec<OwnerReference>>,
    /// Whether a deletion timestamp is set.
    pub deleting: bool,
}

impl Default for ObjectMeta {
    fn default() -> (r: Self)
        ensures
            r.name is None,
            r.generate_name is None,
            r.namespace is None,
            r.labels is None,
            r.annotations is None,
            r.finalizers is None,
            r.owner_references is None,
            !r.deleting,
    {
        ObjectMeta {
            name: None,
            generate_name: None,
            namespace: None,
            labels: None,
            annotations: None,
            finalizers: None,
            owner_references: None,
            deleting: false,
        }
    }
}

/// The view of an optional string, empty when absent.
pub open spec fn view_or_empty(o: Option<String>) -> Seq<char> {
    match o {
        Some(s) => s@,
        None => Seq::empty(),
    }
}

/// The name of an object, else its generated name prefix, else empty.
pub open spec fn name_any_spec(meta: ObjectMeta) -> Seq<char> {
    match meta.name {
        Some(n) => n@,
        None => view_or_empty(meta.generate_name),
    }
}

impl ObjectMeta {
    /// The name of the object, else its generated name prefix, else empty.
    pub fn name_any(&self) -> (r: String)
        ensures
            r@ == name_any_spec(*self),
    {
        match &self.name {
            Some(n) => n.clone(),
            None => match &self.generate_name {
                Some(g) => g.clone(),
                None => String::new(),
            },
        }
    }

    /// The namespace of the object, empty when unset.
    pub fn namespace_or_default(&self) -> (r: String)
        ensures
            r@ == view_or_empty(self.namespace),
    {
        match &self.namespace {
            Some(n) => n.clone(),
            None => String::new(),
        }
    }
}

/// Mirrors the networkConfig entry inside the spec.
#[derive(Debug, Clone)]
pub struct NetworkConfigEntry {
    pub mac_address: String,
    pub network_name: String,
}

/// Per-NIC status entry, populated by the DHCP controller once an IP is allocated.
#[derive(Debug, Clone)]
pub struct NetworkConfigStatus {
    pub mac_address: String,
    pub network_name: String,
    pub allocated_ip_address: Option<String>,
    pub state: Option<String>,
}

/// Status of a VirtualMachineNetworkConfig.
#[derive(Debug, Clone)]
pub struct VmNetworkConfigStatus {
    pub network_configs: Vec<NetworkConfigStatus>,
}

impl Default for VmNetworkConfigStatus {
    fn default() -> (r: Self)
        ensures
            r.network_configs@.len() == 0,
    {
        VmNetworkConfigStatus { network_configs: Vec::new() }
    }
}

/// Spec of a VirtualMachineNetworkConfig.
#[derive(Debug, Clone)]
pub struct VmNetworkConfigSpec_ {
    pub vm_name: String,
    pub network_configs: Vec<NetworkConfigEntry>,
}

/// A VirtualMachineNetworkConfig resource.
#[derive(Debug, Clone)]
pub struct VmNetworkConfig {
    pub metadata: ObjectMeta,
    pub spec: VmNetworkConfigSpec_,
    pub status: Option<VmNetworkConfigStatus>,
}

/// Status of a Harvester LoadBalancer.
#[derive(Debug, Clone)]
pub struct HarvesterLoadBalancerStatus {
    /// The allocated external IP address.
    pub address: Option<String>,
}

impl Default for HarvesterLoadBalancerStatus {
    fn default() -> (r: Self)
        ensures
            r.address is None,
    {
        HarvesterLoadBalancerStatus { address: None }
    }
}

/// A Harvester LoadBalancer resource.
#[derive(Debug, Clone)]
pub struct HarvesterLB {
    pub metadata: ObjectMeta,
    pub status: Option<HarvesterLoadBalancerStatus>,
}

/// The view of an optional string slice.
pub open spec fn opt_str_view(o: Option<&str>) -> Option<Seq<char>> {
    match o {
        Some(s) => Some(s@),
        None => None,
    }
}

/// The cluster name label of a LoadBalancer, if any.
pub fn lb_cluster_name(lb: &HarvesterLB) -> (r: Option<&str>)
    ensures
        opt_str_view(r) == lookup_opt(lb.metadata.labels, LB_CLUSTER_LABEL@),
{
    match &lb.metadata.labels {
        Some(labels) => match find_key(labels, LB_CLUSTER_LABEL) {
            Some(i) => Some(labels[i].1.as_str()),
            None => None,
        },
        None => None,
    }
}

/// The address allocated to a LoadBalancer, if any.
pub fn lb_address(lb: &HarvesterLB) -> (r: Option<&str>)
    ensures
        opt_str_view(r) == match lb.status {
            Some(st) => match st.address {
                Some(a) => Some(a@),
                None => None,
            },
            None => None,
        },
{
    match &lb.status {
        Some(st) => match &st.address {
            Some(a) => Some(a.as_str()),
            None => None,
        },
        None => None,
    }
}

/// The hostname of a VM: the hostname annotation if set, else the guest
/// cluster label of its VM when that is in use, else the VM name; lowercased.
pub open spec fn derive_hostname_spec(
    vmnetcfg: VmNetworkConfig,
    vm_labels: Option<Vec<(String, String)>>,
    use_guest_cluster_label: bool,
) -> Seq<char> {
    match lookup_opt(vmnetcfg.metadata.annotations, HOSTNAME_ANNOTATION@) {
        Some(h) => lowercase(h),
        None => match lookup_opt(vm_labels, GUEST_CLUSTER_LABEL@) {
            Some(c) if use_guest_cluster_label => lowercase(c),
            _ => lowercase(vmnetcfg.spec.vm_name@),
        },
    }
}

/// The view of an optional borrowed label map.
pub open spec fn opt_labels(o: Option<&Vec<(String, String)>>) -> Option<Vec<(String, String)>> {
    match o {
        Some(v) => Some(*v),
        None => None,
    }
}

/// Derive the DNS hostname for a VM.
///
/// Priority:
/// 1. the `dns.geeko.me/hostname` annotation on the VMNC;
/// 2. the `guestcluster.harvesterhci.io/name` label on the VM, if enabled;
/// 3. the VM name.
pub fn derive_hostname(
    vmnetcfg: &VmNetworkConfig,
    vm_labels: Option<&Vec<(String, String)>>,
    use_guest_cluster_label: bool,
) -> (r: String)
    ensures
        r@ == derive_hostname_spec(*vmnetcfg, opt_labels(vm_labels), use_guest_cluster_label),
{
    if let Some(annotations) = &vmnetcfg.metadata.annotations {
        if let Some(i) = find_key(annotations, HOSTNAME_ANNOTATION) {
            return to_lowercase(annotations[i].1.as_str());
        }
    }
    if use_guest_cluster_label {
        if let Some(labels) = vm_labels {
            if let Some(i) = find_key(labels, GUEST_CLUSTER_LABEL) {
                return to_lowercase(labels[i].1.as_str());
            }
        }
    }
    to_lowercase(vmnetcfg.spec.vm_name.as_str())
}

/// Some entry of the optional map has key `key`.
pub open spec fn holds_key(entries: Option<Vec<(String, String)>>, key: Seq<char>) -> bool {
    entries matches Some(v) && exists|j: int| 0 <= j < v@.len() && #[trigger] v@[j].0@ == key
}

/// Entry `i` is the first entry with key `key`.
pub open spec fn first_with_key(entries: Seq<(String, String)>, key: Seq<char>, i: int) -> bool {
    &&& 0 <= i < entries.len()
    &&& entries[i].0@ == key
    &&& forall|j: int| 0 <= j < i ==> #[trigger] entries[j].0@ != key
}

/// A lookup finds the value of the first entry with the key.
pub proof fn lemma_lookup_first(entries: Seq<(String, String)>, key: Seq<char>, i: int)
    requires
        first_with_key(entries, key, i),
    ensures
        lookup(entries, key) == Some(entries[i].1@),
    decreases i,
{
    if i > 0 {
        let rest = entries.drop_first();
        assert(entries[0].0@ != key);
        assert forall|j: int| 0 <= j < i - 1 implies #[trigger] rest[j].0@ != key by {
            assert(rest[j] == entries[j + 1]);
        }
        assert(rest[i - 1] == entries[i]);
        lemma_lookup_first(rest, key, i - 1);
    }
}

/// A lookup of a key that no entry holds finds nothing.
pub proof fn lemma_lookup_absent(entries: Option<Vec<(String, String)>>, key: Seq<char>)
    requires
        !holds_key(entries, key),
    ensures
        lookup_opt(entries, key) is None,
{
    if let Some(v) = entries {
        lemma_lookup_absent_seq(v@, key);
    }
}

proof fn lemma_lookup_absent_seq(entries: Seq<(String, String)>, key: Seq<char>)
    requires
        forall|j: int| 0 <= j < entries.len() ==> #[trigger] entries[j].0@ != key,
    ensures
        lookup(entries, key) is None,
    decreases entries.len(),
{
    if entries.len() > 0 {
        let rest = entries.drop_first();
        assert(entries[0].0@ != key);
        assert forall|j: int| 0 <= j < rest.len() implies #[trigger] rest[j].0@ != key by {
            assert(rest[j] == entries[j + 1]);
        }
        lemma_lookup_absent_seq(rest, key);
    }
}

/// The hostname annotation always wins: when the VMNC carries it, the
/// hostname is its value lowercased, whatever the VM's labels and whether
/// or not the guest-cluster label is in use.
pub proof fn lemma_hostname_annotation_wins(
    vmnetcfg: VmNetworkConfig,
    vm_labels: Option<Vec<(String, String)>>,
    use_guest_cluster_label: bool,
    annotations: Vec<(String, String)>,
    i: int,
)
    requires
        vmnetcfg.metadata.annotations == Some(annotations),
        first_with_key(annotations@, HOSTNAME_ANNOTATION@, i),
    ensures
        derive_hostname_spec(vmnetcfg, vm_labels, use_guest_cluster_label) == lowercase(
            annotations@[i].1@,
        ),
{
    lemma_lookup_first(annotations@, HOSTNAME_ANNOTATION@, i);
}

/// Without the hostname annotation, and with the guest-cluster label in
/// use, a VM labelled with its guest cluster gets the cluster name,
/// lowercased.
pub proof fn lemma_hostname_guest_cluster(
    vmnetcfg: VmNetworkConfig,
    labels: Vec<(String, String)>,
    i: int,
)
    requires
        !holds_key(vmnetcfg.metadata.annotations, HOSTNAME_ANNOTATION@),
        first_with_key(labels@, GUEST_CLUSTER_LABEL@, i),
    ensures
        derive_hostname_spec(vmnetcfg, Some(labels), true) == lowercase(labels@[i].1@),
{
    lemma_lookup_absent(vmnetcfg.metadata.annotations, HOSTNAME_ANNOTATION@);
    lemma_lookup_first(labels@, GUEST_CLUSTER_LABEL@, i);
}

/// Without the hostname annotation, the hostname is the VM name, lowercased,
/// when the guest-cluster label is not in use or the VM does not carry it.
pub proof fn lemma_hostname_vm_name(
    vmnetcfg: VmNetworkConfig,
    vm_labels: Option<Vec<(String, String)>>,
    use_guest_cluster_label: bool,
)
    requires
        !holds_key(vmnetcfg.metadata.annotations, HOSTNAME_ANNOTATION@),
        !use_guest_cluster_label || !holds_key(vm_labels, GUEST_CLUSTER_LABEL@),
    ensures
        derive_hostname_spec(vmnetcfg, vm_labels, use_guest_cluster_label) == lowercase(
            vmnetcfg.spec.vm_name@,
        ),
{
    lemma_lookup_absent(vmnetcfg.metadata.annotations, HOSTNAME_ANNOTATION@);
    if use_guest_cluster_label {
        lemma_lookup_absent(vm_labels, GUEST_CLUSTER_LABEL@);
    }
}

} // verus!
