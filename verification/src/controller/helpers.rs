//! Finding the VirtualMachine that owns a VMNC.

use vstd::prelude::*;
use crate::kubernetes::{OwnerReference, VmNetworkConfig};
use crate::text::{is_prefix, starts_with, str_eq};

verus! {

/// An owner reference names a KubeVirt VirtualMachine.
pub open spec fn is_vm_owner(r: OwnerReference) -> bool {
    r.kind@ == "VirtualMachine"@ && is_prefix("kubevirt.io/"@, r.api_version@)
}

/// The first owner reference that names a KubeVirt VirtualMachine.
pub open spec fn first_vm_owner(refs: Seq<OwnerReference>) -> Option<OwnerReference>
    decreases refs.len(),
{
    if refs.len() == 0 {
        None
    } else if is_vm_owner(refs[0]) {
        Some(refs[0])
    } else {
        first_vm_owner(refs.drop_first())
    }
}

/// The owner found is the first owner reference that names a KubeVirt
/// VirtualMachine.
pub proof fn lemma_first_vm_owner_at(refs: Seq<OwnerReference>, i: int)
    requires
        0 <= i < refs.len(),
        is_vm_owner(refs[i]),
        forall|j: int| 0 <= j < i ==> !is_vm_owner(#[trigger] refs[j]),
    ensures
        first_vm_owner(refs) == Some(refs[i]),
    decreases i,
{
    if i > 0 {
        let rest = refs.drop_first();
        assert(!is_vm_owner(refs[0]));
        assert forall|j: int| 0 <= j < i - 1 implies !is_vm_owner(#[trigger] rest[j]) by {
            assert(rest[j] == refs[j + 1]);
        }
        assert(rest[i - 1] == refs[i]);
        lemma_first_vm_owner_at(rest, i - 1);
    }
}

/// Without an owner reference naming a KubeVirt VirtualMachine there is no owner.
pub proof fn lemma_first_vm_owner_absent(refs: Seq<OwnerReference>)
    requires
        forall|j: int| 0 <= j < refs.len() ==> !is_vm_owner(#[trigger] refs[j]),
    ensures
        first_vm_owner(refs) is None,
    decreases refs.len(),
{
    if refs.len() > 0 {
        let rest = refs.drop_first();
        assert(!is_vm_owner(refs[0]));
        assert forall|j: int| 0 <= j < rest.len() implies !is_vm_owner(#[trigger] rest[j]) by {
            assert(rest[j] == refs[j + 1]);
        }
        lemma_first_vm_owner_absent(rest);
    }
}

/// Where the owning VirtualMachine of a VMNC is: its namespace and name.
pub open spec fn vm_owner_spec(vmnetcfg: VmNetworkConfig) -> Option<(Seq<char>, Seq<char>)> {
    match (vmnetcfg.metadata.namespace, vmnetcfg.metadata.owner_references) {
        (Some(ns), Some(refs)) => match first_vm_owner(refs@) {
            Some(r) => Some((ns@, r.name@)),
            None => None,
        },
        _ => None,
    }
}

/// The namespace and name of the VirtualMachine that owns a VMNC, if the
/// VMNC has a namespace and a VirtualMachine owner reference.
pub fn vm_owner(vmnetcfg: &VmNetworkConfig) -> (r: Option<(String, String)>)
    ensures
        match r {
            Some((ns, name)) => vm_owner_spec(*vmnetcfg) == Some((ns@, name@)),
            None => vm_owner_spec(*vmnetcfg) is None,
        },
{
    let namespace = match &vmnetcfg.metadata.namespace {
        Some(ns) => ns,
        None => {
            return None;
        },
    };
    let refs = match &vmnetcfg.metadata.owner_references {
        Some(r) => r,
        None => {
            return None;
        },
    };
    let mut i: usize = 0;
    assert(refs@.skip(0) =~= refs@);
    assert(vm_owner_spec(*vmnetcfg) == match first_vm_owner(refs@) {
        Some(r) => Some((namespace@, r.name@)),
        None => None::<(Seq<char>, Seq<char>)>,
    });
    while i < refs.len()
        invariant
            i <= refs@.len(),
            vm_owner_spec(*vmnetcfg) == match first_vm_owner(refs@) {
                Some(r) => Some((namespace@, r.name@)),
                None => None,
            },
            first_vm_owner(refs@) == first_vm_owner(refs@.skip(i as int)),
        decreases refs@.len() - i,
    {
        let ghost rest = refs@.skip(i as int);
        assert(rest[0] == refs@[i as int]);
        assert(rest.drop_first() =~= refs@.skip(i + 1));
        let r = &refs[i];
        if str_eq(r.kind.as_str(), "VirtualMachine") && starts_with(r.api_version.as_str(), "kubevirt.io/") {
            return Some((namespace.clone(), r.name.clone()));
        }
        i = i + 1;
    }
    assert(refs@.skip(i as int) =~= Seq::<OwnerReference>::empty());
    None
}

} // verus!
