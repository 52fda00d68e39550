//! Types for hostname claims.

use vstd::prelude::*;

verus! {

/// Action taken on a DNS record.
#[derive(Debug, Clone, Copy, PartialEq, Eq, Structural)]
pub enum DnsAction {
    /// A new DNS record was created.
    Created,
    /// An existing DNS record was updated with a new IP.
    Updated,
    /// The DNS record was already correct.
    Unchanged,
    /// The DNS record was deleted.
    Deleted,
    /// No action taken.
    NoOp,
}

impl DnsAction {
    /// Whether any DNS operation occurred.
    pub fn is_change(&self) -> (r: bool)
        ensures
            r == (*self == DnsAction::Created || *self == DnsAction::Updated || *self
                == DnsAction::Deleted),
    {
        match self {
            DnsAction::Created | DnsAction::Updated | DnsAction::Deleted => true,
            _ => false,
        }
    }
}

/// Source of a hostname claim.
#[derive(Debug, PartialEq, Eq, Hash)]
pub enum ClaimSource {
    /// Claim from a VirtualMachineNetworkConfig.
    VirtualMachine { name: String, namespace: String },
    /// Claim from a Harvester LoadBalancer.
    LoadBalancer { name: String, namespace: String },
}

/// The priority of a source: a load balancer outranks a virtual machine.
pub open spec fn priority_of(s: ClaimSource) -> u8 {
    match s {
        ClaimSource::VirtualMachine { .. } => 5,
        ClaimSource::LoadBalancer { .. } => 10,
    }
}

/// The kind name of a source.
pub open spec fn kind_of(s: ClaimSource) -> Seq<char> {
    match s {
        ClaimSource::VirtualMachine { .. } => "VirtualMachine"@,
        ClaimSource::LoadBalancer { .. } => "LoadBalancer"@,
    }
}

/// Two sources are the same when they are of one kind with equal name and namespace.
pub open spec fn same_source(a: ClaimSource, b: ClaimSource) -> bool {
    match (a, b) {
        (
            ClaimSource::VirtualMachine { name: n1, namespace: s1 },
            ClaimSource::VirtualMachine { name: n2, namespace: s2 },
        ) => n1@ == n2@ && s1@ == s2@,
        (
            ClaimSource::LoadBalancer { name: n1, namespace: s1 },
            ClaimSource::LoadBalancer { name: n2, namespace: s2 },
        ) => n1@ == n2@ && s1@ == s2@,
        _ => false,
    }
}

impl Clone for ClaimSource {
    fn clone(&self) -> (r: Self)
        ensures
            r == *self,
    {
        match self {
            ClaimSource::VirtualMachine { name, namespace } => ClaimSource::VirtualMachine {
                name: name.clone(),
                namespace: namespace.clone(),
            },
            ClaimSource::LoadBalancer { name, namespace } => ClaimSource::LoadBalancer {
                name: name.clone(),
                namespace: namespace.clone(),
            },
        }
    }
}

impl ClaimSource {
    /// The priority of this source. Higher wins.
    pub fn priority(&self) -> (r: u8)
        ensures
            r == priority_of(*self),
    {
        match self {
            ClaimSource::VirtualMachine { .. } => 5,
            ClaimSource::LoadBalancer { .. } => 10,
        }
    }

    /// A human-readable kind name.
    pub fn kind(&self) -> (r: &'static str)
        ensures
            r@ == kind_of(*self),
    {
        match self {
            ClaimSource::VirtualMachine { .. } => "VirtualMachine",
            ClaimSource::LoadBalancer { .. } => "LoadBalancer",
        }
    }

    /// Whether `other` is the same source.
    pub fn same_as(&self, other: &ClaimSource) -> (r: bool)
        ensures
            r == same_source(*self, *other),
    {
        match (self, other) {
            (
                ClaimSource::VirtualMachine { name: n1, namespace: s1 },
                ClaimSource::VirtualMachine { name: n2, namespace: s2 },
            ) => *n1 == *n2 && *s1 == *s2,
            (
                ClaimSource::LoadBalancer { name: n1, namespace: s1 },
                ClaimSource::LoadBalancer { name: n2, namespace: s2 },
            ) => *n1 == *n2 && *s1 == *s2,
            _ => false,
        }
    }
}

/// A claim on a hostname.
#[derive(Debug)]
pub struct HostnameClaim {
    pub ip: String,
    pub source: ClaimSource,
}

impl Clone for HostnameClaim {
    fn clone(&self) -> (r: Self)
        ensures
            r == *self,
    {
        HostnameClaim { ip: self.ip.clone(), source: self.source.clone() }
    }
}

} // verus!
