//! DNS record commands and what they do to a backend's records.
//!
//! A DNS backend offers three operations: make a name point at an address,
//! delete the record of a name, and delete every record whose name is not in
//! a given set. The library decides which of them to run; running them is the
//! caller's work.

pub mod glinet;
pub mod memory;

use vstd::prelude::*;
use crate::text::string_views;

verus! {

/// The effect of a DNS command, by the views of its strings.
pub enum DnsEffect {
    /// The record of `fqdn` points at `ip` afterwards.
    Ensure { fqdn: Seq<char>, ip: Seq<char>, ttl: Seq<char> },
    /// The record of `fqdn` is gone afterwards.
    Delete { fqdn: Seq<char> },
    /// Only the records whose names are in `active` remain.
    Collect { active: Seq<Seq<char>> },
    /// The records are left as they are.
    Keep,
}

/// A DNS operation for a backend to perform.
#[derive(Debug)]
pub enum DnsCommand {
    /// Ensure an A record for `fqdn` pointing at `ip`, with the given TTL.
    EnsureRecord { fqdn: String, ip: String, ttl: String },
    /// Delete the record for `fqdn`, if there is one.
    DeleteRecord { fqdn: String },
    /// Delete every managed record whose name is not in `active_fqdns`.
    GarbageCollect { active_fqdns: Vec<String> },
    /// Nothing to do.
    Nothing,
}

impl View for DnsCommand {
    type V = DnsEffect;

    open spec fn view(&self) -> DnsEffect {
        match self {
            DnsCommand::EnsureRecord { fqdn, ip, ttl } => DnsEffect::Ensure {
                fqdn: fqdn@,
                ip: ip@,
                ttl: ttl@,
            },
            DnsCommand::DeleteRecord { fqdn } => DnsEffect::Delete { fqdn: fqdn@ },
            DnsCommand::GarbageCollect { active_fqdns } => DnsEffect::Collect {
                active: string_views(active_fqdns@),
            },
            DnsCommand::Nothing => DnsEffect::Keep,
        }
    }
}

/// The records of a backend (name to address) after a command has run.
pub open spec fn apply_effect(records: Map<Seq<char>, Seq<char>>, e: DnsEffect) -> Map<
    Seq<char>,
    Seq<char>,
> {
    match e {
        DnsEffect::Ensure { fqdn, ip, .. } => records.insert(fqdn, ip),
        DnsEffect::Delete { fqdn } => records.remove(fqdn),
        DnsEffect::Collect { active } => records.restrict(active.to_set()),
        DnsEffect::Keep => records,
    }
}

/// Ensuring a record twice leaves the records as ensuring it once; so does
/// deleting twice.
pub proof fn lemma_commands_idempotent(records: Map<Seq<char>, Seq<char>>, fqdn: Seq<char>, ip: Seq<char>, ttl: Seq<char>)
    ensures
        apply_effect(apply_effect(records, DnsEffect::Ensure { fqdn, ip, ttl }), DnsEffect::Ensure { fqdn, ip, ttl })
            == apply_effect(records, DnsEffect::Ensure { fqdn, ip, ttl }),
        apply_effect(apply_effect(records, DnsEffect::Delete { fqdn }), DnsEffect::Delete { fqdn })
            == apply_effect(records, DnsEffect::Delete { fqdn }),
        apply_effect(records, DnsEffect::Ensure { fqdn, ip, ttl })[fqdn] == ip,
        !apply_effect(records, DnsEffect::Delete { fqdn }).contains_key(fqdn),
{
    assert(records.insert(fqdn, ip).insert(fqdn, ip) =~= records.insert(fqdn, ip));
    assert(records.remove(fqdn).remove(fqdn) =~= records.remove(fqdn));
}

/// DNS record management by a backend.
///
/// `records` is what the backend holds: each name with a record, and the
/// address it points at.
pub trait DnsClient {
    /// The backend's records, name to address.
    spec fn records(&self) -> Map<Seq<char>, Seq<char>>;

    /// The backend's internal invariant.
    spec fn inv(&self) -> bool;

    /// Ensure an A record exists for `fqdn` pointing at `ip`: update the
    /// record of that name if there is one, else create one.
    fn ensure_record(&mut self, fqdn: &str, ip: &str, ttl: &str) -> (r: Result<(), String>)
        requires
            old(self).inv(),
        ensures
            final(self).inv(),
            r is Ok ==> final(self).records() == old(self).records().insert(fqdn@, ip@),
    ;

    /// Delete the record of `fqdn`, if there is one.
    fn delete_record_for_fqdn(&mut self, fqdn: &str) -> (r: Result<(), String>)
        requires
            old(self).inv(),
        ensures
            final(self).inv(),
            r is Ok ==> final(self).records() == old(self).records().remove(fqdn@),
    ;

    /// Remove every record whose name is not in `active_fqdns`.
    ///
    /// `records` is the backend's model of the records it manages, and the
    /// contract is stated over it: on success exactly the managed records of
    /// active names are left. The in-memory backend manages all its records
    /// and meets it as stated. Against RouterOS this is what deleting the
    /// tagged records of inactive names (`RouterOsClient::stale_records`)
    /// does, records made by hand not being managed. GL.Inet hosts carry no
    /// owner mark, so the GL.Inet client deletes none of them and only
    /// reports; it is not a backend of this trait.
    fn garbage_collect(&mut self, active_fqdns: &[String]) -> (r: Result<(), String>)
        requires
            old(self).inv(),
        ensures
            final(self).inv(),
            r is Ok ==> final(self).records() == old(self).records().restrict(
                string_views(active_fqdns@).to_set(),
            ),
    ;
}

/// Carry out a DNS command with a backend. When the backend succeeds, its
/// records are those that the command's effect leaves. A command with nothing
/// to do always succeeds and leaves the backend untouched.
pub fn run_command<D: DnsClient>(dns: &mut D, cmd: &DnsCommand) -> (r: Result<(), String>)
    requires
        old(dns).inv(),
    ensures
        final(dns).inv(),
        r is Ok ==> final(dns).records() == apply_effect(old(dns).records(), cmd@),
        cmd@ is Keep ==> r is Ok && *final(dns) == *old(dns),
{
    match cmd {
        DnsCommand::EnsureRecord { fqdn, ip, ttl } => dns.ensure_record(fqdn.as_str(), ip.as_str(), ttl.as_str()),
        DnsCommand::DeleteRecord { fqdn } => dns.delete_record_for_fqdn(fqdn.as_str()),
        DnsCommand::GarbageCollect { active_fqdns } => dns.garbage_collect(active_fqdns.as_slice()),
        DnsCommand::Nothing => Ok(()),
    }
}

} // verus!
