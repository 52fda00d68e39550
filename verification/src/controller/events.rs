//! Kubernetes events for DNS operations: their reasons, types and messages.

use vstd::prelude::*;
use crate::registry::types::DnsAction;
use crate::text::{concat2, concat3};

verus! {

/// Component name used as the event source.
pub const COMPONENT: &'static str = "harvester-dns-controller";

/// Event reasons for DNS operations.
#[derive(Debug, Clone, Copy, PartialEq, Eq, Structural)]
pub enum DnsEventReason {
    /// DNS record was created.
    DnsRecordCreated,
    /// DNS record was updated (IP changed).
    DnsRecordUpdated,
    /// DNS record was deleted.
    DnsRecordDeleted,
    /// DNS record creation/update failed.
    DnsRecordFailed,
}

/// The name of a reason.
pub open spec fn reason_name(r: DnsEventReason) -> Seq<char> {
    match r {
        DnsEventReason::DnsRecordCreated => "DnsRecordCreated"@,
        DnsEventReason::DnsRecordUpdated => "DnsRecordUpdated"@,
        DnsEventReason::DnsRecordDeleted => "DnsRecordDeleted"@,
        DnsEventReason::DnsRecordFailed => "DnsRecordFailed"@,
    }
}

/// The event type of a reason: failures warn, everything else is normal.
pub open spec fn reason_type(r: DnsEventReason) -> Seq<char> {
    match r {
        DnsEventReason::DnsRecordFailed => "Warning"@,
        _ => "Normal"@,
    }
}

impl DnsEventReason {
    /// The reason's name.
    pub fn as_str(&self) -> (r: &'static str)
        ensures
            r@ == reason_name(*self),
    {
        match self {
            DnsEventReason::DnsRecordCreated => "DnsRecordCreated",
            DnsEventReason::DnsRecordUpdated => "DnsRecordUpdated",
            DnsEventReason::DnsRecordDeleted => "DnsRecordDeleted",
            DnsEventReason::DnsRecordFailed => "DnsRecordFailed",
        }
    }

    /// The event type: `Warning` for failures, `Normal` otherwise.
    pub fn event_type(&self) -> (r: &'static str)
        ensures
            r@ == reason_type(*self),
    {
        match self {
            DnsEventReason::DnsRecordFailed => "Warning",
            _ => "Normal",
        }
    }
}

/// An event to publish on a resource: its reason and message.
#[derive(Debug)]
pub struct DnsEvent {
    pub reason: DnsEventReason,
    pub message: String,
}

/// The message of a created record.
pub open spec fn created_message(fqdn: Seq<char>, ip: Seq<char>) -> Seq<char> {
    "Created DNS record "@ + fqdn + " -> "@ + ip
}

/// The message of an updated record.
pub open spec fn updated_message(fqdn: Seq<char>, ip: Seq<char>) -> Seq<char> {
    "Updated DNS record "@ + fqdn + " -> "@ + ip
}

/// The message of a deleted record.
pub open spec fn deleted_message(fqdn: Seq<char>) -> Seq<char> {
    "Deleted DNS record "@ + fqdn
}

/// The message of a failure.
pub open spec fn failed_message(fqdn: Seq<char>, error: Seq<char>) -> Seq<char> {
    "Failed to manage DNS record "@ + fqdn + ": "@ + error
}

/// The event for a created record.
pub fn record_created(fqdn: &str, ip: &str) -> (e: DnsEvent)
    ensures
        e.reason == DnsEventReason::DnsRecordCreated,
        e.message@ == created_message(fqdn@, ip@),
{
    let mut m = concat2("Created DNS record ", fqdn);
    m.append(" -> ");
    m.append(ip);
    DnsEvent { reason: DnsEventReason::DnsRecordCreated, message: m }
}

/// The event for an updated record.
pub fn record_updated(fqdn: &str, ip: &str) -> (e: DnsEvent)
    ensures
        e.reason == DnsEventReason::DnsRecordUpdated,
        e.message@ == updated_message(fqdn@, ip@),
{
    let mut m = concat2("Updated DNS record ", fqdn);
    m.append(" -> ");
    m.append(ip);
    DnsEvent { reason: DnsEventReason::DnsRecordUpdated, message: m }
}

/// The event for a deleted record.
pub fn record_deleted(fqdn: &str) -> (e: DnsEvent)
    ensures
        e.reason == DnsEventReason::DnsRecordDeleted,
        e.message@ == deleted_message(fqdn@),
{
    DnsEvent { reason: DnsEventReason::DnsRecordDeleted, message: concat2("Deleted DNS record ", fqdn) }
}

/// The event for a failure to manage a record.
pub fn record_failed(fqdn: &str, error: &str) -> (e: DnsEvent)
    ensures
        e.reason == DnsEventReason::DnsRecordFailed,
        e.message@ == failed_message(fqdn@, error@),
{
    let mut m = concat3("Failed to manage DNS record ", fqdn, ": ");
    m.append(error);
    DnsEvent { reason: DnsEventReason::DnsRecordFailed, message: m }
}

/// The event that a DNS action calls for: creations and updates with an IP,
/// and deletions; none for unchanged records or no action.
pub fn emit_for_action(action: DnsAction, fqdn: &str, ip: Option<&str>) -> (r: Option<DnsEvent>)
    ensures
        match action {
            DnsAction::Created => match ip {
                Some(a) => r matches Some(e) && e.reason == DnsEventReason::DnsRecordCreated
                    && e.message@ == created_message(fqdn@, a@),
                None => r is None,
            },
            DnsAction::Updated => match ip {
                Some(a) => r matches Some(e) && e.reason == DnsEventReason::DnsRecordUpdated
                    && e.message@ == updated_message(fqdn@, a@),
                None => r is None,
            },
            DnsAction::Deleted => r matches Some(e) && e.reason == DnsEventReason::DnsRecordDeleted
                && e.message@ == deleted_message(fqdn@),
            _ => r is None,
        },
{
    match action {
        DnsAction::Created => match ip {
            Some(a) => Some(record_created(fqdn, a)),
            None => None,
        },
        DnsAction::Updated => match ip {
            Some(a) => Some(record_updated(fqdn, a)),
            None => None,
        },
        DnsAction::Deleted => Some(record_deleted(fqdn)),
        _ => None,
    }
}

} // verus!
