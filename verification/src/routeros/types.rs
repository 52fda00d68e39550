//! RouterOS DNS static records.

use vstd::prelude::*;
use crate::text::str_eq;

verus! {

/// A DNS static record of the RouterOS REST API, used for both reading from
/// and writing to the API.
#[derive(Debug)]
pub struct RouterOsDnsRecord {
    /// RouterOS internal ID, e.g. "*1A". Read-only.
    pub id: String,
    pub name: String,
    pub address: String,
    pub ttl: String,
    pub comment: String,
    /// Read-only field from API responses.
    pub disabled: String,
    /// Read-only field from API responses.
    pub record_type: String,
    /// When true, this record also matches all subdomains.
    pub match_subdomain: bool,
}

impl Clone for RouterOsDnsRecord {
    fn clone(&self) -> (r: Self)
        ensures
            r == *self,
    {
        RouterOsDnsRecord {
            id: self.id.clone(),
            name: self.name.clone(),
            address: self.address.clone(),
            ttl: self.ttl.clone(),
            comment: self.comment.clone(),
            disabled: self.disabled.clone(),
            record_type: self.record_type.clone(),
            match_subdomain: self.match_subdomain,
        }
    }
}

impl Default for RouterOsDnsRecord {
    fn default() -> (r: Self)
        ensures
            r.id@.len() == 0,
            r.name@.len() == 0,
            r.address@.len() == 0,
            r.ttl@.len() == 0,
            r.comment@.len() == 0,
            r.disabled@.len() == 0,
            r.record_type@.len() == 0,
            !r.match_subdomain,
    {
        RouterOsDnsRecord {
            id: String::new(),
            name: String::new(),
            address: String::new(),
            ttl: String::new(),
            comment: String::new(),
            disabled: String::new(),
            record_type: String::new(),
            match_subdomain: false,
        }
    }
}

/// Read a RouterOS boolean: true exactly when the field is the string "true".
pub fn routeros_bool_from(value: Option<&str>) -> (r: bool)
    ensures
        r == (value matches Some(v) && v@ == "true"@),
{
    match value {
        Some(v) => str_eq(v, "true"),
        None => false,
    }
}

/// Write a RouterOS boolean as the string "true" or "false".
pub fn routeros_bool_text(value: bool) -> (r: &'static str)
    ensures
        r@ == if value {
            "true"@
        } else {
            "false"@
        },
{
    if value {
        "true"
    } else {
        "false"
    }
}

} // verus!
