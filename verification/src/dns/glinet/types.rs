//! Types for GL.Inet DNS custom hosts.

use vstd::prelude::*;

verus! {

/// Response from the GL.Inet login endpoint.
#[derive(Debug)]
pub struct LoginResponse {
    pub token: Option<String>,
    pub code: i32,
    pub msg: String,
}

/// A custom DNS host entry in GL.Inet.
#[derive(Debug)]
pub struct GlInetDnsHost {
    /// Hostname (FQDN).
    pub domain: String,
    /// Target IP address.
    pub ip: String,
    /// Whether the entry is enabled.
    pub enabled: bool,
}

impl Clone for GlInetDnsHost {
    fn clone(&self) -> (r: Self)
        ensures
            r == *self,
    {
        GlInetDnsHost { domain: self.domain.clone(), ip: self.ip.clone(), enabled: self.enabled }
    }
}

/// An entry is enabled unless it says otherwise.
pub fn default_true() -> (r: bool)
    ensures
        r,
{
    true
}

/// Response from the list hosts endpoint.
#[derive(Debug)]
pub struct ListHostsResponse {
    pub hosts: Vec<GlInetDnsHost>,
}

} // verus!
