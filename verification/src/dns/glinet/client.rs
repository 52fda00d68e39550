//! GL.Inet client decisions: login tokens, request URLs and payloads,
//! response handling, and which host entries to touch.

use vstd::prelude::*;
use crate::config::{base_url_spec, Config};
use crate::routeros::client::is_success;
use crate::text::{concat2, owned, str_eq, string_views};
use super::types::{GlInetDnsHost, LoginResponse};

verus! {

/// Why a login gave no token: the router's code and message.
#[derive(Debug)]
pub struct LoginFailure {
    pub code: i32,
    pub msg: String,
}

/// How the status of an authenticated request is to be read.
#[derive(Debug, Clone, Copy, PartialEq, Eq, Structural)]
pub enum RequestStatus {
    /// The token has expired (401): drop it and fail.
    Unauthorized,
    /// The request failed.
    Failed,
    /// The request succeeded.
    Succeeded,
}

/// Classify the status of a list or add request.
pub fn request_status(code: u16) -> (r: RequestStatus)
    ensures
        r == if code == 401 {
            RequestStatus::Unauthorized
        } else if 200 <= code && code < 300 {
            RequestStatus::Succeeded
        } else {
            RequestStatus::Failed
        },
{
    if code == 401 {
        RequestStatus::Unauthorized
    } else if is_success(code) {
        RequestStatus::Succeeded
    } else {
        RequestStatus::Failed
    }
}

/// Classify the status of a delete request: a host already gone (404) is fine.
pub fn delete_status(code: u16) -> (r: RequestStatus)
    ensures
        r == if code == 401 {
            RequestStatus::Unauthorized
        } else if (200 <= code && code < 300) || code == 404 {
            RequestStatus::Succeeded
        } else {
            RequestStatus::Failed
        },
{
    if code == 401 {
        RequestStatus::Unauthorized
    } else if is_success(code) || code == 404 {
        RequestStatus::Succeeded
    } else {
        RequestStatus::Failed
    }
}

/// What ensuring a host entry calls for.
#[derive(Debug, Clone, Copy, PartialEq, Eq, Structural)]
pub enum HostPlan {
    /// The entry already points at the IP.
    UpToDate,
    /// The entry points elsewhere: delete it, then add it anew.
    Update,
    /// There is no entry: add it.
    Add,
}

/// The first host entry for `domain`, if any.
pub open spec fn find_host_spec(hosts: Seq<GlInetDnsHost>, domain: Seq<char>) -> Option<GlInetDnsHost>
    decreases hosts.len(),
{
    if hosts.len() == 0 {
        None
    } else if hosts[0].domain@ == domain {
        Some(hosts[0])
    } else {
        find_host_spec(hosts.drop_first(), domain)
    }
}

/// The domains of the entries not in `active`, in order.
pub open spec fn unconfirmed_spec(hosts: Seq<GlInetDnsHost>, active: Seq<Seq<char>>) -> Seq<Seq<char>>
    decreases hosts.len(),
{
    if hosts.len() == 0 {
        Seq::empty()
    } else {
        let rest = unconfirmed_spec(hosts.drop_last(), active);
        if active.contains(hosts.last().domain@) {
            rest
        } else {
            rest.push(hosts.last().domain@)
        }
    }
}

/// The host found for a domain is the first entry of that domain.
pub proof fn lemma_find_host_first(hosts: Seq<GlInetDnsHost>, domain: Seq<char>, i: int)
    requires
        0 <= i < hosts.len(),
        hosts[i].domain@ == domain,
        forall|j: int| 0 <= j < i ==> (#[trigger] hosts[j]).domain@ != domain,
    ensures
        find_host_spec(hosts, domain) == Some(hosts[i]),
    decreases i,
{
    if i > 0 {
        let rest = hosts.drop_first();
        assert(hosts[0].domain@ != domain);
        assert forall|j: int| 0 <= j < i - 1 implies (#[trigger] rest[j]).domain@ != domain by {
            assert(rest[j] == hosts[j + 1]);
        }
        assert(rest[i - 1] == hosts[i]);
        lemma_find_host_first(rest, domain, i - 1);
    }
}

/// No host is found for a domain that no entry has.
pub proof fn lemma_find_host_absent(hosts: Seq<GlInetDnsHost>, domain: Seq<char>)
    requires
        forall|j: int| 0 <= j < hosts.len() ==> (#[trigger] hosts[j]).domain@ != domain,
    ensures
        find_host_spec(hosts, domain) is None,
    decreases hosts.len(),
{
    if hosts.len() > 0 {
        let rest = hosts.drop_first();
        assert(hosts[0].domain@ != domain);
        assert forall|j: int| 0 <= j < rest.len() implies (#[trigger] rest[j]).domain@ != domain by {
            assert(rest[j] == hosts[j + 1]);
        }
        lemma_find_host_absent(rest, domain);
    }
}

/// The unconfirmed domains are exactly the domains of the entries that are
/// not active, in the order of the entries.
pub proof fn lemma_unconfirmed_is_filter(hosts: Seq<GlInetDnsHost>, active: Seq<Seq<char>>)
    ensures
        unconfirmed_spec(hosts, active) == hosts.map_values(|h: GlInetDnsHost| h.domain@).filter(
            |d: Seq<char>| !active.contains(d),
        ),
    decreases hosts.len(),
{
    reveal(Seq::filter);
    let ds = hosts.map_values(|h: GlInetDnsHost| h.domain@);
    if hosts.len() > 0 {
        let init = hosts.drop_last();
        lemma_unconfirmed_is_filter(init, active);
        assert(ds.drop_last() =~= init.map_values(|h: GlInetDnsHost| h.domain@));
        assert(ds.last() == hosts.last().domain@);
    } else {
        assert(ds =~= Seq::<Seq<char>>::empty());
    }
}

/// Client settings and the cached login token of a GL.Inet router.
#[derive(Debug)]
pub struct GlInetClient {
    pub base_url: String,
    pub password: String,
    /// Whether invalid TLS certificates are accepted.
    pub accept_invalid_certs: bool,
    /// The cached login token.
    pub token: Option<String>,
}

impl GlInetClient {
    /// The cached token, if any.
    pub open spec fn cached(&self) -> Option<Seq<char>> {
        match self.token {
            Some(t) => Some(t@),
            None => None,
        }
    }

    /// Client settings from the operator configuration, with no token yet.
    pub fn new(config: &Config) -> (r: GlInetClient)
        ensures
            r.base_url@ == base_url_spec(config.dns_backend, config.dns_use_tls, config.dns_host@),
            r.password@ == config.dns_password@,
            r.accept_invalid_certs == !config.dns_tls_verify,
            r.cached() is None,
    {
        GlInetClient {
            base_url: config.dns_base_url(),
            password: config.dns_password.clone(),
            accept_invalid_certs: !config.dns_tls_verify,
            token: None,
        }
    }

    /// URL of the login endpoint.
    pub fn login_url(&self) -> (r: String)
        ensures
            r@ == self.base_url@ + "/cgi-bin/api/router/login"@,
    {
        concat2(self.base_url.as_str(), "/cgi-bin/api/router/login")
    }

    /// URL of the custom hosts endpoint.
    pub fn hosts_url(&self) -> (r: String)
        ensures
            r@ == self.base_url@ + "/cgi-bin/api/dns/custom_hosts"@,
    {
        concat2(self.base_url.as_str(), "/cgi-bin/api/dns/custom_hosts")
    }

    /// The cached token; `None` means a login is needed.
    pub fn get_token(&self) -> (r: Option<String>)
        ensures
            match r {
                Some(t) => self.cached() == Some(t@),
                None => self.cached() is None,
            },
    {
        match &self.token {
            Some(t) => Some(t.clone()),
            None => None,
        }
    }

    /// Cache a token obtained by logging in.
    pub fn store_token(&mut self, token: String)
        ensures
            final(self).cached() == Some(token@),
            final(self).base_url == old(self).base_url,
            final(self).password == old(self).password,
            final(self).accept_invalid_certs == old(self).accept_invalid_certs,
    {
        self.token = Some(token);
    }

    /// Drop the cached token (after a 401).
    pub fn clear_token(&mut self)
        ensures
            final(self).cached() is None,
            final(self).base_url == old(self).base_url,
            final(self).password == old(self).password,
            final(self).accept_invalid_certs == old(self).accept_invalid_certs,
    {
        self.token = None;
    }

    /// All host entries are handled: GL.Inet has no comment to mark ours.
    pub fn list_managed_hosts(&self, hosts: Vec<GlInetDnsHost>) -> (r: Vec<GlInetDnsHost>)
        ensures
            r@ == hosts@,
    {
        hosts
    }

    /// The domains that garbage collection would remove: the entries not in
    /// `active_fqdns`. They are only reported, never deleted, since their
    /// ownership cannot be confirmed.
    pub fn garbage_collect(&self, hosts: &Vec<GlInetDnsHost>, active_fqdns: &Vec<String>) -> (r: Vec<
        String,
    >)
        ensures
            string_views(r@) == unconfirmed_spec(hosts@, string_views(active_fqdns@)),
    {
        let ghost active = string_views(active_fqdns@);
        let mut out: Vec<String> = Vec::new();
        let mut i: usize = 0;
        assert(hosts@.take(0) =~= Seq::<GlInetDnsHost>::empty());
        assert(string_views(out@) =~= Seq::<Seq<char>>::empty());
        while i < hosts.len()
            invariant
                active == string_views(active_fqdns@),
                i <= hosts@.len(),
                string_views(out@) == unconfirmed_spec(hosts@.take(i as int), active),
            decreases hosts@.len() - i,
        {
            assert(hosts@.take(i + 1).drop_last() =~= hosts@.take(i as int));
            assert(hosts@.take(i + 1).last() == hosts@[i as int]);
            if !crate::text::contains_name(active_fqdns.as_slice(), hosts[i].domain.as_str()) {
                let ghost before = string_views(out@);
                out.push(hosts[i].domain.clone());
                assert(string_views(out@) =~= before.push(hosts@[i as int].domain@));
            }
            i = i + 1;
        }
        assert(hosts@.take(hosts@.len() as int) =~= hosts@);
        out
    }
}

/// The token of a login response: present and not empty, else the failure.
pub fn login_token(resp: LoginResponse) -> (r: Result<String, LoginFailure>)
    ensures
        match resp.token {
            Some(t) if t@.len() > 0 => r matches Ok(tok) && tok@ == t@,
            _ => r matches Err(f) && f.code == resp.code && f.msg@ == resp.msg@,
        },
{
    match resp.token {
        Some(t) => {
            if t.as_str().is_empty() {
                Err(LoginFailure { code: resp.code, msg: resp.msg })
            } else {
                Ok(t)
            }
        },
        None => Err(LoginFailure { code: resp.code, msg: resp.msg }),
    }
}

/// Find a host entry by domain.
pub fn find_host(hosts: Vec<GlInetDnsHost>, domain: &str) -> (r: Option<GlInetDnsHost>)
    ensures
        r == find_host_spec(hosts@, domain@),
{
    let mut i: usize = 0;
    assert(hosts@.skip(0) =~= hosts@);
    while i < hosts.len()
        invariant
            i <= hosts@.len(),
            find_host_spec(hosts@, domain@) == find_host_spec(hosts@.skip(i as int), domain@),
        decreases hosts@.len() - i,
    {
        let ghost rest = hosts@.skip(i as int);
        assert(rest[0] == hosts@[i as int]);
        assert(rest.drop_first() =~= hosts@.skip(i + 1));
        if str_eq(hosts[i].domain.as_str(), domain) {
            return Some(hosts[i].clone());
        }
        i = i + 1;
    }
    assert(hosts@.skip(i as int) =~= Seq::<GlInetDnsHost>::empty());
    None
}

/// The payload that adds a host entry: enabled, for `domain` at `ip`.
pub fn host_payload(domain: &str, ip: &str) -> (r: GlInetDnsHost)
    ensures
        r.domain@ == domain@,
        r.ip@ == ip@,
        r.enabled,
{
    GlInetDnsHost { domain: owned(domain), ip: owned(ip), enabled: true }
}

/// What ensuring an entry at `ip` calls for, given the entry found, if any.
/// GL.Inet keeps no TTL, so none is involved.
pub fn plan_ensure(found: &Option<GlInetDnsHost>, ip: &str) -> (r: HostPlan)
    ensures
        r == match found {
            Some(h) => if h.ip@ == ip@ {
                HostPlan::UpToDate
            } else {
                HostPlan::Update
            },
            None => HostPlan::Add,
        },
{
    match found {
        Some(h) => if str_eq(h.ip.as_str(), ip) {
            HostPlan::UpToDate
        } else {
            HostPlan::Update
        },
        None => HostPlan::Add,
    }
}

/// Whether deleting the entry of a domain calls for a request: only when an
/// entry was found.
pub fn plan_delete(found: &Option<GlInetDnsHost>) -> (r: bool)
    ensures
        r == found is Some,
{
    found.is_some()
}

} // verus!
