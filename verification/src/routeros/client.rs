//! RouterOS REST client decisions, scoped to the /ip/dns/static endpoint:
//! request URLs and payloads, response handling, and which records to touch.

use vstd::prelude::*;
use crate::config::{base_url_spec, Config};
use crate::text::{concat2, owned, string_views};
use super::types::RouterOsDnsRecord;
use super::urlencoding::{encode, encode_spec};

verus! {

/// Whether an HTTP status code is in the success class, 200 to 299.
pub fn is_success(code: u16) -> (r: bool)
    ensures
        r == (200 <= code && code < 300),
{
    200 <= code && code < 300
}

/// Why a RouterOS request failed.
#[derive(Debug)]
pub enum RouterOsError {
    /// The router answered with a status outside 2xx, and this body.
    Status { status: u16, body: String },
    /// The body did not parse; the parser's message.
    Parse { detail: String },
}

/// How a lookup response is to be read.
#[derive(Debug, Clone, Copy, PartialEq, Eq, Structural)]
pub enum LookupStatus {
    /// Nothing matched (404): no record.
    NotFound,
    /// The body lists the matching records.
    Found,
    /// The request failed.
    Failed,
}

/// Classify the status of a lookup: 404 means no record, success means a
/// list to parse, anything else is an error.
pub fn lookup_status(code: u16) -> (r: LookupStatus)
    ensures
        r == if code == 404 {
            LookupStatus::NotFound
        } else if 200 <= code && code < 300 {
            LookupStatus::Found
        } else {
            LookupStatus::Failed
        },
{
    if code == 404 {
        LookupStatus::NotFound
    } else if is_success(code) {
        LookupStatus::Found
    } else {
        LookupStatus::Failed
    }
}

/// A deletion succeeded: a success status, or 404 for a record already gone.
pub fn delete_succeeded(code: u16) -> (r: bool)
    ensures
        r == ((200 <= code && code < 300) || code == 404),
{
    is_success(code) || code == 404
}

/// The records carrying `tag` as their comment, in order.
pub open spec fn managed_spec(records: Seq<RouterOsDnsRecord>, tag: Seq<char>) -> Seq<RouterOsDnsRecord>
    decreases records.len(),
{
    if records.len() == 0 {
        Seq::empty()
    } else {
        let rest = managed_spec(records.drop_last(), tag);
        if records.last().comment@ == tag {
            rest.push(records.last())
        } else {
            rest
        }
    }
}

/// The records whose names are not in `active`, in order.
pub open spec fn stale_spec(records: Seq<RouterOsDnsRecord>, active: Seq<Seq<char>>) -> Seq<RouterOsDnsRecord>
    decreases records.len(),
{
    if records.len() == 0 {
        Seq::empty()
    } else {
        let rest = stale_spec(records.drop_last(), active);
        if active.contains(records.last().name@) {
            rest
        } else {
            rest.push(records.last())
        }
    }
}

/// The records kept by `managed_spec` all carry the tag and come from the list.
pub proof fn lemma_managed_members(records: Seq<RouterOsDnsRecord>, tag: Seq<char>)
    ensures
        forall|i: int|
            #![trigger managed_spec(records, tag)[i]]
            0 <= i < managed_spec(records, tag).len() ==> managed_spec(records, tag)[i].comment@ == tag
                && records.contains(managed_spec(records, tag)[i]),
    decreases records.len(),
{
    if records.len() > 0 {
        let init = records.drop_last();
        lemma_managed_members(init, tag);
        let rest = managed_spec(init, tag);
        assert forall|i: int| 0 <= i < rest.len() implies records.contains(#[trigger] rest[i]) by {
            assert(rest[i] == managed_spec(init, tag)[i]);
            let j = choose|j: int| 0 <= j < init.len() && init[j] == rest[i];
            assert(records[j] == rest[i]);
        }
        assert(records[records.len() - 1] == records.last());
    }
}

/// The records kept by `stale_spec` are records of the list whose names are not active.
pub proof fn lemma_stale_members(records: Seq<RouterOsDnsRecord>, active: Seq<Seq<char>>)
    ensures
        forall|i: int|
            #![trigger stale_spec(records, active)[i]]
            0 <= i < stale_spec(records, active).len() ==> !active.contains(
                stale_spec(records, active)[i].name@,
            ) && records.contains(stale_spec(records, active)[i]),
    decreases records.len(),
{
    if records.len() > 0 {
        let init = records.drop_last();
        lemma_stale_members(init, active);
        let rest = stale_spec(init, active);
        assert forall|i: int| 0 <= i < rest.len() implies records.contains(#[trigger] rest[i]) by {
            assert(rest[i] == stale_spec(init, active)[i]);
            let j = choose|j: int| 0 <= j < init.len() && init[j] == rest[i];
            assert(records[j] == rest[i]);
        }
        assert(records[records.len() - 1] == records.last());
    }
}

/// Garbage collection only deletes records that carry the operator's comment
/// and whose names are not active: records created by hand are left alone.
pub proof fn lemma_gc_deletes_only_managed_stale(
    records: Seq<RouterOsDnsRecord>,
    tag: Seq<char>,
    active: Seq<Seq<char>>,
)
    ensures
        forall|i: int|
            #![trigger stale_spec(managed_spec(records, tag), active)[i]]
            0 <= i < stale_spec(managed_spec(records, tag), active).len() ==> {
                let r = stale_spec(managed_spec(records, tag), active)[i];
                &&& r.comment@ == tag
                &&& !active.contains(r.name@)
                &&& records.contains(r)
            },
{
    let m = managed_spec(records, tag);
    lemma_managed_members(records, tag);
    lemma_stale_members(m, active);
    assert forall|i: int| 0 <= i < stale_spec(m, active).len() implies {
        let r = #[trigger] stale_spec(m, active)[i];
        &&& r.comment@ == tag
        &&& !active.contains(r.name@)
        &&& records.contains(r)
    } by {
        let r = stale_spec(m, active)[i];
        assert(m.contains(r));
        let j = choose|j: int| 0 <= j < m.len() && m[j] == r;
        assert(m[j] == managed_spec(records, tag)[j]);
    }
}

/// Every record that carries the tag is kept, in the order of the list:
/// the managed records are the list filtered by the tag.
pub proof fn lemma_managed_is_filter(records: Seq<RouterOsDnsRecord>, tag: Seq<char>)
    ensures
        managed_spec(records, tag) == records.filter(|r: RouterOsDnsRecord| r.comment@ == tag),
        forall|i: int|
            0 <= i < records.len() && (#[trigger] records[i]).comment@ == tag ==> managed_spec(
                records,
                tag,
            ).contains(records[i]),
    decreases records.len(),
{
    reveal(Seq::filter);
    if records.len() > 0 {
        let init = records.drop_last();
        lemma_managed_is_filter(init, tag);
        let rest = managed_spec(init, tag);
        assert forall|i: int|
            0 <= i < records.len() && (#[trigger] records[i]).comment@ == tag implies managed_spec(
                records,
                tag,
            ).contains(records[i]) by {
            let out = managed_spec(records, tag);
            if i < records.len() - 1 {
                assert(records[i] == init[i]);
                let k = choose|k: int| 0 <= k < rest.len() && rest[k] == init[i];
                assert(out[k] == rest[k]);
            } else {
                assert(records[i] == records.last());
                assert(out[out.len() - 1] == records.last());
            }
        }
    }
}

/// Every record whose name is not active is kept, in the order of the list:
/// the stale records are the list filtered by inactive names.
pub proof fn lemma_stale_is_filter(records: Seq<RouterOsDnsRecord>, active: Seq<Seq<char>>)
    ensures
        stale_spec(records, active) == records.filter(
            |r: RouterOsDnsRecord| !active.contains(r.name@),
        ),
        forall|i: int|
            0 <= i < records.len() && !active.contains((#[trigger] records[i]).name@) ==> stale_spec(
                records,
                active,
            ).contains(records[i]),
    decreases records.len(),
{
    reveal(Seq::filter);
    if records.len() > 0 {
        let init = records.drop_last();
        lemma_stale_is_filter(init, active);
        let rest = stale_spec(init, active);
        assert forall|i: int|
            0 <= i < records.len() && !active.contains((#[trigger] records[i]).name@)
                implies stale_spec(records, active).contains(records[i]) by {
            let out = stale_spec(records, active);
            if i < records.len() - 1 {
                assert(records[i] == init[i]);
                let k = choose|k: int| 0 <= k < rest.len() && rest[k] == init[i];
                assert(out[k] == rest[k]);
            } else {
                assert(records[i] == records.last());
                assert(out[out.len() - 1] == records.last());
            }
        }
    }
}

/// Garbage collection is complete: every record of the list that carries the
/// tag and whose name is not active is among those it deletes.
pub proof fn lemma_gc_deletes_every_managed_stale(
    records: Seq<RouterOsDnsRecord>,
    tag: Seq<char>,
    active: Seq<Seq<char>>,
)
    ensures
        forall|i: int|
            0 <= i < records.len() && (#[trigger] records[i]).comment@ == tag && !active.contains(
                records[i].name@,
            ) ==> stale_spec(managed_spec(records, tag), active).contains(records[i]),
{
    let m = managed_spec(records, tag);
    lemma_managed_is_filter(records, tag);
    lemma_stale_is_filter(m, active);
    assert forall|i: int|
        0 <= i < records.len() && (#[trigger] records[i]).comment@ == tag && !active.contains(
            records[i].name@,
        ) implies stale_spec(m, active).contains(records[i]) by {
        let k = choose|k: int| 0 <= k < m.len() && m[k] == records[i];
        assert(!active.contains(m[k].name@));
    }
}

/// What ensuring a record calls for.
#[derive(Debug)]
pub enum EnsurePlan {
    /// Our record already points at the IP.
    UpToDate,
    /// Our record points elsewhere: update record `id` with `payload`.
    Update { id: String, payload: RouterOsDnsRecord },
    /// A record of that name exists without our comment: it was made by hand
    /// and is left untouched; nothing is written.
    LeaveForeign { id: String, comment: String },
    /// No record has that name: create `payload`.
    Create { payload: RouterOsDnsRecord },
}

/// `payload` writes our record for `name`: that name, address and TTL, our
/// comment tag, matching subdomains.
pub open spec fn is_payload(
    payload: RouterOsDnsRecord,
    name: Seq<char>,
    address: Seq<char>,
    ttl: Seq<char>,
    tag: Seq<char>,
) -> bool {
    &&& payload.name@ == name
    &&& payload.address@ == address
    &&& payload.ttl@ == ttl
    &&& payload.comment@ == tag
    &&& payload.match_subdomain
}

/// The plan for ensuring `fqdn` at `ip` with TTL `ttl`, under comment tag
/// `tag`, given the record of that name that exists: nothing when our record
/// already points at `ip`; an update of our record when it points elsewhere;
/// nothing written over a record made by hand; a create when there is none.
pub open spec fn ensure_plan_spec(
    existing: Option<RouterOsDnsRecord>,
    tag: Seq<char>,
    fqdn: Seq<char>,
    ip: Seq<char>,
    ttl: Seq<char>,
    r: EnsurePlan,
) -> bool {
    match existing {
        Some(rec) => if rec.comment@ == tag && rec.address@ == ip {
            r is UpToDate
        } else if rec.comment@ == tag {
            r matches EnsurePlan::Update { id, payload } && id@ == rec.id@
                && is_payload(payload, fqdn, ip, ttl, tag)
        } else {
            r matches EnsurePlan::LeaveForeign { id, comment } && id@ == rec.id@ && comment@
                == rec.comment@
        },
        None => r matches EnsurePlan::Create { payload } && is_payload(payload, fqdn, ip, ttl, tag),
    }
}

/// Ensuring a record is idempotent. Plan once and carry the plan out: the
/// router then holds a record of that name with the address and comment of
/// the payload written (under whatever id it gives it), or, where nothing was
/// written, the record it held before. Planning the same ensure again then
/// writes nothing: our record is up to date, unless the name belongs to a
/// record made by hand, which is left alone again.
pub proof fn lemma_ensure_idempotent(
    existing: Option<RouterOsDnsRecord>,
    tag: Seq<char>,
    fqdn: Seq<char>,
    ip: Seq<char>,
    ttl: Seq<char>,
    first: EnsurePlan,
    stored: RouterOsDnsRecord,
    second: EnsurePlan,
)
    requires
        ensure_plan_spec(existing, tag, fqdn, ip, ttl, first),
        match first {
            EnsurePlan::Create { payload } => stored.address@ == payload.address@
                && stored.comment@ == payload.comment@,
            EnsurePlan::Update { id, payload } => stored.address@ == payload.address@
                && stored.comment@ == payload.comment@,
            _ => existing == Some(stored),
        },
        ensure_plan_spec(Some(stored), tag, fqdn, ip, ttl, second),
    ensures
        second !is Create && second !is Update,
        first !is LeaveForeign ==> second is UpToDate,
        first is LeaveForeign ==> second is LeaveForeign,
{
}

/// An ensure writes nothing over a record made by hand, writes nothing when
/// our record already points at the IP, and otherwise writes a payload that
/// names `fqdn`, points at `ip` and carries our tag: an update of the
/// existing record (under its id) or a create when the name has no record.
pub proof fn lemma_ensure_writes_only_ours(
    existing: Option<RouterOsDnsRecord>,
    tag: Seq<char>,
    fqdn: Seq<char>,
    ip: Seq<char>,
    ttl: Seq<char>,
    r: EnsurePlan,
)
    requires
        ensure_plan_spec(existing, tag, fqdn, ip, ttl, r),
    ensures
        existing matches Some(rec) && rec.comment@ != tag ==> r !is Update && r !is Create
            && r !is UpToDate,
        (r is UpToDate) == (existing matches Some(rec) && rec.comment@ == tag && rec.address@ == ip),
        (r is Create) == (existing is None),
        r matches EnsurePlan::Update { id, payload } ==> existing matches Some(rec) && id@ == rec.id@
            && payload.name@ == fqdn && payload.address@ == ip && payload.comment@ == tag,
        r matches EnsurePlan::Create { payload } ==> payload.name@ == fqdn && payload.address@ == ip
            && payload.comment@ == tag,
{
}

/// Client settings for the RouterOS REST API.
#[derive(Debug)]
pub struct RouterOsClient {
    pub base_url: String,
    pub username: String,
    pub password: String,
    pub comment_tag: String,
    /// Whether invalid TLS certificates are accepted.
    pub accept_invalid_certs: bool,
}

impl RouterOsClient {
    /// Client settings from the operator configuration.
    pub fn new(config: &Config) -> (r: RouterOsClient)
        ensures
            r.base_url@ == base_url_spec(config.dns_backend, config.dns_use_tls, config.dns_host@),
            r.username@ == config.dns_username@,
            r.password@ == config.dns_password@,
            r.comment_tag@ == config.dns_comment_tag@,
            r.accept_invalid_certs == !config.dns_tls_verify,
    {
        RouterOsClient {
            base_url: config.dns_base_url(),
            username: config.dns_username.clone(),
            password: config.dns_password.clone(),
            comment_tag: config.dns_comment_tag.clone(),
            accept_invalid_certs: !config.dns_tls_verify,
        }
    }

    /// URL of the static DNS records.
    pub fn records_url(&self) -> (r: String)
        ensures
            r@ == self.base_url@ + "/ip/dns/static"@,
    {
        concat2(self.base_url.as_str(), "/ip/dns/static")
    }

    /// URL of one record.
    pub fn record_url(&self, id: &str) -> (r: String)
        ensures
            r@ == self.base_url@ + "/ip/dns/static/"@ + id@,
    {
        let mut r = concat2(self.base_url.as_str(), "/ip/dns/static/");
        r.append(id);
        r
    }

    /// URL that lists the records of a name, whoever owns them.
    pub fn any_by_name_url(&self, name: &str) -> (r: String)
        ensures
            r@ == self.base_url@ + "/ip/dns/static?name="@ + encode_spec(name@),
    {
        let mut r = concat2(self.base_url.as_str(), "/ip/dns/static?name=");
        let e = encode(name);
        r.append(e.as_str());
        r
    }

    /// URL that lists the records of a name carrying our comment.
    pub fn managed_by_name_url(&self, name: &str) -> (r: String)
        ensures
            r@ == self.base_url@ + "/ip/dns/static?name="@ + encode_spec(name@) + "&comment="@
                + encode_spec(self.comment_tag@),
    {
        let mut r = self.any_by_name_url(name);
        r.append("&comment=");
        let e = encode(self.comment_tag.as_str());
        r.append(e.as_str());
        r
    }

    /// The payload that creates or updates our record for `name`.
    pub fn record_payload(&self, name: &str, address: &str, ttl: &str) -> (r: RouterOsDnsRecord)
        ensures
            is_payload(r, name@, address@, ttl@, self.comment_tag@),
            r.id@.len() == 0,
            r.disabled@.len() == 0,
            r.record_type@.len() == 0,
    {
        RouterOsDnsRecord {
            id: String::new(),
            name: owned(name),
            address: owned(address),
            ttl: owned(ttl),
            comment: self.comment_tag.clone(),
            disabled: String::new(),
            record_type: String::new(),
            match_subdomain: true,
        }
    }

    /// The records this operator manages: those carrying our comment.
    pub fn managed_records(&self, records: Vec<RouterOsDnsRecord>) -> (r: Vec<RouterOsDnsRecord>)
        ensures
            r@ == managed_spec(records@, self.comment_tag@),
    {
        let mut out: Vec<RouterOsDnsRecord> = Vec::new();
        let mut i: usize = 0;
        assert(records@.take(0) =~= Seq::<RouterOsDnsRecord>::empty());
        while i < records.len()
            invariant
                i <= records@.len(),
                out@ == managed_spec(records@.take(i as int), self.comment_tag@),
            decreases records@.len() - i,
        {
            assert(records@.take(i + 1).drop_last() =~= records@.take(i as int));
            assert(records@.take(i + 1).last() == records@[i as int]);
            if records[i].comment == self.comment_tag {
                out.push(records[i].clone());
            }
            i = i + 1;
        }
        assert(records@.take(records@.len() as int) =~= records@);
        out
    }

    /// The managed records of a list response: an error for a status outside
    /// 2xx (with the status and body), else an error if the body did not
    /// parse, else the parsed records that carry our comment, in the router's
    /// order. `parsed` is the body parsed as a record list, or the parser's
    /// message.
    pub fn list_managed_records(
        &self,
        status: u16,
        body: String,
        parsed: Result<Vec<RouterOsDnsRecord>, String>,
    ) -> (r: Result<Vec<RouterOsDnsRecord>, RouterOsError>)
        ensures
            !(200 <= status && status < 300) ==> (r matches Err(RouterOsError::Status { status: s, body: b })
                && s == status && b@ == body@),
            (200 <= status && status < 300) ==> match parsed {
                Ok(rs) => r matches Ok(v) && v@ == managed_spec(rs@, self.comment_tag@),
                Err(d) => r matches Err(RouterOsError::Parse { detail }) && detail@ == d@,
            },
    {
        if !is_success(status) {
            return Err(RouterOsError::Status { status, body });
        }
        match parsed {
            Ok(rs) => Ok(self.managed_records(rs)),
            Err(d) => Err(RouterOsError::Parse { detail: d }),
        }
    }

    /// What ensuring a record for `fqdn` at `ip` calls for, given the record
    /// of that name that exists, if any. Only records that carry our comment
    /// are written; a record made by hand is left as it is.
    pub fn plan_ensure(
        &self,
        existing: Option<RouterOsDnsRecord>,
        fqdn: &str,
        ip: &str,
        ttl: &str,
    ) -> (r: EnsurePlan)
        ensures
            ensure_plan_spec(existing, self.comment_tag@, fqdn@, ip@, ttl@, r),
    {
        match existing {
            Some(rec) => {
                let ours = rec.comment == self.comment_tag;
                if ours && crate::text::str_eq(rec.address.as_str(), ip) {
                    EnsurePlan::UpToDate
                } else if ours {
                    EnsurePlan::Update { id: rec.id, payload: self.record_payload(fqdn, ip, ttl) }
                } else {
                    EnsurePlan::LeaveForeign { id: rec.id, comment: rec.comment }
                }
            },
            None => EnsurePlan::Create { payload: self.record_payload(fqdn, ip, ttl) },
        }
    }

    /// The records that garbage collection deletes: managed records whose
    /// names are not active.
    pub fn stale_records(&self, managed: &Vec<RouterOsDnsRecord>, active_fqdns: &Vec<String>) -> (r:
        Vec<RouterOsDnsRecord>)
        ensures
            r@ == stale_spec(managed@, string_views(active_fqdns@)),
    {
        let ghost active = string_views(active_fqdns@);
        let mut out: Vec<RouterOsDnsRecord> = Vec::new();
        let mut i: usize = 0;
        assert(managed@.take(0) =~= Seq::<RouterOsDnsRecord>::empty());
        while i < managed.len()
            invariant
                active == string_views(active_fqdns@),
                i <= managed@.len(),
                out@ == stale_spec(managed@.take(i as int), active),
            decreases managed@.len() - i,
        {
            assert(managed@.take(i + 1).drop_last() =~= managed@.take(i as int));
            assert(managed@.take(i + 1).last() == managed@[i as int]);
            if !crate::text::contains_name(active_fqdns.as_slice(), managed[i].name.as_str()) {
                out.push(managed[i].clone());
            }
            i = i + 1;
        }
        assert(managed@.take(managed@.len() as int) =~= managed@);
        out
    }
}

/// The first record of a lookup response, if any.
pub fn first_record(records: Vec<RouterOsDnsRecord>) -> (r: Option<RouterOsDnsRecord>)
    ensures
        r == if records@.len() > 0 {
            Some(records@[0])
        } else {
            None::<RouterOsDnsRecord>
        },
{
    if records.len() > 0 {
        Some(records[0].clone())
    } else {
        None
    }
}

/// The record a lookup response names: none for 404, an error for any other
/// status outside 2xx (with the status and body), an error if the body did not
/// parse, else the first record listed, if any.
pub fn lookup_response(
    status: u16,
    body: String,
    parsed: Result<Vec<RouterOsDnsRecord>, String>,
) -> (r: Result<Option<RouterOsDnsRecord>, RouterOsError>)
    ensures
        status == 404 ==> r == Ok::<Option<RouterOsDnsRecord>, RouterOsError>(None),
        status != 404 && !(200 <= status && status < 300) ==> (r matches Err(
            RouterOsError::Status { status: s, body: b },
        ) && s == status && b@ == body@),
        (200 <= status && status < 300) ==> match parsed {
            Ok(rs) => r matches Ok(found) && found == if rs@.len() > 0 {
                Some(rs@[0])
            } else {
                None::<RouterOsDnsRecord>
            },
            Err(d) => r matches Err(RouterOsError::Parse { detail }) && detail@ == d@,
        },
{
    match lookup_status(status) {
        LookupStatus::NotFound => Ok(None),
        LookupStatus::Failed => Err(RouterOsError::Status { status, body }),
        LookupStatus::Found => match parsed {
            Ok(rs) => Ok(first_record(rs)),
            Err(d) => Err(RouterOsError::Parse { detail: d }),
        },
    }
}

/// The record to delete for a name, given our record of that name, if any.
pub fn plan_delete(found: Option<RouterOsDnsRecord>) -> (r: Option<String>)
    ensures
        match found {
            Some(rec) => r == Some(rec.id),
            None => r is None,
        },
{
    match found {
        Some(rec) => Some(rec.id),
        None => None,
    }
}

} // verus!
