//! The hostname registry: claims per hostname, and the DNS commands that keep
//! each hostname's record on its winning claim.

use vstd::prelude::*;
use crate::config::fqdn_spec;
use crate::dns::{DnsCommand, DnsEffect};
use crate::text::{concat3, lowercase, string_views, to_lowercase};
use crate::keyed::{distinct_keys, entries_view, has_key_at, lemma_entries_lookup, lemma_entries_push, lemma_entries_remove, lemma_entries_update, Keyed};
use super::types::{same_source, priority_of, ClaimSource, DnsAction, HostnameClaim};

verus! {

/// Result of an upsert or remove operation.
#[derive(Debug)]
pub struct RegistryResult {
    /// The action taken on the DNS record.
    pub action: DnsAction,
    /// The FQDN affected.
    pub fqdn: String,
    /// The IP address (if created/updated).
    pub ip: Option<String>,
}

/// The view of an optional string.
pub open spec fn opt_view(o: Option<String>) -> Option<Seq<char>> {
    match o {
        Some(s) => Some(s@),
        None => None,
    }
}

/// What an operation on the registry reports and asks of DNS, by views.
pub struct Outcome {
    pub action: DnsAction,
    pub fqdn: Seq<char>,
    pub ip: Option<Seq<char>>,
    pub effect: DnsEffect,
}

/// The outcome that a result and a command stand for.
pub open spec fn outcome_of(r: (RegistryResult, DnsCommand)) -> Outcome {
    Outcome { action: r.0.action, fqdn: r.0.fqdn@, ip: opt_view(r.0.ip), effect: r.1@ }
}

/// The FQDN of each hostname, in order.
pub open spec fn fqdns_of(hostnames: Seq<Seq<char>>, domain: Seq<char>) -> Seq<Seq<char>> {
    hostnames.map_values(|h: Seq<char>| fqdn_spec(h, domain))
}

/// The winning claim: the one of highest priority, the later one among equals.
pub open spec fn winner(claims: Seq<HostnameClaim>) -> Option<HostnameClaim>
    decreases claims.len(),
{
    if claims.len() == 0 {
        None
    } else {
        let last = claims.last();
        match winner(claims.drop_last()) {
            None => Some(last),
            Some(w) => if priority_of(last.source) >= priority_of(w.source) {
                Some(last)
            } else {
                Some(w)
            },
        }
    }
}

/// The claims that do not come from `src`, in order.
pub open spec fn without_source(claims: Seq<HostnameClaim>, src: ClaimSource) -> Seq<HostnameClaim>
    decreases claims.len(),
{
    if claims.len() == 0 {
        Seq::empty()
    } else {
        let rest = without_source(claims.drop_last(), src);
        if same_source(claims.last().source, src) {
            rest
        } else {
            rest.push(claims.last())
        }
    }
}

/// The claims after `c` replaces any claim of its source.
pub open spec fn upserted(claims: Seq<HostnameClaim>, c: HostnameClaim) -> Seq<HostnameClaim> {
    without_source(claims, c.source).push(c)
}

/// No two claims come from the same source.
pub open spec fn distinct_sources(claims: Seq<HostnameClaim>) -> bool {
    forall|i: int, j: int|
        0 <= i < j < claims.len() ==> !same_source(#[trigger] claims[i].source, #[trigger] claims[j].source)
}

/// The claims on `h`, none if it has none.
pub open spec fn claims_at(m: Map<Seq<char>, Seq<HostnameClaim>>, h: Seq<char>) -> Seq<HostnameClaim> {
    if m.contains_key(h) {
        m[h]
    } else {
        Seq::empty()
    }
}

/// Every hostname has at least one claim and at most one claim per source.
pub open spec fn claims_wf(m: Map<Seq<char>, Seq<HostnameClaim>>) -> bool {
    forall|h: Seq<char>| #[trigger]
        m.contains_key(h) ==> m[h].len() > 0 && distinct_sources(m[h])
}

/// The claims and the outcome after upserting claim `c` on the (lowercased) hostname `h`.
pub open spec fn upsert_spec(
    m: Map<Seq<char>, Seq<HostnameClaim>>,
    h: Seq<char>,
    c: HostnameClaim,
    domain: Seq<char>,
    ttl: Seq<char>,
) -> (Map<Seq<char>, Seq<HostnameClaim>>, Outcome) {
    let before = claims_at(m, h);
    let after = upserted(before, c);
    let w = winner(after)->0;
    let fq = fqdn_spec(h, domain);
    let action = match winner(before) {
        None => DnsAction::Created,
        Some(p) => if p.ip@ != w.ip@ {
            DnsAction::Updated
        } else {
            DnsAction::Unchanged
        },
    };
    (
        m.insert(h, after),
        Outcome {
            action,
            fqdn: fq,
            ip: Some(w.ip@),
            effect: DnsEffect::Ensure { fqdn: fq, ip: w.ip@, ttl },
        },
    )
}

/// The claims and the outcome after removing the claim of source `s` on the
/// (lowercased) hostname `h`.
pub open spec fn remove_spec(
    m: Map<Seq<char>, Seq<HostnameClaim>>,
    h: Seq<char>,
    s: ClaimSource,
    domain: Seq<char>,
    ttl: Seq<char>,
) -> (Map<Seq<char>, Seq<HostnameClaim>>, Outcome) {
    let fq = fqdn_spec(h, domain);
    if !m.contains_key(h) {
        (m, Outcome { action: DnsAction::NoOp, fqdn: fq, ip: None, effect: DnsEffect::Keep })
    } else {
        let before = m[h];
        let prev = winner(before);
        let rest = without_source(before, s);
        if rest.len() == 0 {
            (
                m.remove(h),
                Outcome {
                    action: DnsAction::Deleted,
                    fqdn: fq,
                    ip: match prev {
                        Some(p) => Some(p.ip@),
                        None => None,
                    },
                    effect: DnsEffect::Delete { fqdn: fq },
                },
            )
        } else {
            let w = winner(rest)->0;
            let changed = match prev {
                Some(p) => p.ip@ != w.ip@,
                None => false,
            };
            (
                m.insert(h, rest),
                Outcome {
                    action: if changed {
                        DnsAction::Updated
                    } else {
                        DnsAction::Unchanged
                    },
                    fqdn: fq,
                    ip: Some(w.ip@),
                    effect: if changed {
                        DnsEffect::Ensure { fqdn: fq, ip: w.ip@, ttl }
                    } else {
                        DnsEffect::Keep
                    },
                },
            )
        }
    }
}

/// `winner` picks a claim of the list exactly when the list is not empty.
pub proof fn lemma_winner_some(claims: Seq<HostnameClaim>)
    ensures
        (winner(claims) is Some) == (claims.len() > 0),
    decreases claims.len(),
{
    if claims.len() > 0 {
        lemma_winner_some(claims.drop_last());
    }
}

/// Every claim left by `without_source` is a claim of the list and not of `src`.
pub proof fn lemma_without_source_members(claims: Seq<HostnameClaim>, src: ClaimSource)
    ensures
        forall|i: int|
            #![trigger without_source(claims, src)[i]]
            0 <= i < without_source(claims, src).len() ==> !same_source(
                without_source(claims, src)[i].source,
                src,
            ) && claims.contains(without_source(claims, src)[i]),
        without_source(claims, src).len() <= claims.len(),
    decreases claims.len(),
{
    if claims.len() > 0 {
        let init = claims.drop_last();
        lemma_without_source_members(init, src);
        let rest = without_source(init, src);
        assert forall|i: int| 0 <= i < rest.len() implies claims.contains(#[trigger] rest[i]) by {
            let j = choose|j: int| 0 <= j < init.len() && init[j] == rest[i];
            assert(claims[j] == rest[i]);
        }
        assert(claims[claims.len() - 1] == claims.last());
    }
}

/// Removing a source keeps the sources distinct.
pub proof fn lemma_without_source_distinct(claims: Seq<HostnameClaim>, src: ClaimSource)
    requires
        distinct_sources(claims),
    ensures
        distinct_sources(without_source(claims, src)),
    decreases claims.len(),
{
    if claims.len() > 0 {
        let init = claims.drop_last();
        assert(distinct_sources(init)) by {
            assert forall|i: int, j: int| 0 <= i < j < init.len() implies !same_source(
                #[trigger] init[i].source,
                #[trigger] init[j].source,
            ) by {
                assert(init[i] == claims[i] && init[j] == claims[j]);
            }
        }
        lemma_without_source_distinct(init, src);
        lemma_without_source_members(init, src);
        let rest = without_source(init, src);
        if !same_source(claims.last().source, src) {
            let r2 = rest.push(claims.last());
            assert forall|i: int, j: int| 0 <= i < j < r2.len() implies !same_source(
                #[trigger] r2[i].source,
                #[trigger] r2[j].source,
            ) by {
                if j == r2.len() - 1 {
                    assert(init.contains(rest[i]));
                    let k = choose|k: int| 0 <= k < init.len() && init[k] == rest[i];
                    assert(claims[k] == rest[i]);
                    assert(!same_source(claims[k].source, claims[claims.len() - 1].source));
                } else {
                    assert(r2[i] == rest[i] && r2[j] == rest[j]);
                }
            }
        }
    }
}

/// Removing a source that no claim has leaves the list as it is.
pub proof fn lemma_without_absent_source(claims: Seq<HostnameClaim>, src: ClaimSource)
    requires
        forall|i: int| 0 <= i < claims.len() ==> !same_source(#[trigger] claims[i].source, src),
    ensures
        without_source(claims, src) == claims,
    decreases claims.len(),
{
    if claims.len() > 0 {
        let init = claims.drop_last();
        assert forall|i: int| 0 <= i < init.len() implies !same_source(#[trigger] init[i].source, src) by {
            assert(init[i] == claims[i]);
        }
        lemma_without_absent_source(init, src);
        assert(claims.last() == claims[claims.len() - 1]);
        assert(init.push(claims.last()) =~= claims);
    }
}

/// The hostname registry: claims per hostname, the DNS domain and the record TTL.
///
/// Several sources may claim one hostname. The claim of the highest priority
/// wins, and its IP is the one the DNS record should hold.
pub struct HostnameRegistry {
    entries: Vec<Keyed<Vec<HostnameClaim>>>,
    domain: String,
    ttl: String,
}

impl View for HostnameRegistry {
    type V = Map<Seq<char>, Seq<HostnameClaim>>;

    closed spec fn view(&self) -> Map<Seq<char>, Seq<HostnameClaim>> {
        entries_view(self.entries@)
    }
}

impl HostnameRegistry {
    /// The registry's internal invariant.
    pub closed spec fn wf(&self) -> bool {
        &&& distinct_keys(self.entries@)
        &&& forall|i: int|
            0 <= i < self.entries@.len() ==> (#[trigger] self.entries@[i]).value@.len() > 0
                && distinct_sources(self.entries@[i].value@)
    }

    /// The DNS domain suffix.
    pub closed spec fn domain_view(&self) -> Seq<char> {
        self.domain@
    }

    /// The TTL given to records.
    pub closed spec fn ttl_view(&self) -> Seq<char> {
        self.ttl@
    }

    /// A well-formed registry keeps at least one claim per hostname, at most one per source.
    pub proof fn lemma_wf_claims(&self)
        requires
            self.wf(),
        ensures
            claims_wf(self@),
    {
        assert forall|h: Seq<char>| #[trigger] self@.contains_key(h) implies self@[h].len() > 0
            && distinct_sources(self@[h]) by {
            let j = choose|j: int| #[trigger] has_key_at(self.entries@, j, h);
            lemma_entries_lookup(self.entries@, j);
        }
    }

    /// Create an empty registry.
    pub fn new(domain: String, ttl: String) -> (r: Self)
        ensures
            r.wf(),
            r@ == Map::<Seq<char>, Seq<HostnameClaim>>::empty(),
            r.domain_view() == domain@,
            r.ttl_view() == ttl@,
    {
        let r = HostnameRegistry { entries: Vec::new(), domain, ttl };
        assert(r@ =~= Map::<Seq<char>, Seq<HostnameClaim>>::empty());
        r
    }

    /// Build the FQDN for a hostname.
    fn fqdn(&self, hostname: &str) -> (r: String)
        ensures
            r@ == fqdn_spec(hostname@, self.domain@),
    {
        let lower = to_lowercase(hostname);
        concat3(lower.as_str(), ".", self.domain.as_str())
    }

    fn find(&self, hostname: &String) -> (r: Option<usize>)
        ensures
            match r {
                Some(i) => i < self.entries@.len() && self.entries@[i as int].key@ == hostname@,
                None => forall|i: int|
                    0 <= i < self.entries@.len() ==> !has_key_at(self.entries@, i, hostname@),
            },
    {
        let mut i: usize = 0;
        while i < self.entries.len()
            invariant
                i <= self.entries@.len(),
                forall|j: int| 0 <= j < i ==> !has_key_at(self.entries@, j, hostname@),
            decreases self.entries@.len() - i,
        {
            if self.entries[i].key == *hostname {
                return Some(i);
            }
            i = i + 1;
        }
        None
    }

    /// Upsert a claim for a hostname.
    ///
    /// Any claim of the same source is replaced. The result tells which
    /// action the change amounts to, and the command makes the hostname's
    /// record point at the winning claim.
    pub fn upsert(&mut self, hostname: &str, claim: HostnameClaim) -> (r: (RegistryResult, DnsCommand))
        requires
            old(self).wf(),
        ensures
            final(self).wf(),
            final(self).domain_view() == old(self).domain_view(),
            final(self).ttl_view() == old(self).ttl_view(),
            final(self)@ == upsert_spec(
                old(self)@,
                lowercase(hostname@),
                claim,
                old(self).domain_view(),
                old(self).ttl_view(),
            ).0,
            outcome_of(r) == upsert_spec(
                old(self)@,
                lowercase(hostname@),
                claim,
                old(self).domain_view(),
                old(self).ttl_view(),
            ).1,
    {
        let h = to_lowercase(hostname);
        let fqdn = self.fqdn(h.as_str());
        let idx = self.find(&h);
        let ghost old_es = self.entries@;
        let ghost before = claims_at(self@, h@);
        let mut prev_ip: Option<String> = None;
        let mut existing: Vec<HostnameClaim> = Vec::new();
        match idx {
            Some(i) => {
                proof {
                    lemma_entries_lookup(old_es, i as int);
                }
                let entry = self.entries.remove(i);
                existing = entry.value;
                let p = winning_index(&existing);
                match p {
                    Some(k) => {
                        prev_ip = Some(existing[k].ip.clone());
                    },
                    None => {},
                }
            },
            None => {
                proof {
                    assert(!self@.contains_key(h@));
                    assert(existing@ =~= before);
                }
            },
        }
        assert(existing@ == before);
        proof {
            lemma_winner_some(before);
        }
        let mut claims = retain_other_sources(existing, &claim.source);
        claims.push(claim);
        let ghost after = claims@;
        assert(after == upserted(before, claim));
        let w = winning_index_nonempty(&claims);
        let wip = claims[w].ip.clone();
        let action = match prev_ip {
            None => DnsAction::Created,
            Some(p) => if p != wip {
                DnsAction::Updated
            } else {
                DnsAction::Unchanged
            },
        };
        proof {
            assert(distinct_sources(after)) by {
                if idx is Some {
                    assert(distinct_sources(before));
                    lemma_without_source_distinct(before, claim.source);
                }
                lemma_without_source_members(before, claim.source);
                let rest = without_source(before, claim.source);
                assert forall|i: int, j: int| 0 <= i < j < after.len() implies !same_source(
                    #[trigger] after[i].source,
                    #[trigger] after[j].source,
                ) by {
                    if j == after.len() - 1 {
                        assert(after[i] == rest[i]);
                    } else {
                        assert(after[i] == rest[i] && after[j] == rest[j]);
                    }
                }
            }
        }
        let entry = Keyed { key: h, value: claims };
        match idx {
            Some(i) => {
                self.entries.insert(i, entry);
                proof {
                    assert(self.entries@ =~= old_es.update(i as int, entry));
                    lemma_entries_update(old_es, i as int, entry);
                }
            },
            None => {
                self.entries.push(entry);
                proof {
                    lemma_entries_push(old_es, entry);
                }
            },
        }
        proof {
            assert forall|i: int| 0 <= i < self.entries@.len() implies (
            #[trigger] self.entries@[i]).value@.len() > 0 && distinct_sources(
                self.entries@[i].value@,
            ) by {
                match idx {
                    Some(k) => {
                        if i != k {
                            assert(self.entries@[i] == old_es[i]);
                        }
                    },
                    None => {
                        if i < old_es.len() {
                            assert(self.entries@[i] == old_es[i]);
                        }
                    },
                }
            }
        }
        let res = RegistryResult { action, fqdn: fqdn.clone(), ip: Some(wip.clone()) };
        let cmd = DnsCommand::EnsureRecord { fqdn, ip: wip, ttl: self.ttl.clone() };
        (res, cmd)
    }

    /// Remove the claim of a source on a hostname.
    ///
    /// When other claims remain, the record moves to the next winning claim if
    /// its IP differs; when none remains, the record is deleted.
    pub fn remove(&mut self, hostname: &str, source: &ClaimSource) -> (r: (RegistryResult, DnsCommand))
        requires
            old(self).wf(),
        ensures
            final(self).wf(),
            final(self).domain_view() == old(self).domain_view(),
            final(self).ttl_view() == old(self).ttl_view(),
            final(self)@ == remove_spec(
                old(self)@,
                lowercase(hostname@),
                *source,
                old(self).domain_view(),
                old(self).ttl_view(),
            ).0,
            outcome_of(r) == remove_spec(
                old(self)@,
                lowercase(hostname@),
                *source,
                old(self).domain_view(),
                old(self).ttl_view(),
            ).1,
    {
        let h = to_lowercase(hostname);
        let fqdn = self.fqdn(h.as_str());
        let idx = self.find(&h);
        let ghost old_es = self.entries@;
        match idx {
            None => {
                proof {
                    assert(!self@.contains_key(h@));
                }
                (RegistryResult { action: DnsAction::NoOp, fqdn, ip: None }, DnsCommand::Nothing)
            },
            Some(i) => {
                proof {
                    lemma_entries_lookup(old_es, i as int);
                }
                let ghost before = old_es[i as int].value@;
                let entry = self.entries.remove(i);
                let existing = entry.value;
                proof {
                    lemma_winner_some(before);
                    lemma_without_source_distinct(before, *source);
                }
                let p = winning_index_nonempty(&existing);
                let prev_ip = existing[p].ip.clone();
                let rest = retain_other_sources(existing, source);
                if rest.len() == 0 {
                    proof {
                        lemma_entries_remove(old_es, i as int);
                        assert forall|j: int| 0 <= j < self.entries@.len() implies (
                        #[trigger] self.entries@[j]).value@.len() > 0 && distinct_sources(
                            self.entries@[j].value@,
                        ) by {
                            let j1 = if j < i { j } else { j + 1 };
                            assert(self.entries@[j] == old_es[j1]);
                        }
                    }
                    (
                        RegistryResult { action: DnsAction::Deleted, fqdn: fqdn.clone(), ip: Some(prev_ip) },
                        DnsCommand::DeleteRecord { fqdn },
                    )
                } else {
                    let w = winning_index_nonempty(&rest);
                    let wip = rest[w].ip.clone();
                    let changed = prev_ip != wip;
                    let entry = Keyed { key: h, value: rest };
                    self.entries.insert(i, entry);
                    proof {
                        assert(self.entries@ =~= old_es.update(i as int, entry));
                        lemma_entries_update(old_es, i as int, entry);
                        assert forall|j: int| 0 <= j < self.entries@.len() implies (
                        #[trigger] self.entries@[j]).value@.len() > 0 && distinct_sources(
                            self.entries@[j].value@,
                        ) by {
                            if j != i {
                                assert(self.entries@[j] == old_es[j]);
                            }
                        }
                    }
                    if changed {
                        (
                            RegistryResult {
                                action: DnsAction::Updated,
                                fqdn: fqdn.clone(),
                                ip: Some(wip.clone()),
                            },
                            DnsCommand::EnsureRecord { fqdn, ip: wip, ttl: self.ttl.clone() },
                        )
                    } else {
                        (
                            RegistryResult { action: DnsAction::Unchanged, fqdn, ip: Some(wip) },
                            DnsCommand::Nothing,
                        )
                    }
                }
            },
        }
    }

    /// The hostnames that have claims, each once, in the registry's order.
    pub closed spec fn hostnames(&self) -> Seq<Seq<char>> {
        self.entries@.map_values(|e: Keyed<Vec<HostnameClaim>>| e.key@)
    }

    /// Each hostname with claims occurs once in `hostnames`, and no other.
    pub proof fn lemma_hostnames(&self)
        requires
            self.wf(),
        ensures
            self.hostnames().no_duplicates(),
            forall|h: Seq<char>| #[trigger] self.hostnames().contains(h) <==> self@.contains_key(h),
    {
        let hs = self.hostnames();
        assert forall|i: int, j: int| 0 <= i < hs.len() && 0 <= j < hs.len() && i != j implies hs[i]
            != hs[j] by {
            assert(self.entries@[i].key@ != self.entries@[j].key@);
        }
        assert forall|h: Seq<char>| #[trigger] hs.contains(h) <==> self@.contains_key(h) by {
            if hs.contains(h) {
                let j = choose|j: int| 0 <= j < hs.len() && hs[j] == h;
                assert(has_key_at(self.entries@, j, h));
            }
            if self@.contains_key(h) {
                let j = choose|j: int| #[trigger] has_key_at(self.entries@, j, h);
                assert(hs[j] == h);
            }
        }
    }

    /// The FQDNs of all hostnames that have claims: one per hostname, in the
    /// order of `hostnames`.
    pub fn active_fqdns(&self) -> (r: Vec<String>)
        requires
            self.wf(),
        ensures
            string_views(r@) == fqdns_of(self.hostnames(), self.domain_view()),
            forall|x: Seq<char>|
                #[trigger] string_views(r@).contains(x) <==> exists|h: Seq<char>|
                    #[trigger] self@.contains_key(h) && x == fqdn_spec(h, self.domain_view()),
    {
        let mut out: Vec<String> = Vec::new();
        let mut i: usize = 0;
        while i < self.entries.len()
            invariant
                i <= self.entries@.len(),
                out@.len() == i,
                forall|j: int|
                    0 <= j < i ==> (#[trigger] out@[j])@ == fqdn_spec(
                        self.entries@[j].key@,
                        self.domain@,
                    ),
            decreases self.entries@.len() - i,
        {
            let f = self.fqdn(self.entries[i].key.as_str());
            out.push(f);
            i = i + 1;
        }
        proof {
            let v = string_views(out@);
            assert forall|x: Seq<char>| v.contains(x) implies exists|h: Seq<char>|
                #[trigger] self@.contains_key(h) && x == fqdn_spec(h, self.domain_view()) by {
                let j = choose|j: int| 0 <= j < v.len() && v[j] == x;
                assert(has_key_at(self.entries@, j, self.entries@[j].key@));
                assert(self@.contains_key(self.entries@[j].key@));
            }
            assert forall|x: Seq<char>|
                (exists|h: Seq<char>| #[trigger] self@.contains_key(h) && x == fqdn_spec(
                    h,
                    self.domain_view(),
                )) implies v.contains(x) by {
                let h = choose|h: Seq<char>| #[trigger] self@.contains_key(h) && x == fqdn_spec(
                    h,
                    self.domain_view(),
                );
                let j = choose|j: int| #[trigger] has_key_at(self.entries@, j, h);
                assert(v[j] == x);
            }
            assert(v =~= fqdns_of(self.hostnames(), self.domain_view()));
        }
        out
    }

    /// The garbage-collection command: delete every record whose FQDN no
    /// hostname with claims has.
    pub fn garbage_collect(&self) -> (r: DnsCommand)
        requires
            self.wf(),
        ensures
            r matches DnsCommand::GarbageCollect { active_fqdns } && string_views(active_fqdns@)
                == fqdns_of(self.hostnames(), self.domain_view()) && forall|x: Seq<char>|
                #[trigger] string_views(active_fqdns@).contains(x) <==> exists|h: Seq<char>|
                    #[trigger] self@.contains_key(h) && x == fqdn_spec(h, self.domain_view()),
    {
        DnsCommand::GarbageCollect { active_fqdns: self.active_fqdns() }
    }
}

/// The position of the winning claim, if any.
fn winning_index(claims: &Vec<HostnameClaim>) -> (r: Option<usize>)
    ensures
        match r {
            Some(i) => i < claims@.len() && winner(claims@) == Some(claims@[i as int]),
            None => claims@.len() == 0,
        },
{
    let mut best: Option<usize> = None;
    let mut i: usize = 0;
    while i < claims.len()
        invariant
            i <= claims@.len(),
            match best {
                Some(b) => b < i && winner(claims@.take(i as int)) == Some(claims@[b as int]),
                None => i == 0,
            },
        decreases claims@.len() - i,
    {
        proof {
            assert(claims@.take(i + 1).drop_last() =~= claims@.take(i as int));
            assert(claims@.take(i + 1).last() == claims@[i as int]);
        }
        match best {
            None => {
                best = Some(i);
                proof {
                    assert(claims@.take(0) =~= Seq::<HostnameClaim>::empty());
                }
            },
            Some(b) => {
                if claims[i].source.priority() >= claims[b].source.priority() {
                    best = Some(i);
                }
            },
        }
        i = i + 1;
    }
    proof {
        assert(claims@.take(claims@.len() as int) =~= claims@);
    }
    best
}

/// The position of the winning claim of a list that is not empty.
fn winning_index_nonempty(claims: &Vec<HostnameClaim>) -> (r: usize)
    requires
        claims@.len() > 0,
    ensures
        r < claims@.len(),
        winner(claims@) == Some(claims@[r as int]),
{
    match winning_index(claims) {
        Some(i) => i,
        None => 0,
    }
}

/// The claims that do not come from `src`.
fn retain_other_sources(claims: Vec<HostnameClaim>, src: &ClaimSource) -> (r: Vec<HostnameClaim>)
    ensures
        r@ == without_source(claims@, *src),
{
    let mut out: Vec<HostnameClaim> = Vec::new();
    let mut i: usize = 0;
    proof {
        assert(claims@.take(0) =~= Seq::<HostnameClaim>::empty());
    }
    while i < claims.len()
        invariant
            i <= claims@.len(),
            out@ == without_source(claims@.take(i as int), *src),
        decreases claims@.len() - i,
    {
        proof {
            assert(claims@.take(i + 1).drop_last() =~= claims@.take(i as int));
            assert(claims@.take(i + 1).last() == claims@[i as int]);
        }
        if !claims[i].source.same_as(src) {
            out.push(claims[i].clone());
        }
        i = i + 1;
    }
    proof {
        assert(claims@.take(claims@.len() as int) =~= claims@);
    }
    out
}

} // verus!
