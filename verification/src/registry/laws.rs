//! Properties of the registry's claim resolution and of the DNS commands it
//! issues.

use vstd::prelude::*;
use crate::config::fqdn_spec;
use crate::dns::{apply_effect, DnsEffect};
use super::manager::{
    claims_at, claims_wf, lemma_winner_some, lemma_without_absent_source,
    lemma_without_source_members, remove_spec, upsert_spec, upserted, winner, without_source,
};
use super::types::{priority_of, same_source, ClaimSource, DnsAction, HostnameClaim};

verus! {

/// The record of hostname `h` is where its claims say: it points at the
/// winning claim's IP while `h` has claims, and is absent otherwise.
pub open spec fn record_tracks(
    m: Map<Seq<char>, Seq<HostnameClaim>>,
    domain: Seq<char>,
    records: Map<Seq<char>, Seq<char>>,
    h: Seq<char>,
) -> bool {
    let fq = fqdn_spec(h, domain);
    if m.contains_key(h) && m[h].len() > 0 {
        records.contains_key(fq) && records[fq] == winner(m[h])->0.ip@
    } else {
        !records.contains_key(fq)
    }
}

/// The winning claim is one of the claims, and no claim has a higher priority.
pub proof fn lemma_winner_is_highest(claims: Seq<HostnameClaim>)
    ensures
        (winner(claims) is Some) == (claims.len() > 0),
        claims.len() > 0 ==> claims.contains(winner(claims)->0),
        forall|i: int|
            0 <= i < claims.len() ==> priority_of(#[trigger] claims[i].source) <= priority_of(
                winner(claims)->0.source,
            ),
    decreases claims.len(),
{
    lemma_winner_some(claims);
    if claims.len() > 0 {
        let init = claims.drop_last();
        lemma_winner_is_highest(init);
        assert(claims[claims.len() - 1] == claims.last());
        if init.len() > 0 {
            let w = winner(init)->0;
            let k = choose|k: int| 0 <= k < init.len() && init[k] == w;
            assert(claims[k] == w);
        }
        assert forall|i: int| 0 <= i < claims.len() implies priority_of(
            #[trigger] claims[i].source,
        ) <= priority_of(winner(claims)->0.source) by {
            if i < claims.len() - 1 {
                assert(claims[i] == init[i]);
            }
        }
    }
}

/// Among claims of equal priority the later one wins: the winner is a claim
/// of the highest priority, and every claim after it has a lower priority.
/// Returns the winner's position.
pub proof fn lemma_winner_is_last_of_highest(claims: Seq<HostnameClaim>) -> (k: int)
    requires
        claims.len() > 0,
    ensures
        0 <= k < claims.len(),
        winner(claims) == Some(claims[k]),
        forall|i: int|
            0 <= i < claims.len() ==> priority_of(#[trigger] claims[i].source) <= priority_of(
                claims[k].source,
            ),
        forall|i: int|
            k < i < claims.len() ==> priority_of(#[trigger] claims[i].source) < priority_of(
                claims[k].source,
            ),
    decreases claims.len(),
{
    let n = claims.len() - 1;
    let init = claims.drop_last();
    assert(claims.last() == claims[n]);
    if n == 0 {
        assert(winner(init) is None);
        0
    } else {
        let k0 = lemma_winner_is_last_of_highest(init);
        assert(init[k0] == claims[k0]);
        if priority_of(claims[n].source) >= priority_of(claims[k0].source) {
            assert forall|i: int| 0 <= i < claims.len() implies priority_of(
                #[trigger] claims[i].source,
            ) <= priority_of(claims[n].source) by {
                if i < n {
                    assert(init[i] == claims[i]);
                }
            }
            n
        } else {
            assert forall|i: int| 0 <= i < claims.len() implies priority_of(
                #[trigger] claims[i].source,
            ) <= priority_of(claims[k0].source) by {
                if i < n {
                    assert(init[i] == claims[i]);
                }
            }
            assert forall|i: int| k0 < i < claims.len() implies priority_of(
                #[trigger] claims[i].source,
            ) < priority_of(claims[k0].source) by {
                if i < n {
                    assert(init[i] == claims[i]);
                }
            }
            k0
        }
    }
}

/// Removing a source keeps exactly the claims of other sources, in order.
pub proof fn lemma_without_source_is_filter(claims: Seq<HostnameClaim>, src: ClaimSource)
    ensures
        without_source(claims, src) == claims.filter(
            |c: HostnameClaim| !same_source(c.source, src),
        ),
    decreases claims.len(),
{
    reveal(Seq::filter);
    if claims.len() > 0 {
        lemma_without_source_is_filter(claims.drop_last(), src);
    }
}

/// A load balancer's claim on a hostname wins over the claims of virtual machines.
pub proof fn lemma_load_balancer_wins(claims: Seq<HostnameClaim>)
    requires
        exists|i: int| 0 <= i < claims.len() && #[trigger] claims[i].source is LoadBalancer,
    ensures
        winner(claims)->0.source is LoadBalancer,
{
    lemma_winner_is_highest(claims);
    let i = choose|i: int| 0 <= i < claims.len() && #[trigger] claims[i].source is LoadBalancer;
    assert(priority_of(claims[i].source) <= priority_of(winner(claims)->0.source));
}

proof fn lemma_same_source_reflexive(s: ClaimSource)
    ensures
        same_source(s, s),
{
}

proof fn lemma_without_source_twice(claims: Seq<HostnameClaim>, src: ClaimSource)
    ensures
        without_source(without_source(claims, src), src) == without_source(claims, src),
{
    lemma_without_source_members(claims, src);
    let ws = without_source(claims, src);
    assert forall|i: int| 0 <= i < ws.len() implies !same_source(#[trigger] ws[i].source, src) by {
        assert(!same_source(without_source(claims, src)[i].source, src));
    }
    lemma_without_absent_source(ws, src);
}

proof fn lemma_without_own_source(claims: Seq<HostnameClaim>, c: HostnameClaim)
    ensures
        without_source(upserted(claims, c), c.source) == without_source(claims, c.source),
{
    let u = upserted(claims, c);
    lemma_same_source_reflexive(c.source);
    assert(u.drop_last() =~= without_source(claims, c.source));
    lemma_without_source_twice(claims, c.source);
}

proof fn lemma_without_all_same(claims: Seq<HostnameClaim>, src: ClaimSource)
    requires
        forall|i: int| 0 <= i < claims.len() ==> same_source(#[trigger] claims[i].source, src),
    ensures
        without_source(claims, src).len() == 0,
    decreases claims.len(),
{
    if claims.len() > 0 {
        let init = claims.drop_last();
        assert forall|i: int| 0 <= i < init.len() implies same_source(#[trigger] init[i].source, src) by {
            assert(init[i] == claims[i]);
        }
        lemma_without_all_same(init, src);
        assert(claims.last() == claims[claims.len() - 1]);
    }
}

/// Upserting a claim and then removing its source restores the claims, when
/// that source had no claim on the hostname before.
pub proof fn lemma_upsert_then_remove_restores(
    m: Map<Seq<char>, Seq<HostnameClaim>>,
    h: Seq<char>,
    c: HostnameClaim,
    domain: Seq<char>,
    ttl: Seq<char>,
)
    requires
        claims_wf(m),
        forall|i: int|
            0 <= i < claims_at(m, h).len() ==> !same_source(
                #[trigger] claims_at(m, h)[i].source,
                c.source,
            ),
    ensures
        remove_spec(upsert_spec(m, h, c, domain, ttl).0, h, c.source, domain, ttl).0 == m,
{
    let before = claims_at(m, h);
    let m1 = upsert_spec(m, h, c, domain, ttl).0;
    lemma_without_own_source(before, c);
    lemma_without_absent_source(before, c.source);
    assert(m1[h] == upserted(before, c));
    if m.contains_key(h) {
        assert(m1.insert(h, before) =~= m);
    } else {
        assert(m1.remove(h) =~= m);
    }
}

/// Upserting the same claim twice changes nothing the second time.
pub proof fn lemma_upsert_idempotent(
    m: Map<Seq<char>, Seq<HostnameClaim>>,
    h: Seq<char>,
    c: HostnameClaim,
    domain: Seq<char>,
    ttl: Seq<char>,
)
    ensures
        upsert_spec(upsert_spec(m, h, c, domain, ttl).0, h, c, domain, ttl).0 == upsert_spec(
            m,
            h,
            c,
            domain,
            ttl,
        ).0,
        upsert_spec(upsert_spec(m, h, c, domain, ttl).0, h, c, domain, ttl).1.action
            == DnsAction::Unchanged,
        upsert_spec(upsert_spec(m, h, c, domain, ttl).0, h, c, domain, ttl).1.effect
            == upsert_spec(m, h, c, domain, ttl).1.effect,
{
    let before = claims_at(m, h);
    let after = upserted(before, c);
    let m1 = upsert_spec(m, h, c, domain, ttl).0;
    assert(claims_at(m1, h) == after);
    lemma_without_own_source(before, c);
    assert(upserted(after, c) == after);
    lemma_winner_some(after);
    assert(m1.insert(h, after) =~= m1);
}

/// After an upsert, the command it issues leaves the hostname's record
/// pointing at the winning claim, whatever the records were before.
pub proof fn lemma_upsert_points_record_at_winner(
    m: Map<Seq<char>, Seq<HostnameClaim>>,
    h: Seq<char>,
    c: HostnameClaim,
    domain: Seq<char>,
    ttl: Seq<char>,
    records: Map<Seq<char>, Seq<char>>,
)
    ensures
        record_tracks(
            upsert_spec(m, h, c, domain, ttl).0,
            domain,
            apply_effect(records, upsert_spec(m, h, c, domain, ttl).1.effect),
            h,
        ),
{
    let after = upserted(claims_at(m, h), c);
    lemma_winner_some(after);
}

/// An upsert replaces the claim of the same source, and asks for the record
/// to point at a claim of the highest priority among the resulting claims;
/// it reports `Created` exactly when the hostname had no claims.
pub proof fn lemma_upsert_points_at_highest(
    m: Map<Seq<char>, Seq<HostnameClaim>>,
    h: Seq<char>,
    c: HostnameClaim,
    domain: Seq<char>,
    ttl: Seq<char>,
)
    ensures
        ({
            let (m2, o) = upsert_spec(m, h, c, domain, ttl);
            let after = m2[h];
            &&& after == without_source(claims_at(m, h), c.source).push(c)
            &&& o.effect matches DnsEffect::Ensure { fqdn, ip, ttl: t } && fqdn == fqdn_spec(h, domain)
                && t == ttl && exists|k: int|
                0 <= k < after.len() && #[trigger] after[k].ip@ == ip && forall|i: int|
                    0 <= i < after.len() ==> priority_of(#[trigger] after[i].source) <= priority_of(
                        after[k].source,
                    )
            &&& (o.action == DnsAction::Created) == (claims_at(m, h).len() == 0)
        }),
{
    let before = claims_at(m, h);
    let after = upserted(before, c);
    lemma_winner_is_highest(after);
    lemma_winner_is_highest(before);
    let w = winner(after)->0;
    let k = choose|k: int| 0 <= k < after.len() && after[k] == w;
    assert(after[k].ip@ == w.ip@);
}

/// A removal that leaves claims moves the record to a claim of the highest
/// priority among those left when its IP differs from the previous winner's,
/// and writes nothing otherwise.
pub proof fn lemma_remove_points_at_highest(
    m: Map<Seq<char>, Seq<HostnameClaim>>,
    h: Seq<char>,
    s: ClaimSource,
    domain: Seq<char>,
    ttl: Seq<char>,
)
    requires
        m.contains_key(h),
        without_source(m[h], s).len() > 0,
    ensures
        ({
            let (m2, o) = remove_spec(m, h, s, domain, ttl);
            let rest = without_source(m[h], s);
            &&& m2[h] == rest
            &&& exists|k: int|
                0 <= k < rest.len() && o.ip == Some(#[trigger] rest[k].ip@) && forall|i: int|
                    0 <= i < rest.len() ==> priority_of(#[trigger] rest[i].source) <= priority_of(
                        rest[k].source,
                    )
            &&& (o.action == DnsAction::Updated) == (o.effect is Ensure)
            &&& o.action == DnsAction::Updated || (o.action == DnsAction::Unchanged && o.effect is Keep)
        }),
{
    let rest = without_source(m[h], s);
    lemma_winner_is_highest(rest);
    let w = winner(rest)->0;
    let k = choose|k: int| 0 <= k < rest.len() && rest[k] == w;
    assert(rest[k].ip@ == w.ip@);
}

/// A removal keeps the hostname's record on the winning claim: the record
/// follows the next winner, or is deleted with the last claim.
pub proof fn lemma_remove_keeps_record_on_winner(
    m: Map<Seq<char>, Seq<HostnameClaim>>,
    h: Seq<char>,
    s: ClaimSource,
    domain: Seq<char>,
    ttl: Seq<char>,
    records: Map<Seq<char>, Seq<char>>,
)
    requires
        claims_wf(m),
        record_tracks(m, domain, records, h),
    ensures
        record_tracks(
            remove_spec(m, h, s, domain, ttl).0,
            domain,
            apply_effect(records, remove_spec(m, h, s, domain, ttl).1.effect),
            h,
        ),
{
    if m.contains_key(h) {
        let before = m[h];
        lemma_winner_some(before);
        let rest = without_source(before, s);
        lemma_winner_some(rest);
    }
}

/// Removing the source of every claim on a hostname deletes its record.
pub proof fn lemma_remove_last_claim_deletes(
    m: Map<Seq<char>, Seq<HostnameClaim>>,
    h: Seq<char>,
    s: ClaimSource,
    domain: Seq<char>,
    ttl: Seq<char>,
)
    requires
        m.contains_key(h),
        forall|i: int| 0 <= i < m[h].len() ==> same_source(#[trigger] m[h][i].source, s),
    ensures
        !remove_spec(m, h, s, domain, ttl).0.contains_key(h),
        remove_spec(m, h, s, domain, ttl).1.action == DnsAction::Deleted,
        remove_spec(m, h, s, domain, ttl).1.effect == (DnsEffect::Delete {
            fqdn: fqdn_spec(h, domain),
        }),
{
    lemma_without_all_same(m[h], s);
}

/// An upsert reports what happens to the hostname's record. With the record
/// where the claims say (on the previous winner's IP, or absent when the
/// hostname had no claims), the record afterwards points at the reported IP,
/// and the upsert reports `Created` exactly when there was no record,
/// `Updated` exactly when the record moves to another IP, and `Unchanged`
/// exactly when it stays on the same IP.
pub proof fn lemma_upsert_reports_record_change(
    m: Map<Seq<char>, Seq<HostnameClaim>>,
    h: Seq<char>,
    c: HostnameClaim,
    domain: Seq<char>,
    ttl: Seq<char>,
    records: Map<Seq<char>, Seq<char>>,
)
    requires
        record_tracks(m, domain, records, h),
    ensures
        ({
            let o = upsert_spec(m, h, c, domain, ttl).1;
            let fq = fqdn_spec(h, domain);
            let after = apply_effect(records, o.effect);
            &&& o.fqdn == fq
            &&& after.contains_key(fq) && o.ip == Some(after[fq])
            &&& (o.action == DnsAction::Created) == !records.contains_key(fq)
            &&& (o.action == DnsAction::Updated) == (records.contains_key(fq) && records[fq]
                != after[fq])
            &&& (o.action == DnsAction::Unchanged) == (records.contains_key(fq) && records[fq]
                == after[fq])
        }),
{
    let before = claims_at(m, h);
    lemma_winner_some(before);
    lemma_winner_some(upserted(before, c));
}

/// A removal reports what happens to the hostname's record. With the record
/// where the claims say, the removal reports `NoOp` exactly when the hostname
/// has no record, `Deleted` exactly when its record goes away, `Updated`
/// exactly when the record moves to another IP, and `Unchanged` when the
/// record stays as it was; neither `NoOp` nor `Unchanged` changes any record.
pub proof fn lemma_remove_reports_record_change(
    m: Map<Seq<char>, Seq<HostnameClaim>>,
    h: Seq<char>,
    s: ClaimSource,
    domain: Seq<char>,
    ttl: Seq<char>,
    records: Map<Seq<char>, Seq<char>>,
)
    requires
        claims_wf(m),
        record_tracks(m, domain, records, h),
    ensures
        ({
            let o = remove_spec(m, h, s, domain, ttl).1;
            let fq = fqdn_spec(h, domain);
            let after = apply_effect(records, o.effect);
            &&& o.fqdn == fq
            &&& (o.action == DnsAction::NoOp) == !records.contains_key(fq)
            &&& (o.action == DnsAction::Deleted) == (records.contains_key(fq)
                && !after.contains_key(fq))
            &&& (o.action == DnsAction::Updated) == (records.contains_key(fq) && after.contains_key(
                fq,
            ) && records[fq] != after[fq])
            &&& (o.action == DnsAction::Unchanged || o.action == DnsAction::NoOp) ==> after
                == records
            &&& (o.action == DnsAction::Updated) ==> o.ip == Some(after[fq])
        }),
{
    if m.contains_key(h) {
        let before = m[h];
        lemma_winner_some(before);
        let rest = without_source(before, s);
        lemma_winner_some(rest);
    }
}

/// Garbage collection never deletes the record of a hostname that has claims.
pub proof fn lemma_gc_keeps_claimed_records(
    m: Map<Seq<char>, Seq<HostnameClaim>>,
    domain: Seq<char>,
    records: Map<Seq<char>, Seq<char>>,
    active: Seq<Seq<char>>,
    h: Seq<char>,
)
    requires
        forall|x: Seq<char>|
            #[trigger] active.contains(x) <==> exists|k: Seq<char>|
                #[trigger] m.contains_key(k) && x == fqdn_spec(k, domain),
        record_tracks(m, domain, records, h),
        m.contains_key(h),
    ensures
        record_tracks(m, domain, apply_effect(records, DnsEffect::Collect { active }), h),
{
    let fq = fqdn_spec(h, domain);
    assert(active.contains(fq));
    assert(active.to_set().contains(fq));
}

} // verus!
