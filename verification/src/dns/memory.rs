//! An in-memory DNS backend: a name-to-address table that runs DNS commands
//! exactly as the backend operations are documented.

use vstd::prelude::*;
use crate::keyed::{
    distinct_keys, entries_view, has_key_at, lemma_entries_lookup, lemma_entries_push,
    lemma_entries_remove, lemma_entries_update, Keyed,
};
use crate::text::{contains_name, owned, str_eq, string_views};
use super::{apply_effect, DnsClient, DnsCommand};

verus! {

/// A DNS backend that keeps its records in memory.
pub struct MemoryDnsClient {
    records: Vec<Keyed<String>>,
}

impl View for MemoryDnsClient {
    type V = Map<Seq<char>, Seq<char>>;

    closed spec fn view(&self) -> Map<Seq<char>, Seq<char>> {
        entries_view(self.records@)
    }
}

impl MemoryDnsClient {
    /// The table's internal invariant.
    pub closed spec fn wf(&self) -> bool {
        distinct_keys(self.records@)
    }

    /// An empty table.
    pub fn new() -> (r: Self)
        ensures
            r.wf(),
            r@ == Map::<Seq<char>, Seq<char>>::empty(),
    {
        let r = MemoryDnsClient { records: Vec::new() };
        assert(r@ =~= Map::<Seq<char>, Seq<char>>::empty());
        r
    }

    fn find(&self, fqdn: &str) -> (r: Option<usize>)
        ensures
            match r {
                Some(i) => i < self.records@.len() && self.records@[i as int].key@ == fqdn@,
                None => forall|i: int|
                    0 <= i < self.records@.len() ==> !has_key_at(self.records@, i, fqdn@),
            },
    {
        let mut i: usize = 0;
        while i < self.records.len()
            invariant
                i <= self.records@.len(),
                forall|j: int| 0 <= j < i ==> !has_key_at(self.records@, j, fqdn@),
            decreases self.records@.len() - i,
        {
            if str_eq(self.records[i].key.as_str(), fqdn) {
                return Some(i);
            }
            i = i + 1;
        }
        None
    }

    /// Point `fqdn` at `ip`, creating the record or updating it. The table
    /// keeps no TTL.
    fn put(&mut self, fqdn: &str, ip: &str)
        requires
            old(self).wf(),
        ensures
            final(self).wf(),
            final(self)@ == old(self)@.insert(fqdn@, ip@),
    {
        let ghost old_es = self.records@;
        let entry = Keyed { key: owned(fqdn), value: owned(ip) };
        match self.find(fqdn) {
            Some(i) => {
                self.records.set(i, entry);
                proof {
                    lemma_entries_update(old_es, i as int, entry);
                }
            },
            None => {
                self.records.push(entry);
                proof {
                    lemma_entries_push(old_es, entry);
                }
            },
        }
    }

    /// Delete the record of `fqdn`, if there is one.
    fn drop_record(&mut self, fqdn: &str)
        requires
            old(self).wf(),
        ensures
            final(self).wf(),
            final(self)@ == old(self)@.remove(fqdn@),
    {
        let ghost old_es = self.records@;
        match self.find(fqdn) {
            Some(i) => {
                self.records.remove(i);
                proof {
                    lemma_entries_remove(old_es, i as int);
                }
            },
            None => {
                assert(old(self)@.remove(fqdn@) =~= old(self)@);
            },
        }
    }

    /// Remove every record whose name is not in `active_fqdns`.
    fn retain_active(&mut self, active_fqdns: &[String])
        requires
            old(self).wf(),
        ensures
            final(self).wf(),
            final(self)@ == old(self)@.restrict(string_views(active_fqdns@).to_set()),
    {
        let ghost es = self.records@;
        let ghost active = string_views(active_fqdns@).to_set();
        let mut kept: Vec<Keyed<String>> = Vec::new();
        let mut i: usize = 0;
        proof {
            assert(entries_view(es.take(0)) =~= Map::<Seq<char>, Seq<char>>::empty());
            assert(entries_view(kept@) =~= Map::<Seq<char>, Seq<char>>::empty());
        }
        while i < self.records.len()
            invariant
                es == self.records@,
                active == string_views(active_fqdns@).to_set(),
                distinct_keys(es),
                i <= es.len(),
                distinct_keys(kept@),
                entries_view(kept@) == entries_view(es.take(i as int)).restrict(active),
                forall|j: int|
                    0 <= j < kept@.len() ==> exists|k: int|
                        0 <= k < i && #[trigger] kept@[j].key@ == es[k].key@,
            decreases es.len() - i,
        {
            let ghost pre = es.take(i as int);
            proof {
                assert(es.take(i + 1) =~= pre.push(es[i as int]));
                assert(distinct_keys(pre)) by {
                    assert forall|a: int, b: int|
                        0 <= a < pre.len() && 0 <= b < pre.len() && a != b implies #[trigger] pre[a].key@
                        != #[trigger] pre[b].key@ by {
                        assert(pre[a] == es[a] && pre[b] == es[b]);
                    }
                }
                assert(!entries_view(pre).contains_key(es[i as int].key@)) by {
                    if entries_view(pre).contains_key(es[i as int].key@) {
                        let j = choose|j: int| #[trigger] has_key_at(pre, j, es[i as int].key@);
                        assert(pre[j] == es[j]);
                    }
                }
                lemma_entries_push(pre, es[i as int]);
            }
            let r = &self.records[i];
            proof {
                assert(r.key@ == es[i as int].key@);
                assert(active.contains(es[i as int].key@) == string_views(active_fqdns@).contains(
                    es[i as int].key@,
                ));
            }
            if contains_name(active_fqdns, r.key.as_str()) {
                let e = Keyed { key: r.key.clone(), value: r.value.clone() };
                proof {
                    assert(!entries_view(kept@).contains_key(e.key@)) by {
                        if entries_view(kept@).contains_key(e.key@) {
                            let j = choose|j: int| #[trigger] has_key_at(kept@, j, e.key@);
                            let k = choose|k: int| 0 <= k < i && #[trigger] kept@[j].key@ == es[k].key@;
                            assert(es[k].key@ != es[i as int].key@);
                        }
                    }
                    lemma_entries_push(kept@, e);
                    assert(string_views(active_fqdns@).contains(e.key@));
                }
                kept.push(e);
                proof {
                    assert(entries_view(kept@) =~= entries_view(es.take(i + 1)).restrict(active));
                    assert forall|j: int| 0 <= j < kept@.len() implies exists|k: int|
                        0 <= k < i + 1 && #[trigger] kept@[j].key@ == es[k].key@ by {
                        if j == kept@.len() - 1 {
                            assert(kept@[j].key@ == es[i as int].key@);
                        }
                    }
                }
            } else {
                proof {
                    assert(!active.contains(es[i as int].key@));
                    assert(entries_view(kept@) =~= entries_view(es.take(i + 1)).restrict(active));
                }
            }
            i = i + 1;
        }
        proof {
            assert(es.take(es.len() as int) =~= es);
        }
        self.records = kept;
    }

    /// Run a DNS command against the table.
    pub fn apply(&mut self, cmd: &DnsCommand)
        requires
            old(self).wf(),
        ensures
            final(self).wf(),
            final(self)@ == apply_effect(old(self)@, cmd@),
    {
        match cmd {
            DnsCommand::EnsureRecord { fqdn, ip, .. } => self.put(fqdn.as_str(), ip.as_str()),
            DnsCommand::DeleteRecord { fqdn } => self.drop_record(fqdn.as_str()),
            DnsCommand::GarbageCollect { active_fqdns } => self.retain_active(active_fqdns.as_slice()),
            DnsCommand::Nothing => {},
        }
    }

    /// Whether `fqdn` has a record.
    pub fn has_record(&self, fqdn: &str) -> (r: bool)
        requires
            self.wf(),
        ensures
            r == self@.contains_key(fqdn@),
    {
        match self.find(fqdn) {
            Some(i) => {
                proof {
                    lemma_entries_lookup(self.records@, i as int);
                }
                true
            },
            None => false,
        }
    }

    /// The address `fqdn` points at, if it has a record.
    pub fn get_ip(&self, fqdn: &str) -> (r: Option<String>)
        requires
            self.wf(),
        ensures
            match r {
                Some(ip) => self@.contains_key(fqdn@) && self@[fqdn@] == ip@,
                None => !self@.contains_key(fqdn@),
            },
    {
        match self.find(fqdn) {
            Some(i) => {
                proof {
                    lemma_entries_lookup(self.records@, i as int);
                }
                Some(self.records[i].value.clone())
            },
            None => None,
        }
    }
}

impl DnsClient for MemoryDnsClient {
    open spec fn records(&self) -> Map<Seq<char>, Seq<char>> {
        self@
    }

    open spec fn inv(&self) -> bool {
        self.wf()
    }

    /// Point `fqdn` at `ip`; the table never fails.
    fn ensure_record(&mut self, fqdn: &str, ip: &str, ttl: &str) -> (r: Result<(), String>)
        ensures
            r is Ok,
    {
        self.put(fqdn, ip);
        Ok(())
    }

    /// Delete the record of `fqdn`; the table never fails.
    fn delete_record_for_fqdn(&mut self, fqdn: &str) -> (r: Result<(), String>)
        ensures
            r is Ok,
    {
        self.drop_record(fqdn);
        Ok(())
    }

    /// Keep only the records of `active_fqdns`; the table never fails.
    fn garbage_collect(&mut self, active_fqdns: &[String]) -> (r: Result<(), String>)
        ensures
            r is Ok,
    {
        self.retain_active(active_fqdns);
        Ok(())
    }
}

} // verus!
