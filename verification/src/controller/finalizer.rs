//! The finalizer that holds a VirtualMachineNetworkConfig's deletion open
//! until its DNS record is gone.

use vstd::prelude::*;
use crate::kubernetes::VmNetworkConfig;
use crate::text::{contains_name, owned, str_eq, string_views};

verus! {

/// The finalizer attached to every VMNC the operator manages.
pub const FINALIZER: &'static str = "dns.geeko.me/cleanup";

/// The finalizer names of an optional list.
pub open spec fn finalizer_views(f: Option<Vec<String>>) -> Seq<Seq<char>> {
    match f {
        Some(v) => string_views(v@),
        None => Seq::empty(),
    }
}

/// The names other than `x`, in order.
pub open spec fn without_name(s: Seq<Seq<char>>, x: Seq<char>) -> Seq<Seq<char>>
    decreases s.len(),
{
    if s.len() == 0 {
        Seq::empty()
    } else {
        let rest = without_name(s.drop_last(), x);
        if s.last() == x {
            rest
        } else {
            rest.push(s.last())
        }
    }
}

/// Removing a name keeps exactly the other names, in order.
pub proof fn lemma_without_name_is_filter(s: Seq<Seq<char>>, x: Seq<char>)
    ensures
        without_name(s, x) == s.filter(|n: Seq<char>| n != x),
    decreases s.len(),
{
    reveal(Seq::filter);
    if s.len() > 0 {
        lemma_without_name_is_filter(s.drop_last(), x);
    }
}

/// Check if the resource has our finalizer attached.
pub fn has_finalizer(vmnetcfg: &VmNetworkConfig) -> (r: bool)
    ensures
        r == finalizer_views(vmnetcfg.metadata.finalizers).contains(FINALIZER@),
{
    match &vmnetcfg.metadata.finalizers {
        None => false,
        Some(f) => contains_name(f.as_slice(), FINALIZER),
    }
}

fn copy_names(f: &Vec<String>) -> (r: Vec<String>)
    ensures
        string_views(r@) == string_views(f@),
{
    let mut r: Vec<String> = Vec::new();
    let mut i: usize = 0;
    while i < f.len()
        invariant
            i <= f@.len(),
            string_views(r@) == string_views(f@).take(i as int),
        decreases f@.len() - i,
    {
        let ghost before = string_views(r@);
        r.push(f[i].clone());
        assert(string_views(r@) =~= before.push(f@[i as int]@));
        assert(string_views(f@).take(i + 1) =~= string_views(f@).take(i as int).push(f@[i as int]@));
        i = i + 1;
    }
    assert(string_views(f@).take(f@.len() as int) =~= string_views(f@));
    r
}

/// The finalizer list with ours appended: what adding our finalizer writes.
pub fn with_finalizer(current: &Option<Vec<String>>) -> (r: Vec<String>)
    ensures
        string_views(r@) == finalizer_views(*current).push(FINALIZER@),
{
    let mut r = match current {
        Some(f) => copy_names(f),
        None => Vec::new(),
    };
    let ghost before = string_views(r@);
    assert(before =~= finalizer_views(*current));
    r.push(owned(FINALIZER));
    assert(string_views(r@) =~= before.push(FINALIZER@));
    r
}

/// The finalizer list without ours: what removing our finalizer writes.
pub fn without_finalizer(current: &Option<Vec<String>>) -> (r: Vec<String>)
    ensures
        string_views(r@) == without_name(finalizer_views(*current), FINALIZER@),
{
    let mut r: Vec<String> = Vec::new();
    match current {
        None => {
            assert(string_views(r@) =~= Seq::<Seq<char>>::empty());
        },
        Some(f) => {
            let ghost s = string_views(f@);
            let mut i: usize = 0;
            assert(s.take(0) =~= Seq::<Seq<char>>::empty());
            assert(string_views(r@) =~= Seq::<Seq<char>>::empty());
            while i < f.len()
                invariant
                    s == string_views(f@),
                    i <= f@.len(),
                    string_views(r@) == without_name(s.take(i as int), FINALIZER@),
                decreases f@.len() - i,
            {
                assert(s.take(i + 1).drop_last() =~= s.take(i as int));
                assert(s.take(i + 1).last() == f@[i as int]@);
                if !str_eq(f[i].as_str(), FINALIZER) {
                    let ghost before = string_views(r@);
                    r.push(f[i].clone());
                    assert(string_views(r@) =~= before.push(f@[i as int]@));
                }
                i = i + 1;
            }
            assert(s.take(f@.len() as int) =~= s);
        },
    }
    r
}

/// The names left by `without_name` are the names other than `x`.
pub proof fn lemma_without_name_members(s: Seq<Seq<char>>, x: Seq<char>)
    ensures
        forall|y: Seq<char>| #[trigger] without_name(s, x).contains(y) <==> (s.contains(y) && y != x),
    decreases s.len(),
{
    if s.len() > 0 {
        let init = s.drop_last();
        let last = s.last();
        lemma_without_name_members(init, x);
        let rest = without_name(init, x);
        let res = without_name(s, x);
        assert(res == if last == x { rest } else { rest.push(last) });
        assert forall|y: Seq<char>| #[trigger] res.contains(y) <==> (s.contains(y) && y != x) by {
            if s.contains(y) && y != x {
                let k = choose|k: int| 0 <= k < s.len() && s[k] == y;
                if k == s.len() - 1 {
                    assert(res[res.len() - 1] == y);
                } else {
                    assert(init[k] == y);
                    assert(init.contains(y));
                    assert(rest.contains(y));
                    let kk = choose|kk: int| 0 <= kk < rest.len() && rest[kk] == y;
                    assert(res[kk] == y);
                }
            }
            if res.contains(y) {
                let kk = choose|kk: int| 0 <= kk < res.len() && res[kk] == y;
                if kk < rest.len() {
                    assert(rest[kk] == y);
                    assert(rest.contains(y));
                    let k = choose|k: int| 0 <= k < init.len() && init[k] == y;
                    assert(s[k] == y);
                } else {
                    assert(y == last && last != x);
                    assert(s[s.len() - 1] == y);
                }
            }
        }
    }
}

/// Adding our finalizer attaches it; removing it detaches it and keeps every
/// other finalizer.
pub proof fn lemma_finalizer_add_remove(current: Seq<Seq<char>>)
    ensures
        current.push(FINALIZER@).contains(FINALIZER@),
        !without_name(current, FINALIZER@).contains(FINALIZER@),
        forall|y: Seq<char>|
            y != FINALIZER@ ==> (#[trigger] without_name(current, FINALIZER@).contains(y)
                <==> current.contains(y)),
        without_name(current.push(FINALIZER@), FINALIZER@) == without_name(current, FINALIZER@),
{
    assert(current.push(FINALIZER@)[current.len() as int] == FINALIZER@);
    lemma_without_name_members(current, FINALIZER@);
    assert(current.push(FINALIZER@).drop_last() =~= current);
}

} // verus!
