//! The orphan sweep: cache entries whose key no longer matches any live
//! candidate are removed.
//!
//! The host lists the cache entries' key stems and computes the live
//! fingerprint set from a fresh scan; the decision which entries go is
//! here. Racing against a concurrent generation is accepted: at worst a
//! just-written entry is deleted and cheaply regenerated later.

use crate::stats::has_key;
use vstd::prelude::*;
use vstd::slice::slice_to_vec;

verus! {

/// Orphanhood against a live key set, as a predicate value.
pub open spec fn orphan_pred(live: Seq<Seq<u8>>) -> spec_fn(Seq<u8>) -> bool {
    |k: Seq<u8>| !live.contains(k)
}

/// The orphans among the cached keys: those no live candidate claims,
/// in their given order.
pub open spec fn spec_orphans(cached: Seq<Seq<u8>>, live: Seq<Seq<u8>>) -> Seq<Seq<u8>> {
    cached.filter(orphan_pred(live))
}

/// List the cache keys the sweep must delete.
pub fn orphan_keys(cached: &Vec<Vec<u8>>, live: &Vec<Vec<u8>>) -> (r: Vec<Vec<u8>>)
    ensures
        r.deep_view() == spec_orphans(cached.deep_view(), live.deep_view()),
{
    let ghost cdv = cached.deep_view();
    let ghost ldv = live.deep_view();
    let ghost pred = orphan_pred(ldv);
    let mut out: Vec<Vec<u8>> = Vec::new();
    let n = cached.len();
    let mut i: usize = 0;
    proof {
        assert(cdv.subrange(0, 0) =~= Seq::<Seq<u8>>::empty());
        assert(out.deep_view() =~= Seq::<Seq<u8>>::empty());
        reveal_with_fuel(Seq::<_>::filter, 2);
    }
    while i < n
        invariant
            n == cached@.len(),
            i <= n,
            cdv == cached.deep_view(),
            ldv == live.deep_view(),
            pred == orphan_pred(ldv),
            cdv.len() == n,
            out.deep_view() == cdv.subrange(0, i as int).filter(pred),
        decreases n - i,
    {
        let key = vstd::std_specs::vec::vec_index(cached, i);
        let ghost prefix = cdv.subrange(0, i as int);
        let ghost one = seq![cdv[i as int]];
        let ghost old_dv = out.deep_view();
        proof {
            assert(key@ =~= cdv[i as int]);
            assert(cdv.subrange(0, i + 1) =~= prefix + one);
            Seq::filter_distributes_over_add(prefix, one, pred);
            reveal_with_fuel(Seq::<_>::filter, 2);
            assert(one.drop_last() =~= Seq::<Seq<u8>>::empty());
        }
        if !has_key(live, key.as_slice()) {
            out.push(slice_to_vec(key.as_slice()));
            proof {
                assert(pred(cdv[i as int]));
                assert(one.filter(pred) =~= one);
                assert(out.deep_view() =~~= old_dv.push(cdv[i as int]));
                assert(old_dv.push(cdv[i as int]) =~= old_dv + one);
                assert(out.deep_view() == cdv.subrange(0, i + 1).filter(pred));
            }
        } else {
            proof {
                assert(!pred(cdv[i as int]));
                assert(one.filter(pred) =~= Seq::<Seq<u8>>::empty());
                assert(out.deep_view() == cdv.subrange(0, i + 1).filter(pred));
            }
        }
        i += 1;
    }
    proof {
        assert(cdv.subrange(0, n as int) =~= cdv);
    }
    out
}

/// Eviction: a cached key with no live claimant is deleted by the
/// sweep, and a key some live candidate still claims is kept. A source
/// whose content changed carries a new fingerprint, so its old key has
/// no claimant and goes the same way; the new key gains an entry only
/// when it is next generated.
pub proof fn lemma_sweep_eviction(cached: Seq<Seq<u8>>, live: Seq<Seq<u8>>, k: Seq<u8>)
    ensures
        cached.contains(k) && !live.contains(k) ==> spec_orphans(cached, live).contains(k),
        live.contains(k) ==> !spec_orphans(cached, live).contains(k),
{
    let pred = orphan_pred(live);
    cached.filter_lemma(pred);
    if cached.contains(k) && !live.contains(k) {
        let j = choose|j: int| 0 <= j < cached.len() && cached[j] == k;
        assert(pred(cached[j]));
        assert(cached.filter(pred).contains(cached[j]));
    }
    if live.contains(k) && spec_orphans(cached, live).contains(k) {
        let j = choose|j: int|
            0 <= j < cached.filter(pred).len() && cached.filter(pred)[j] == k;
        assert(pred(cached.filter(pred)[j]));
        assert(false);
    }
}

/// What survives the sweep is exactly the cached keys that are live:
/// deleting the orphans from the cache leaves no stale entry behind.
pub proof fn lemma_sweep_retains_live(cached: Seq<Seq<u8>>, live: Seq<Seq<u8>>, k: Seq<u8>)
    ensures
        (cached.contains(k) && !spec_orphans(cached, live).contains(k)) ==> live.contains(k),
{
    let pred = orphan_pred(live);
    cached.filter_lemma(pred);
    if cached.contains(k) && !live.contains(k) {
        lemma_sweep_eviction(cached, live, k);
    }
}

} // verus!
