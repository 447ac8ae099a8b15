//! Cache statistics: how many entries the cache holds, their combined
//! size, and how many live candidates still lack an entry.
//!
//! The host enumerates the cache directory and the candidates; the
//! counting happens here.

use crate::bytesutil::bytes_eq;
use vstd::prelude::*;

verus! {

/// A snapshot of the cache's state against a candidate list.
pub struct CacheStats {
    /// Entries in the cache.
    pub file_count: usize,
    /// Their combined size in bytes, saturating at the top of the range.
    pub total_size: u64,
    /// Candidates whose fingerprint has no entry.
    pub missing_count: usize,
}

/// Whether a key stands in a list of keys.
pub open spec fn spec_has_key(keys: Seq<Seq<u8>>, key: Seq<u8>) -> bool {
    keys.contains(key)
}

/// Look a key up in a list of keys.
pub fn has_key(keys: &Vec<Vec<u8>>, key: &[u8]) -> (r: bool)
    ensures
        r == spec_has_key(keys.deep_view(), key@),
{
    let ghost dv = keys.deep_view();
    let n = keys.len();
    let mut i: usize = 0;
    while i < n
        invariant
            n == keys@.len(),
            i <= n,
            dv == keys.deep_view(),
            dv.len() == n,
            forall|j: int| 0 <= j < i ==> dv[j] != key@,
        decreases n - i,
    {
        let k = vstd::std_specs::vec::vec_index(keys, i);
        proof {
            assert(dv[i as int] =~= k@);
        }
        if bytes_eq(k.as_slice(), key) {
            proof {
                assert(dv[i as int] == key@);
            }
            return true;
        }
        i += 1;
    }
    proof {
        if dv.contains(key@) {
            let w = choose|j: int| 0 <= j < dv.len() && dv[j] == key@;
            assert(dv[w] != key@);
            assert(false);
        }
    }
    false
}

/// How many fingerprints lack an entry among the cached keys.
pub open spec fn spec_count_missing(fps: Seq<Seq<u8>>, cached: Seq<Seq<u8>>) -> int
    decreases fps.len(),
{
    if fps.len() == 0 {
        0
    } else {
        (if !cached.contains(fps.first()) {
            1int
        } else {
            0int
        }) + spec_count_missing(fps.drop_first(), cached)
    }
}

/// The missing count is zero exactly when every fingerprint has an
/// entry; and it never exceeds the number of fingerprints.
pub proof fn lemma_count_missing(fps: Seq<Seq<u8>>, cached: Seq<Seq<u8>>)
    ensures
        0 <= spec_count_missing(fps, cached) <= fps.len(),
        (spec_count_missing(fps, cached) == 0 <==> forall|j: int|
            0 <= j < fps.len() ==> cached.contains(#[trigger] fps[j])),
    decreases fps.len(),
{
    if fps.len() > 0 {
        lemma_count_missing(fps.drop_first(), cached);
        assert forall|j: int| 1 <= j < fps.len() implies fps.drop_first()[j - 1] == fps[j] by {}
        if spec_count_missing(fps, cached) == 0 {
            assert forall|j: int| 0 <= j < fps.len() implies cached.contains(
                #[trigger] fps[j],
            ) by {
                if j == 0 {
                    assert(fps[0] == fps.first());
                } else {
                    assert(fps.drop_first()[j - 1] == fps[j]);
                }
            }
        }
        if forall|j: int| 0 <= j < fps.len() ==> cached.contains(#[trigger] fps[j]) {
            assert(cached.contains(fps[0]));
            assert forall|j: int| 0 <= j < fps.drop_first().len() implies cached.contains(
                #[trigger] fps.drop_first()[j],
            ) by {
                assert(fps.drop_first()[j] == fps[j + 1]);
            }
        }
    }
}

/// Count the candidates whose fingerprint has no cache entry.
pub fn count_missing(fps: &Vec<Vec<u8>>, cached: &Vec<Vec<u8>>) -> (r: usize)
    ensures
        r == spec_count_missing(fps.deep_view(), cached.deep_view()),
{
    let ghost fdv = fps.deep_view();
    let ghost cdv = cached.deep_view();
    let n = fps.len();
    let mut count: usize = 0;
    let mut i: usize = 0;
    proof {
        assert(fdv.skip(0) =~= fdv);
    }
    while i < n
        invariant
            n == fps@.len(),
            i <= n,
            fdv == fps.deep_view(),
            cdv == cached.deep_view(),
            fdv.len() == n,
            count <= i,
            spec_count_missing(fdv, cdv) == count + spec_count_missing(fdv.skip(i as int), cdv),
        decreases n - i,
    {
        let fp = vstd::std_specs::vec::vec_index(fps, i);
        proof {
            assert(fp@ =~= fdv[i as int]);
            assert(fdv.skip(i as int).first() == fdv[i as int]);
            assert(fdv.skip(i as int).drop_first() =~= fdv.skip(i + 1));
            lemma_count_missing(fdv.skip(i + 1), cdv);
        }
        if !has_key(cached, fp.as_slice()) {
            count += 1;
        }
        i += 1;
    }
    proof {
        assert(fdv.skip(n as int) =~= Seq::<Seq<u8>>::empty());
    }
    count
}

/// The sum of a list of sizes, as an unbounded integer.
pub open spec fn spec_sum(sizes: Seq<u64>) -> int
    decreases sizes.len(),
{
    if sizes.len() == 0 {
        0
    } else {
        sizes.first() + spec_sum(sizes.drop_first())
    }
}

/// A sum of sizes is never negative.
pub proof fn lemma_sum_nonneg(sizes: Seq<u64>)
    ensures
        spec_sum(sizes) >= 0,
    decreases sizes.len(),
{
    if sizes.len() > 0 {
        lemma_sum_nonneg(sizes.drop_first());
    }
}

/// Add up sizes, saturating at the top of the range.
pub fn sum_sizes(sizes: &Vec<u64>) -> (r: u64)
    ensures
        r == if spec_sum(sizes@) <= u64::MAX {
            spec_sum(sizes@)
        } else {
            u64::MAX as int
        },
{
    let n = sizes.len();
    let mut acc: u64 = 0;
    let mut i: usize = 0;
    proof {
        assert(sizes@.skip(0) =~= sizes@);
        lemma_sum_nonneg(sizes@);
    }
    while i < n
        invariant
            n == sizes@.len(),
            i <= n,
            spec_sum(sizes@) == spec_sum(sizes@.subrange(0, i as int)) + spec_sum(
                sizes@.skip(i as int),
            ),
            acc == if spec_sum(sizes@.subrange(0, i as int)) <= u64::MAX {
                spec_sum(sizes@.subrange(0, i as int))
            } else {
                u64::MAX as int
            },
        decreases n - i,
    {
        let ghost pre = sizes@.subrange(0, i as int);
        let ghost rest = sizes@.skip(i as int);
        let x = *vstd::std_specs::vec::vec_index(sizes, i);
        proof {
            assert(rest.first() == sizes@[i as int]);
            assert(rest.drop_first() =~= sizes@.skip(i + 1));
            lemma_sum_push(pre, x);
            assert(pre.push(x) =~= sizes@.subrange(0, i + 1));
            lemma_sum_nonneg(pre);
            lemma_sum_nonneg(sizes@.skip(i + 1));
        }
        if x <= u64::MAX - acc {
            acc += x;
        } else {
            acc = u64::MAX;
        }
        i += 1;
    }
    proof {
        assert(sizes@.subrange(0, n as int) =~= sizes@);
    }
    acc
}

/// Appending one size adds it to the sum.
pub proof fn lemma_sum_push(sizes: Seq<u64>, x: u64)
    ensures
        spec_sum(sizes.push(x)) == spec_sum(sizes) + x,
    decreases sizes.len(),
{
    if sizes.len() == 0 {
        assert(sizes.push(x).drop_first() =~= Seq::<u64>::empty());
        assert(sizes.push(x).first() == x);
        assert(spec_sum(Seq::<u64>::empty()) == 0);
    } else {
        assert(sizes.push(x).drop_first() =~= sizes.drop_first().push(x));
        lemma_sum_push(sizes.drop_first(), x);
    }
}

/// Assemble the statistics snapshot: the entry count and combined size
/// of the cached files, and the number of candidates missing an entry.
pub fn make_stats(sizes: &Vec<u64>, fps: &Vec<Vec<u8>>, cached: &Vec<Vec<u8>>) -> (r: CacheStats)
    ensures
        r.file_count == sizes@.len(),
        r.total_size == if spec_sum(sizes@) <= u64::MAX {
            spec_sum(sizes@)
        } else {
            u64::MAX as int
        },
        r.missing_count == spec_count_missing(fps.deep_view(), cached.deep_view()),
{
    CacheStats {
        file_count: sizes.len(),
        total_size: sum_sizes(sizes),
        missing_count: count_missing(fps, cached),
    }
}

} // verus!
