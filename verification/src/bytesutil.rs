//! Small verified helpers on byte strings: equality, prefix and suffix
//! tests, substring search, and ASCII case folding. Paths, file names and
//! cache keys are all handled as byte vectors.

use vstd::prelude::*;

verus! {

/// True when `b` is an ASCII letter in upper case.
pub open spec fn spec_is_upper(b: u8) -> bool {
    65 <= b <= 90
}

/// Map one byte to its ASCII lower-case form, leaving all others unchanged.
pub open spec fn spec_lower_byte(b: u8) -> u8 {
    if spec_is_upper(b) {
        (b + 32) as u8
    } else {
        b
    }
}

/// ASCII lower-casing of a whole byte string.
pub open spec fn spec_lower(s: Seq<u8>) -> Seq<u8> {
    s.map_values(|b: u8| spec_lower_byte(b))
}

/// ASCII lower-casing of one byte.
pub fn lower_byte(b: u8) -> (r: u8)
    ensures
        r == spec_lower_byte(b),
{
    if 65 <= b && b <= 90 {
        b + 32
    } else {
        b
    }
}

/// ASCII lower-casing of a byte string.
pub fn lower_bytes(s: &[u8]) -> (r: Vec<u8>)
    ensures
        r@ == spec_lower(s@),
{
    let mut out: Vec<u8> = Vec::new();
    let n = s.len();
    let mut i: usize = 0;
    while i < n
        invariant
            n == s@.len(),
            i <= n,
            out@ =~= spec_lower(s@.subrange(0, i as int)),
        decreases n - i,
    {
        out.push(lower_byte(s[i]));
        proof {
            assert(s@.subrange(0, i + 1) =~= s@.subrange(0, i as int).push(s@[i as int]));
            assert(out@ =~= spec_lower(s@.subrange(0, i + 1)));
        }
        i += 1;
    }
    proof {
        assert(s@.subrange(0, n as int) =~= s@);
    }
    out
}

/// A borrowed subrange of a slice.
pub fn sub_slice<'a>(s: &'a [u8], from: usize, to: usize) -> (r: &'a [u8])
    requires
        from <= to <= s@.len(),
    ensures
        r@ == s@.subrange(from as int, to as int),
{
    vstd::slice::slice_subrange(s, from, to)
}

/// Append a slice's bytes to a vector.
pub fn append_bytes(v: &mut Vec<u8>, s: &[u8])
    ensures
        final(v)@ == old(v)@ + s@,
{
    let n = s.len();
    let mut i: usize = 0;
    while i < n
        invariant
            n == s@.len(),
            i <= n,
            v@ =~= old(v)@ + s@.subrange(0, i as int),
        decreases n - i,
    {
        v.push(s[i]);
        proof {
            assert(s@.subrange(0, i + 1) =~= s@.subrange(0, i as int).push(s@[i as int]));
        }
        i += 1;
    }
    proof {
        assert(s@.subrange(0, n as int) =~= s@);
        assert(v@ =~= old(v)@ + s@);
    }
}

/// Byte-for-byte equality of two slices.
pub fn bytes_eq(a: &[u8], b: &[u8]) -> (r: bool)
    ensures
        r == (a@ == b@),
{
    if a.len() != b.len() {
        assert(a@ != b@);
        return false;
    }
    let n = a.len();
    let mut i: usize = 0;
    while i < n
        invariant
            n == a@.len() == b@.len(),
            i <= n,
            forall|j: int| 0 <= j < i ==> a@[j] == b@[j],
        decreases n - i,
    {
        if a[i] != b[i] {
            return false;
        }
        i += 1;
    }
    proof {
        assert(a@ =~= b@);
    }
    true
}

/// `prefix` opens `s`.
pub open spec fn spec_starts_with(s: Seq<u8>, prefix: Seq<u8>) -> bool {
    prefix.len() <= s.len() && s.subrange(0, prefix.len() as int) == prefix
}

/// True when `s` begins with `prefix`.
pub fn starts_with(s: &[u8], prefix: &[u8]) -> (r: bool)
    ensures
        r == spec_starts_with(s@, prefix@),
{
    if prefix.len() > s.len() {
        return false;
    }
    let n = prefix.len();
    let mut i: usize = 0;
    while i < n
        invariant
            n == prefix@.len() <= s@.len(),
            i <= n,
            forall|j: int| 0 <= j < i ==> s@[j] == prefix@[j],
        decreases n - i,
    {
        if s[i] != prefix[i] {
            assert(s@.subrange(0, n as int)[i as int] != prefix@[i as int]);
            return false;
        }
        i += 1;
    }
    proof {
        assert(s@.subrange(0, n as int) =~= prefix@);
    }
    true
}

/// True when `s` ends with `suffix`.
pub fn ends_with(s: &[u8], suffix: &[u8]) -> (r: bool)
    ensures
        r == spec_ends_with(s@, suffix@),
{
    if suffix.len() > s.len() {
        return false;
    }
    let n = suffix.len();
    let slen = s.len();
    let off = slen - n;
    let mut i: usize = 0;
    while i < n
        invariant
            n == suffix@.len() <= s@.len(),
            slen == s@.len(),
            off == s@.len() - n,
            i <= n,
            forall|j: int| 0 <= j < i ==> s@[off + j] == suffix@[j],
        decreases n - i,
    {
        if s[off + i] != suffix[i] {
            assert(s@.subrange(off as int, s@.len() as int)[i as int] != suffix@[i as int]);
            return false;
        }
        i += 1;
    }
    proof {
        assert(s@.subrange(off as int, s@.len() as int) =~= suffix@);
    }
    true
}

/// `suffix` closes `s`.
pub open spec fn spec_ends_with(s: Seq<u8>, suffix: Seq<u8>) -> bool {
    suffix.len() <= s.len() && s.subrange(s.len() - suffix.len(), s.len() as int) == suffix
}

/// Index of the first occurrence of `b` in `s`, if any.
pub open spec fn spec_find(s: Seq<u8>, b: u8) -> Option<int>
    decreases s.len(),
{
    if s.len() == 0 {
        None
    } else if s.first() == b {
        Some(0)
    } else {
        match spec_find(s.drop_first(), b) {
            Some(k) => Some(k + 1),
            None => None,
        }
    }
}

/// What `spec_find` finds is the first occurrence; when it finds nothing
/// there is none.
pub proof fn lemma_find(s: Seq<u8>, b: u8)
    ensures
        match spec_find(s, b) {
            Some(k) => 0 <= k < s.len() && s[k] == b && forall|j: int| 0 <= j < k ==> s[j] != b,
            None => forall|j: int| 0 <= j < s.len() ==> s[j] != b,
        },
    decreases s.len(),
{
    if s.len() > 0 && s.first() != b {
        lemma_find(s.drop_first(), b);
        assert forall|j: int| 1 <= j < s.len() implies s.drop_first()[j - 1] == s[j] by {}
    }
}

/// Find the index of the first occurrence of `b` in `s`.
pub fn find_byte(s: &[u8], b: u8) -> (r: Option<usize>)
    ensures
        match r {
            Some(u) => u < s@.len() && s@[u as int] == b && spec_find(s@, b) == Some(u as int),
            None => spec_find(s@, b) is None,
        },
{
    let n = s.len();
    let mut i: usize = 0;
    while i < n
        invariant
            n == s@.len(),
            i <= n,
            forall|j: int| 0 <= j < i ==> s@[j] != b,
        decreases n - i,
    {
        if s[i] == b {
            proof {
                lemma_find(s@, b);
                match spec_find(s@, b) {
                    Some(k) => {
                        if k < i as int {
                            assert(s@[k] != b);
                            assert(false);
                        }
                        if k > i as int {
                            assert(s@[i as int] != b);
                            assert(false);
                        }
                    }
                    None => {
                        assert(s@[i as int] != b);
                        assert(false);
                    }
                }
            }
            return Some(i);
        }
        i += 1;
    }
    proof {
        lemma_find(s@, b);
        match spec_find(s@, b) {
            Some(k) => {
                assert(s@[k] != b);
                assert(false);
            }
            None => {}
        }
    }
    None
}

/// `needle` occurs somewhere inside `s`.
pub open spec fn spec_contains(s: Seq<u8>, needle: Seq<u8>) -> bool {
    exists|k: int|
        0 <= k <= s.len() - needle.len() && #[trigger] s.subrange(k, k + needle.len()) == needle
}

/// True when `needle` stands at offset `k` of `s`.
fn matches_at(s: &[u8], needle: &[u8], k: usize) -> (r: bool)
    requires
        k + needle@.len() <= s@.len(),
    ensures
        r == (s@.subrange(k as int, k + needle@.len()) == needle@),
{
    let m = needle.len();
    let slen = s.len();
    let mut i: usize = 0;
    while i < m
        invariant
            m == needle@.len(),
            slen == s@.len(),
            k + m <= s@.len(),
            i <= m,
            forall|j: int| 0 <= j < i ==> s@[k + j] == needle@[j],
        decreases m - i,
    {
        if s[k + i] != needle[i] {
            assert(s@.subrange(k as int, k + m)[i as int] != needle@[i as int]);
            return false;
        }
        i += 1;
    }
    proof {
        assert(s@.subrange(k as int, k + m) =~= needle@);
    }
    true
}

/// Substring search: true when `needle` occurs inside `s`.
pub fn contains_sub(s: &[u8], needle: &[u8]) -> (r: bool)
    ensures
        r == spec_contains(s@, needle@),
{
    let m = needle.len();
    if m > s.len() {
        return false;
    }
    if m == 0 {
        proof {
            assert(s@.subrange(0, 0 + needle@.len() as int) =~= needle@);
            assert(spec_contains(s@, needle@));
        }
        return true;
    }
    let slen = s.len();
    let last = slen - m;
    let mut k: usize = 0;
    while k <= last
        invariant
            1 <= m,
            m == needle@.len() <= s@.len(),
            slen == s@.len(),
            last == s@.len() - m,
            k <= last + 1,
            forall|j: int| 0 <= j < k ==> #[trigger] s@.subrange(j, j + m) != needle@,
        decreases last - k + 1,
    {
        if matches_at(s, needle, k) {
            proof {
                let kk = k as int;
                assert(0 <= kk <= s@.len() - needle@.len());
                assert(s@.subrange(kk, kk + needle@.len()) == needle@);
                assert(spec_contains(s@, needle@));
            }
            return true;
        }
        k += 1;
    }
    false
}

} // verus!
