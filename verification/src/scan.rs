//! Candidate selection: which files under the root are eligible for
//! thumbnailing.
//!
//! A directory entry is walked only when its name is not hidden (does not
//! begin with a dot) and is not one of the excluded directory names. A
//! file is a candidate when its extension, lower-cased, stands in the
//! fixed allow-list. The traversal itself is the host's; the predicates
//! and the final filtering are here.

use crate::bytesutil::bytes_eq;
use crate::bytesutil::sub_slice;
use crate::bytesutil::lower_bytes;
use crate::bytesutil::spec_lower;
use vstd::prelude::*;
use vstd::slice::slice_to_vec;

verus! {

/// Index of the last occurrence of `b` in `s`, if any.
pub open spec fn spec_rfind(s: Seq<u8>, b: u8) -> Option<int>
    decreases s.len(),
{
    if s.len() == 0 {
        None
    } else if s.last() == b {
        Some(s.len() - 1)
    } else {
        spec_rfind(s.drop_last(), b)
    }
}

/// What `spec_rfind` finds is the last occurrence; when it finds nothing
/// there is none.
pub proof fn lemma_rfind(s: Seq<u8>, b: u8)
    ensures
        match spec_rfind(s, b) {
            Some(k) => 0 <= k < s.len() && s[k] == b && forall|j: int|
                k < j < s.len() ==> s[j] != b,
            None => forall|j: int| 0 <= j < s.len() ==> s[j] != b,
        },
    decreases s.len(),
{
    if s.len() > 0 && s.last() != b {
        lemma_rfind(s.drop_last(), b);
        assert forall|j: int| 0 <= j < s.len() - 1 implies s.drop_last()[j] == s[j] by {}
    }
}

/// Find the index of the last occurrence of `b` in `s`.
pub fn rfind_byte(s: &[u8], b: u8) -> (r: Option<usize>)
    ensures
        match r {
            Some(u) => u < s@.len() && s@[u as int] == b && spec_rfind(s@, b) == Some(u as int),
            None => spec_rfind(s@, b) is None,
        },
{
    let n = s.len();
    let mut i: usize = n;
    while i > 0
        invariant
            n == s@.len(),
            i <= n,
            forall|j: int| i <= j < n ==> s@[j] != b,
        decreases i,
    {
        i -= 1;
        if s[i] == b {
            proof {
                lemma_rfind(s@, b);
                match spec_rfind(s@, b) {
                    Some(k) => {
                        assert(0 <= k < s@.len() && s@[k] == b);
                        if k < i as int {
                            assert(s@[i as int] != b);
                            assert(false);
                        }
                        if k > i as int {
                            assert(i + 1 <= k < n);
                            assert(s@[k] != b);
                            assert(false);
                        }
                    }
                    None => {
                        assert(s@[i as int] != b);
                        assert(false);
                    }
                }
            }
            return Some(i);
        }
    }
    proof {
        lemma_rfind(s@, b);
        match spec_rfind(s@, b) {
            Some(k) => {
                assert(s@[k] != b);
                assert(false);
            }
            None => {}
        }
    }
    None
}

/// The final path component: everything after the last slash, or the
/// whole path when it has none.
pub open spec fn spec_file_name(path: Seq<u8>) -> Seq<u8> {
    match spec_rfind(path, '/' as u8) {
        Some(k) => path.subrange(k + 1, path.len() as int),
        None => path,
    }
}

/// Extract the final path component.
pub fn file_name_of(path: &[u8]) -> (r: Vec<u8>)
    ensures
        r@ == spec_file_name(path@),
{
    let n = path.len();
    match rfind_byte(path, '/' as u8) {
        Some(k) => {
            let sub = sub_slice(path, k + 1, n);
            slice_to_vec(sub)
        }
        None => slice_to_vec(path),
    }
}

/// The extension of a path, after the rule the host platform applies to
/// file names: take the final component; a single leading dot does not
/// begin an extension; the extension is whatever follows the last of the
/// remaining dots, and is absent when no such dot exists.
pub open spec fn spec_extension(path: Seq<u8>) -> Option<Seq<u8>> {
    let name = spec_file_name(path);
    let start: int = if name.len() > 0 && name.first() == '.' as u8 {
        1
    } else {
        0
    };
    let rest = name.subrange(start, name.len() as int);
    match spec_rfind(rest, '.' as u8) {
        Some(k) => Some(rest.subrange(k + 1, rest.len() as int)),
        None => None,
    }
}

/// Extract the extension of a path, if it has one.
pub fn extension_of(path: &[u8]) -> (r: Option<Vec<u8>>)
    ensures
        match spec_extension(path@) {
            Some(e) => r matches Some(v) && v@ == e,
            None => r is None,
        },
{
    let name = file_name_of(path);
    let start: usize = if name.len() > 0 && *vstd::std_specs::vec::vec_index(&name, 0) == '.' as u8 {
        1
    } else {
        0
    };
    let rest = sub_slice(name.as_slice(), start, name.len());
    match rfind_byte(rest, '.' as u8) {
        Some(k) => {
            let ext = sub_slice(rest, k + 1, rest.len());
            Some(slice_to_vec(ext))
        }
        None => None,
    }
}

/// The fixed allow-list of thumbnailable extensions, lower case.
pub open spec fn spec_is_allowed_ext(e: Seq<u8>) -> bool {
    ||| e == (['j' as u8, 'p' as u8, 'g' as u8])@
    ||| e == (['j' as u8, 'p' as u8, 'e' as u8, 'g' as u8])@
    ||| e == (['p' as u8, 'n' as u8, 'g' as u8])@
    ||| e == (['w' as u8, 'e' as u8, 'b' as u8, 'p' as u8])@
    ||| e == (['b' as u8, 'm' as u8, 'p' as u8])@
    ||| e == (['p' as u8, 's' as u8, 'd' as u8])@
    ||| e == (['p' as u8, 's' as u8, 'b' as u8])@
    ||| e == (['a' as u8, 'i' as u8])@
    ||| e == (['i' as u8, 'n' as u8, 'd' as u8, 'd' as u8])@
    ||| e == (['p' as u8, 'd' as u8, 'f' as u8])@
    ||| e == (['e' as u8, 'p' as u8, 's' as u8])@
    ||| e == (['t' as u8, 'i' as u8, 'f' as u8, 'f' as u8])@
    ||| e == (['t' as u8, 'i' as u8, 'f' as u8])@
    ||| e == (['r' as u8, 'a' as u8, 'w' as u8])@
    ||| e == (['d' as u8, 'n' as u8, 'g' as u8])@
    ||| e == (['c' as u8, 'd' as u8, 'r' as u8])@
    ||| e == (['d' as u8, 'o' as u8, 'c' as u8])@
    ||| e == (['d' as u8, 'o' as u8, 'c' as u8, 'x' as u8])@
    ||| e == (['x' as u8, 'l' as u8, 's' as u8])@
    ||| e == (['x' as u8, 'l' as u8, 's' as u8, 'x' as u8])@
    ||| e == (['p' as u8, 'p' as u8, 't' as u8])@
    ||| e == (['p' as u8, 'p' as u8, 't' as u8, 'x' as u8])@
    ||| e == (['g' as u8, 'i' as u8, 'f' as u8])@
    ||| e == (['s' as u8, 'v' as u8, 'g' as u8])@
    ||| e == (['i' as u8, 'c' as u8, 'o' as u8])@
}

/// Equality of a byte string against an array literal.
fn lit_eq<const N: usize>(e: &[u8], lit: [u8; N]) -> (r: bool)
    ensures
        r == (e@ == lit@),
{
    bytes_eq(e, lit.as_slice())
}

/// Membership in the extension allow-list.
pub fn is_allowed_ext(e: &[u8]) -> (r: bool)
    ensures
        r == spec_is_allowed_ext(e@),
{
    lit_eq(e, ['j' as u8, 'p' as u8, 'g' as u8]) || lit_eq(e, ['j' as u8, 'p' as u8, 'e' as u8, 'g' as u8]) || lit_eq(e, ['p' as u8, 'n' as u8, 'g' as u8]) || lit_eq(e, ['w' as u8, 'e' as u8, 'b' as u8, 'p' as u8]) || lit_eq(e, ['b' as u8, 'm' as u8, 'p' as u8]) || lit_eq(e, ['p' as u8, 's' as u8, 'd' as u8]) || lit_eq(e, ['p' as u8, 's' as u8, 'b' as u8]) || lit_eq(e, ['a' as u8, 'i' as u8]) || lit_eq(e, ['i' as u8, 'n' as u8, 'd' as u8, 'd' as u8]) || lit_eq(e, ['p' as u8, 'd' as u8, 'f' as u8]) || lit_eq(e, ['e' as u8, 'p' as u8, 's' as u8]) || lit_eq(e, ['t' as u8, 'i' as u8, 'f' as u8, 'f' as u8]) || lit_eq(e, ['t' as u8, 'i' as u8, 'f' as u8]) || lit_eq(e, ['r' as u8, 'a' as u8, 'w' as u8]) || lit_eq(e, ['d' as u8, 'n' as u8, 'g' as u8]) || lit_eq(e, ['c' as u8, 'd' as u8, 'r' as u8]) || lit_eq(e, ['d' as u8, 'o' as u8, 'c' as u8]) || lit_eq(e, ['d' as u8, 'o' as u8, 'c' as u8, 'x' as u8]) || lit_eq(e, ['x' as u8, 'l' as u8, 's' as u8]) || lit_eq(e, ['x' as u8, 'l' as u8, 's' as u8, 'x' as u8]) || lit_eq(e, ['p' as u8, 'p' as u8, 't' as u8]) || lit_eq(e, ['p' as u8, 'p' as u8, 't' as u8, 'x' as u8]) || lit_eq(e, ['g' as u8, 'i' as u8, 'f' as u8]) || lit_eq(e, ['s' as u8, 'v' as u8, 'g' as u8]) || lit_eq(e, ['i' as u8, 'c' as u8, 'o' as u8])
}

/// A path is a candidate when it has an extension whose lower-case form
/// stands in the allow-list.
pub open spec fn spec_is_candidate(path: Seq<u8>) -> bool {
    match spec_extension(path) {
        Some(e) => spec_is_allowed_ext(spec_lower(e)),
        None => false,
    }
}

/// Decide whether a file path is eligible for thumbnailing.
pub fn is_candidate(path: &[u8]) -> (r: bool)
    ensures
        r == spec_is_candidate(path@),
{
    match extension_of(path) {
        Some(e) => {
            let low = lower_bytes(e.as_slice());
            is_allowed_ext(low.as_slice())
        }
        None => false,
    }
}

/// A directory entry is walked unless its name is hidden (begins with a
/// dot) or is an excluded directory name.
pub open spec fn spec_keep_entry(name: Seq<u8>) -> bool {
    &&& !(name.len() > 0 && name.first() == '.' as u8)
    &&& name != (['n' as u8, 'o' as u8, 'd' as u8, 'e' as u8, '_' as u8, 'm' as u8, 'o' as u8, 'd' as u8, 'u' as u8, 'l' as u8, 'e' as u8, 's' as u8])@
}

/// Decide whether the traversal descends into or reports an entry.
pub fn keep_entry(name: &[u8]) -> (r: bool)
    ensures
        r == spec_keep_entry(name@),
{
    let hidden = name.len() > 0 && name[0] == '.' as u8;
    !hidden && !lit_eq(name, ['n' as u8, 'o' as u8, 'd' as u8, 'e' as u8, '_' as u8, 'm' as u8, 'o' as u8, 'd' as u8, 'u' as u8, 'l' as u8, 'e' as u8, 's' as u8])
}

/// The candidate predicate as a value, so that callers, loop invariants
/// and the filter below all speak of one and the same function.
pub open spec fn candidate_pred() -> spec_fn(Seq<u8>) -> bool {
    |p: Seq<u8>| spec_is_candidate(p)
}

/// Keep exactly the candidate paths, in their given order.
pub fn filter_candidates(paths: &Vec<Vec<u8>>) -> (r: Vec<Vec<u8>>)
    ensures
        r.deep_view() == paths.deep_view().filter(candidate_pred()),
{
    let ghost pred = candidate_pred();
    let mut out: Vec<Vec<u8>> = Vec::new();
    let n = paths.len();
    let mut i: usize = 0;
    while i < n
        invariant
            pred == candidate_pred(),
            n == paths@.len(),
            i <= n,
            paths.deep_view().len() == n,
            forall|j: int| 0 <= j < n ==> paths.deep_view()[j] == paths@[j]@,
            forall|j: int| 0 <= j < out@.len() ==> out.deep_view()[j] == out@[j]@,
            out.deep_view().len() == out@.len(),
            out.deep_view() =~= paths.deep_view().subrange(0, i as int).filter(pred),
        decreases n - i,
    {
        let p = vstd::std_specs::vec::vec_index(paths, i);
        let ghost prefix = paths.deep_view().subrange(0, i as int);
        let ghost one = seq![paths.deep_view()[i as int]];
        if is_candidate(p.as_slice()) {
            out.push(slice_to_vec(p.as_slice()));
            proof {
                reveal_with_fuel(Seq::<_>::filter, 2);
                assert(one.drop_last() =~= Seq::<Seq<u8>>::empty());
                assert(one.filter(pred) =~= one);
                assert(paths.deep_view().subrange(0, i + 1) =~= prefix + one);
                Seq::filter_distributes_over_add(prefix, one, pred);
            }
        } else {
            proof {
                reveal_with_fuel(Seq::<_>::filter, 2);
                assert(one.drop_last() =~= Seq::<Seq<u8>>::empty());
                assert(one.filter(pred) =~= Seq::<Seq<u8>>::empty());
                assert(paths.deep_view().subrange(0, i + 1) =~= prefix + one);
                Seq::filter_distributes_over_add(prefix, one, pred);
            }
        }
        i += 1;
    }
    proof {
        assert(paths.deep_view().subrange(0, n as int) =~= paths.deep_view());
    }
    out
}

} // verus!
