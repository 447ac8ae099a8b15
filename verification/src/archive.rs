//! The embedded-preview strategy: reading an archive listing and picking
//! the entry to extract.
//!
//! The host runs the archive tool; its listing output comes here as
//! bytes. Each listing line names an entry in its last
//! whitespace-separated column. Among the image-like entries (png, bmp
//! or jpg, case-insensitively) one whose name speaks of a thumbnail or
//! preview is preferred; otherwise the first image-like entry in listing
//! order is taken.

use crate::bytesutil::lower_bytes;
use crate::bytesutil::spec_contains;
use crate::bytesutil::spec_ends_with;
use crate::bytesutil::spec_find;
use crate::bytesutil::spec_lower;
use crate::bytesutil::contains_sub;
use crate::bytesutil::ends_with;
use crate::bytesutil::find_byte;
use vstd::prelude::*;
use vstd::slice::slice_to_vec;

verus! {

/// ASCII whitespace, as a listing column separator.
pub open spec fn spec_is_ws(b: u8) -> bool {
    b == 32 || b == 9 || b == 11 || b == 12 || b == 13
}

/// Whitespace test on one byte.
pub fn is_ws(b: u8) -> (r: bool)
    ensures
        r == spec_is_ws(b),
{
    b == 32 || b == 9 || b == 11 || b == 12 || b == 13
}

/// `s` without its trailing whitespace.
pub open spec fn spec_trim_end(s: Seq<u8>) -> Seq<u8>
    decreases s.len(),
{
    if s.len() > 0 && spec_is_ws(s.last()) {
        spec_trim_end(s.drop_last())
    } else {
        s
    }
}

/// The trimmed string is a prefix; everything cut was whitespace; and it
/// does not itself end in whitespace.
pub proof fn lemma_trim_end(s: Seq<u8>)
    ensures
        spec_trim_end(s).len() <= s.len(),
        spec_trim_end(s) == s.subrange(0, spec_trim_end(s).len() as int),
        forall|j: int| spec_trim_end(s).len() <= j < s.len() ==> spec_is_ws(#[trigger] s[j]),
        spec_trim_end(s).len() > 0 ==> !spec_is_ws(spec_trim_end(s).last()),
    decreases s.len(),
{
    if s.len() > 0 && spec_is_ws(s.last()) {
        lemma_trim_end(s.drop_last());
        assert(spec_trim_end(s) == spec_trim_end(s.drop_last()));
        assert(s.drop_last().subrange(0, spec_trim_end(s).len() as int) =~= s.subrange(
            0,
            spec_trim_end(s).len() as int,
        ));
        assert forall|j: int| spec_trim_end(s).len() <= j < s.len() implies spec_is_ws(
            #[trigger] s[j],
        ) by {
            if j < s.len() - 1 {
                assert(s.drop_last()[j] == s[j]);
                assert(spec_is_ws(s.drop_last()[j]));
            } else {
                assert(s[j] == s.last());
            }
        }
    } else {
        assert(s.subrange(0, s.len() as int) =~= s);
    }
}

/// Index of the last whitespace byte of `s`, if any.
pub open spec fn spec_rfind_ws(s: Seq<u8>) -> Option<int>
    decreases s.len(),
{
    if s.len() == 0 {
        None
    } else if spec_is_ws(s.last()) {
        Some(s.len() - 1)
    } else {
        spec_rfind_ws(s.drop_last())
    }
}

/// What `spec_rfind_ws` finds is the last whitespace byte; when it finds
/// nothing, none stands in `s`.
pub proof fn lemma_rfind_ws(s: Seq<u8>)
    ensures
        match spec_rfind_ws(s) {
            Some(k) => 0 <= k < s.len() && spec_is_ws(s[k]) && forall|j: int|
                k < j < s.len() ==> !spec_is_ws(#[trigger] s[j]),
            None => forall|j: int| 0 <= j < s.len() ==> !spec_is_ws(#[trigger] s[j]),
        },
    decreases s.len(),
{
    if s.len() > 0 && !spec_is_ws(s.last()) {
        lemma_rfind_ws(s.drop_last());
        assert forall|j: int| 0 <= j < s.len() - 1 implies s.drop_last()[j] == s[j] by {}
    }
}

/// The last whitespace-separated column of a listing line, if the line
/// has any column at all.
pub open spec fn spec_last_token(line: Seq<u8>) -> Option<Seq<u8>> {
    let t = spec_trim_end(line);
    if t.len() == 0 {
        None
    } else {
        match spec_rfind_ws(t) {
            Some(k) => Some(t.subrange(k + 1, t.len() as int)),
            None => Some(t),
        }
    }
}

/// Extract the last whitespace-separated column of a line.
pub fn last_token(line: &[u8]) -> (r: Option<Vec<u8>>)
    ensures
        match spec_last_token(line@) {
            Some(t) => r matches Some(v) && v@ == t,
            None => r is None,
        },
{
    proof {
        lemma_trim_end(line@);
    }
    let n = line.len();
    let mut e: usize = n;
    proof {
        assert(line@.subrange(0, n as int) =~= line@);
    }
    while e > 0 && is_ws(line[e - 1])
        invariant
            n == line@.len(),
            e <= n,
            forall|j: int| e <= j < n ==> spec_is_ws(#[trigger] line@[j]),
            spec_trim_end(line@) == spec_trim_end(line@.subrange(0, e as int)),
        decreases e,
    {
        proof {
            assert(line@.subrange(0, e as int).last() == line@[e - 1]);
            assert(line@.subrange(0, e as int).drop_last() =~= line@.subrange(0, e - 1));
        }
        e -= 1;
    }
    proof {
        assert(spec_trim_end(line@.subrange(0, e as int)) == line@.subrange(0, e as int));
        assert(spec_trim_end(line@) == line@.subrange(0, e as int));
    }
    if e == 0 {
        return None;
    }
    let ghost t = spec_trim_end(line@);
    proof {
        lemma_rfind_ws(t);
    }
    let mut s: usize = e;
    while s > 0 && !is_ws(line[s - 1])
        invariant
            n == line@.len(),
            e <= n,
            s <= e,
            t == line@.subrange(0, e as int),
            forall|j: int| s <= j < e ==> !spec_is_ws(#[trigger] line@[j]),
        decreases s,
    {
        s -= 1;
    }
    let token = slice_to_vec(crate::bytesutil::sub_slice(line, s, e));
    proof {
        match spec_rfind_ws(t) {
            Some(k) => {
                assert(spec_is_ws(t[k]));
                assert(t[k] == line@[k]);
                if k >= s as int {
                    assert(!spec_is_ws(line@[k]));
                    assert(false);
                }
                assert(s > 0);
                assert(spec_is_ws(line@[s - 1]));
                if k < s as int - 1 {
                    assert(!spec_is_ws(t[s as int - 1]));
                    assert(t[s as int - 1] == line@[s - 1]);
                    assert(false);
                }
                assert(k == s as int - 1);
                assert(token@ =~= t.subrange(k + 1, t.len() as int));
            }
            None => {
                if s > 0 {
                    assert(spec_is_ws(line@[s - 1]));
                    assert(t[s as int - 1] == line@[s - 1]);
                    assert(!spec_is_ws(t[s as int - 1]));
                    assert(false);
                }
                assert(s == 0);
                assert(token@ =~= t);
            }
        }
    }
    Some(token)
}

/// A line without a trailing carriage return.
pub open spec fn spec_strip_cr(line: Seq<u8>) -> Seq<u8> {
    if line.len() > 0 && line.last() == 13 {
        line.drop_last()
    } else {
        line
    }
}

/// The lines of a byte string: the segments between newline bytes, each
/// without a trailing carriage return; a final newline closes the last
/// line rather than opening an empty one.
pub open spec fn spec_lines(s: Seq<u8>) -> Seq<Seq<u8>>
    decreases s.len()
    via spec_lines_dec
{
    if s.len() == 0 {
        Seq::empty()
    } else {
        match spec_find(s, 10) {
            Some(k) => seq![spec_strip_cr(s.subrange(0, k))] + spec_lines(
                s.subrange(k + 1, s.len() as int),
            ),
            None => seq![spec_strip_cr(s)],
        }
    }
}

#[via_fn]
proof fn spec_lines_dec(s: Seq<u8>) {
    if s.len() > 0 {
        crate::bytesutil::lemma_find(s, 10);
    }
}

/// Split a byte string into its lines.
pub fn split_lines(s: &[u8]) -> (r: Vec<Vec<u8>>)
    ensures
        r.deep_view() == spec_lines(s@),
{
    let n = s.len();
    let mut out: Vec<Vec<u8>> = Vec::new();
    let mut start: usize = 0;
    proof {
        assert(s@.subrange(0, n as int) =~= s@);
        assert(out.deep_view() + spec_lines(s@.subrange(0, n as int)) =~= spec_lines(s@));
    }
    while start < n
        invariant
            n == s@.len(),
            start <= n,
            spec_lines(s@) == out.deep_view() + spec_lines(s@.subrange(start as int, n as int)),
        decreases n - start,
    {
        let ghost rem = s@.subrange(start as int, n as int);
        let ghost old_dv = out.deep_view();
        let rest = crate::bytesutil::sub_slice(s, start, n);
        match find_byte(rest, 10) {
            Some(k) => {
                let mut stop = start + k;
                if stop > start && s[stop - 1] == 13 {
                    stop -= 1;
                }
                let line = slice_to_vec(crate::bytesutil::sub_slice(s, start, stop));
                proof {
                    assert(rem.subrange(0, k as int) =~= s@.subrange(start as int, start + k));
                    assert(spec_strip_cr(rem.subrange(0, k as int)) =~= s@.subrange(
                        start as int,
                        stop as int,
                    ));
                    assert(rem.subrange(k + 1, rem.len() as int) =~= s@.subrange(
                        start + k + 1,
                        n as int,
                    ));
                    assert(spec_lines(rem) == seq![spec_strip_cr(rem.subrange(0, k as int))]
                        + spec_lines(rem.subrange(k + 1, rem.len() as int)));
                }
                out.push(line);
                proof {
                    let c = spec_strip_cr(rem.subrange(0, k as int));
                    assert(out.deep_view() =~~= old_dv.push(c));
                    assert(old_dv.push(c) =~= old_dv + seq![c]);
                    assert(old_dv + (seq![c] + spec_lines(s@.subrange(start + k + 1, n as int)))
                        =~= (old_dv + seq![c]) + spec_lines(s@.subrange(start + k + 1, n as int)));
                    assert(spec_lines(s@) == out.deep_view() + spec_lines(
                        s@.subrange(start + k + 1, n as int),
                    ));
                }
                start = start + k + 1;
            }
            None => {
                let mut stop = n;
                if stop > start && s[stop - 1] == 13 {
                    stop -= 1;
                }
                let line = slice_to_vec(crate::bytesutil::sub_slice(s, start, stop));
                proof {
                    assert(spec_strip_cr(rem) =~= s@.subrange(start as int, stop as int));
                    assert(spec_lines(rem) == seq![spec_strip_cr(rem)]);
                }
                out.push(line);
                proof {
                    let c = spec_strip_cr(rem);
                    assert(out.deep_view() =~~= old_dv.push(c));
                    assert(old_dv.push(c) =~= old_dv + seq![c]);
                    assert(s@.subrange(n as int, n as int) =~= Seq::<u8>::empty());
                    assert(seq![c] + spec_lines(s@.subrange(n as int, n as int)) =~= seq![c]);
                    assert(spec_lines(s@) == out.deep_view() + spec_lines(
                        s@.subrange(n as int, n as int),
                    ));
                }
                start = n;
            }
        }
    }
    proof {
        assert(s@.subrange(n as int, n as int) =~= Seq::<u8>::empty());
        assert(out.deep_view() + spec_lines(s@.subrange(n as int, n as int)) =~= out.deep_view());
    }
    out
}

/// The entry names a listing shows: the last column of each line that
/// has one.
pub open spec fn spec_names_of_lines(lines: Seq<Seq<u8>>) -> Seq<Seq<u8>>
    decreases lines.len(),
{
    if lines.len() == 0 {
        Seq::empty()
    } else {
        (match spec_last_token(lines.first()) {
            Some(t) => seq![t],
            None => Seq::empty(),
        }) + spec_names_of_lines(lines.drop_first())
    }
}

/// The entry names of a whole listing output.
pub open spec fn spec_listing_names(s: Seq<u8>) -> Seq<Seq<u8>> {
    spec_names_of_lines(spec_lines(s))
}

/// Read the entry names out of a listing output.
pub fn listing_names(s: &[u8]) -> (r: Vec<Vec<u8>>)
    ensures
        r.deep_view() == spec_listing_names(s@),
{
    let lines = split_lines(s);
    let ghost ldv = lines.deep_view();
    let mut out: Vec<Vec<u8>> = Vec::new();
    let n = lines.len();
    let mut i: usize = 0;
    proof {
        assert(ldv.skip(0) =~= ldv);
        assert(out.deep_view() + spec_names_of_lines(ldv.skip(0)) =~= spec_names_of_lines(ldv));
    }
    while i < n
        invariant
            n == lines@.len(),
            i <= n,
            ldv == lines.deep_view(),
            ldv.len() == n,
            spec_names_of_lines(ldv) == out.deep_view() + spec_names_of_lines(ldv.skip(i as int)),
        decreases n - i,
    {
        let line = vstd::std_specs::vec::vec_index(&lines, i);
        let ghost old_dv = out.deep_view();
        proof {
            assert(line@ =~= ldv[i as int]);
            assert(ldv.skip(i as int).first() == ldv[i as int]);
            assert(ldv.skip(i as int).drop_first() =~= ldv.skip(i + 1));
        }
        match last_token(line.as_slice()) {
            Some(t) => {
                let ghost tok = spec_last_token(ldv[i as int]).unwrap();
                out.push(t);
                proof {
                    assert(spec_names_of_lines(ldv.skip(i as int)) == seq![tok]
                        + spec_names_of_lines(ldv.skip(i + 1)));
                    assert(out.deep_view() =~~= old_dv.push(tok));
                    assert(old_dv.push(tok) =~= old_dv + seq![tok]);
                    assert(old_dv + (seq![tok] + spec_names_of_lines(ldv.skip(i + 1))) =~= (old_dv
                        + seq![tok]) + spec_names_of_lines(ldv.skip(i + 1)));
                    assert(spec_names_of_lines(ldv) == out.deep_view() + spec_names_of_lines(
                        ldv.skip(i + 1),
                    ));
                }
            }
            None => {
                proof {
                    assert(spec_names_of_lines(ldv.skip(i as int)) =~= Seq::<Seq<u8>>::empty()
                        + spec_names_of_lines(ldv.skip(i + 1)));
                    assert(Seq::<Seq<u8>>::empty() + spec_names_of_lines(ldv.skip(i + 1))
                        =~= spec_names_of_lines(ldv.skip(i + 1)));
                    assert(spec_names_of_lines(ldv) == out.deep_view() + spec_names_of_lines(
                        ldv.skip(i + 1),
                    ));
                }
            }
        }
        i += 1;
    }
    proof {
        assert(ldv.skip(n as int) =~= Seq::<Seq<u8>>::empty());
        assert(out.deep_view() + spec_names_of_lines(ldv.skip(n as int)) =~= out.deep_view());
    }
    out
}

/// An image-like entry: its lower-cased name ends in a raster suffix.
pub open spec fn spec_is_image_entry(name: Seq<u8>) -> bool {
    ||| spec_ends_with(spec_lower(name), (['.' as u8, 'p' as u8, 'n' as u8, 'g' as u8])@)
    ||| spec_ends_with(spec_lower(name), (['.' as u8, 'b' as u8, 'm' as u8, 'p' as u8])@)
    ||| spec_ends_with(spec_lower(name), (['.' as u8, 'j' as u8, 'p' as u8, 'g' as u8])@)
}

/// A preferred entry: image-like, and its name speaks of a thumbnail or
/// a preview.
pub open spec fn spec_is_preferred_entry(name: Seq<u8>) -> bool {
    &&& spec_is_image_entry(name)
    &&& {
        ||| spec_contains(
            spec_lower(name),
            (['t' as u8, 'h' as u8, 'u' as u8, 'm' as u8, 'b' as u8])@,
        )
        ||| spec_contains(
            spec_lower(name),
            (['p' as u8, 'r' as u8, 'e' as u8, 'v' as u8, 'i' as u8, 'e' as u8, 'w' as u8])@,
        )
    }
}

/// Image-likeness of one entry name.
pub fn is_image_entry(name: &[u8]) -> (r: bool)
    ensures
        r == spec_is_image_entry(name@),
{
    let low = lower_bytes(name);
    let png = ['.' as u8, 'p' as u8, 'n' as u8, 'g' as u8];
    let bmp = ['.' as u8, 'b' as u8, 'm' as u8, 'p' as u8];
    let jpg = ['.' as u8, 'j' as u8, 'p' as u8, 'g' as u8];
    ends_with(low.as_slice(), png.as_slice()) || ends_with(low.as_slice(), bmp.as_slice())
        || ends_with(low.as_slice(), jpg.as_slice())
}

/// Preference of one entry name.
pub fn is_preferred_entry(name: &[u8]) -> (r: bool)
    ensures
        r == spec_is_preferred_entry(name@),
{
    if !is_image_entry(name) {
        return false;
    }
    let low = lower_bytes(name);
    let thumb = ['t' as u8, 'h' as u8, 'u' as u8, 'm' as u8, 'b' as u8];
    let preview = ['p' as u8, 'r' as u8, 'e' as u8, 'v' as u8, 'i' as u8, 'e' as u8, 'w' as u8];
    contains_sub(low.as_slice(), thumb.as_slice()) || contains_sub(
        low.as_slice(),
        preview.as_slice(),
    )
}

/// Index of the first name satisfying `pred`, if any.
pub open spec fn spec_first_where(names: Seq<Seq<u8>>, pred: spec_fn(Seq<u8>) -> bool) -> Option<
    int,
>
    decreases names.len(),
{
    if names.len() == 0 {
        None
    } else if pred(names.first()) {
        Some(0)
    } else {
        match spec_first_where(names.drop_first(), pred) {
            Some(k) => Some(k + 1),
            None => None,
        }
    }
}

/// `spec_first_where` finds the first satisfying index.
pub proof fn lemma_first_where(names: Seq<Seq<u8>>, pred: spec_fn(Seq<u8>) -> bool)
    ensures
        match spec_first_where(names, pred) {
            Some(k) => 0 <= k < names.len() && pred(names[k]) && forall|j: int|
                0 <= j < k ==> !pred(#[trigger] names[j]),
            None => forall|j: int| 0 <= j < names.len() ==> !pred(#[trigger] names[j]),
        },
    decreases names.len(),
{
    if names.len() > 0 && !pred(names.first()) {
        lemma_first_where(names.drop_first(), pred);
        assert forall|j: int| 1 <= j < names.len() implies names.drop_first()[j - 1]
            == names[j] by {}
    }
}

/// A position that satisfies `pred` after only positions that do not is
/// the one `spec_first_where` finds.
pub proof fn lemma_first_where_is(
    names: Seq<Seq<u8>>,
    pred: spec_fn(Seq<u8>) -> bool,
    i: int,
)
    requires
        0 <= i < names.len(),
        pred(names[i]),
        forall|j: int| 0 <= j < i ==> !pred(#[trigger] names[j]),
    ensures
        spec_first_where(names, pred) == Some(i),
{
    lemma_first_where(names, pred);
    match spec_first_where(names, pred) {
        Some(k) => {
            if k < i {
                assert(!pred(names[k]));
            }
            if k > i {
                assert(!pred(names[i]));
            }
        }
        None => {
            assert(!pred(names[i]));
        }
    }
}

/// The image-entry predicate as a value.
pub open spec fn image_pred() -> spec_fn(Seq<u8>) -> bool {
    |n: Seq<u8>| spec_is_image_entry(n)
}

/// The preferred-entry predicate as a value.
pub open spec fn preferred_pred() -> spec_fn(Seq<u8>) -> bool {
    |n: Seq<u8>| spec_is_preferred_entry(n)
}

/// Which entry the extraction strategy takes from a listing: the first
/// preferred entry when one exists, else the first image-like entry,
/// else none.
pub open spec fn spec_select_entry(names: Seq<Seq<u8>>) -> Option<Seq<u8>> {
    match spec_first_where(names, preferred_pred()) {
        Some(i) => Some(names[i]),
        None => match spec_first_where(names, image_pred()) {
            Some(i) => Some(names[i]),
            None => None,
        },
    }
}

/// Whenever any entry speaks of a thumbnail or preview, the selection
/// takes such an entry, never a plain image that merely comes earlier.
pub proof fn lemma_selection_prefers_previews(names: Seq<Seq<u8>>, i: int)
    requires
        0 <= i < names.len(),
        spec_is_preferred_entry(names[i]),
    ensures
        spec_select_entry(names) matches Some(t) && spec_is_preferred_entry(t),
{
    lemma_first_where(names, preferred_pred());
    match spec_first_where(names, preferred_pred()) {
        Some(k) => {
            assert(preferred_pred()(names[k]));
        }
        None => {
            assert(!preferred_pred()(names[i]));
            assert(false);
        }
    }
}

/// Pick the entry to extract from a list of entry names.
pub fn select_preview_entry(names: &Vec<Vec<u8>>) -> (r: Option<Vec<u8>>)
    ensures
        match spec_select_entry(names.deep_view()) {
            Some(t) => r matches Some(v) && v@ == t,
            None => r is None,
        },
{
    let ghost dv = names.deep_view();
    let n = names.len();
    let mut first_image: Option<usize> = None;
    let mut i: usize = 0;
    while i < n
        invariant
            n == names@.len(),
            dv == names.deep_view(),
            dv.len() == n,
            forall|j: int| 0 <= j < n ==> dv[j] == names@[j]@,
            i <= n,
            forall|j: int| 0 <= j < i ==> !spec_is_preferred_entry(#[trigger] dv[j]),
            match first_image {
                Some(fi) => fi < i && spec_is_image_entry(dv[fi as int]) && forall|j: int|
                    0 <= j < fi ==> !spec_is_image_entry(#[trigger] dv[j]),
                None => forall|j: int| 0 <= j < i ==> !spec_is_image_entry(#[trigger] dv[j]),
            },
        decreases n - i,
    {
        let name = vstd::std_specs::vec::vec_index(names, i);
        if is_preferred_entry(name.as_slice()) {
            proof {
                lemma_first_where_is(dv, preferred_pred(), i as int);
            }
            return Some(slice_to_vec(name.as_slice()));
        }
        if first_image.is_none() && is_image_entry(name.as_slice()) {
            first_image = Some(i);
        }
        i += 1;
    }
    proof {
        lemma_first_where(dv, preferred_pred());
        match spec_first_where(dv, preferred_pred()) {
            Some(k) => {
                assert(!spec_is_preferred_entry(dv[k]));
                assert(false);
            }
            None => {}
        }
    }
    match first_image {
        Some(fi) => {
            proof {
                lemma_first_where_is(dv, image_pred(), fi as int);
            }
            let name = vstd::std_specs::vec::vec_index(names, fi);
            Some(slice_to_vec(name.as_slice()))
        }
        None => {
            proof {
                lemma_first_where(dv, image_pred());
                match spec_first_where(dv, image_pred()) {
                    Some(k) => {
                        assert(!spec_is_image_entry(dv[k]));
                        assert(false);
                    }
                    None => {}
                }
            }
            None
        }
    }
}

/// Pick the entry to extract, straight from the listing output.
pub fn select_from_listing(stdout: &[u8]) -> (r: Option<Vec<u8>>)
    ensures
        match spec_select_entry(spec_listing_names(stdout@)) {
            Some(t) => r matches Some(v) && v@ == t,
            None => r is None,
        },
{
    let names = listing_names(stdout);
    select_preview_entry(&names)
}

} // verus!
