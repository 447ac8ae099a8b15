//! Locations the cache works with: the user data root, the cache
//! directory under it, the configuration file, and the cache entry path
//! that a fingerprint maps to.
//!
//! Paths are byte strings joined with a single separator. The home
//! directory itself can only be asked of the platform, so the functions
//! that start from it return `None` when the platform reports none.

use crate::bytesutil::append_bytes;
use vstd::prelude::*;
use vstd::slice::slice_to_vec;

verus! {

/// Join a base path and one further component with a separator, unless
/// the base already ends with one or is empty.
pub open spec fn spec_join(base: Seq<u8>, name: Seq<u8>) -> Seq<u8> {
    if base.len() > 0 && base.last() != '/' as u8 {
        base + seq!['/' as u8] + name
    } else {
        base + name
    }
}

/// Join a base path and one component.
pub fn join_path(base: &[u8], name: &[u8]) -> (r: Vec<u8>)
    ensures
        r@ == spec_join(base@, name@),
{
    let mut out = slice_to_vec(base);
    if base.len() > 0 && base[base.len() - 1] != '/' as u8 {
        out.push('/' as u8);
        proof {
            assert(out@ =~= base@ + seq!['/' as u8]);
        }
    }
    append_bytes(&mut out, name);
    proof {
        assert(out@ =~= spec_join(base@, name@));
    }
    out
}

/// The name of the user data root under the home directory.
pub open spec fn spec_root_name() -> Seq<u8> {
    (['A' as u8, 'R' as u8, 'C' as u8, 'H' as u8, 'I' as u8])@
}

/// The name of the cache directory under the user data root.
pub open spec fn spec_cache_name() -> Seq<u8> {
    (['c' as u8, 'a' as u8, 'c' as u8, 'h' as u8, 'e' as u8])@
}

/// The name of the configuration file under the user data root.
pub open spec fn spec_config_name() -> Seq<u8> {
    (['c' as u8, 'o' as u8, 'n' as u8, 'f' as u8, 'i' as u8, 'g' as u8, '.' as u8, 'j' as u8,
        's' as u8, 'o' as u8, 'n' as u8])@
}

/// `d` is the user data root under some home directory.
pub open spec fn spec_is_user_data_dir(d: Seq<u8>) -> bool {
    exists|h: Seq<u8>| d == #[trigger] spec_join(h, spec_root_name())
}

/// Relies on dirs::home_dir for the platform's home directory; the
/// result depends on the environment, so nothing further is assumed of
/// it. A path that is not valid Unicode is reported lossily.
#[verifier::external_body]
fn home_dir_bytes() -> Option<Vec<u8>> {
    dirs::home_dir().map(|p| p.to_string_lossy().into_owned().into_bytes())
}

/// The user data root: the home directory's `ARCHI` folder, when the
/// platform knows a home directory at all.
pub fn get_user_data_dir() -> (r: Option<Vec<u8>>)
    ensures
        r matches Some(d) ==> spec_is_user_data_dir(d@),
{
    match home_dir_bytes() {
        Some(home) => {
            let root = ['A' as u8, 'R' as u8, 'C' as u8, 'H' as u8, 'I' as u8];
            let d = join_path(home.as_slice(), root.as_slice());
            proof {
                assert(d@ == spec_join(home@, spec_root_name()));
            }
            Some(d)
        }
        None => None,
    }
}

/// `c` is the cache directory under some user data root.
pub open spec fn spec_is_cache_dir(c: Seq<u8>) -> bool {
    exists|d: Seq<u8>|
        spec_is_user_data_dir(d) && c == #[trigger] spec_join(d, spec_cache_name())
}

/// The cache directory, under the user data root.
pub fn get_cache_dir() -> (r: Option<Vec<u8>>)
    ensures
        r matches Some(c) ==> spec_is_cache_dir(c@),
{
    match get_user_data_dir() {
        Some(data) => {
            let sub = ['c' as u8, 'a' as u8, 'c' as u8, 'h' as u8, 'e' as u8];
            let c = join_path(data.as_slice(), sub.as_slice());
            proof {
                assert(c@ == spec_join(data@, spec_cache_name()));
            }
            Some(c)
        }
        None => None,
    }
}

/// The configuration file, under the user data root.
pub fn get_config_path() -> (r: Option<Vec<u8>>)
    ensures
        r matches Some(p) ==> exists|d: Seq<u8>|
            spec_is_user_data_dir(d) && p@ == #[trigger] spec_join(d, spec_config_name()),
{
    match get_user_data_dir() {
        Some(data) => {
            let name = ['c' as u8, 'o' as u8, 'n' as u8, 'f' as u8, 'i' as u8, 'g' as u8,
                '.' as u8, 'j' as u8, 's' as u8, 'o' as u8, 'n' as u8];
            let p = join_path(data.as_slice(), name.as_slice());
            proof {
                assert(p@ == spec_join(data@, spec_config_name()));
            }
            Some(p)
        }
        None => None,
    }
}

/// The file name a fingerprint's cache entry carries: the fingerprint
/// followed by the canonical image suffix.
pub open spec fn spec_cached_file_name(fp: Seq<u8>) -> Seq<u8> {
    fp + (['.' as u8, 'w' as u8, 'e' as u8, 'b' as u8, 'p' as u8])@
}

/// The full path of a fingerprint's cache entry in a given cache
/// directory.
pub open spec fn spec_cached_path(cache_dir: Seq<u8>, fp: Seq<u8>) -> Seq<u8> {
    spec_join(cache_dir, spec_cached_file_name(fp))
}

/// Where a fingerprint's entry lives in the cache directory.
pub fn get_cached_path(cache_dir: &[u8], fp: &[u8]) -> (r: Vec<u8>)
    ensures
        r@ == spec_cached_path(cache_dir@, fp@),
{
    let mut name = slice_to_vec(fp);
    let suffix = ['.' as u8, 'w' as u8, 'e' as u8, 'b' as u8, 'p' as u8];
    append_bytes(&mut name, suffix.as_slice());
    proof {
        assert(name@ =~= spec_cached_file_name(fp@));
    }
    join_path(cache_dir, name.as_slice())
}

} // verus!
