//! The fingerprint function: a stable cache key derived from a source
//! file's path and its modification time.
//!
//! The key is the SHA-256 digest of the path bytes followed, when the
//! modification time is known, by that time in seconds since the epoch as
//! eight little-endian bytes; the digest is rendered as lower-case
//! hexadecimal. Equal (path, mtime) pairs always yield the same key.
//! Changing the mtime changes the hashed message (proved below); that the
//! digest itself then differs rests on the hash's collision resistance and
//! is not a theorem. The key deliberately covers neither file size nor
//! content.

use sha2::Digest;
use vstd::bytes::spec_u64_to_le_bytes;
use vstd::bytes::u64_to_le_bytes;
use vstd::prelude::*;

verus! {

/// The SHA-256 digest of a byte string, as the sha2 crate computes it.
pub uninterp spec fn sha256_of(data: Seq<u8>) -> Seq<u8>;

/// Relies on sha2::Sha256 (through the Digest trait) for the SHA-256
/// digest, a pure function of the input bytes; its output is 32 bytes.
#[verifier::external_body]
fn sha256(data: &[u8]) -> (r: Vec<u8>)
    ensures
        r@ == sha256_of(data@),
        r@.len() == 32,
{
    sha2::Sha256::digest(data).to_vec()
}

/// The lower-case hexadecimal digit for a value below 16, as an ASCII byte.
pub open spec fn spec_hex_digit(n: u8) -> u8
    recommends
        n < 16,
{
    if n < 10 {
        (48 + n) as u8
    } else {
        (87 + n) as u8
    }
}

/// Lower-case hexadecimal rendering of a byte string, two ASCII bytes per
/// input byte, high nibble first.
pub open spec fn spec_hex(data: Seq<u8>) -> Seq<u8>
    decreases data.len(),
{
    if data.len() == 0 {
        Seq::empty()
    } else {
        seq![
            spec_hex_digit(data.first() / 16),
            spec_hex_digit((data.first() % 16) as u8),
        ] + spec_hex(data.drop_first())
    }
}

/// Hexadecimal digit of a nibble.
fn hex_digit(n: u8) -> (r: u8)
    requires
        n < 16,
    ensures
        r == spec_hex_digit(n),
{
    if n < 10 {
        48 + n
    } else {
        87 + n
    }
}

/// Render a byte string as lower-case hexadecimal ASCII bytes.
pub fn hex_bytes(data: &[u8]) -> (r: Vec<u8>)
    ensures
        r@ == spec_hex(data@),
        r@.len() == 2 * data@.len(),
{
    let n = data.len();
    let mut out: Vec<u8> = Vec::new();
    let mut i: usize = 0;
    proof {
        assert(data@.skip(0) =~= data@);
    }
    while i < n
        invariant
            n == data@.len(),
            i <= n,
            out@.len() == 2 * i,
            spec_hex(data@) =~= out@ + spec_hex(data@.skip(i as int)),
        decreases n - i,
    {
        let b = data[i];
        out.push(hex_digit(b / 16));
        out.push(hex_digit(b % 16));
        proof {
            assert(data@.skip(i as int).first() == data@[i as int]);
            assert(data@.skip(i as int).drop_first() =~= data@.skip(i + 1));
        }
        i += 1;
    }
    proof {
        assert(data@.skip(n as int) =~= Seq::<u8>::empty());
        assert(out@ =~= spec_hex(data@));
    }
    out
}

/// The message the fingerprint hashes: the path bytes, then the
/// modification time as eight little-endian bytes when it is known.
pub open spec fn spec_fingerprint_message(path: Seq<u8>, mtime: Option<u64>) -> Seq<u8> {
    match mtime {
        Some(m) => path + spec_u64_to_le_bytes(m),
        None => path,
    }
}

/// The fingerprint of a (path, mtime) pair: 64 hexadecimal ASCII bytes.
pub open spec fn spec_fingerprint(path: Seq<u8>, mtime: Option<u64>) -> Seq<u8> {
    spec_hex(sha256_of(spec_fingerprint_message(path, mtime)))
}

/// Compute the cache key of a source file from its path bytes and its
/// modification time in whole seconds since the epoch, when available.
pub fn fingerprint(path: &[u8], mtime: Option<u64>) -> (r: Vec<u8>)
    ensures
        r@ == spec_fingerprint(path@, mtime),
        r@.len() == 64,
{
    let mut message: Vec<u8> = Vec::new();
    let n = path.len();
    let mut i: usize = 0;
    while i < n
        invariant
            n == path@.len(),
            i <= n,
            message@ =~= path@.subrange(0, i as int),
        decreases n - i,
    {
        message.push(path[i]);
        proof {
            assert(path@.subrange(0, i + 1) =~= path@.subrange(0, i as int).push(
                path@[i as int],
            ));
        }
        i += 1;
    }
    proof {
        assert(message@ =~= path@);
    }
    match mtime {
        Some(m) => {
            let mut tail = u64_to_le_bytes(m);
            let ghost before = message@;
            message.append(&mut tail);
            proof {
                assert(message@ =~= spec_fingerprint_message(path@, mtime));
            }
        }
        None => {
            proof {
                assert(message@ =~= spec_fingerprint_message(path@, mtime));
            }
        }
    }
    let digest = sha256(message.as_slice());
    hex_bytes(digest.as_slice())
}

/// The fingerprint is a pure function: equal inputs give equal keys.
pub proof fn lemma_fingerprint_pure(
    path1: Seq<u8>,
    mtime1: Option<u64>,
    path2: Seq<u8>,
    mtime2: Option<u64>,
)
    requires
        path1 == path2,
        mtime1 == mtime2,
    ensures
        spec_fingerprint(path1, mtime1) == spec_fingerprint(path2, mtime2),
{
}

/// Holding the path fixed, two distinct modification times are hashed as
/// two distinct messages. (That the digests of those messages then differ
/// rests on SHA-256's collision resistance, which no proof here covers.)
pub proof fn lemma_mtime_changes_message(path: Seq<u8>, m1: u64, m2: u64)
    requires
        m1 != m2,
    ensures
        spec_fingerprint_message(path, Some(m1)) != spec_fingerprint_message(path, Some(m2)),
{
    vstd::bytes::lemma_auto_spec_u64_to_from_le_bytes();
    let msg1 = spec_fingerprint_message(path, Some(m1));
    let msg2 = spec_fingerprint_message(path, Some(m2));
    if msg1 == msg2 {
        assert(spec_u64_to_le_bytes(m1) =~= msg1.subrange(
            path.len() as int,
            path.len() as int + 8,
        ));
        assert(spec_u64_to_le_bytes(m2) =~= msg2.subrange(
            path.len() as int,
            path.len() as int + 8,
        ));
        assert(spec_u64_to_le_bytes(m1) == spec_u64_to_le_bytes(m2));
        assert(m1 == m2);
    }
}

} // verus!
