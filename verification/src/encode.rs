//! The canonical preview encoding: obtained bytes are decoded and
//! re-encoded as WebP, and finished previews travel to the caller as a
//! base64 data URI.

use crate::error::GenError;
use base64::Engine;
use vstd::prelude::*;

verus! {

/// What decoding a byte string and re-encoding it as WebP yields, when
/// the bytes decode at all; a pure function of the bytes, as the image
/// crate computes it.
pub uninterp spec fn webp_conversion(data: Seq<u8>) -> Option<Seq<u8>>;

/// Relies on image::load_from_memory to decode the bytes and on
/// image::DynamicImage::write_to with the WebP format to re-encode
/// them: together a pure function of the input bytes, which fails
/// exactly when that function has no value.
#[verifier::external_body]
pub fn convert_to_webp(data: &[u8]) -> (r: Result<Vec<u8>, GenError>)
    ensures
        r is Ok <==> webp_conversion(data@) is Some,
        r matches Ok(v) ==> v@ == webp_conversion(data@).unwrap(),
        r matches Err(e) ==> (e is Decode || e is Encode),
{
    let img = match image::load_from_memory(data) {
        Ok(i) => i,
        Err(e) => return Err(GenError::Decode(e.to_string())),
    };
    let mut buf: Vec<u8> = Vec::new();
    match img.write_to(&mut std::io::Cursor::new(&mut buf), image::ImageFormat::WebP) {
        Ok(()) => Ok(buf),
        Err(e) => Err(GenError::Encode(e.to_string())),
    }
}

/// The base64 rendering of a byte string, standard alphabet with
/// padding, as the base64 crate computes it.
pub uninterp spec fn base64_of(data: Seq<u8>) -> Seq<char>;

/// The padded base64 rendering of `n` bytes takes four characters per
/// three bytes; it must fit a usize, or the encoder aborts.
pub open spec fn spec_b64_fits(data: Seq<u8>) -> bool {
    4 * ((data.len() + 2) / 3) <= usize::MAX
}

/// Relies on base64's STANDARD engine: the encoding is a pure function
/// of the bytes, four output characters for every three input bytes,
/// padded. The engine aborts when that length overflows, so such inputs
/// are excluded.
#[verifier::external_body]
fn base64_encode(data: &[u8]) -> (r: String)
    requires
        spec_b64_fits(data@),
    ensures
        r@ == base64_of(data@),
        r@.len() == 4 * ((data@.len() + 2) / 3),
{
    base64::engine::general_purpose::STANDARD.encode(data)
}

/// The data URI a finished preview is handed over as.
pub open spec fn spec_data_uri(webp: Seq<u8>) -> Seq<char> {
    ("data:image/webp;base64,")@ + base64_of(webp)
}

/// Whether a payload is small enough for its base64 rendering to exist.
pub fn b64_fits(data: &[u8]) -> (r: bool)
    ensures
        r == spec_b64_fits(data@),
{
    let n = data.len();
    let ceil = n / 3 + (if n % 3 != 0 {
        1
    } else {
        0
    });
    proof {
        assert(ceil == (n as int + 2) / 3);
    }
    ceil <= usize::MAX / 4
}

/// Render a finished preview as an inline data URI.
pub fn data_uri(webp: &[u8]) -> (r: String)
    requires
        spec_b64_fits(webp@),
    ensures
        r@ == spec_data_uri(webp@),
{
    let mut s = String::from_str("data:image/webp;base64,");
    let b64 = base64_encode(webp);
    s.append(b64.as_str());
    s
}

} // verus!
