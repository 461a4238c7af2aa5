use vstd::prelude::*;
use vstd::utf8::{decode_utf8, encode_utf8, valid_utf8};

use crate::args::res_view;

verus! {

/// What `base64::encode` returns for the given bytes.
pub uninterp spec fn spec_b64_encode(data: Seq<u8>) -> Seq<char>;

/// What `base64::decode` returns for the given text: the bytes, or the
/// message of its error.
pub uninterp spec fn spec_b64_decode(text: Seq<char>) -> Result<Seq<u8>, Seq<char>>;

/// What a gzip encoder of `flate2` at `Compression::best()` writes for the
/// given bytes, or the message of its error.
pub uninterp spec fn spec_gzip(data: Seq<u8>) -> Result<Seq<u8>, Seq<char>>;

/// What `read_to_string` on a `flate2::read::GzDecoder` over the given bytes
/// gives: the text, or the message of its error.
pub uninterp spec fn spec_gunzip_text(data: Seq<u8>) -> Result<Seq<char>, Seq<char>>;

/// Calls `base64::encode` (standard alphabet, with padding).  Claimed: the
/// result is the named encoding of the bytes; `base64::decode` gives the
/// bytes back from it; it holds only characters of the standard alphabet
/// and `=`, so no `.`.  The length computation in `base64` cannot overflow
/// for a slice, whose length is at most `isize::MAX`.
#[verifier::external_body]
fn b64_encode(data: &[u8]) -> (r: String)
    ensures
        r@ == spec_b64_encode(data@),
        spec_b64_decode(r@) is Ok,
        spec_b64_decode(r@)->Ok_0 == data@,
        !r@.contains('.'),
{
    base64::encode(data)
}

/// Calls `base64::decode` on the UTF-8 bytes of the text.  Claimed: the
/// result is the named decoding, with the error turned into its message.
#[verifier::external_body]
fn b64_decode(text: &str) -> (r: Result<Vec<u8>, String>)
    ensures
        match r {
            Ok(b) => spec_b64_decode(text@) == Ok::<Seq<u8>, Seq<char>>(b@),
            Err(e) => spec_b64_decode(text@) == Err::<Seq<u8>, Seq<char>>(e@),
        },
{
    base64::decode(text).map_err(|e| e.to_string())
}

/// Writes the bytes through `flate2::write::GzEncoder::new(Vec::new(),
/// Compression::best())` and calls `finish`.  Claimed: it succeeds, since
/// writing into a `Vec` cannot fail and the deflate stream is only fed
/// plain writes followed by finishing, so none of its error states is
/// reached; the result is the named compression; a `GzDecoder` read to a
/// string gives the text back from it when the bytes are valid UTF-8.
#[verifier::external_body]
fn gzip_best(data: &[u8]) -> (r: Result<Vec<u8>, String>)
    ensures
        r is Ok,
        match r {
            Ok(z) => spec_gzip(data@) == Ok::<Seq<u8>, Seq<char>>(z@),
            Err(e) => spec_gzip(data@) == Err::<Seq<u8>, Seq<char>>(e@),
        },
        r matches Ok(z) ==> (valid_utf8(data@) ==> spec_gunzip_text(z@) is Ok
            && spec_gunzip_text(z@)->Ok_0 == decode_utf8(data@)),
{
    let mut enc = flate2::write::GzEncoder::new(Vec::new(), flate2::Compression::best());
    std::io::Write::write_all(&mut enc, data).map_err(|e| e.to_string())?;
    enc.finish().map_err(|e| e.to_string())
}

/// Calls `read_to_string` on a `flate2::read::GzDecoder` over the bytes.
/// Claimed: the result is the named decompression, with the error turned
/// into its message.
#[verifier::external_body]
fn gunzip_text(data: &[u8]) -> (r: Result<String, String>)
    ensures
        res_view(r) == spec_gunzip_text(data@),
{
    let mut text = String::new();
    let mut dec = flate2::read::GzDecoder::new(data);
    std::io::Read::read_to_string(&mut dec, &mut text).map_err(|e| e.to_string())?;
    Ok(text)
}

/// The packed form of a text: its UTF-8 bytes compressed with gzip, then
/// written in base64.
pub open spec fn spec_pack_inline(text: Seq<char>) -> Result<Seq<char>, Seq<char>> {
    match spec_gzip(encode_utf8(text)) {
        Ok(z) => Ok(spec_b64_encode(z)),
        Err(e) => Err(e),
    }
}

/// The text of a packed form: base64 read back, then gzip undone.
pub open spec fn spec_unpack_inline(packed: Seq<char>) -> Result<Seq<char>, Seq<char>> {
    match spec_b64_decode(packed) {
        Ok(b) => spec_gunzip_text(b),
        Err(e) => Err(e),
    }
}

/// Packs a text (a JSON description of a mesh or a texture) into the form
/// that scene files hold inline.  Packing always succeeds; a packed text
/// holds no `.`, so it is never taken for a file name, and unpacking it
/// gives the text back.
pub fn pack_inline(text: &str) -> (r: Result<String, String>)
    ensures
        r is Ok,
        res_view(r) == spec_pack_inline(text@),
        r matches Ok(p) ==> !p@.contains('.'),
        r matches Ok(p) ==> spec_unpack_inline(p@) is Ok && spec_unpack_inline(p@)->Ok_0 == text@,
{
    let bytes = text.as_bytes();
    proof {
        vstd::utf8::encode_utf8_valid_utf8(text@);
        vstd::utf8::encode_utf8_decode_utf8(text@);
    }
    let z = gzip_best(bytes)?;
    Ok(b64_encode(z.as_slice()))
}

/// Unpacks the inline form of a scene asset back into its text.
pub fn unpack_inline(packed: &str) -> (r: Result<String, String>)
    ensures
        res_view(r) == spec_unpack_inline(packed@),
{
    let b = b64_decode(packed)?;
    gunzip_text(b.as_slice())
}

} // verus!
