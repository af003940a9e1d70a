//! Framing of gossip messages on the wire: small messages travel as plain
//! JSON, large ones zlib-compressed and base64-encoded under the key `z`.

use vstd::prelude::*;
use std::io::Read;
use base64::Engine;

verus! {

/// Messages whose JSON is longer than this many bytes are compressed.
pub const COMPRESS_THRESHOLD: usize = 1024;

/// The zlib stream that `flate2::read::ZlibEncoder` writes for `data` at the
/// best compression level.
pub uninterp spec fn zlib_of(data: Seq<u8>) -> Seq<u8>;

/// The standard, padded base64 text of `data`.
pub uninterp spec fn base64_of(data: Seq<u8>) -> Seq<char>;

/// `flate2::read::ZlibEncoder` at `Compression::best()`, read to the end;
/// compressing bytes held in memory does not fail.
#[verifier::external_body]
fn zlib_compress(data: &[u8]) -> (compressed: Option<Vec<u8>>)
    ensures
        compressed is Some,
        compressed matches Some(c) ==> c@ == zlib_of(data@),
{
    let mut encoder = flate2::read::ZlibEncoder::new(data, flate2::Compression::best());
    let mut out = Vec::new();
    encoder.read_to_end(&mut out).ok().map(|_| out)
}

/// `flate2::read::ZlibDecoder`, read to the end: a zlib stream gives back
/// the bytes it was made of.
#[verifier::external_body]
fn zlib_decompress(data: &[u8]) -> (inflated: Option<Vec<u8>>)
    ensures
        forall|plain: Seq<u8>| data@ == #[trigger] zlib_of(plain) ==> inflated.is_some() && inflated.unwrap()@ == plain,
{
    let mut decoder = flate2::read::ZlibDecoder::new(data);
    let mut out = Vec::new();
    decoder.read_to_end(&mut out).ok().map(|_| out)
}

/// `base64::engine::general_purpose::STANDARD.encode`.
#[verifier::external_body]
fn base64_encode(data: &[u8]) -> (text: String)
    ensures
        text@ == base64_of(data@),
{
    base64::engine::general_purpose::STANDARD.encode(data)
}

/// `base64::engine::general_purpose::STANDARD.decode`: the text of some bytes
/// gives back those bytes.
#[verifier::external_body]
fn base64_decode(text: &str) -> (decoded: Option<Vec<u8>>)
    ensures
        forall|plain: Seq<u8>| text@ == #[trigger] base64_of(plain) ==> decoded.is_some() && decoded.unwrap()@ == plain,
{
    base64::engine::general_purpose::STANDARD.decode(text).ok()
}

/// Why a payload could not be framed or unframed.
#[derive(Debug, Clone, Copy, PartialEq, Eq, Structural)]
pub enum CompressError {
    /// Compression failed.
    Deflate,
    /// The compressed text is no base64.
    Base64,
    /// The decoded bytes are no zlib stream.
    Inflate,
}

/// How a message's JSON of `json` bytes travels: as it is up to 1 KiB,
/// else as the base64 text of its zlib compression, to be sent as
/// `{"z": <text>}`.
pub fn compress_payload(json: &[u8]) -> (r: Result<Option<String>, CompressError>)
    ensures
        json@.len() <= COMPRESS_THRESHOLD ==> r == Ok::<Option<String>, CompressError>(None),
        json@.len() > COMPRESS_THRESHOLD ==> (r matches Ok(Some(text)) && text@ == base64_of(zlib_of(json@))),
{
    if json.len() <= COMPRESS_THRESHOLD {
        return Ok(None);
    }
    match zlib_compress(json) {
        Some(compressed) => Ok(Some(base64_encode(compressed.as_slice()))),
        None => Err(CompressError::Deflate),
    }
}

/// The JSON bytes that the base64 text `text` of a compressed message stands
/// for. Text made by `compress_payload` gives back the JSON it was made of.
pub fn decompress_payload(text: &str) -> (r: Result<Vec<u8>, CompressError>)
    ensures
        forall|json: Seq<u8>| text@ == #[trigger] base64_of(zlib_of(json)) ==> (r matches Ok(j) && j@ == json),
        r is Err ==> r == Err::<Vec<u8>, CompressError>(CompressError::Base64) || r == Err::<
            Vec<u8>,
            CompressError,
        >(CompressError::Inflate),
{
    match base64_decode(text) {
        Some(compressed) => match zlib_decompress(compressed.as_slice()) {
            Some(json) => Ok(json),
            None => Err(CompressError::Inflate),
        },
        None => Err(CompressError::Base64),
    }
}

} // verus!
